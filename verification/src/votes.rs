//! The vote table: at most one live vote for each voter of a guild.

use crate::table::MovieVote;
use vstd::prelude::*;

verus! {

/// No two rows belong to the same voter of the same guild.
pub open spec fn single_vote(rows: Seq<MovieVote>) -> bool {
    forall|i: int, j: int|
        0 <= i < j < rows.len() ==> !(#[trigger] rows[i].guild_id == #[trigger] rows[j].guild_id
            && rows[i].member_id == rows[j].member_id)
}

/// The rows of one voter of one guild.
pub open spec fn ballots_of(rows: Seq<MovieVote>, guild_id: u64, voter_id: u64) -> Seq<MovieVote> {
    rows.filter(|r: MovieVote| r.guild_id == guild_id && r.member_id == voter_id)
}

/// The rows that do not belong to the given voter of the given guild.
pub open spec fn without_voter(rows: Seq<MovieVote>, guild_id: u64, voter_id: u64) -> Seq<
    MovieVote,
> {
    rows.filter(|r: MovieVote| !(r.guild_id == guild_id && r.member_id == voter_id))
}

/// The table after a cast: the voter's earlier row is gone and the new one
/// stands at the end.
pub open spec fn cast_rows(
    rows: Seq<MovieVote>,
    guild_id: u64,
    voter_id: u64,
    candidate_id: i32,
) -> Seq<MovieVote> {
    without_voter(rows, guild_id, voter_id).push(
        MovieVote { guild_id, member_id: voter_id, id: candidate_id },
    )
}

/// The rows of one guild, in table order.
pub open spec fn guild_rows(rows: Seq<MovieVote>, guild_id: u64) -> Seq<MovieVote> {
    rows.filter(|r: MovieVote| r.guild_id == guild_id)
}

/// The rows of every other guild, in table order.
pub open spec fn other_rows(rows: Seq<MovieVote>, guild_id: u64) -> Seq<MovieVote> {
    rows.filter(|r: MovieVote| r.guild_id != guild_id)
}

/// How many of the rows name the candidate.
pub open spec fn votes_for(rows: Seq<MovieVote>, candidate_id: i32) -> nat {
    rows.filter(|r: MovieVote| r.id == candidate_id).len()
}

/// The candidates that the rows name, each once, in the order of their first vote.
pub open spec fn voted_ids(rows: Seq<MovieVote>) -> Seq<i32>
    decreases rows.len(),
{
    if rows.len() == 0 {
        Seq::empty()
    } else {
        let earlier = voted_ids(rows.drop_last());
        if earlier.contains(rows.last().id) {
            earlier
        } else {
            earlier.push(rows.last().id)
        }
    }
}

/// The tally of the rows: each voted candidate with the number of its votes,
/// in the order of first votes.
pub open spec fn tally_of(rows: Seq<MovieVote>) -> Seq<(i32, nat)> {
    voted_ids(rows).map_values(|id: i32| (id, votes_for(rows, id)))
}

/// Executable counts read as natural numbers.
pub open spec fn counts(entries: Seq<(i32, u64)>) -> Seq<(i32, nat)> {
    entries.map_values(|e: (i32, u64)| (e.0, e.1 as nat))
}

/// A prefix that grows by one row is the shorter prefix with that row pushed.
pub proof fn lemma_take_next<A>(s: Seq<A>, i: int)
    requires
        0 <= i < s.len(),
    ensures
        s.take(i + 1) == s.take(i).push(s[i]),
{
    assert(s.take(i + 1) =~= s.take(i).push(s[i]));
}

/// A row whose voter has no row yet can be added without breaking the rule
/// of one vote.
pub proof fn lemma_single_vote_push(rows: Seq<MovieVote>, row: MovieVote)
    requires
        single_vote(rows),
        ballots_of(rows, row.guild_id, row.member_id).len() == 0,
    ensures
        single_vote(rows.push(row)),
{
    let pushed = rows.push(row);
    let mine = |r: MovieVote| r.guild_id == row.guild_id && r.member_id == row.member_id;
    assert forall|i: int, j: int| 0 <= i < j < pushed.len() implies !(pushed[i].guild_id
        == pushed[j].guild_id && pushed[i].member_id == pushed[j].member_id) by {
        if j == rows.len() {
            if mine(rows[i]) {
                rows.lemma_filter_contains(mine, i);
                assert(rows.filter(mine).len() > 0);
            }
        } else {
            assert(pushed[i] == rows[i]);
            assert(pushed[j] == rows[j]);
        }
    }
}

/// Rows picked out of a table that obeys the rule of one vote obey it too.
pub proof fn lemma_single_vote_filter(rows: Seq<MovieVote>, keep: spec_fn(MovieVote) -> bool)
    requires
        single_vote(rows),
    ensures
        single_vote(rows.filter(keep)),
    decreases rows.len(),
{
    reveal(Seq::filter);
    if rows.len() > 0 {
        let earlier = rows.drop_last();
        let last = rows.last();
        assert forall|i: int, j: int| 0 <= i < j < earlier.len() implies !(earlier[i].guild_id
            == earlier[j].guild_id && earlier[i].member_id == earlier[j].member_id) by {
            assert(earlier[i] == rows[i]);
            assert(earlier[j] == rows[j]);
        }
        lemma_single_vote_filter(earlier, keep);
        if keep(last) {
            let kept = earlier.filter(keep);
            let mine = |r: MovieVote| r.guild_id == last.guild_id && r.member_id == last.member_id;
            assert(kept.filter(mine).len() == 0) by {
                assert forall|k: int| 0 <= k < kept.len() implies !mine(#[trigger] kept[k]) by {
                    assert(kept.contains(kept[k]));
                    earlier.lemma_filter_contains_rev(keep, kept[k]);
                    let at = choose|at: int| 0 <= at < earlier.len() && earlier[at] == kept[k];
                    assert(rows[at] == earlier[at]);
                    assert(rows[rows.len() - 1] == last);
                }
                assert(kept.all(|r: MovieVote| !mine(r)));
                kept.lemma_all_neg_filter_empty(mine);
            }
            lemma_single_vote_push(kept, last);
        }
    }
}

/// A cast keeps the rule of one vote.
pub proof fn lemma_cast_keeps_single_vote(
    rows: Seq<MovieVote>,
    guild_id: u64,
    voter_id: u64,
    candidate_id: i32,
)
    requires
        single_vote(rows),
    ensures
        single_vote(cast_rows(rows, guild_id, voter_id, candidate_id)),
{
    let mine = |r: MovieVote| r.guild_id == guild_id && r.member_id == voter_id;
    let others = |r: MovieVote| !(r.guild_id == guild_id && r.member_id == voter_id);
    let kept = rows.filter(others);
    lemma_single_vote_filter(rows, others);
    assert forall|k: int| 0 <= k < kept.len() implies !mine(#[trigger] kept[k]) by {
        rows.lemma_filter_pred(others, k);
    }
    assert(kept.all(|r: MovieVote| !mine(r)));
    kept.lemma_all_neg_filter_empty(mine);
    lemma_single_vote_push(kept, MovieVote { guild_id, member_id: voter_id, id: candidate_id });
}

/// After any cast the voter has exactly one row, and it names the candidate
/// of that cast.
pub proof fn lemma_cast_leaves_one_ballot(
    rows: Seq<MovieVote>,
    guild_id: u64,
    voter_id: u64,
    candidate_id: i32,
)
    ensures
        ballots_of(cast_rows(rows, guild_id, voter_id, candidate_id), guild_id, voter_id) == seq![
            MovieVote { guild_id, member_id: voter_id, id: candidate_id },
        ],
{
    let mine = |r: MovieVote| r.guild_id == guild_id && r.member_id == voter_id;
    let others = |r: MovieVote| !(r.guild_id == guild_id && r.member_id == voter_id);
    let kept = rows.filter(others);
    let row = MovieVote { guild_id, member_id: voter_id, id: candidate_id };
    assert forall|k: int| 0 <= k < kept.len() implies !mine(#[trigger] kept[k]) by {
        rows.lemma_filter_pred(others, k);
    }
    assert(kept.all(|r: MovieVote| !mine(r)));
    kept.lemma_all_neg_filter_empty(mine);
    kept.lemma_filter_push(row, mine);
    assert(kept.push(row).filter(mine) =~= seq![row]);
}

/// The vote of a cast is counted: the tally of the guild holds, for the
/// candidate of the cast, one vote more than the other voters gave it.
pub proof fn lemma_cast_is_counted(
    rows: Seq<MovieVote>,
    guild_id: u64,
    voter_id: u64,
    candidate_id: i32,
)
    ensures
        votes_for(
            guild_rows(cast_rows(rows, guild_id, voter_id, candidate_id), guild_id),
            candidate_id,
        ) == votes_for(guild_rows(without_voter(rows, guild_id, voter_id), guild_id), candidate_id)
            + 1,
{
    let kept = without_voter(rows, guild_id, voter_id);
    let row = MovieVote { guild_id, member_id: voter_id, id: candidate_id };
    kept.lemma_filter_push(row, |r: MovieVote| r.guild_id == guild_id);
    guild_rows(kept, guild_id).lemma_filter_push(row, |r: MovieVote| r.id == candidate_id);
}

/// One voter, two casts: the table then holds exactly one vote of that voter,
/// it names the candidate of the second cast, and the tally of the guild
/// counts it for that candidate.
pub proof fn lemma_recast_replaces_vote(
    rows: Seq<MovieVote>,
    guild_id: u64,
    voter_id: u64,
    first: i32,
    second: i32,
)
    ensures
        ballots_of(
            cast_rows(cast_rows(rows, guild_id, voter_id, first), guild_id, voter_id, second),
            guild_id,
            voter_id,
        ) == seq![MovieVote { guild_id, member_id: voter_id, id: second }],
        votes_for(
            guild_rows(
                cast_rows(cast_rows(rows, guild_id, voter_id, first), guild_id, voter_id, second),
                guild_id,
            ),
            second,
        ) >= 1,
{
    let once = cast_rows(rows, guild_id, voter_id, first);
    lemma_cast_leaves_one_ballot(once, guild_id, voter_id, second);
    lemma_cast_is_counted(once, guild_id, voter_id, second);
}

/// The voted candidates of a table that grew by one row.
pub proof fn lemma_voted_ids_push(rows: Seq<MovieVote>, row: MovieVote)
    ensures
        voted_ids(rows.push(row)) == if voted_ids(rows).contains(row.id) {
            voted_ids(rows)
        } else {
            voted_ids(rows).push(row.id)
        },
{
    assert(rows.push(row).drop_last() =~= rows);
}

/// The votes of a candidate in a table that grew by one row.
pub proof fn lemma_votes_for_push(rows: Seq<MovieVote>, row: MovieVote, candidate_id: i32)
    ensures
        votes_for(rows.push(row), candidate_id) == votes_for(rows, candidate_id) + if row.id
            == candidate_id {
            1nat
        } else {
            0nat
        },
{
    rows.lemma_filter_push(row, |r: MovieVote| r.id == candidate_id);
}

/// The voted candidates are exactly those with at least one vote, and each
/// stands once among them.
pub proof fn lemma_voted_ids(rows: Seq<MovieVote>)
    ensures
        voted_ids(rows).no_duplicates(),
        forall|id: i32| voted_ids(rows).contains(id) <==> #[trigger] votes_for(rows, id) > 0,
    decreases rows.len(),
{
    if rows.len() == 0 {
        assert forall|id: i32| !(#[trigger] votes_for(rows, id) > 0) by {
            rows.lemma_filter_len(|r: MovieVote| r.id == id);
        }
    } else {
        let earlier = rows.drop_last();
        let last = rows.last();
        lemma_voted_ids(earlier);
        assert(earlier.push(last) =~= rows);
        lemma_voted_ids_push(earlier, last);
        assert forall|id: i32| voted_ids(rows).contains(id) <==> #[trigger] votes_for(rows, id)
            > 0 by {
            lemma_votes_for_push(earlier, last, id);
            let ids = voted_ids(earlier);
            if ids.contains(last.id) {
            } else {
                if id == last.id {
                    assert(ids.push(last.id)[ids.len() as int] == id);
                } else {
                    if ids.push(last.id).contains(id) {
                        let k = choose|k: int|
                            0 <= k < ids.push(last.id).len() && ids.push(last.id)[k] == id;
                        assert(ids[k] == id);
                    }
                    if ids.contains(id) {
                        let k = choose|k: int| 0 <= k < ids.len() && ids[k] == id;
                        assert(ids.push(last.id)[k] == id);
                    }
                }
            }
        }
    }
}

/// No vote is left for any candidate where a guild has no rows.
pub proof fn lemma_tally_of_none(rows: Seq<MovieVote>)
    requires
        rows.len() == 0,
    ensures
        tally_of(rows) == Seq::<(i32, nat)>::empty(),
{
    assert(tally_of(rows) =~= Seq::<(i32, nat)>::empty());
}

/// A guild whose rows were taken out has none left in what remains.
pub proof fn lemma_other_rows_hold_none(rows: Seq<MovieVote>, guild_id: u64)
    ensures
        guild_rows(other_rows(rows, guild_id), guild_id) == Seq::<MovieVote>::empty(),
{
    let theirs = |r: MovieVote| r.guild_id != guild_id;
    let ours = |r: MovieVote| r.guild_id == guild_id;
    let rest = rows.filter(theirs);
    assert forall|k: int| 0 <= k < rest.len() implies !ours(#[trigger] rest[k]) by {
        rows.lemma_filter_pred(theirs, k);
    }
    assert(rest.all(|r: MovieVote| !ours(r)));
    rest.lemma_all_neg_filter_empty(ours);
    assert(rest.filter(ours) =~= Seq::<MovieVote>::empty());
}

/// Counts the votes of each candidate that the rows name.
pub fn count_votes(rows: &Vec<MovieVote>) -> (tally: Vec<(i32, u64)>)
    ensures
        counts(tally@) == tally_of(rows@),
{
    let mut tally: Vec<(i32, u64)> = Vec::new();
    let mut i: usize = 0;
    assert(counts(tally@) =~= tally_of(rows@.take(0)));
    while i < rows.len()
        invariant
            i <= rows.len(),
            counts(tally@) == tally_of(rows@.take(i as int)),
        decreases rows.len() - i,
    {
        let id = rows[i].id;
        let ghost seen = rows@.take(i as int);
        let ghost ids = voted_ids(seen);
        let ghost before = tally@;
        proof {
            lemma_take_next(rows@, i as int);
            lemma_voted_ids_push(seen, rows@[i as int]);
            lemma_voted_ids(seen);
            assert(counts(before).len() == before.len());
            assert(tally_of(seen).len() == ids.len());
            assert forall|j: int| 0 <= j < before.len() implies before[j].0 == ids[j]
                && before[j].1 == votes_for(seen, ids[j]) by {
                assert(counts(before)[j] == tally_of(seen)[j]);
            }
        }
        let mut k: usize = 0;
        let mut found = false;
        while k < tally.len()
            invariant_except_break
                k <= tally.len(),
                !found,
                forall|j: int| 0 <= j < k ==> tally@[j].0 != id,
            invariant
                tally@ == before,
            ensures
                found ==> k < tally.len() && tally@[k as int].0 == id,
                !found ==> forall|j: int| 0 <= j < tally.len() ==> tally@[j].0 != id,
            decreases tally.len() - k,
        {
            if tally[k].0 == id {
                found = true;
                break ;
            }
            k += 1;
        }
        if found {
            let entry = tally[k];
            proof {
                seen.lemma_filter_len(|r: MovieVote| r.id == id);
                assert(ids[k as int] == id);
                assert(ids.contains(id));
            }
            tally.set(k, (entry.0, entry.1 + 1));
            proof {
                let after = tally@;
                let grown = rows@.take(i + 1);
                assert forall|j: int| 0 <= j < after.len() implies counts(after)[j] == tally_of(
                    grown,
                )[j] by {
                    lemma_votes_for_push(seen, rows@[i as int], ids[j]);
                    if j != k {
                        assert(ids[j] != ids[k as int]);
                    }
                }
                assert(counts(after) =~= tally_of(grown));
            }
        } else {
            proof {
                assert(!ids.contains(id)) by {
                    if ids.contains(id) {
                        let at = choose|at: int| 0 <= at < ids.len() && ids[at] == id;
                        assert(before[at].0 == id);
                    }
                }
                assert(votes_for(seen, id) == 0);
            }
            tally.push((id, 1));
            proof {
                let after = tally@;
                let grown = rows@.take(i + 1);
                assert forall|j: int| 0 <= j < after.len() implies counts(after)[j] == tally_of(
                    grown,
                )[j] by {
                    if j < ids.len() {
                        lemma_votes_for_push(seen, rows@[i as int], ids[j]);
                        assert(ids.contains(ids[j]));
                    } else {
                        lemma_votes_for_push(seen, rows@[i as int], id);
                    }
                }
                assert(counts(after) =~= tally_of(grown));
            }
        }
        i += 1;
    }
    assert(rows@.take(i as int) =~= rows@);
    tally
}

/// The vote table. It never holds two rows of one voter of one guild.
pub struct VoteStore {
    rows: Vec<MovieVote>,
}

impl View for VoteStore {
    type V = Seq<MovieVote>;

    closed spec fn view(&self) -> Seq<MovieVote> {
        self.rows@
    }
}

impl VoteStore {
    #[verifier::type_invariant]
    spec fn one_vote_each(&self) -> bool {
        single_vote(self.rows@)
    }

    /// An empty table.
    pub fn new() -> (store: VoteStore)
        ensures
            store@ == Seq::<MovieVote>::empty(),
    {
        VoteStore { rows: Vec::new() }
    }

    /// The number of live votes, over all guilds.
    pub fn len(&self) -> (n: usize)
        ensures
            n == self@.len(),
            single_vote(self@),
    {
        proof {
            use_type_invariant(self);
        }
        self.rows.len()
    }

    /// Records the voter's choice: whatever row the voter had in the guild is
    /// removed, and one row for `candidate_id` is added.
    pub fn cast(&mut self, guild_id: u64, voter_id: u64, candidate_id: i32)
        ensures
            final(self)@ == cast_rows(old(self)@, guild_id, voter_id, candidate_id),
            single_vote(final(self)@),
    {
        proof {
            use_type_invariant(&*self);
        }
        let mut kept: Vec<MovieVote> = Vec::new();
        let mut i: usize = 0;
        assert(kept@ =~= without_voter(self.rows@.take(0), guild_id, voter_id)) by {
            reveal(Seq::filter);
        }
        while i < self.rows.len()
            invariant
                i <= self.rows.len(),
                kept@ == without_voter(self.rows@.take(i as int), guild_id, voter_id),
            decreases self.rows.len() - i,
        {
            let row = self.rows[i];
            proof {
                lemma_take_next(self.rows@, i as int);
                self.rows@.take(i as int).lemma_filter_push(
                    row,
                    |r: MovieVote| !(r.guild_id == guild_id && r.member_id == voter_id),
                );
            }
            if !(row.guild_id == guild_id && row.member_id == voter_id) {
                kept.push(row);
            }
            i += 1;
        }
        assert(self.rows@.take(i as int) =~= self.rows@);
        kept.push(MovieVote { guild_id, member_id: voter_id, id: candidate_id });
        proof {
            lemma_cast_keeps_single_vote(self.rows@, guild_id, voter_id, candidate_id);
        }
        self.rows = kept;
    }

    /// The live votes of a guild, counted for each candidate.
    pub fn tally(&self, guild_id: u64) -> (tally: Vec<(i32, u64)>)
        ensures
            counts(tally@) == tally_of(guild_rows(self@, guild_id)),
    {
        let rows = self.votes_of(guild_id);
        count_votes(&rows)
    }

    /// The live votes of a guild, in table order.
    pub fn votes_of(&self, guild_id: u64) -> (rows: Vec<MovieVote>)
        ensures
            rows@ == guild_rows(self@, guild_id),
    {
        let mut rows: Vec<MovieVote> = Vec::new();
        let mut i: usize = 0;
        assert(rows@ =~= guild_rows(self.rows@.take(0), guild_id)) by {
            reveal(Seq::filter);
        }
        while i < self.rows.len()
            invariant
                i <= self.rows.len(),
                rows@ == guild_rows(self.rows@.take(i as int), guild_id),
            decreases self.rows.len() - i,
        {
            let row = self.rows[i];
            proof {
                lemma_take_next(self.rows@, i as int);
                self.rows@.take(i as int).lemma_filter_push(
                    row,
                    |r: MovieVote| r.guild_id == guild_id,
                );
            }
            if row.guild_id == guild_id {
                rows.push(row);
            }
            i += 1;
        }
        assert(self.rows@.take(i as int) =~= self.rows@);
        rows
    }

    /// Takes every live vote of a guild out of the table and returns them in
    /// table order; the votes of other guilds stay.
    pub fn drain(&mut self, guild_id: u64) -> (drained: Vec<MovieVote>)
        ensures
            drained@ == guild_rows(old(self)@, guild_id),
            final(self)@ == other_rows(old(self)@, guild_id),
            single_vote(final(self)@),
            guild_rows(final(self)@, guild_id) == Seq::<MovieVote>::empty(),
    {
        proof {
            use_type_invariant(&*self);
        }
        let drained = self.votes_of(guild_id);
        let mut kept: Vec<MovieVote> = Vec::new();
        let mut i: usize = 0;
        assert(kept@ =~= other_rows(self.rows@.take(0), guild_id)) by {
            reveal(Seq::filter);
        }
        while i < self.rows.len()
            invariant
                i <= self.rows.len(),
                kept@ == other_rows(self.rows@.take(i as int), guild_id),
            decreases self.rows.len() - i,
        {
            let row = self.rows[i];
            proof {
                lemma_take_next(self.rows@, i as int);
                self.rows@.take(i as int).lemma_filter_push(
                    row,
                    |r: MovieVote| r.guild_id != guild_id,
                );
            }
            if row.guild_id != guild_id {
                kept.push(row);
            }
            i += 1;
        }
        assert(self.rows@.take(i as int) =~= self.rows@);
        proof {
            lemma_single_vote_filter(self.rows@, |r: MovieVote| r.guild_id != guild_id);
            lemma_other_rows_hold_none(self.rows@, guild_id);
        }
        self.rows = kept;
        drained
    }
}

} // verus!
