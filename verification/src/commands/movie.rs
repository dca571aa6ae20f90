//! Closing a vote: the votes are counted, a winner is resolved, and the
//! winner is written to the log.

use crate::error::MenuError;
use crate::random::choose_one;
use crate::reactions::movie_votes::{count_in, count_of};
use crate::stores::Stores;
use crate::text::str_equal;
use crate::table::primitive::Boolean;
use crate::table::{movie_views, Movie, MovieSeq, MovieView};
use crate::votes::{count_votes, counts, guild_rows, other_rows, tally_of};
use vstd::prelude::*;

verus! {

/// The nominated candidates of a guild, in the order given.
pub open spec fn nominated_in(movies: Seq<MovieView>, guild_id: u64) -> Seq<MovieView> {
    movies.filter(|m: MovieView| m.guild_id == guild_id && m.nominated)
}

/// A candidate after the count: where it belongs to the guild and the tally
/// holds votes for it, its final votes are those; else it is unchanged.
pub open spec fn scored(movie: MovieView, guild_id: u64, tally: Seq<(i32, nat)>) -> MovieView {
    if movie.guild_id == guild_id && count_in(tally, movie.id) > 0 {
        MovieView { final_votes: count_in(tally, movie.id), ..movie }
    } else {
        movie
    }
}

/// The candidates after the count.
pub open spec fn with_final_votes(movies: Seq<MovieView>, guild_id: u64, tally: Seq<(i32, nat)>) -> Seq<
    MovieView,
> {
    movies.map_values(|m: MovieView| scored(m, guild_id, tally))
}

/// The most final votes that any of the candidates has; zero where there is
/// no candidate.
pub open spec fn highest_votes(movies: Seq<MovieView>) -> nat
    decreases movies.len(),
{
    if movies.len() == 0 {
        0
    } else {
        let rest = highest_votes(movies.drop_last());
        if movies.last().final_votes > rest {
            movies.last().final_votes
        } else {
            rest
        }
    }
}

/// The candidates with exactly `votes` final votes, in the order given.
pub open spec fn with_votes(movies: Seq<MovieView>, votes: nat) -> Seq<MovieView> {
    movies.filter(|m: MovieView| m.final_votes == votes)
}

/// The candidates that share the most final votes, in the order given.
pub open spec fn tie_set(movies: Seq<MovieView>) -> Seq<MovieView> {
    with_votes(movies, highest_votes(movies))
}

/// The text that announces a winner. A winner without a url gets a second
/// line that asks for one.
pub open spec fn summary_text(winner: MovieView, tied: bool) -> Seq<char> {
    (if tied {
        "Multiple winners detected. Randomly chose **"@
    } else {
        "The winner is: **"@
    }) + winner.title + "**"@ + (if winner.url is None {
        "\n**"@ + winner.title
            + "** has no url, please set with `katze movie set-url <url> <title>`"@
    } else {
        Seq::<char>::empty()
    })
}

/// No candidate has more than the highest votes, and where there is a
/// candidate, one of them has exactly that many.
pub proof fn lemma_highest_votes(movies: Seq<MovieView>)
    ensures
        forall|i: int| 0 <= i < movies.len() ==> (#[trigger] movies[i]).final_votes <= highest_votes(
            movies,
        ),
        movies.len() > 0 ==> exists|i: int|
            0 <= i < movies.len() && (#[trigger] movies[i]).final_votes == highest_votes(movies),
    decreases movies.len(),
{
    if movies.len() > 0 {
        let rest = movies.drop_last();
        lemma_highest_votes(rest);
        assert forall|i: int| 0 <= i < movies.len() implies (#[trigger] movies[i]).final_votes
            <= highest_votes(movies) by {
            if i < rest.len() {
                assert(rest[i] == movies[i]);
            }
        }
        if movies.last().final_votes > highest_votes(rest) || rest.len() == 0 {
            assert(movies[movies.len() - 1].final_votes == highest_votes(movies));
        } else {
            let i = choose|i: int|
                0 <= i < rest.len() && (#[trigger] rest[i]).final_votes == highest_votes(rest);
            assert(movies[i] == rest[i]);
        }
    }
}

/// Where there is a candidate, at least one shares the most final votes.
pub proof fn lemma_tie_set_holds_one(movies: Seq<MovieView>)
    requires
        movies.len() > 0,
    ensures
        tie_set(movies).len() > 0,
        tie_set(movies).len() <= movies.len(),
{
    lemma_highest_votes(movies);
    let i = choose|i: int|
        0 <= i < movies.len() && (#[trigger] movies[i]).final_votes == highest_votes(movies);
    let top = |m: MovieView| m.final_votes == highest_votes(movies);
    movies.lemma_filter_contains(top, i);
    movies.lemma_filter_len(top);
}

/// A candidate with more final votes than every other one is the whole tie
/// set: it wins whatever is picked.
pub proof fn lemma_clear_leader_is_alone(movies: Seq<MovieView>, leader: int)
    requires
        0 <= leader < movies.len(),
        forall|i: int|
            0 <= i < movies.len() && i != leader ==> (#[trigger] movies[i]).final_votes
                < movies[leader].final_votes,
    ensures
        tie_set(movies) == seq![movies[leader]],
{
    lemma_highest_votes(movies);
    let highest = highest_votes(movies);
    assert(movies[leader].final_votes == highest) by {
        let i = choose|i: int|
            0 <= i < movies.len() && (#[trigger] movies[i]).final_votes == highest_votes(movies);
        assert(movies[leader].final_votes <= highest);
    }
    let top = |m: MovieView| m.final_votes == highest;
    let head = movies.take(leader);
    let tail = movies.skip(leader + 1);
    assert forall|k: int| 0 <= k < head.len() implies !top(#[trigger] head[k]) by {
        assert(head[k] == movies[k]);
    }
    assert forall|k: int| 0 <= k < tail.len() implies !top(#[trigger] tail[k]) by {
        assert(tail[k] == movies[leader + 1 + k]);
    }
    assert(head.all(|m: MovieView| !top(m)));
    assert(tail.all(|m: MovieView| !top(m)));
    head.lemma_all_neg_filter_empty(top);
    tail.lemma_all_neg_filter_empty(top);
    head.lemma_filter_push(movies[leader], top);
    Seq::filter_distributes_over_add(head.push(movies[leader]), tail, top);
    assert(head.push(movies[leader]) + tail =~= movies);
    assert(tie_set(movies) =~= seq![movies[leader]]);
}

/// The count leaves the nominations as they are: a guild with a nominated
/// candidate before it has one after it.
pub proof fn lemma_count_keeps_nominations(
    movies: Seq<MovieView>,
    guild_id: u64,
    tally: Seq<(i32, nat)>,
)
    ensures
        nominated_in(with_final_votes(movies, guild_id, tally), guild_id).len() == nominated_in(
            movies,
            guild_id,
        ).len(),
    decreases movies.len(),
{
    reveal(Seq::filter);
    let nominated = |m: MovieView| m.guild_id == guild_id && m.nominated;
    let after = with_final_votes(movies, guild_id, tally);
    if movies.len() > 0 {
        let rest = movies.drop_last();
        lemma_count_keeps_nominations(rest, guild_id, tally);
        assert(after.drop_last() =~= with_final_votes(rest, guild_id, tally));
        assert(nominated(after.last()) == nominated(movies.last()));
    }
}

/// The nominated candidates of a guild, in the order given.
pub fn nominated(candidates: &Vec<Movie>, guild_id: u64) -> (chosen: Vec<Movie>)
    ensures
        movie_views(chosen@) == nominated_in(movie_views(candidates@), guild_id),
{
    let ghost all = movie_views(candidates@);
    let mut chosen: Vec<Movie> = Vec::new();
    let mut i: usize = 0;
    assert(movie_views(chosen@) =~= nominated_in(all.take(0), guild_id)) by {
        reveal(Seq::filter);
    }
    while i < candidates.len()
        invariant
            i <= candidates.len(),
            all == movie_views(candidates@),
            movie_views(chosen@) == nominated_in(all.take(i as int), guild_id),
        decreases candidates.len() - i,
    {
        proof {
            all.take(i as int).lemma_filter_push(
                all[i as int],
                |m: MovieView| m.guild_id == guild_id && m.nominated,
            );
            assert(all.take(i + 1) =~= all.take(i as int).push(all[i as int]));
        }
        if candidates[i].guild_id == guild_id && candidates[i].nominated {
            let ghost earlier = chosen@;
            let copy = candidates[i].duplicate();
            chosen.push(copy);
            assert(movie_views(chosen@) =~= movie_views(earlier).push(all[i as int]));
        }
        i += 1;
    }
    assert(all.take(i as int) =~= all);
    chosen
}

/// Writes the counted votes to the candidates of a guild: each candidate
/// for which the tally holds votes gets them as its final votes, and every
/// other candidate stays as it is.
pub fn record_final_votes(candidates: &mut Vec<Movie>, guild_id: u64, tally: &Vec<(i32, u64)>)
    ensures
        movie_views(final(candidates)@) == with_final_votes(
            movie_views(old(candidates)@),
            guild_id,
            counts(tally@),
        ),
{
    let ghost before = movie_views(candidates@);
    let mut updated: Vec<Movie> = Vec::new();
    let mut i: usize = 0;
    while i < candidates.len()
        invariant
            i <= candidates.len(),
            before == movie_views(candidates@),
            updated@.len() == i,
            forall|j: int|
                0 <= j < i ==> (#[trigger] updated@[j])@ == scored(
                    before[j],
                    guild_id,
                    counts(tally@),
                ),
        decreases candidates.len() - i,
    {
        let mut movie = candidates[i].duplicate();
        assert(movie@ == before[i as int]);
        if movie.guild_id == guild_id {
            let votes = count_of(tally, movie.id);
            if votes > 0 {
                movie.final_votes = votes;
            }
        }
        updated.push(movie);
        i += 1;
    }
    assert(movie_views(updated@) =~= with_final_votes(before, guild_id, counts(tally@)));
    *candidates = updated;
}

/// The most final votes that any of the candidates has.
pub fn highest_vote(candidates: &Vec<Movie>) -> (highest: u64)
    ensures
        highest == highest_votes(movie_views(candidates@)),
{
    let ghost all = movie_views(candidates@);
    let mut highest: u64 = 0;
    let mut i: usize = 0;
    while i < candidates.len()
        invariant
            i <= candidates.len(),
            all == movie_views(candidates@),
            highest == highest_votes(all.take(i as int)),
        decreases candidates.len() - i,
    {
        proof {
            assert(all.take(i + 1).drop_last() =~= all.take(i as int));
            assert(all.take(i + 1).last() == all[i as int]);
        }
        if candidates[i].final_votes > highest {
            highest = candidates[i].final_votes;
        }
        i += 1;
    }
    assert(all.take(i as int) =~= all);
    highest
}

/// The candidates that share the most final votes, in the order given.
pub fn tied(candidates: &Vec<Movie>) -> (tie: Vec<Movie>)
    ensures
        movie_views(tie@) == tie_set(movie_views(candidates@)),
{
    let ghost all = movie_views(candidates@);
    let highest = highest_vote(candidates);
    let mut tie: Vec<Movie> = Vec::new();
    let mut i: usize = 0;
    assert(movie_views(tie@) =~= with_votes(all.take(0), highest as nat)) by {
        reveal(Seq::filter);
    }
    while i < candidates.len()
        invariant
            i <= candidates.len(),
            all == movie_views(candidates@),
            movie_views(tie@) == with_votes(all.take(i as int), highest as nat),
        decreases candidates.len() - i,
    {
        proof {
            all.take(i as int).lemma_filter_push(
                all[i as int],
                |m: MovieView| m.final_votes == highest as nat,
            );
            assert(all.take(i + 1) =~= all.take(i as int).push(all[i as int]));
        }
        if candidates[i].final_votes == highest {
            let ghost earlier = tie@;
            let copy = candidates[i].duplicate();
            tie.push(copy);
            assert(movie_views(tie@) =~= movie_views(earlier).push(all[i as int]));
        }
        i += 1;
    }
    assert(all.take(i as int) =~= all);
    tie
}

/// The place in the tie set that a pick stands for: the pick itself where
/// the tie set is that long, and the first place otherwise.
pub open spec fn picked_place(pick: usize, ties: nat) -> int {
    if pick < ties {
        pick as int
    } else {
        0
    }
}

/// Resolves the winner among the nominated candidates. Where several share
/// the most final votes, `pick` says which of them wins.
pub fn resolve_winner(nominated: &Vec<Movie>, pick: usize) -> (outcome: Result<
    (Movie, bool),
    MenuError,
>)
    ensures
        match outcome {
            Ok((winner, tied)) => nominated@.len() > 0 && tied == (tie_set(
                movie_views(nominated@),
            ).len() >= 2) && winner@ == tie_set(movie_views(nominated@))[picked_place(
                pick,
                tie_set(movie_views(nominated@)).len(),
            )],
            Err(error) => error == MenuError::NoCandidates && nominated@.len() == 0,
        },
{
    if nominated.len() == 0 {
        return Err(MenuError::NoCandidates);
    }
    let tie = tied(nominated);
    proof {
        lemma_tie_set_holds_one(movie_views(nominated@));
        assert(movie_views(tie@).len() == tie@.len());
    }
    let place = if pick < tie.len() {
        pick
    } else {
        0
    };
    let winner = tie[place].duplicate();
    assert(movie_views(tie@)[place as int] == tie@[place as int]@);
    Ok((winner, tie.len() >= 2))
}

/// Resolves the winner among the nominated candidates. A single candidate
/// with the most final votes wins; where several share them, one of those is
/// picked at random.
pub fn pick_winner(nominated: &Vec<Movie>) -> (outcome: Result<(Movie, bool), MenuError>)
    ensures
        match outcome {
            Ok((winner, tied)) => nominated@.len() > 0 && tied == (tie_set(
                movie_views(nominated@),
            ).len() >= 2) && tie_set(movie_views(nominated@)).contains(winner@) && (!tied
                ==> winner@ == tie_set(movie_views(nominated@))[0]),
            Err(error) => error == MenuError::NoCandidates && nominated@.len() == 0,
        },
{
    if nominated.len() == 0 {
        return Err(MenuError::NoCandidates);
    }
    let tie = tied(nominated);
    proof {
        lemma_tie_set_holds_one(movie_views(nominated@));
        assert(movie_views(tie@).len() == tie@.len());
    }
    let mut pick: usize = 0;
    if tie.len() >= 2 {
        let mut places: Vec<usize> = Vec::new();
        let mut i: usize = 0;
        while i < tie.len()
            invariant
                i <= tie.len(),
                places@.len() == i,
                forall|j: int| 0 <= j < i ==> places@[j] == j,
            decreases tie.len() - i,
        {
            places.push(i);
            i += 1;
        }
        match choose_one(&places) {
            Some(place) => {
                pick = place;
            },
            None => {},
        }
    }
    resolve_winner(nominated, pick)
}

/// The text that announces a winner.
pub fn summary(winner: &Movie, tied: bool) -> (text: String)
    ensures
        text@ == summary_text(winner@, tied),
{
    let mut text = if tied {
        String::from_str("Multiple winners detected. Randomly chose **")
    } else {
        String::from_str("The winner is: **")
    };
    text.append(winner.title.as_str());
    text.append("**");
    if winner.url.is_none() {
        text.append("\n**");
        text.append(winner.title.as_str());
        text.append("** has no url, please set with `katze movie set-url <url> <title>`");
    }
    assert(text@ =~= summary_text(winner@, tied));
    text
}

/// What closing a vote gives: the winner, the announcement, whether the
/// winner was picked among several with the most votes, and the entry that
/// was added to the winner log.
#[derive(Clone, Debug, PartialEq, Eq)]
pub struct CloseOutcome {
    pub winner: Movie,
    pub summary: String,
    pub tied: bool,
    pub sequence: MovieSeq,
}

/// Closes the vote of a guild.
///
/// Where the guild has no nominated candidate, this fails with
/// `NoCandidates` and changes nothing. Else the live votes of the guild are
/// taken out of the vote table and counted, each voted candidate of the guild
/// gets its count as final votes, the winner is resolved among the nominated
/// candidates by their final votes, and one entry for the winner is added to
/// the winner log.
pub fn close(stores: &mut Stores, candidates: &mut Vec<Movie>, guild_id: u64) -> (outcome: Result<
    CloseOutcome,
    MenuError,
>)
    ensures
        final(stores)@.menus == old(stores)@.menus,
        match outcome {
            Ok(closed) => {
                let scored = with_final_votes(
                    movie_views(old(candidates)@),
                    guild_id,
                    tally_of(guild_rows(old(stores)@.votes, guild_id)),
                );
                &&& nominated_in(movie_views(old(candidates)@), guild_id).len() > 0
                &&& final(stores)@.votes == other_rows(old(stores)@.votes, guild_id)
                &&& tally_of(guild_rows(final(stores)@.votes, guild_id)) == Seq::<
                    (i32, nat),
                >::empty()
                &&& movie_views(final(candidates)@) == scored
                &&& tie_set(nominated_in(scored, guild_id)).contains(closed.winner@)
                &&& closed.tied == (tie_set(nominated_in(scored, guild_id)).len() >= 2)
                &&& (!closed.tied ==> closed.winner@ == tie_set(nominated_in(scored, guild_id))[0])
                &&& closed.summary@ == summary_text(closed.winner@, closed.tied)
                &&& closed.sequence == (MovieSeq {
                    id: closed.winner.id,
                    seq: (old(stores)@.winners.len() + 1) as u64,
                })
                &&& final(stores)@.winners == old(stores)@.winners.push(closed.sequence)
                &&& final(stores)@.winners.len() == old(stores)@.winners.len() + 1
            },
            Err(error) => {
                &&& error == MenuError::NoCandidates
                &&& nominated_in(movie_views(old(candidates)@), guild_id).len() == 0
                &&& final(stores)@ == old(stores)@
                &&& final(candidates)@ == old(candidates)@
            },
        },
{
    let before = nominated(candidates, guild_id);
    if before.len() == 0 {
        assert(movie_views(before@).len() == before@.len());
        return Err(MenuError::NoCandidates);
    }
    assert(movie_views(before@).len() == before@.len());
    let drained = stores.votes.drain(guild_id);
    let tally = count_votes(&drained);
    proof {
        crate::votes::lemma_tally_of_none(guild_rows(stores.votes@, guild_id));
    }
    record_final_votes(candidates, guild_id, &tally);
    let chosen = nominated(candidates, guild_id);
    proof {
        lemma_count_keeps_nominations(movie_views(old(candidates)@), guild_id, counts(tally@));
        assert(movie_views(chosen@).len() == chosen@.len());
    }
    match pick_winner(&chosen) {
        Ok((winner, tied)) => {
            let text = summary(&winner, tied);
            let sequence = stores.winners.append(winner.id);
            Ok(CloseOutcome { winner, summary: text, tied, sequence })
        },
        Err(error) => Err(error),
    }
}

/// Whether a member of a guild suggested a movie under the given title.
pub open spec fn suggested(movie: MovieView, guild_id: u64, member_id: u64, title: Seq<char>) -> bool {
    movie.guild_id == guild_id && movie.member_id == member_id && movie.title == title
}

/// The first movie that the member suggested under the title, if any.
pub open spec fn suggestion(
    movies: Seq<MovieView>,
    guild_id: u64,
    member_id: u64,
    title: Seq<char>,
) -> Option<MovieView>
    decreases movies.len(),
{
    if movies.len() == 0 {
        None
    } else if suggested(movies.first(), guild_id, member_id, title) {
        Some(movies.first())
    } else {
        suggestion(movies.drop_first(), guild_id, member_id, title)
    }
}

/// A movie after its owner nominated the title: the movie of that title has
/// its nomination turned around, every other movie of the owner in the guild
/// is no longer nominated, and the movies of others stay as they are.
pub open spec fn renominated(
    movie: MovieView,
    guild_id: u64,
    member_id: u64,
    title: Seq<char>,
) -> MovieView {
    if movie.guild_id == guild_id && movie.member_id == member_id {
        if movie.title == title {
            MovieView { nominated: !movie.nominated, ..movie }
        } else {
            MovieView { nominated: false, ..movie }
        }
    } else {
        movie
    }
}

/// The candidates after a member nominated a title. Nothing changes where
/// the member suggested no movie under that title.
pub open spec fn after_nomination(
    movies: Seq<MovieView>,
    guild_id: u64,
    member_id: u64,
    title: Seq<char>,
) -> Seq<MovieView> {
    if suggestion(movies, guild_id, member_id, title) is Some {
        movies.map_values(|m: MovieView| renominated(m, guild_id, member_id, title))
    } else {
        movies
    }
}

/// Looks for the first movie that the member suggested under the title.
pub fn find_suggestion(candidates: &Vec<Movie>, guild_id: u64, member_id: u64, title: &str) -> (at:
    Option<usize>)
    ensures
        match at {
            Some(i) => i < candidates@.len() && suggestion(
                movie_views(candidates@),
                guild_id,
                member_id,
                title@,
            ) == Some(candidates@[i as int]@),
            None => suggestion(movie_views(candidates@), guild_id, member_id, title@) is None,
        },
{
    let ghost all = movie_views(candidates@);
    let mut i: usize = 0;
    assert(all.skip(0) =~= all);
    while i < candidates.len()
        invariant
            i <= candidates.len(),
            all == movie_views(candidates@),
            suggestion(all, guild_id, member_id, title@) == suggestion(
                all.skip(i as int),
                guild_id,
                member_id,
                title@,
            ),
        decreases candidates.len() - i,
    {
        proof {
            assert(all.skip(i as int).first() == all[i as int]);
            assert(all.skip(i as int).drop_first() =~= all.skip(i + 1));
        }
        if candidates[i].guild_id == guild_id && candidates[i].member_id == member_id && str_equal(
            candidates[i].title.as_str(),
            title,
        ) {
            return Some(i);
        }
        i += 1;
    }
    None
}

/// Nominates the movie that a member suggested under `title`, or takes its
/// nomination back where it was nominated. A member has at most one
/// nomination: every other movie of the member in the guild is no longer
/// nominated afterwards. Returns whether the movie is nominated now, or
/// `None`, with nothing changed, where the member suggested no such movie.
pub fn nominate(candidates: &mut Vec<Movie>, guild_id: u64, member_id: u64, title: &str) -> (now:
    Option<Boolean>)
    ensures
        movie_views(final(candidates)@) == after_nomination(
            movie_views(old(candidates)@),
            guild_id,
            member_id,
            title@,
        ),
        match now {
            Some(state) => suggestion(movie_views(old(candidates)@), guild_id, member_id, title@)
                matches Some(movie) && state.result == !movie.nominated,
            None => suggestion(movie_views(old(candidates)@), guild_id, member_id, title@)
                is None,
        },
{
    let ghost before = movie_views(candidates@);
    let found = find_suggestion(candidates, guild_id, member_id, title);
    match found {
        None => None,
        Some(at) => {
            let result = !candidates[at].nominated;
            let mut updated: Vec<Movie> = Vec::new();
            let mut i: usize = 0;
            while i < candidates.len()
                invariant
                    i <= candidates.len(),
                    before == movie_views(candidates@),
                    updated@.len() == i,
                    forall|j: int|
                        0 <= j < i ==> (#[trigger] updated@[j])@ == renominated(
                            before[j],
                            guild_id,
                            member_id,
                            title@,
                        ),
                decreases candidates.len() - i,
            {
                let mut movie = candidates[i].duplicate();
                assert(movie@ == before[i as int]);
                if movie.guild_id == guild_id && movie.member_id == member_id {
                    if str_equal(movie.title.as_str(), title) {
                        movie.nominated = !movie.nominated;
                    } else {
                        movie.nominated = false;
                    }
                }
                updated.push(movie);
                i += 1;
            }
            assert(movie_views(updated@) =~= after_nomination(before, guild_id, member_id, title@));
            *candidates = updated;
            Some(Boolean { result })
        },
    }
}

/// The answer to a nomination.
pub open spec fn nomination_text(title: Seq<char>, nominated: bool) -> Seq<char> {
    "\u{2705} "@ + title + (if nominated {
        " is nominated"@
    } else {
        " is **no longer** nominated"@
    })
}

/// Renders the answer to a nomination.
pub fn nomination_reply(title: &str, nominated: &Boolean) -> (text: String)
    ensures
        text@ == nomination_text(title@, nominated.result),
{
    let mut text = String::from_str("\u{2705} ");
    text.append(title);
    if nominated.get() {
        text.append(" is nominated");
    } else {
        text.append(" is **no longer** nominated");
    }
    assert(text@ =~= nomination_text(title@, nominated.result));
    text
}

} // verus!
