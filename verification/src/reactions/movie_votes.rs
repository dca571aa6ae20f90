//! The movie vote menu: numbered candidates, one emoji token for each.

use crate::commands::movie::{nominated, nominated_in};
use crate::error::MenuError;
use crate::model::{ReactionContext, ReactionEmoji, ReactionEmojiView};
use crate::registry::{mapping_view, opened, MenuKind, MenuRecordView};
use crate::stores::Stores;
use crate::table::{movie_views, Movie, MovieView, MovieVote};
use crate::text::{decimal, digit_str, push_decimal, str_equal};
use crate::votes::{cast_rows, counts, guild_rows, tally_of};
use vstd::prelude::*;

verus! {

/// A line of the menu: a nominated movie and the live votes it has.
#[derive(Clone, Debug, PartialEq, Eq)]
pub struct MovieVotes {
    pub id: i32,
    pub title: String,
    pub member_id: String,
    pub count: u64,
}

/// What a `MovieVotes` holds, with its texts as sequences of characters.
pub struct MovieVotesView {
    pub id: i32,
    pub title: Seq<char>,
    pub member_id: Seq<char>,
    pub count: nat,
}

impl View for MovieVotes {
    type V = MovieVotesView;

    open spec fn view(&self) -> MovieVotesView {
        MovieVotesView {
            id: self.id,
            title: self.title@,
            member_id: self.member_id@,
            count: self.count as nat,
        }
    }
}

/// The most candidates that one menu offers.
pub const MENU_LIMIT: usize = 9;

/// The text that every menu starts with.
pub open spec fn menu_header() -> Seq<char> {
    "Vote for a movie by reacting with its associated number:\n\n"@
}

/// The line of one candidate: its token, its title, its owner and its votes.
pub open spec fn menu_line(token: Seq<char>, row: MovieVotesView) -> Seq<char> {
    token + " **"@ + row.title + "** (<@"@ + row.member_id + ">, votes: "@ + decimal(row.count)
        + ")\n"@
}

/// The lines of the candidates, in menu order.
pub open spec fn menu_lines(rows: Seq<(Seq<char>, MovieVotesView)>) -> Seq<char>
    decreases rows.len(),
{
    if rows.len() == 0 {
        Seq::empty()
    } else {
        menu_lines(rows.drop_last()) + menu_line(rows.last().0, rows.last().1)
    }
}

/// The rendered menu: the header, then one line for each candidate.
pub open spec fn menu_text(rows: Seq<(Seq<char>, MovieVotesView)>) -> Seq<char> {
    menu_header() + menu_lines(rows)
}

/// The tokens and lines that `format_menu` is given, as plain values.
pub open spec fn menu_data(data: Seq<(String, &MovieVotes)>) -> Seq<(Seq<char>, MovieVotesView)> {
    data.map_values(|e: (String, &MovieVotes)| (e.0@, e.1@))
}

/// Renders the menu for the given tokens and lines.
pub fn format_menu(data: &[(String, &MovieVotes)]) -> (description: String)
    ensures
        description@ == menu_text(menu_data(data@)),
{
    let mut description = String::from_str(
        "Vote for a movie by reacting with its associated number:\n\n",
    );
    let ghost rows = menu_data(data@);
    let mut i: usize = 0;
    assert(description@ =~= menu_header() + menu_lines(rows.take(0)));
    while i < data.len()
        invariant
            i <= data.len(),
            rows == menu_data(data@),
            description@ == menu_header() + menu_lines(rows.take(i as int)),
        decreases data.len() - i,
    {
        let ghost before = description@;
        let movie: &MovieVotes = data[i].1;
        description.append(data[i].0.as_str());
        description.append(" **");
        description.append(movie.title.as_str());
        description.append("** (<@");
        description.append(movie.member_id.as_str());
        description.append(">, votes: ");
        push_decimal(&mut description, movie.count);
        description.append(")\n");
        proof {
            assert(rows[i as int] == (data@[i as int].0@, data@[i as int].1@));
            assert(rows.take(i + 1).drop_last() =~= rows.take(i as int));
            assert(rows.take(i + 1).last() == rows[i as int]);
            assert(description@ =~= before + menu_line(rows[i as int].0, rows[i as int].1));
            assert(description@ =~= menu_header() + menu_lines(rows.take(i + 1)));
        }
        i += 1;
    }
    assert(rows.take(i as int) =~= rows);
    description
}

/// The number of candidates that a menu for `n` nominations offers.
pub open spec fn menu_size(n: nat) -> nat {
    if n < 9 {
        n
    } else {
        9
    }
}

/// The emoji token of the candidate at place `i` of a menu: the numeral of
/// `i + 1`, so "1" for the first candidate.
pub open spec fn menu_token(i: int) -> Seq<char> {
    decimal((i + 1) as nat)
}

/// The count that `entries` hold for a candidate: that of its first entry,
/// and zero where it has none.
pub open spec fn count_in(entries: Seq<(i32, nat)>, candidate_id: i32) -> nat
    decreases entries.len(),
{
    if entries.len() == 0 {
        0
    } else if entries.first().0 == candidate_id {
        entries.first().1
    } else {
        count_in(entries.drop_first(), candidate_id)
    }
}

/// The menu line of a candidate, with its votes looked up in `vote_counts`.
pub open spec fn menu_row(candidate: MovieView, vote_counts: Seq<(i32, nat)>) -> MovieVotesView {
    MovieVotesView {
        id: candidate.id,
        title: candidate.title,
        member_id: decimal(candidate.member_id as nat),
        count: count_in(vote_counts, candidate.id),
    }
}

/// The tokens and lines of the menu for the given candidates: the first nine
/// of them, in their order.
pub open spec fn menu_rows(candidates: Seq<MovieView>, vote_counts: Seq<(i32, nat)>) -> Seq<
    (Seq<char>, MovieVotesView),
> {
    Seq::new(
        menu_size(candidates.len()),
        |i: int| (menu_token(i), menu_row(candidates[i], vote_counts)),
    )
}

/// The mapping of the menu for the given candidates: for each of the first
/// nine, its token and its identifier.
pub open spec fn menu_mapping(candidates: Seq<MovieView>) -> Seq<(Seq<char>, i32)> {
    Seq::new(menu_size(candidates.len()), |i: int| (menu_token(i), candidates[i].id))
}

/// Looks the votes of a candidate up.
pub fn count_of(vote_counts: &Vec<(i32, u64)>, candidate_id: i32) -> (count: u64)
    ensures
        count == count_in(counts(vote_counts@), candidate_id),
{
    let ghost all = counts(vote_counts@);
    let mut i: usize = 0;
    assert(all.skip(0) =~= all);
    while i < vote_counts.len()
        invariant
            i <= vote_counts.len(),
            all == counts(vote_counts@),
            count_in(all, candidate_id) == count_in(all.skip(i as int), candidate_id),
        decreases vote_counts.len() - i,
    {
        proof {
            assert(all.skip(i as int).first() == all[i as int]);
            assert(all.skip(i as int).drop_first() =~= all.skip(i + 1));
            assert(all[i as int] == (vote_counts@[i as int].0, vote_counts@[i as int].1 as nat));
        }
        if vote_counts[i].0 == candidate_id {
            return vote_counts[i].1;
        }
        i += 1;
    }
    0
}

/// Builds the menu for an ordered list of candidates: the rendered content
/// and the mapping from emoji tokens to candidates. Only the first nine
/// candidates are offered; a candidate without an entry in `vote_counts` is
/// shown with no votes.
pub fn build(candidates: &Vec<Movie>, vote_counts: &Vec<(i32, u64)>) -> (menu: (
    String,
    Vec<(String, i32)>,
))
    ensures
        menu.0@ == menu_text(
            menu_rows(movie_views(candidates@), counts(vote_counts@)),
        ),
        mapping_view(menu.1@) == menu_mapping(
            movie_views(candidates@),
        ),
{
    let ghost views = movie_views(candidates@);
    let size: usize = if candidates.len() < MENU_LIMIT {
        candidates.len()
    } else {
        MENU_LIMIT
    };
    let mut lines: Vec<MovieVotes> = Vec::new();
    let mut mapping: Vec<(String, i32)> = Vec::new();
    let mut i: usize = 0;
    while i < size
        invariant
            i <= size,
            size == menu_size(candidates@.len()),
            views == movie_views(candidates@),
            lines@.len() == i,
            mapping@.len() == i,
            forall|j: int|
                0 <= j < i ==> (#[trigger] lines@[j])@ == menu_row(views[j], counts(vote_counts@)),
            forall|j: int|
                0 <= j < i ==> (#[trigger] mapping@[j]).0@ == menu_token(j) && mapping@[j].1
                    == views[j].id,
        decreases size - i,
    {
        let candidate = &candidates[i];
        let mut member_id = String::new();
        push_decimal(&mut member_id, candidate.member_id);
        assert(member_id@ =~= decimal(candidate.member_id as nat));
        lines.push(
            MovieVotes {
                id: candidate.id,
                title: candidate.title.clone(),
                member_id,
                count: count_of(vote_counts, candidate.id),
            },
        );
        let token = String::from_str(digit_str((i + 1) as u8));
        mapping.push((token, candidate.id));
        i += 1;
    }
    let mut data: Vec<(String, &MovieVotes)> = Vec::new();
    let mut k: usize = 0;
    while k < size
        invariant
            k <= size,
            size == lines@.len(),
            size == mapping@.len(),
            data@.len() == k,
            forall|j: int|
                0 <= j < k ==> (#[trigger] data@[j]).0@ == mapping@[j].0@ && data@[j].1@
                    == lines@[j]@,
        decreases size - k,
    {
        data.push((mapping[k].0.clone(), &lines[k]));
        k += 1;
    }
    let description = format_menu(data.as_slice());
    proof {
        assert(menu_data(data@) =~= menu_rows(views, counts(vote_counts@)));
        assert(mapping_view(mapping@) =~= menu_mapping(views));
    }
    (description, mapping)
}

/// The mark that turns a digit into its keycap emoji.
pub open spec fn keycap_mark() -> char {
    '\u{20e3}'
}

/// The mark that asks for an emoji to be shown as a picture.
pub open spec fn picture_mark() -> char {
    '\u{fe0f}'
}

/// The name of the reaction that stands for a token on a message: the token
/// with the keycap mark behind it.
pub open spec fn keycap_of(token: Seq<char>) -> Seq<char> {
    token.push(keycap_mark())
}

/// The token that the name of a reaction stands for: the name without the
/// keycap mark at its end and without a picture mark before that. A name
/// that does not end in the keycap mark is its own token.
pub open spec fn token_of(name: Seq<char>) -> Seq<char> {
    if name.len() > 0 && name.last() == keycap_mark() {
        let bare = name.drop_last();
        if bare.len() > 0 && bare.last() == picture_mark() {
            bare.drop_last()
        } else {
            bare
        }
    } else {
        name
    }
}

/// The name of the reaction that is attached to a menu message for a token.
pub fn reaction_name(token: &str) -> (name: String)
    ensures
        name@ == keycap_of(token@),
{
    let mut name = String::from_str(token);
    name.append("\u{20e3}");
    proof {
        reveal_strlit("\u{20e3}");
        assert(name@ =~= keycap_of(token@));
    }
    name
}

/// The token that a reaction to a menu message stands for.
pub fn reaction_token(name: &str) -> (token: String)
    ensures
        token@ == token_of(name@),
{
    let n = name.unicode_len();
    if n > 0 && name.get_char(n - 1) == '\u{20e3}' {
        if n > 1 && name.get_char(n - 2) == '\u{fe0f}' {
            let token = String::from_str(name.substring_char(0, n - 2));
            assert(token@ =~= token_of(name@));
            token
        } else {
            let token = String::from_str(name.substring_char(0, n - 1));
            assert(token@ =~= token_of(name@));
            token
        }
    } else {
        String::from_str(name)
    }
}

/// Every token keeps its meaning on the way to a message and back: the
/// token of a token's reaction name is the token itself.
pub proof fn lemma_token_round_trip(token: Seq<char>)
    requires
        token.len() == 0 || token.last() != picture_mark(),
    ensures
        token_of(keycap_of(token)) == token,
{
    assert(keycap_of(token).drop_last() =~= token);
}

/// The candidate that a token stands for: that of the first entry with the
/// token.
pub open spec fn candidate_of(mapping: Seq<(Seq<char>, i32)>, token: Seq<char>) -> Option<i32>
    decreases mapping.len(),
{
    if mapping.len() == 0 {
        None
    } else if mapping.first().0 == token {
        Some(mapping.first().1)
    } else {
        candidate_of(mapping.drop_first(), token)
    }
}

/// The candidate that a reaction stands for: that of the token of its emoji.
/// A custom emoji stands for none.
pub open spec fn resolved(mapping: Seq<(Seq<char>, i32)>, emoji: ReactionEmojiView) -> Option<i32> {
    match emoji {
        ReactionEmojiView::Unicode { name } => candidate_of(mapping, token_of(name)),
        ReactionEmojiView::Custom { .. } => None,
    }
}

/// Resolves a reaction against the mapping of a menu.
pub fn resolve(mapping: &Vec<(String, i32)>, emoji: &ReactionEmoji) -> (candidate: Option<i32>)
    ensures
        candidate == resolved(mapping_view(mapping@), emoji@),
{
    match emoji {
        ReactionEmoji::Custom { .. } => None,
        ReactionEmoji::Unicode { name } => {
            let token = reaction_token(name.as_str());
            let ghost all = mapping_view(mapping@);
            let mut i: usize = 0;
            assert(all.skip(0) =~= all);
            while i < mapping.len()
                invariant
                    i <= mapping.len(),
                    all == mapping_view(mapping@),
                    emoji@ == (ReactionEmojiView::Unicode { name: name@ }),
                    token@ == token_of(name@),
                    candidate_of(all, token@) == candidate_of(all.skip(i as int), token@),
                decreases mapping.len() - i,
            {
                proof {
                    assert(all.skip(i as int).first() == all[i as int]);
                    assert(all.skip(i as int).drop_first() =~= all.skip(i + 1));
                    assert(all[i as int] == (mapping@[i as int].0@, mapping@[i as int].1));
                }
                if str_equal(mapping[i].0.as_str(), token.as_str()) {
                    return Some(mapping[i].1);
                }
                i += 1;
            }
            None
        },
    }
}

/// The menu of a guild as it is rendered from the candidates and the vote
/// table: its nominated candidates, each with its live votes.
pub open spec fn rendered(candidates: Seq<MovieView>, votes: Seq<MovieVote>, guild_id: u64) -> Seq<
    char,
> {
    menu_text(menu_rows(nominated_in(candidates, guild_id), tally_of(guild_rows(votes, guild_id))))
}

/// Opens the movie vote menu of a guild in a channel, on the stores in
/// memory. The menu offers the nominated candidates of the guild in the order
/// given, and the message `menu_id` carries it; every menu that was live in
/// the channel is retired. Returns the rendered menu.
pub fn create_menu(
    stores: &mut Stores,
    candidates: &Vec<Movie>,
    channel_id: u64,
    guild_id: u64,
    menu_id: u64,
) -> (content: String)
    ensures
        content@ == rendered(movie_views(candidates@), old(stores)@.votes, guild_id),
        final(stores)@.menus == opened(
            old(stores)@.menus,
            MenuRecordView {
                location: channel_id,
                menu_id,
                kind: MenuKind::MovieVotes,
                mapping: menu_mapping(nominated_in(movie_views(candidates@), guild_id)),
            },
        ),
        final(stores)@.votes == old(stores)@.votes,
        final(stores)@.winners == old(stores)@.winners,
{
    let chosen = nominated(candidates, guild_id);
    let tally = stores.votes.tally(guild_id);
    let menu = build(&chosen, &tally);
    stores.menus.open(channel_id, menu_id, MenuKind::MovieVotes, menu.1);
    menu.0
}

/// Handles a reaction to a movie vote menu, on the stores in memory, once
/// the menu was found and the reaction removed, and returns the content that
/// the menu then shows.
///
/// An emoji that the mapping does not hold is discarded: nothing changes, and
/// that is no failure. Else the vote of the reacting user is cast for the
/// candidate of the emoji. Either way the menu is rendered with the tally as
/// it then stands.
pub fn handle_event(
    stores: &mut Stores,
    candidates: &Vec<Movie>,
    mapping: &Vec<(String, i32)>,
    context: &ReactionContext,
) -> (content: Result<String, MenuError>)
    ensures
        content matches Ok(text) && text@ == rendered(
            movie_views(candidates@),
            final(stores)@.votes,
            context.reaction.guild_id,
        ),
        match resolved(mapping_view(mapping@), context.reaction.emoji@) {
            Some(candidate_id) => {
                &&& final(stores)@.votes == cast_rows(
                    old(stores)@.votes,
                    context.reaction.guild_id,
                    context.reaction.user_id,
                    candidate_id,
                )
                &&& final(stores)@.menus == old(stores)@.menus
                &&& final(stores)@.winners == old(stores)@.winners
            },
            None => final(stores)@ == old(stores)@,
        },
{
    let guild_id = context.reaction.guild_id;
    match resolve(mapping, &context.reaction.emoji) {
        Some(candidate_id) => {
            stores.votes.cast(guild_id, context.reaction.user_id, candidate_id);
        },
        None => {},
    }
    let chosen = nominated(candidates, guild_id);
    let tally = stores.votes.tally(guild_id);
    let menu = build(&chosen, &tally);
    Ok(menu.0)
}

} // verus!
