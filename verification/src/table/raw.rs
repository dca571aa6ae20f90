//! Rows as the relational store holds them, with identifiers as text.

use crate::table::MovieVote;
use crate::text::{decimal, parse_decimal, parsed_decimal, push_decimal};
use vstd::prelude::*;

verus! {

/// A vote row with its guild and member identifiers as decimal text.
#[derive(Clone, Debug, PartialEq, Eq)]
pub struct RawMovieVote {
    pub guild_id: String,
    pub member_id: String,
    pub id: i32,
}

/// The identifier that a text holds: a decimal numeral of a number other
/// than zero.
pub open spec fn parsed_id(text: Seq<char>) -> Option<u64> {
    match parsed_decimal(text) {
        Some(id) => if id == 0 {
            None
        } else {
            Some(id)
        },
        None => None,
    }
}

/// The vote that a stored row stands for, where both of its identifiers can
/// be read.
pub open spec fn parsed_vote(guild_id: Seq<char>, member_id: Seq<char>, id: i32) -> Option<
    MovieVote,
> {
    match (parsed_id(guild_id), parsed_id(member_id)) {
        (Some(guild), Some(member)) => Some(MovieVote { guild_id: guild, member_id: member, id }),
        _ => None,
    }
}

/// Reads an identifier from its stored text.
pub fn parse_id(text: &str) -> (id: Option<u64>)
    ensures
        id == parsed_id(text@),
{
    match parse_decimal(text) {
        Some(id) => if id == 0 {
            None
        } else {
            Some(id)
        },
        None => None,
    }
}

impl RawMovieVote {
    /// The vote that this row stands for, or `None` where one of its
    /// identifiers is not the decimal numeral of a number other than zero.
    pub fn parse(&self) -> (vote: Option<MovieVote>)
        ensures
            vote == parsed_vote(self.guild_id@, self.member_id@, self.id),
    {
        match parse_id(self.guild_id.as_str()) {
            None => None,
            Some(guild_id) => match parse_id(self.member_id.as_str()) {
                None => None,
                Some(member_id) => Some(MovieVote { guild_id, member_id, id: self.id }),
            },
        }
    }

    /// The row that stores a vote.
    pub fn from_vote(vote: &MovieVote) -> (row: RawMovieVote)
        ensures
            row.guild_id@ == decimal(vote.guild_id as nat),
            row.member_id@ == decimal(vote.member_id as nat),
            row.id == vote.id,
    {
        let mut guild_id = String::new();
        push_decimal(&mut guild_id, vote.guild_id);
        let mut member_id = String::new();
        push_decimal(&mut member_id, vote.member_id);
        assert(guild_id@ =~= decimal(vote.guild_id as nat));
        assert(member_id@ =~= decimal(vote.member_id as nat));
        RawMovieVote { guild_id, member_id, id: vote.id }
    }
}

/// Reads the votes that stored rows stand for, in their order. A row that
/// cannot be read makes the whole reading fail.
pub fn parse_votes(rows: &Vec<RawMovieVote>) -> (votes: Option<Vec<MovieVote>>)
    ensures
        match votes {
            Some(read) => read@.len() == rows@.len() && forall|i: int|
                0 <= i < rows@.len() ==> parsed_vote(
                    rows@[i].guild_id@,
                    rows@[i].member_id@,
                    rows@[i].id,
                ) == Some(#[trigger] read@[i]),
            None => exists|i: int|
                0 <= i < rows@.len() && parsed_vote(
                    (#[trigger] rows@[i]).guild_id@,
                    rows@[i].member_id@,
                    rows@[i].id,
                ) is None,
        },
{
    let mut votes: Vec<MovieVote> = Vec::new();
    let mut i: usize = 0;
    while i < rows.len()
        invariant
            i <= rows.len(),
            votes@.len() == i,
            forall|j: int|
                0 <= j < i ==> parsed_vote(rows@[j].guild_id@, rows@[j].member_id@, rows@[j].id)
                    == Some(#[trigger] votes@[j]),
        decreases rows.len() - i,
    {
        match rows[i].parse() {
            Some(vote) => {
                votes.push(vote);
            },
            None => {
                return None;
            },
        }
        i += 1;
    }
    Some(votes)
}

/// A vote that was stored is read back as it was, where its identifiers are
/// not zero.
pub proof fn lemma_stored_vote_is_read_back(vote: MovieVote)
    requires
        vote.guild_id != 0,
        vote.member_id != 0,
    ensures
        parsed_vote(decimal(vote.guild_id as nat), decimal(vote.member_id as nat), vote.id)
            == Some(vote),
{
    crate::text::lemma_parse_of_decimal(vote.guild_id);
    crate::text::lemma_parse_of_decimal(vote.member_id);
}

} // verus!
