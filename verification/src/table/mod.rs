//! Rows of the relational tables that voting reads and writes.

use vstd::prelude::*;

pub mod primitive;
pub mod raw;

verus! {

/// A candidate: a movie that a member of a guild suggested.
#[derive(Clone, Debug, PartialEq, Eq)]
pub struct Movie {
    pub guild_id: u64,
    pub member_id: u64,
    pub id: i32,
    pub title: String,
    pub url: Option<String>,
    pub nominated: bool,
    pub final_votes: u64,
}

/// What a `Movie` holds, with its texts as sequences of characters.
pub struct MovieView {
    pub guild_id: u64,
    pub member_id: u64,
    pub id: i32,
    pub title: Seq<char>,
    pub url: Option<Seq<char>>,
    pub nominated: bool,
    pub final_votes: nat,
}

impl View for Movie {
    type V = MovieView;

    open spec fn view(&self) -> MovieView {
        MovieView {
            guild_id: self.guild_id,
            member_id: self.member_id,
            id: self.id,
            title: self.title@,
            url: match self.url {
                Some(u) => Some(u@),
                None => None,
            },
            nominated: self.nominated,
            final_votes: self.final_votes as nat,
        }
    }
}

/// The views of a sequence of movies, in the same order.
pub open spec fn movie_views(movies: Seq<Movie>) -> Seq<MovieView> {
    movies.map_values(|m: Movie| m@)
}

impl Movie {
    /// A copy that holds the same values.
    pub fn duplicate(&self) -> (copy: Movie)
        ensures
            copy@ == self@,
    {
        let url = match &self.url {
            Some(u) => Some(u.clone()),
            None => None,
        };
        Movie {
            guild_id: self.guild_id,
            member_id: self.member_id,
            id: self.id,
            title: self.title.clone(),
            url,
            nominated: self.nominated,
            final_votes: self.final_votes,
        }
    }
}

/// A live vote: the candidate that one voter of a guild chose.
#[derive(Clone, Copy, Debug, PartialEq, Eq, Structural)]
pub struct MovieVote {
    pub guild_id: u64,
    pub member_id: u64,
    pub id: i32,
}

/// An entry of the winner log: the winning candidate and its place in the
/// sequence of closed votes.
#[derive(Clone, Copy, Debug, PartialEq, Eq, Structural)]
pub struct MovieSeq {
    pub id: i32,
    pub seq: u64,
}

} // verus!
