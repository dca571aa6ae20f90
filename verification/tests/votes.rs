use katze::table::MovieVote;
use katze::votes::{count_votes, VoteStore};

fn vote(guild_id: u64, member_id: u64, id: i32) -> MovieVote {
    MovieVote { guild_id, member_id, id }
}

#[test]
fn new_store_is_empty() {
    let store = VoteStore::new();
    assert_eq!(store.len(), 0);
    assert_eq!(store.tally(1), Vec::<(i32, u64)>::new());
    assert_eq!(store.votes_of(1), Vec::<MovieVote>::new());
}

#[test]
fn cast_twice_keeps_one_vote() {
    let mut store = VoteStore::new();
    store.cast(1, 7, 10);
    store.cast(1, 7, 11);
    assert_eq!(store.len(), 1);
    assert_eq!(store.votes_of(1), vec![vote(1, 7, 11)]);
    assert_eq!(store.tally(1), vec![(11, 1)]);
}

#[test]
fn cast_same_candidate_twice_is_idempotent() {
    let mut store = VoteStore::new();
    store.cast(1, 7, 10);
    store.cast(1, 7, 10);
    assert_eq!(store.len(), 1);
    assert_eq!(store.tally(1), vec![(10, 1)]);
}

#[test]
fn recast_moves_the_vote_to_the_end() {
    let mut store = VoteStore::new();
    store.cast(1, 7, 10);
    store.cast(1, 8, 11);
    store.cast(1, 7, 12);
    assert_eq!(store.votes_of(1), vec![vote(1, 8, 11), vote(1, 7, 12)]);
}

#[test]
fn same_voter_in_two_guilds_has_two_votes() {
    let mut store = VoteStore::new();
    store.cast(1, 7, 10);
    store.cast(2, 7, 20);
    assert_eq!(store.len(), 2);
    assert_eq!(store.tally(1), vec![(10, 1)]);
    assert_eq!(store.tally(2), vec![(20, 1)]);
}

#[test]
fn tally_counts_each_candidate_in_order_of_first_vote() {
    let mut store = VoteStore::new();
    store.cast(1, 1, 30);
    store.cast(1, 2, 10);
    store.cast(1, 3, 30);
    store.cast(1, 4, 20);
    store.cast(1, 5, 30);
    store.cast(9, 6, 10);
    assert_eq!(store.tally(1), vec![(30, 3), (10, 1), (20, 1)]);
}

#[test]
fn tally_of_a_guild_without_votes_is_empty() {
    let mut store = VoteStore::new();
    store.cast(1, 1, 30);
    assert_eq!(store.tally(2), Vec::<(i32, u64)>::new());
}

#[test]
fn drain_returns_the_guild_rows_and_keeps_the_others() {
    let mut store = VoteStore::new();
    store.cast(1, 1, 30);
    store.cast(2, 2, 10);
    store.cast(1, 3, 31);
    let drained = store.drain(1);
    assert_eq!(drained, vec![vote(1, 1, 30), vote(1, 3, 31)]);
    assert_eq!(store.len(), 1);
    assert_eq!(store.votes_of(2), vec![vote(2, 2, 10)]);
    assert_eq!(store.tally(1), Vec::<(i32, u64)>::new());
}

#[test]
fn drain_of_an_empty_guild_changes_nothing() {
    let mut store = VoteStore::new();
    store.cast(2, 2, 10);
    let drained = store.drain(1);
    assert!(drained.is_empty());
    assert_eq!(store.len(), 1);
}

#[test]
fn count_votes_groups_by_candidate() {
    let rows = vec![vote(1, 1, 5), vote(1, 2, 6), vote(1, 3, 5)];
    assert_eq!(count_votes(&rows), vec![(5, 2), (6, 1)]);
    assert_eq!(count_votes(&Vec::new()), Vec::<(i32, u64)>::new());
}
