use katze::commands::movie::{
    close, highest_vote, nominated, pick_winner, record_final_votes, resolve_winner, summary, tied,
};
use katze::error::MenuError;
use katze::stores::Stores;
use katze::table::{Movie, MovieSeq};
use katze::winners::WinnerLog;

fn movie(guild_id: u64, id: i32, title: &str, final_votes: u64) -> Movie {
    Movie {
        guild_id,
        member_id: 100 + id as u64,
        id,
        title: title.to_string(),
        url: Some(format!("https://example.org/{}", id)),
        nominated: true,
        final_votes,
    }
}

#[test]
fn clear_leader_wins_on_every_run() {
    for _ in 0..50 {
        let mut stores = Stores::new();
        let mut candidates = vec![movie(1, 1, "A", 5), movie(1, 2, "B", 2)];
        let outcome = close(&mut stores, &mut candidates, 1).unwrap();
        assert_eq!(outcome.winner.id, 1);
        assert!(!outcome.tied);
        assert_eq!(outcome.summary, "The winner is: **A**");
    }
}

#[test]
fn two_way_tie_is_broken_at_random() {
    let mut a = 0;
    let mut b = 0;
    for _ in 0..400 {
        let mut stores = Stores::new();
        let mut candidates = vec![movie(1, 1, "A", 3), movie(1, 2, "B", 3), movie(1, 3, "C", 1)];
        let outcome = close(&mut stores, &mut candidates, 1).unwrap();
        assert!(outcome.tied);
        match outcome.winner.id {
            1 => {
                a += 1;
                assert_eq!(outcome.summary, "Multiple winners detected. Randomly chose **A**");
            }
            2 => {
                b += 1;
                assert_eq!(outcome.summary, "Multiple winners detected. Randomly chose **B**");
            }
            other => panic!("candidate {} is not tied for the most votes", other),
        }
    }
    assert_eq!(a + b, 400);
    assert!(a >= 120 && b >= 120, "A won {} times and B {} times", a, b);
}

#[test]
fn close_counts_drains_and_logs() {
    let mut stores = Stores::new();
    stores.votes.cast(1, 11, 2);
    stores.votes.cast(1, 12, 2);
    stores.votes.cast(1, 13, 1);
    stores.votes.cast(2, 11, 9);
    let mut candidates = vec![movie(1, 1, "A", 0), movie(1, 2, "B", 0), movie(2, 9, "Z", 0)];
    let outcome = close(&mut stores, &mut candidates, 1).unwrap();
    assert_eq!(outcome.winner.id, 2);
    assert_eq!(outcome.winner.final_votes, 2);
    assert_eq!(outcome.sequence, MovieSeq { id: 2, seq: 1 });
    assert_eq!(candidates[0].final_votes, 1);
    assert_eq!(candidates[1].final_votes, 2);
    assert_eq!(candidates[2].final_votes, 0);
    assert_eq!(stores.votes.tally(1), Vec::<(i32, u64)>::new());
    assert_eq!(stores.votes.tally(2), vec![(9, 1)]);
    assert_eq!(stores.winners.len(), 1);
    assert_eq!(stores.winners.get(0), Some(MovieSeq { id: 2, seq: 1 }));
}

#[test]
fn close_without_nominations_changes_nothing() {
    let mut stores = Stores::new();
    stores.votes.cast(1, 11, 2);
    let mut unnominated = movie(1, 2, "B", 4);
    unnominated.nominated = false;
    let mut candidates = vec![unnominated.clone(), movie(2, 9, "Z", 0)];
    assert_eq!(close(&mut stores, &mut candidates, 1), Err(MenuError::NoCandidates));
    assert_eq!(candidates, vec![unnominated, movie(2, 9, "Z", 0)]);
    assert_eq!(stores.votes.tally(1), vec![(2, 1)]);
    assert_eq!(stores.winners.len(), 0);
}

#[test]
fn close_with_no_candidates_at_all_fails() {
    let mut stores = Stores::new();
    let mut candidates = Vec::new();
    assert_eq!(close(&mut stores, &mut candidates, 1), Err(MenuError::NoCandidates));
    assert_eq!(stores.winners.len(), 0);
}

#[test]
fn unvoted_candidates_keep_their_final_votes() {
    let mut stores = Stores::new();
    stores.votes.cast(1, 11, 2);
    let mut candidates = vec![movie(1, 1, "A", 5), movie(1, 2, "B", 9)];
    let outcome = close(&mut stores, &mut candidates, 1).unwrap();
    assert_eq!(candidates[0].final_votes, 5);
    assert_eq!(candidates[1].final_votes, 1);
    assert_eq!(outcome.winner.id, 1);
}

#[test]
fn votes_for_unnominated_candidates_are_written_but_cannot_win() {
    let mut stores = Stores::new();
    stores.votes.cast(1, 11, 2);
    stores.votes.cast(1, 12, 2);
    let mut hidden = movie(1, 2, "B", 0);
    hidden.nominated = false;
    let mut candidates = vec![movie(1, 1, "A", 0), hidden];
    let outcome = close(&mut stores, &mut candidates, 1).unwrap();
    assert_eq!(candidates[1].final_votes, 2);
    assert_eq!(outcome.winner.id, 1);
    assert!(!outcome.tied);
}

#[test]
fn sequence_numbers_count_up() {
    let mut stores = Stores::new();
    for round in 1..=3u64 {
        let mut candidates = vec![movie(1, 1, "A", 5), movie(1, 2, "B", 2)];
        let outcome = close(&mut stores, &mut candidates, 1).unwrap();
        assert_eq!(outcome.sequence, MovieSeq { id: 1, seq: round });
    }
    assert_eq!(stores.winners.len(), 3);
    assert_eq!(stores.winners.get(2), Some(MovieSeq { id: 1, seq: 3 }));
    assert_eq!(stores.winners.get(3), None);
}

#[test]
fn winner_log_appends() {
    let mut log = WinnerLog::new();
    assert_eq!(log.len(), 0);
    assert_eq!(log.get(0), None);
    assert_eq!(log.append(7), MovieSeq { id: 7, seq: 1 });
    assert_eq!(log.append(-3), MovieSeq { id: -3, seq: 2 });
    assert_eq!(log.get(0), Some(MovieSeq { id: 7, seq: 1 }));
    assert_eq!(log.get(1), Some(MovieSeq { id: -3, seq: 2 }));
}

#[test]
fn summary_texts() {
    let with_url = movie(1, 1, "Alpha", 0);
    assert_eq!(summary(&with_url, false), "The winner is: **Alpha**");
    assert_eq!(summary(&with_url, true), "Multiple winners detected. Randomly chose **Alpha**");
    let mut without_url = movie(1, 1, "Alpha", 0);
    without_url.url = None;
    assert_eq!(
        summary(&without_url, false),
        "The winner is: **Alpha**\n**Alpha** has no url, please set with `katze movie set-url <url> <title>`"
    );
    assert_eq!(
        summary(&without_url, true),
        "Multiple winners detected. Randomly chose **Alpha**\n**Alpha** has no url, please set with `katze movie set-url <url> <title>`"
    );
}

#[test]
fn close_asks_for_a_url_where_the_winner_has_none() {
    let mut stores = Stores::new();
    let mut only = movie(1, 1, "A", 0);
    only.url = None;
    let mut candidates = vec![only];
    let outcome = close(&mut stores, &mut candidates, 1).unwrap();
    assert_eq!(
        outcome.summary,
        "The winner is: **A**\n**A** has no url, please set with `katze movie set-url <url> <title>`"
    );
}

#[test]
fn resolve_winner_follows_the_pick() {
    let candidates = vec![movie(1, 1, "A", 3), movie(1, 2, "B", 1), movie(1, 3, "C", 3), movie(1, 4, "D", 3)];
    assert_eq!(resolve_winner(&candidates, 0).unwrap().0.id, 1);
    assert_eq!(resolve_winner(&candidates, 1).unwrap().0.id, 3);
    assert_eq!(resolve_winner(&candidates, 2).unwrap().0.id, 4);
    assert_eq!(resolve_winner(&candidates, 3).unwrap().0.id, 1);
    assert!(resolve_winner(&candidates, 1).unwrap().1);
    let single = vec![movie(1, 1, "A", 3), movie(1, 2, "B", 1)];
    assert_eq!(resolve_winner(&single, 1).unwrap(), (movie(1, 1, "A", 3), false));
    assert_eq!(resolve_winner(&Vec::new(), 0), Err(MenuError::NoCandidates));
}

#[test]
fn pick_winner_stays_in_the_tie_set() {
    let candidates = vec![movie(1, 1, "A", 3), movie(1, 2, "B", 1), movie(1, 3, "C", 3), movie(1, 4, "D", 3)];
    let mut seen = [0usize; 5];
    for _ in 0..300 {
        let (winner, was_tied) = pick_winner(&candidates).unwrap();
        assert!(was_tied);
        seen[winner.id as usize] += 1;
    }
    assert_eq!(seen[2], 0);
    assert!(seen[1] > 0 && seen[3] > 0 && seen[4] > 0);
    assert_eq!(pick_winner(&Vec::new()), Err(MenuError::NoCandidates));
}

#[test]
fn all_zero_votes_tie_everyone() {
    let candidates = vec![movie(1, 1, "A", 0), movie(1, 2, "B", 0)];
    assert_eq!(highest_vote(&candidates), 0);
    assert_eq!(tied(&candidates), candidates);
    assert_eq!(highest_vote(&Vec::new()), 0);
    assert_eq!(tied(&Vec::new()), Vec::new());
}

#[test]
fn nominated_filters_by_guild_and_flag() {
    let mut hidden = movie(1, 2, "B", 0);
    hidden.nominated = false;
    let candidates = vec![movie(1, 1, "A", 0), hidden, movie(2, 3, "C", 0), movie(1, 4, "D", 0)];
    assert_eq!(nominated(&candidates, 1), vec![movie(1, 1, "A", 0), movie(1, 4, "D", 0)]);
    assert_eq!(nominated(&candidates, 3), Vec::new());
}

#[test]
fn record_final_votes_writes_only_counted_candidates() {
    let mut candidates = vec![movie(1, 1, "A", 7), movie(1, 2, "B", 7), movie(2, 1, "C", 7)];
    record_final_votes(&mut candidates, 1, &vec![(1, 3), (5, 4), (2, 0)]);
    assert_eq!(candidates, vec![movie(1, 1, "A", 3), movie(1, 2, "B", 7), movie(2, 1, "C", 7)]);
}
