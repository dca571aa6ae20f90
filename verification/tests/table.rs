use katze::commands::movie::{find_suggestion, nominate, nomination_reply};
use katze::table::primitive::Boolean;
use katze::table::raw::{parse_id, parse_votes, RawMovieVote};
use katze::table::{Movie, MovieVote};
use katze::text::{digit_value, parse_decimal};

fn movie(guild_id: u64, member_id: u64, id: i32, title: &str, nominated: bool) -> Movie {
    Movie { guild_id, member_id, id, title: title.to_string(), url: None, nominated, final_votes: 0 }
}

fn raw(guild_id: &str, member_id: &str, id: i32) -> RawMovieVote {
    RawMovieVote { guild_id: guild_id.to_string(), member_id: member_id.to_string(), id }
}

#[test]
fn numerals_are_read() {
    assert_eq!(parse_decimal("0"), Some(0));
    assert_eq!(parse_decimal("007"), Some(7));
    assert_eq!(parse_decimal("254387001556598785"), Some(254387001556598785));
    assert_eq!(parse_decimal("18446744073709551615"), Some(u64::MAX));
}

#[test]
fn other_texts_are_not_numerals() {
    assert_eq!(parse_decimal(""), None);
    assert_eq!(parse_decimal("18446744073709551616"), None);
    assert_eq!(parse_decimal("99999999999999999999999"), None);
    assert_eq!(parse_decimal("+5"), None);
    assert_eq!(parse_decimal("-5"), None);
    assert_eq!(parse_decimal("5 "), None);
    assert_eq!(parse_decimal("1_000"), None);
    assert_eq!(parse_decimal("12a"), None);
    assert_eq!(parse_decimal("\u{664}"), None);
}

#[test]
fn digit_values() {
    assert_eq!(digit_value('0'), Some(0));
    assert_eq!(digit_value('9'), Some(9));
    assert_eq!(digit_value('a'), None);
    assert_eq!(digit_value(':'), None);
}

#[test]
fn identifiers_are_not_zero() {
    assert_eq!(parse_id("12"), Some(12));
    assert_eq!(parse_id("0"), None);
    assert_eq!(parse_id("000"), None);
    assert_eq!(parse_id("x"), None);
}

#[test]
fn stored_votes_are_read() {
    assert_eq!(raw("1", "22", 3).parse(), Some(MovieVote { guild_id: 1, member_id: 22, id: 3 }));
    assert_eq!(raw("", "22", 3).parse(), None);
    assert_eq!(raw("1", "0", 3).parse(), None);
    assert_eq!(raw("1", "2x", 3).parse(), None);
    let vote = MovieVote { guild_id: 254387001556598785, member_id: 9, id: -4 };
    assert_eq!(RawMovieVote::from_vote(&vote), raw("254387001556598785", "9", -4));
    assert_eq!(RawMovieVote::from_vote(&vote).parse(), Some(vote));
}

#[test]
fn stored_votes_are_read_in_order_or_not_at_all() {
    assert_eq!(
        parse_votes(&vec![raw("1", "2", 3), raw("1", "4", 5)]),
        Some(vec![MovieVote { guild_id: 1, member_id: 2, id: 3 }, MovieVote { guild_id: 1, member_id: 4, id: 5 }])
    );
    assert_eq!(parse_votes(&vec![raw("1", "2", 3), raw("1", "", 5)]), None);
    assert_eq!(parse_votes(&Vec::new()), Some(Vec::new()));
}

#[test]
fn nominate_toggles_and_clears_the_other_nominations() {
    let mut movies = vec![
        movie(1, 7, 1, "Alpha", true),
        movie(1, 7, 2, "Beta", false),
        movie(1, 8, 3, "Gamma", true),
        movie(2, 7, 4, "Delta", true),
    ];
    assert_eq!(nominate(&mut movies, 1, 7, "Beta"), Some(Boolean { result: true }));
    assert_eq!(
        movies,
        vec![
            movie(1, 7, 1, "Alpha", false),
            movie(1, 7, 2, "Beta", true),
            movie(1, 8, 3, "Gamma", true),
            movie(2, 7, 4, "Delta", true),
        ]
    );
    assert_eq!(nominate(&mut movies, 1, 7, "Beta"), Some(Boolean { result: false }));
    assert!(!movies[0].nominated && !movies[1].nominated);
    assert!(movies[2].nominated && movies[3].nominated);
}

#[test]
fn nominate_of_an_unknown_title_changes_nothing() {
    let mut movies = vec![movie(1, 7, 1, "Alpha", true), movie(1, 8, 2, "Beta", false)];
    assert_eq!(nominate(&mut movies, 1, 7, "Beta"), None);
    assert_eq!(nominate(&mut movies, 1, 7, "alpha"), None);
    assert_eq!(nominate(&mut movies, 2, 7, "Alpha"), None);
    assert_eq!(movies, vec![movie(1, 7, 1, "Alpha", true), movie(1, 8, 2, "Beta", false)]);
    assert_eq!(find_suggestion(&movies, 1, 8, "Beta"), Some(1));
    assert_eq!(find_suggestion(&movies, 1, 8, "Alpha"), None);
}

#[test]
fn nomination_replies() {
    assert_eq!(nomination_reply("Alpha", &Boolean { result: true }), "\u{2705} Alpha is nominated");
    assert_eq!(
        nomination_reply("Alpha", &Boolean { result: false }),
        "\u{2705} Alpha is **no longer** nominated"
    );
}
