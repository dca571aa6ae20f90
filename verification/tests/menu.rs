use katze::embed::{menu_embed, DESCRIPTION_LIMIT};
use katze::error::MenuError;
use katze::model::ReactionEmoji;
use katze::reactions::movie_votes::{
    build, count_of, format_menu, reaction_name, reaction_token, resolve, MovieVotes, MENU_LIMIT,
};
use katze::table::Movie;

fn movie(id: i32, member_id: u64, title: &str) -> Movie {
    Movie {
        guild_id: 1,
        member_id,
        id,
        title: title.to_string(),
        url: None,
        nominated: true,
        final_votes: 0,
    }
}

fn line(id: i32, title: &str, member_id: &str, count: u64) -> MovieVotes {
    MovieVotes { id, title: title.to_string(), member_id: member_id.to_string(), count }
}

const HEADER: &str = "Vote for a movie by reacting with its associated number:\n\n";

#[test]
fn empty_menu_is_the_header() {
    assert_eq!(format_menu(&[]), HEADER);
    let (content, mapping) = build(&Vec::new(), &Vec::new());
    assert_eq!(content, HEADER);
    assert!(mapping.is_empty());
}

#[test]
fn format_menu_renders_each_line() {
    let alpha = line(3, "Alpha", "100", 2);
    let beta = line(4, "Beta", "200", 0);
    let data = vec![("1".to_string(), &alpha), ("2".to_string(), &beta)];
    assert_eq!(
        format_menu(&data),
        "Vote for a movie by reacting with its associated number:\n\n\
         1 **Alpha** (<@100>, votes: 2)\n\
         2 **Beta** (<@200>, votes: 0)\n"
    );
}

#[test]
fn format_menu_takes_tokens_as_given() {
    let alpha = line(3, "Alpha", "someone", 18446744073709551615);
    let data = vec![("1\u{20e3}".to_string(), &alpha)];
    assert_eq!(
        format_menu(&data),
        format!("{}1\u{20e3} **Alpha** (<@someone>, votes: 18446744073709551615)\n", HEADER)
    );
}

#[test]
fn build_numbers_the_candidates_and_looks_up_their_votes() {
    let candidates = vec![movie(10, 100, "Alpha"), movie(20, 200, "Beta"), movie(30, 300, "Gamma")];
    let (content, mapping) = build(&candidates, &vec![(20, 1), (10, 2)]);
    assert_eq!(
        content,
        "Vote for a movie by reacting with its associated number:\n\n\
         1 **Alpha** (<@100>, votes: 2)\n\
         2 **Beta** (<@200>, votes: 1)\n\
         3 **Gamma** (<@300>, votes: 0)\n"
    );
    assert_eq!(
        mapping,
        vec![("1".to_string(), 10), ("2".to_string(), 20), ("3".to_string(), 30)]
    );
}

#[test]
fn build_offers_only_the_first_nine() {
    let mut candidates = Vec::new();
    for i in 0..12 {
        candidates.push(movie(100 + i, 7, "T"));
    }
    let (content, mapping) = build(&candidates, &Vec::new());
    assert_eq!(MENU_LIMIT, 9);
    assert_eq!(mapping.len(), 9);
    assert_eq!(mapping[0], ("1".to_string(), 100));
    assert_eq!(mapping[8], ("9".to_string(), 108));
    assert_eq!(content.lines().count(), 2 + 9);
    assert!(content.ends_with("9 **T** (<@7>, votes: 0)\n"));
    assert!(!content.contains("10 **"));
}

#[test]
fn build_with_exactly_nine_offers_all() {
    let mut candidates = Vec::new();
    for i in 0..9 {
        candidates.push(movie(i, 7, "T"));
    }
    let (_, mapping) = build(&candidates, &Vec::new());
    assert_eq!(mapping.len(), 9);
}

#[test]
fn count_of_takes_the_first_entry() {
    let counts = vec![(1, 4), (2, 5), (1, 9)];
    assert_eq!(count_of(&counts, 1), 4);
    assert_eq!(count_of(&counts, 2), 5);
    assert_eq!(count_of(&counts, 3), 0);
}

#[test]
fn resolve_finds_the_candidate_of_a_token() {
    let mapping = vec![("1".to_string(), 10), ("2".to_string(), 20)];
    assert_eq!(resolve(&mapping, &ReactionEmoji::Unicode { name: "2".to_string() }), Some(20));
    assert_eq!(resolve(&mapping, &ReactionEmoji::Unicode { name: "1".to_string() }), Some(10));
    assert_eq!(resolve(&mapping, &ReactionEmoji::Unicode { name: "3".to_string() }), None);
    assert_eq!(resolve(&mapping, &ReactionEmoji::Unicode { name: "".to_string() }), None);
    assert_eq!(resolve(&mapping, &ReactionEmoji::Custom { id: 1 }), None);
    assert_eq!(resolve(&Vec::new(), &ReactionEmoji::Unicode { name: "1".to_string() }), None);
}

#[test]
fn resolve_reads_keycaps_as_their_tokens() {
    let mapping = vec![("1".to_string(), 10), ("2".to_string(), 20)];
    assert_eq!(resolve(&mapping, &ReactionEmoji::Unicode { name: "2\u{20e3}".to_string() }), Some(20));
    assert_eq!(resolve(&mapping, &ReactionEmoji::Unicode { name: "1\u{fe0f}\u{20e3}".to_string() }), Some(10));
    assert_eq!(resolve(&mapping, &ReactionEmoji::Unicode { name: "3\u{20e3}".to_string() }), None);
    assert_eq!(resolve(&mapping, &ReactionEmoji::Unicode { name: "\u{20e3}".to_string() }), None);
    assert_eq!(resolve(&mapping, &ReactionEmoji::Unicode { name: "1\u{fe0f}".to_string() }), None);
}

#[test]
fn resolve_takes_the_first_of_equal_tokens() {
    let mapping = vec![("1".to_string(), 10), ("1".to_string(), 20)];
    assert_eq!(resolve(&mapping, &ReactionEmoji::Unicode { name: "1".to_string() }), Some(10));
}

#[test]
fn reaction_names_are_keycaps() {
    assert_eq!(reaction_name("1"), "1\u{20e3}");
    assert_eq!(reaction_name("9"), "9\u{20e3}");
    assert_eq!(reaction_token("1\u{20e3}"), "1");
    assert_eq!(reaction_token("1\u{fe0f}\u{20e3}"), "1");
    assert_eq!(reaction_token("1"), "1");
    assert_eq!(reaction_token(""), "");
    assert_eq!(reaction_token("\u{20e3}"), "");
    assert_eq!(reaction_token("\u{2705}"), "\u{2705}");
    assert_eq!(reaction_token(&reaction_name("7")), "7");
}

#[test]
fn menu_embed_holds_the_rendered_menu() {
    let alpha = line(3, "Alpha", "100", 2);
    let data = vec![("1".to_string(), &alpha)];
    let embed = menu_embed(format_menu(&data)).unwrap();
    assert_eq!(embed.description, Some(format_menu(&data)));
    assert_eq!(embed.kind, "rich");
    assert_eq!(embed.title, None);
    assert!(embed.fields.is_empty());
}

#[test]
fn menu_embed_refuses_content_that_is_empty_or_too_long() {
    assert_eq!(DESCRIPTION_LIMIT, 4096);
    assert_eq!(menu_embed(String::new()).err(), Some(MenuError::ContentRejected));
    assert_eq!(menu_embed("x".repeat(4097)).err(), Some(MenuError::ContentRejected));
    let long = line(3, &"x".repeat(5000), "100", 2);
    let data = vec![("1".to_string(), &long)];
    assert_eq!(menu_embed(format_menu(&data)).err(), Some(MenuError::ContentRejected));
}

#[test]
fn menu_embed_takes_content_up_to_the_limit() {
    assert!(menu_embed("x".to_string()).is_ok());
    assert_eq!(menu_embed("x".repeat(4096)).unwrap().description, Some("x".repeat(4096)));
}

#[test]
fn menu_embed_counts_characters_not_bytes() {
    let content = "\u{e9}".repeat(4096);
    assert!(content.len() > 4096);
    assert!(menu_embed(content).is_ok());
    assert!(menu_embed("\u{e9}".repeat(4097)).is_err());
}
