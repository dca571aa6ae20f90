use katze::checks::{has_role, CheckError};
use katze::error::MenuError;
use katze::logger::reaction_error;
use katze::model::{ReactionAdd, ReactionContext, ReactionEmoji, ResponseReaction, SettingRole};
use katze::table::primitive::Boolean;
use katze::text::{digit_str, push_decimal};

fn decimal(n: u64) -> String {
    let mut out = String::new();
    push_decimal(&mut out, n);
    out
}

fn context(user_id: u64, bot: bool) -> ReactionContext {
    ReactionContext::new(
        99,
        ReactionAdd {
            channel_id: 5,
            message_id: 100,
            guild_id: 1,
            user_id,
            emoji: ReactionEmoji::Unicode { name: "1".to_string() },
            bot,
        },
    )
}

#[test]
fn decimal_numerals() {
    assert_eq!(decimal(0), "0");
    assert_eq!(decimal(7), "7");
    assert_eq!(decimal(10), "10");
    assert_eq!(decimal(1234567890), "1234567890");
    assert_eq!(decimal(u64::MAX), "18446744073709551615");
}

#[test]
fn decimal_is_appended() {
    let mut out = String::from("id=");
    push_decimal(&mut out, 42);
    assert_eq!(out, "id=42");
}

#[test]
fn digits() {
    assert_eq!(digit_str(0), "0");
    assert_eq!(digit_str(5), "5");
    assert_eq!(digit_str(9), "9");
    assert_eq!(digit_str(13), "3");
}

#[test]
fn reaction_error_line() {
    assert_eq!(
        reaction_error(&context(7, false), "redis: key not found", "menu".to_string()),
        "channel:5 command:menu\nerror processing reaction\nredis: key not found"
    );
}

#[test]
fn error_messages() {
    assert_eq!(MenuError::StoreUnavailable.describe(), "store unavailable");
    assert_eq!(MenuError::MenuNotFound.describe(), "no menu found for this message");
    assert_eq!(MenuError::UnmappedEmoji.describe(), "reaction does not belong to the menu");
    assert_eq!(MenuError::MalformedMenuRecord.describe(), "stored menu mapping is malformed");
    assert_eq!(MenuError::NoCandidates.describe(), "no movies are nominated");
    assert_eq!(MenuError::ContentRejected.describe(), "menu content cannot be shown");
}

#[test]
fn stray_reactions_are_silent() {
    assert!(MenuError::MenuNotFound.is_silent());
    assert!(MenuError::UnmappedEmoji.is_silent());
    assert!(!MenuError::StoreUnavailable.is_silent());
    assert!(!MenuError::MalformedMenuRecord.is_silent());
    assert!(!MenuError::NoCandidates.is_silent());
    assert!(!MenuError::ContentRejected.is_silent());
}

#[test]
fn bots_are_recognised() {
    assert!(!context(7, false).is_from_bot());
    assert!(context(7, true).is_from_bot());
    assert!(context(99, false).is_from_bot());
}

#[test]
fn confirmation_answers() {
    assert_eq!(ResponseReaction::Success.id(), 726252875696570368);
    assert_eq!(ResponseReaction::Failure.id(), 726253240806670367);
    assert_eq!(ResponseReaction::Success.name(), "yeah");
    assert_eq!(ResponseReaction::Failure.name(), "nah");
    assert_eq!(ResponseReaction::Success.value(), ReactionEmoji::Custom { id: 726252875696570368 });
    assert!(ResponseReaction::confirms(&ReactionEmoji::Custom { id: 726252875696570368 }));
    assert!(!ResponseReaction::confirms(&ReactionEmoji::Custom { id: 726253240806670367 }));
    assert!(!ResponseReaction::confirms(&ReactionEmoji::Custom { id: 1 }));
    assert!(!ResponseReaction::confirms(&ReactionEmoji::Unicode { name: "yeah".to_string() }));
}

#[test]
fn small_values() {
    assert_eq!(SettingRole::Movies.name(), "movies");
    assert!(Boolean { result: true }.get());
    assert!(!Boolean { result: false }.get());
    let emoji = ReactionEmoji::Unicode { name: "1\u{20e3}".to_string() };
    assert_eq!(emoji.duplicate(), emoji);
}

#[test]
fn role_checks() {
    let role = SettingRole::Movies;
    assert_eq!(has_role(None, None, role), Ok(()));
    assert_eq!(has_role(None, Some(&vec![1, 2]), role), Ok(()));
    assert_eq!(has_role(Some(2), None, role), Ok(()));
    assert_eq!(has_role(Some(2), Some(&vec![1, 2]), role), Ok(()));
    assert_eq!(has_role(Some(3), Some(&vec![1, 2]), role), Err(CheckError::MissingRole(role)));
    assert_eq!(has_role(Some(3), Some(&Vec::new()), role), Err(CheckError::MissingRole(role)));
    assert_eq!(
        CheckError::MissingRole(role).describe(),
        "You are missing the role: `movies`. Please ask a server administrator for the role."
    );
}
