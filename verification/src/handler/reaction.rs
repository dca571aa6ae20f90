//! The reaction router: what to do, step by step, when a user reacts to a
//! message.
//!
//! The router decides; it performs nothing. Each call hands out one action
//! for the caller to perform and takes the result of the last one, so that
//! the same decisions serve a caller that talks to outside stores and one
//! that works on the stores in memory.

use crate::commands::movie::{nominated, nominated_in};
use crate::error::MenuError;
use crate::json::{decode_mapping, mapping_of_json};
use crate::model::{ReactionContext, ReactionEmoji, ReactionEmojiView};
use crate::reactions::movie_votes::{build, menu_rows, menu_text, rendered, resolve, resolved};
use crate::registry::{find_menu, key_kind, kind_of_key, mapping_view, MenuRecordView};
use crate::stores::{Stores, StoresView};
use crate::table::{movie_views, Movie, MovieView, MovieVote};
use crate::votes::{cast_rows, counts, guild_rows, tally_of};
use vstd::prelude::*;

verus! {

/// How the handling of a reaction ended.
#[derive(Clone, Copy, Debug, PartialEq, Eq, Structural)]
pub enum Outcome {
    /// The reaction came from a bot and was discarded.
    Ignored,
    /// The message carries no live menu; the reaction was a stray one.
    NoMenu,
    /// The reaction was removed, and it stands for no candidate of the menu.
    Unmapped,
    /// The vote was cast and the menu shows the new tally.
    Updated,
    /// A step failed; the event is dropped.
    Failed(MenuError),
}

/// Where the handling of a reaction stands.
#[derive(Clone, Copy, Debug, PartialEq, Eq, Structural)]
pub enum Phase {
    /// The menu of the message is being looked up.
    Lookup,
    /// The user's reaction is being removed; `candidate` is what it resolved to.
    Removal { candidate: Option<i32> },
    /// The vote is being cast.
    Casting,
    /// The votes of the guild are being counted.
    Tallying,
    /// The menu message is being edited.
    Editing,
    /// Nothing is left to do.
    Finished,
}

/// What the caller is asked to do next.
#[derive(Clone, Debug, PartialEq, Eq)]
pub enum Action {
    /// Look up the mapping of the menu that the message carries.
    Lookup { location: u64, menu_id: u64 },
    /// Remove the user's reaction from the message.
    RemoveReaction { channel_id: u64, message_id: u64, user_id: u64, emoji: ReactionEmoji },
    /// Record the voter's choice in the vote table.
    Cast { guild_id: u64, voter_id: u64, candidate_id: i32 },
    /// Read the nominated candidates of the guild and the tally of its votes.
    Tally { guild_id: u64 },
    /// Replace the content of the menu message.
    Edit { channel_id: u64, message_id: u64, content: String },
    /// Stop: the handling has ended.
    Stop(Outcome),
}

/// What an `Action` holds, with its texts as sequences of characters.
pub enum ActionView {
    Lookup { location: u64, menu_id: u64 },
    RemoveReaction { channel_id: u64, message_id: u64, user_id: u64, emoji: ReactionEmojiView },
    Cast { guild_id: u64, voter_id: u64, candidate_id: i32 },
    Tally { guild_id: u64 },
    Edit { channel_id: u64, message_id: u64, content: Seq<char> },
    Stop(Outcome),
}

impl View for Action {
    type V = ActionView;

    open spec fn view(&self) -> ActionView {
        match self {
            Action::Lookup { location, menu_id } => ActionView::Lookup {
                location: *location,
                menu_id: *menu_id,
            },
            Action::RemoveReaction { channel_id, message_id, user_id, emoji } => {
                ActionView::RemoveReaction {
                    channel_id: *channel_id,
                    message_id: *message_id,
                    user_id: *user_id,
                    emoji: emoji@,
                }
            },
            Action::Cast { guild_id, voter_id, candidate_id } => ActionView::Cast {
                guild_id: *guild_id,
                voter_id: *voter_id,
                candidate_id: *candidate_id,
            },
            Action::Tally { guild_id } => ActionView::Tally { guild_id: *guild_id },
            Action::Edit { channel_id, message_id, content } => ActionView::Edit {
                channel_id: *channel_id,
                message_id: *message_id,
                content: content@,
            },
            Action::Stop(outcome) => ActionView::Stop(*outcome),
        }
    }
}

/// What the caller found when it performed the last action.
#[derive(Clone, Debug, PartialEq, Eq)]
pub enum Reply {
    /// The mapping of the menu that was looked up.
    Menu(Vec<(String, i32)>),
    /// The action was performed and there is nothing to report.
    Done,
    /// The nominated candidates of the guild, in menu order, and the tally
    /// of its live votes.
    Tally { candidates: Vec<Movie>, counts: Vec<(i32, u64)> },
    /// The action could not be performed.
    Failed(MenuError),
}

/// What a `Reply` holds, with its texts as sequences of characters.
pub enum ReplyView {
    Menu(Seq<(Seq<char>, i32)>),
    Done,
    Tally { candidates: Seq<MovieView>, counts: Seq<(i32, nat)> },
    Failed(MenuError),
}

impl View for Reply {
    type V = ReplyView;

    open spec fn view(&self) -> ReplyView {
        match self {
            Reply::Menu(mapping) => ReplyView::Menu(mapping_view(mapping@)),
            Reply::Done => ReplyView::Done,
            Reply::Tally { candidates, counts: entries } => ReplyView::Tally {
                candidates: movie_views(candidates@),
                counts: counts(entries@),
            },
            Reply::Failed(error) => ReplyView::Failed(*error),
        }
    }
}

/// The first step for a reaction: a reaction from a bot is discarded, and
/// for any other the menu of its message is looked up.
pub open spec fn first_step(context: ReactionContext) -> (Phase, ActionView) {
    if context.from_bot() {
        (Phase::Finished, ActionView::Stop(Outcome::Ignored))
    } else {
        (
            Phase::Lookup,
            ActionView::Lookup {
                location: context.reaction.channel_id,
                menu_id: context.reaction.message_id,
            },
        )
    }
}

/// The step that follows a reply.
///
/// A menu that was found has the user's reaction removed, whatever it stands
/// for. A reaction that stands for a candidate is then cast as a vote, the
/// votes are counted, and the menu message is edited to show them. A failure
/// ends the handling: in silence where the message carries no menu, and as a
/// failure otherwise. A reply that does not answer the last action counts as
/// a failure of the store.
pub open spec fn next_step(context: ReactionContext, phase: Phase, reply: ReplyView) -> (
    Phase,
    ActionView,
) {
    let reaction = context.reaction;
    match (phase, reply) {
        (Phase::Finished, _) => (Phase::Finished, ActionView::Stop(
            Outcome::Failed(MenuError::StoreUnavailable),
        )),
        (Phase::Lookup, ReplyView::Failed(MenuError::MenuNotFound)) => (
            Phase::Finished,
            ActionView::Stop(Outcome::NoMenu),
        ),
        (_, ReplyView::Failed(error)) => (Phase::Finished, ActionView::Stop(Outcome::Failed(error))),
        (Phase::Lookup, ReplyView::Menu(mapping)) => (
            Phase::Removal { candidate: resolved(mapping, reaction.emoji@) },
            ActionView::RemoveReaction {
                channel_id: reaction.channel_id,
                message_id: reaction.message_id,
                user_id: reaction.user_id,
                emoji: reaction.emoji@,
            },
        ),
        (Phase::Removal { candidate: None }, ReplyView::Done) => (
            Phase::Finished,
            ActionView::Stop(Outcome::Unmapped),
        ),
        (Phase::Removal { candidate: Some(candidate_id) }, ReplyView::Done) => (
            Phase::Casting,
            ActionView::Cast {
                guild_id: reaction.guild_id,
                voter_id: reaction.user_id,
                candidate_id,
            },
        ),
        (Phase::Casting, ReplyView::Done) => (
            Phase::Tallying,
            ActionView::Tally { guild_id: reaction.guild_id },
        ),
        (Phase::Tallying, ReplyView::Tally { candidates, counts }) => (
            Phase::Editing,
            ActionView::Edit {
                channel_id: reaction.channel_id,
                message_id: reaction.message_id,
                content: menu_text(menu_rows(candidates, counts)),
            },
        ),
        (Phase::Editing, ReplyView::Done) => (Phase::Finished, ActionView::Stop(Outcome::Updated)),
        _ => (Phase::Finished, ActionView::Stop(Outcome::Failed(MenuError::StoreUnavailable))),
    }
}

/// The handling of one reaction.
#[derive(Clone, Debug, PartialEq, Eq)]
pub struct ReactionRouter {
    pub context: ReactionContext,
    pub phase: Phase,
}

impl ReactionRouter {
    /// Takes a reaction in and says what to do first.
    pub fn start(context: ReactionContext) -> (begun: (ReactionRouter, Action))
        ensures
            begun.0.context == context,
            (begun.0.phase, begun.1@) == first_step(context),
    {
        if context.is_from_bot() {
            (ReactionRouter { context, phase: Phase::Finished }, Action::Stop(Outcome::Ignored))
        } else {
            let action = Action::Lookup {
                location: context.reaction.channel_id,
                menu_id: context.reaction.message_id,
            };
            (ReactionRouter { context, phase: Phase::Lookup }, action)
        }
    }

    /// Takes the result of the last action in and says what to do next.
    pub fn advance(self, reply: Reply) -> (next: (ReactionRouter, Action))
        ensures
            next.0.context == self.context,
            (next.0.phase, next.1@) == next_step(self.context, self.phase, reply@),
    {
        let context = self.context;
        let failed = Action::Stop(Outcome::Failed(MenuError::StoreUnavailable));
        match self.phase {
            Phase::Finished => (ReactionRouter { context, phase: Phase::Finished }, failed),
            Phase::Lookup => match reply {
                Reply::Failed(error) => {
                    let outcome = match error {
                        MenuError::MenuNotFound => Outcome::NoMenu,
                        _ => Outcome::Failed(error),
                    };
                    (ReactionRouter { context, phase: Phase::Finished }, Action::Stop(outcome))
                },
                Reply::Menu(mapping) => {
                    let candidate = resolve(&mapping, &context.reaction.emoji);
                    let action = Action::RemoveReaction {
                        channel_id: context.reaction.channel_id,
                        message_id: context.reaction.message_id,
                        user_id: context.reaction.user_id,
                        emoji: context.reaction.emoji.duplicate(),
                    };
                    (ReactionRouter { context, phase: Phase::Removal { candidate } }, action)
                },
                _ => (ReactionRouter { context, phase: Phase::Finished }, failed),
            },
            Phase::Removal { candidate } => match reply {
                Reply::Failed(error) => (
                    ReactionRouter { context, phase: Phase::Finished },
                    Action::Stop(Outcome::Failed(error)),
                ),
                Reply::Done => match candidate {
                    None => (
                        ReactionRouter { context, phase: Phase::Finished },
                        Action::Stop(Outcome::Unmapped),
                    ),
                    Some(candidate_id) => {
                        let action = Action::Cast {
                            guild_id: context.reaction.guild_id,
                            voter_id: context.reaction.user_id,
                            candidate_id,
                        };
                        (ReactionRouter { context, phase: Phase::Casting }, action)
                    },
                },
                _ => (ReactionRouter { context, phase: Phase::Finished }, failed),
            },
            Phase::Casting => match reply {
                Reply::Failed(error) => (
                    ReactionRouter { context, phase: Phase::Finished },
                    Action::Stop(Outcome::Failed(error)),
                ),
                Reply::Done => {
                    let action = Action::Tally { guild_id: context.reaction.guild_id };
                    (ReactionRouter { context, phase: Phase::Tallying }, action)
                },
                _ => (ReactionRouter { context, phase: Phase::Finished }, failed),
            },
            Phase::Tallying => match reply {
                Reply::Failed(error) => (
                    ReactionRouter { context, phase: Phase::Finished },
                    Action::Stop(Outcome::Failed(error)),
                ),
                Reply::Tally { candidates, counts } => {
                    let menu = build(&candidates, &counts);
                    let action = Action::Edit {
                        channel_id: context.reaction.channel_id,
                        message_id: context.reaction.message_id,
                        content: menu.0,
                    };
                    (ReactionRouter { context, phase: Phase::Editing }, action)
                },
                _ => (ReactionRouter { context, phase: Phase::Finished }, failed),
            },
            Phase::Editing => match reply {
                Reply::Failed(error) => (
                    ReactionRouter { context, phase: Phase::Finished },
                    Action::Stop(Outcome::Failed(error)),
                ),
                Reply::Done => (
                    ReactionRouter { context, phase: Phase::Finished },
                    Action::Stop(Outcome::Updated),
                ),
                _ => (ReactionRouter { context, phase: Phase::Finished }, failed),
            },
        }
    }
}

/// The reply that stands for what the keyed store gave for a menu: the key
/// that was found for the message, if any, and the value under that key, if
/// any.
pub open spec fn store_reply(key: Option<Seq<char>>, value: Option<Seq<char>>) -> ReplyView {
    match (key, value) {
        (Some(k), Some(v)) => if key_kind(k) is None {
            ReplyView::Failed(MenuError::MenuNotFound)
        } else {
            match mapping_of_json(v) {
                Some(mapping) => ReplyView::Menu(mapping),
                None => ReplyView::Failed(MenuError::MalformedMenuRecord),
            }
        },
        _ => ReplyView::Failed(MenuError::MenuNotFound),
    }
}

impl Reply {
    /// Reads the reply to a lookup from what the keyed store gave. Without a
    /// key, without a value, or with a key that names no kind of menu, no
    /// menu is found; a value that is not the JSON of a mapping is a
    /// malformed record.
    pub fn from_store(key: Option<&str>, value: Option<&str>) -> (reply: Reply)
        ensures
            reply@ == store_reply(
                match key {
                    Some(k) => Some(k@),
                    None => None,
                },
                match value {
                    Some(v) => Some(v@),
                    None => None,
                },
            ),
    {
        match (key, value) {
            (Some(k), Some(v)) => {
                if kind_of_key(k).is_none() {
                    return Reply::Failed(MenuError::MenuNotFound);
                }
                match decode_mapping(v) {
                    Ok(mapping) => Reply::Menu(mapping),
                    Err(error) => Reply::Failed(error),
                }
            },
            _ => Reply::Failed(MenuError::MenuNotFound),
        }
    }
}

/// The candidate that a reaction casts a vote for: none for a reaction from
/// a bot, for a message without a live menu, and for an emoji that the menu
/// does not map.
pub open spec fn cast_candidate(menus: Seq<MenuRecordView>, context: ReactionContext) -> Option<
    i32,
> {
    if context.from_bot() {
        None
    } else {
        match find_menu(menus, context.reaction.channel_id, context.reaction.message_id) {
            Some(record) => resolved(record.mapping, context.reaction.emoji@),
            None => None,
        }
    }
}

/// How the handling of a reaction ends when every step can be performed.
pub open spec fn routed_outcome(menus: Seq<MenuRecordView>, context: ReactionContext) -> Outcome {
    if context.from_bot() {
        Outcome::Ignored
    } else {
        match find_menu(menus, context.reaction.channel_id, context.reaction.message_id) {
            None => Outcome::NoMenu,
            Some(record) => match resolved(record.mapping, context.reaction.emoji@) {
                None => Outcome::Unmapped,
                Some(_) => Outcome::Updated,
            },
        }
    }
}

/// The vote table after a reaction was handled: the vote is cast where the
/// reaction stands for a candidate, and nothing changes otherwise.
pub open spec fn routed_votes(stores: StoresView, context: ReactionContext) -> Seq<MovieVote> {
    match cast_candidate(stores.menus, context) {
        Some(candidate_id) => cast_rows(
            stores.votes,
            context.reaction.guild_id,
            context.reaction.user_id,
            candidate_id,
        ),
        None => stores.votes,
    }
}

/// The content that the menu message is edited to: the menu with the tally
/// after the cast, and nothing where no vote is cast.
pub open spec fn routed_content(
    stores: StoresView,
    candidates: Seq<MovieView>,
    context: ReactionContext,
) -> Option<Seq<char>> {
    match cast_candidate(stores.menus, context) {
        Some(_) => Some(
            rendered(candidates, routed_votes(stores, context), context.reaction.guild_id),
        ),
        None => None,
    }
}

/// The text of an optional string.
pub open spec fn text_of(text: Option<String>) -> Option<Seq<char>> {
    match text {
        Some(t) => Some(t@),
        None => None,
    }
}

/// The steps that are left at most in a phase.
pub open spec fn steps_left(phase: Phase) -> nat {
    match phase {
        Phase::Lookup => 5,
        Phase::Removal { .. } => 4,
        Phase::Casting => 3,
        Phase::Tallying => 2,
        Phase::Editing => 1,
        Phase::Finished => 0,
    }
}

/// What holds between two steps when the stores in memory perform the
/// actions: the phase, the pending action, the stores and the content that
/// was shown fit what the handling of the reaction must come to.
pub open spec fn on_track(
    before: StoresView,
    candidates: Seq<MovieView>,
    context: ReactionContext,
    phase: Phase,
    action: ActionView,
    now: StoresView,
    content: Option<Seq<char>>,
) -> bool {
    let reaction = context.reaction;
    let found = find_menu(before.menus, reaction.channel_id, reaction.message_id);
    let cast = cast_candidate(before.menus, context);
    &&& now.menus == before.menus
    &&& now.winners == before.winners
    &&& match phase {
        Phase::Lookup => {
            &&& !context.from_bot()
            &&& action == (ActionView::Lookup {
                location: reaction.channel_id,
                menu_id: reaction.message_id,
            })
            &&& now.votes == before.votes
            &&& content is None
        },
        Phase::Removal { candidate } => {
            &&& !context.from_bot()
            &&& found is Some
            &&& candidate == cast
            &&& action is RemoveReaction
            &&& now.votes == before.votes
            &&& content is None
        },
        Phase::Casting => {
            &&& cast matches Some(candidate_id)
            &&& action == (ActionView::Cast {
                guild_id: reaction.guild_id,
                voter_id: reaction.user_id,
                candidate_id,
            })
            &&& now.votes == before.votes
            &&& content is None
        },
        Phase::Tallying => {
            &&& cast is Some
            &&& action == (ActionView::Tally { guild_id: reaction.guild_id })
            &&& now.votes == routed_votes(before, context)
            &&& content is None
        },
        Phase::Editing => {
            &&& cast is Some
            &&& action matches ActionView::Edit { content: text, .. }
            &&& Some(text) == routed_content(before, candidates, context)
            &&& now.votes == routed_votes(before, context)
            &&& content is None
        },
        Phase::Finished => {
            &&& action == ActionView::Stop(routed_outcome(before.menus, context))
            &&& now.votes == routed_votes(before, context)
            &&& content == routed_content(before, candidates, context)
        },
    }
}

/// Performs an action on the stores in memory and says what came of it.
/// Removing a reaction and editing a message touch no store.
pub fn perform(stores: &mut Stores, candidates: &Vec<Movie>, action: &Action) -> (reply: Reply)
    ensures
        final(stores)@.menus == old(stores)@.menus,
        final(stores)@.winners == old(stores)@.winners,
        match action@ {
            ActionView::Lookup { location, menu_id } => {
                &&& final(stores)@.votes == old(stores)@.votes
                &&& match find_menu(old(stores)@.menus, location, menu_id) {
                    Some(record) => reply@ == ReplyView::Menu(record.mapping),
                    None => reply@ == ReplyView::Failed(MenuError::MenuNotFound),
                }
            },
            ActionView::Cast { guild_id, voter_id, candidate_id } => {
                &&& final(stores)@.votes == cast_rows(
                    old(stores)@.votes,
                    guild_id,
                    voter_id,
                    candidate_id,
                )
                &&& reply@ == ReplyView::Done
            },
            ActionView::Tally { guild_id } => {
                &&& final(stores)@.votes == old(stores)@.votes
                &&& reply@ == (ReplyView::Tally {
                    candidates: nominated_in(movie_views(candidates@), guild_id),
                    counts: tally_of(guild_rows(old(stores)@.votes, guild_id)),
                })
            },
            _ => final(stores)@.votes == old(stores)@.votes && reply@ == ReplyView::Done,
        },
{
    match action {
        Action::Lookup { location, menu_id } => match stores.menus.lookup(*location, *menu_id) {
            Ok(mapping) => Reply::Menu(mapping),
            Err(error) => Reply::Failed(error),
        },
        Action::Cast { guild_id, voter_id, candidate_id } => {
            stores.votes.cast(*guild_id, *voter_id, *candidate_id);
            Reply::Done
        },
        Action::Tally { guild_id } => {
            let chosen = nominated(candidates, *guild_id);
            let tally = stores.votes.tally(*guild_id);
            Reply::Tally { candidates: chosen, counts: tally }
        },
        _ => Reply::Done,
    }
}

/// How the handling of a reaction ended, and the content that the menu
/// message was edited to, if it was edited.
#[derive(Clone, Debug, PartialEq, Eq)]
pub struct Routed {
    pub outcome: Outcome,
    pub content: Option<String>,
}

/// Handles a reaction on the stores in memory, step by step as the router
/// says.
///
/// A reaction from a bot, one on a message without a live menu and one that
/// the menu does not map change nothing. Any other casts the vote of the
/// reacting user for the candidate that the emoji stands for, and the menu is
/// rendered anew with the tally after that cast.
pub fn menu(stores: &mut Stores, candidates: &Vec<Movie>, context: ReactionContext) -> (routed:
    Routed)
    ensures
        routed.outcome == routed_outcome(old(stores)@.menus, context),
        text_of(routed.content) == routed_content(
            old(stores)@,
            movie_views(candidates@),
            context,
        ),
        final(stores)@.votes == routed_votes(old(stores)@, context),
        final(stores)@.menus == old(stores)@.menus,
        final(stores)@.winners == old(stores)@.winners,
        cast_candidate(old(stores)@.menus, context) is None ==> final(stores)@ == old(stores)@,
{
    let ghost before = stores@;
    let ghost shown = movie_views(candidates@);
    let begun = ReactionRouter::start(context);
    let mut router = begun.0;
    let mut action = begun.1;
    let mut content: Option<String> = None;
    loop
        invariant
            router.context == context,
            before == old(stores)@,
            shown == movie_views(candidates@),
            on_track(before, shown, context, router.phase, action@, stores@, text_of(content)),
        decreases steps_left(router.phase),
    {
        if let Action::Stop(outcome) = &action {
            return Routed { outcome: *outcome, content };
        }
        let reply = perform(stores, candidates, &action);
        if let Action::Edit { content: text, .. } = action {
            content = Some(text);
        }
        let next = router.advance(reply);
        router = next.0;
        action = next.1;
    }
}

/// A reaction whose emoji the live menu does not map leaves the vote table,
/// and with it the tally of every guild, as it was.
pub proof fn lemma_unmapped_reaction_keeps_tally(
    stores: StoresView,
    context: ReactionContext,
    guild_id: u64,
)
    requires
        find_menu(stores.menus, context.reaction.channel_id, context.reaction.message_id)
            matches Some(record) && resolved(record.mapping, context.reaction.emoji@) is None,
    ensures
        routed_votes(stores, context) == stores.votes,
        tally_of(guild_rows(routed_votes(stores, context), guild_id)) == tally_of(
            guild_rows(stores.votes, guild_id),
        ),
{
}

} // verus!
