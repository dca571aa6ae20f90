//! The events and contexts that the voting logic works on.

use vstd::prelude::*;

verus! {

/// The emoji of a reaction: a unicode emoji by its text, or a custom emoji
/// of a guild by its identifier.
#[derive(Clone, Debug, PartialEq, Eq)]
pub enum ReactionEmoji {
    Unicode { name: String },
    Custom { id: u64 },
}

/// What a `ReactionEmoji` holds, with its text as a sequence of characters.
pub enum ReactionEmojiView {
    Unicode { name: Seq<char> },
    Custom { id: u64 },
}

impl View for ReactionEmoji {
    type V = ReactionEmojiView;

    open spec fn view(&self) -> ReactionEmojiView {
        match self {
            ReactionEmoji::Unicode { name } => ReactionEmojiView::Unicode { name: name@ },
            ReactionEmoji::Custom { id } => ReactionEmojiView::Custom { id: *id },
        }
    }
}

impl ReactionEmoji {
    /// A copy that holds the same emoji.
    pub fn duplicate(&self) -> (copy: ReactionEmoji)
        ensures
            copy@ == self@,
    {
        match self {
            ReactionEmoji::Unicode { name } => ReactionEmoji::Unicode { name: name.clone() },
            ReactionEmoji::Custom { id } => ReactionEmoji::Custom { id: *id },
        }
    }
}

/// A reaction that a user added to a message of a guild channel.
#[derive(Clone, Debug, PartialEq, Eq)]
pub struct ReactionAdd {
    pub channel_id: u64,
    pub message_id: u64,
    pub guild_id: u64,
    pub user_id: u64,
    pub emoji: ReactionEmoji,
    /// Whether the reacting user is a bot account.
    pub bot: bool,
}

/// A reaction event together with what is known of the running bot.
#[derive(Clone, Debug, PartialEq, Eq)]
pub struct ReactionContext {
    /// The user that the bot itself runs as.
    pub current_user: u64,
    pub reaction: ReactionAdd,
}

impl ReactionContext {
    pub fn new(current_user: u64, reaction: ReactionAdd) -> (context: ReactionContext)
        ensures
            context.current_user == current_user,
            context.reaction == reaction,
    {
        ReactionContext { current_user, reaction }
    }

    /// Whether the reaction comes from a bot: from the running bot itself, or
    /// from an account that is marked as one.
    pub open spec fn from_bot(&self) -> bool {
        self.reaction.bot || self.reaction.user_id == self.current_user
    }

    /// Whether the reaction comes from a bot.
    pub fn is_from_bot(&self) -> (bot: bool)
        ensures
            bot == self.from_bot(),
    {
        self.reaction.bot || self.reaction.user_id == self.current_user
    }
}

/// The two answers to a confirmation prompt.
#[derive(Clone, Copy, Debug, PartialEq, Eq, Structural)]
pub enum ResponseReaction {
    Success,
    Failure,
}

impl ResponseReaction {
    /// The identifier of the custom emoji that stands for the answer.
    pub open spec fn emoji_id(self) -> u64 {
        match self {
            ResponseReaction::Success => 726252875696570368,
            ResponseReaction::Failure => 726253240806670367,
        }
    }

    /// The name of the custom emoji that stands for the answer.
    pub open spec fn emoji_name(self) -> Seq<char> {
        match self {
            ResponseReaction::Success => "yeah"@,
            ResponseReaction::Failure => "nah"@,
        }
    }

    /// The identifier of the custom emoji that stands for the answer.
    pub fn id(&self) -> (id: u64)
        ensures
            id == self.emoji_id(),
            id != 0,
    {
        match self {
            ResponseReaction::Success => 726252875696570368,
            ResponseReaction::Failure => 726253240806670367,
        }
    }

    /// The name of the custom emoji that stands for the answer.
    pub fn name(&self) -> (name: &'static str)
        ensures
            name@ == self.emoji_name(),
    {
        match self {
            ResponseReaction::Success => "yeah",
            ResponseReaction::Failure => "nah",
        }
    }

    /// The custom emoji that stands for the answer.
    pub fn value(&self) -> (emoji: ReactionEmoji)
        ensures
            emoji@ == (ReactionEmojiView::Custom { id: self.emoji_id() }),
    {
        ReactionEmoji::Custom { id: self.id() }
    }

    /// Reads the answer to a confirmation prompt from the emoji that its
    /// author reacted with: only the custom emoji of `Success` confirms.
    pub fn confirms(emoji: &ReactionEmoji) -> (yes: bool)
        ensures
            yes == (emoji@ == ReactionEmojiView::Custom {
                id: ResponseReaction::Success.emoji_id(),
            }),
    {
        match emoji {
            ReactionEmoji::Custom { id } => *id == ResponseReaction::Success.id(),
            ReactionEmoji::Unicode { .. } => false,
        }
    }
}

/// The roles that a guild can require for a family of commands.
#[derive(Clone, Copy, Debug, PartialEq, Eq, Structural)]
pub enum SettingRole {
    Movies,
}

impl SettingRole {
    /// The name of the role as it is shown to members.
    pub fn name(&self) -> (name: &'static str)
        ensures
            name@ == "movies"@,
    {
        match self {
            SettingRole::Movies => "movies",
        }
    }
}

} // verus!
