//! Reaction menus, by kind.

use crate::error::MenuError;
use crate::model::ReactionContext;
use crate::reactions::movie_votes::{menu_mapping, rendered, resolved};
use crate::registry::{kind_name, mapping_view, opened, MenuKind, MenuRecordView};
use crate::commands::movie::nominated_in;
use crate::stores::Stores;
use crate::table::{movie_views, Movie};
use crate::votes::cast_rows;
use vstd::prelude::*;

pub mod movie_votes;

verus! {

/// Opens a menu of the kind named `menu_type`, on the stores in memory, and
/// returns its rendered content. A name that stands for no kind of menu
/// opens nothing.
pub fn create_menu(
    stores: &mut Stores,
    candidates: &Vec<Movie>,
    channel_id: u64,
    guild_id: u64,
    menu_id: u64,
    menu_type: &str,
) -> (content: Option<String>)
    ensures
        final(stores)@.votes == old(stores)@.votes,
        final(stores)@.winners == old(stores)@.winners,
        match content {
            Some(text) => {
                &&& menu_type@ == kind_name(MenuKind::MovieVotes)
                &&& text@ == rendered(movie_views(candidates@), old(stores)@.votes, guild_id)
                &&& final(stores)@.menus == opened(
                    old(stores)@.menus,
                    MenuRecordView {
                        location: channel_id,
                        menu_id,
                        kind: MenuKind::MovieVotes,
                        mapping: menu_mapping(nominated_in(movie_views(candidates@), guild_id)),
                    },
                )
            },
            None => {
                &&& menu_type@ != kind_name(MenuKind::MovieVotes)
                &&& final(stores)@.menus == old(stores)@.menus
            },
        },
{
    match MenuKind::parse(menu_type) {
        Some(MenuKind::MovieVotes) => Some(
            movie_votes::create_menu(stores, candidates, channel_id, guild_id, menu_id),
        ),
        None => None,
    }
}

/// Handles a reaction to a menu of the kind named `menu_type`, on the stores
/// in memory, and returns the content that the menu then shows. A name that
/// stands for no kind of menu is handled by doing nothing, and an emoji that
/// the mapping does not hold casts no vote; neither is a failure.
pub fn handle_event(
    stores: &mut Stores,
    candidates: &Vec<Movie>,
    mapping: &Vec<(String, i32)>,
    context: &ReactionContext,
    menu_type: &str,
) -> (content: Result<Option<String>, MenuError>)
    ensures
        final(stores)@.menus == old(stores)@.menus,
        final(stores)@.winners == old(stores)@.winners,
        content matches Ok(shown) && if menu_type@ == kind_name(MenuKind::MovieVotes) {
            &&& shown matches Some(text) && text@ == rendered(
                movie_views(candidates@),
                final(stores)@.votes,
                context.reaction.guild_id,
            )
            &&& final(stores)@.votes == match resolved(
                mapping_view(mapping@),
                context.reaction.emoji@,
            ) {
                Some(candidate_id) => cast_rows(
                    old(stores)@.votes,
                    context.reaction.guild_id,
                    context.reaction.user_id,
                    candidate_id,
                ),
                None => old(stores)@.votes,
            }
        } else {
            &&& shown is None
            &&& final(stores)@.votes == old(stores)@.votes
        },
{
    match MenuKind::parse(menu_type) {
        Some(MenuKind::MovieVotes) => {
            match movie_votes::handle_event(stores, candidates, mapping, context) {
                Ok(text) => Ok(Some(text)),
                Err(error) => Err(error),
            }
        },
        None => Ok(None),
    }
}

} // verus!
