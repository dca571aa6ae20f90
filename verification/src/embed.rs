//! The menu as a message embed, built by `twilight_embed_builder`.

use crate::error::MenuError;
use twilight_embed_builder::{EmbedBuilder, EmbedError};
use twilight_model::channel::embed::Embed;
use vstd::prelude::*;

verus! {

/// `twilight_model::channel::embed::Embed`, handed on to whoever sends the
/// message. Nothing is claimed of what it holds.
#[verifier::external_type_specification]
#[verifier::external_body]
pub struct ExEmbed(Embed);

/// `twilight_embed_builder::EmbedError`, carried from the builder to where it
/// is mapped to a failure of this library. Nothing is claimed of what it
/// holds.
#[verifier::external_type_specification]
#[verifier::external_body]
pub struct ExEmbedError(EmbedError);

/// The most characters that the description of an embed may hold.
pub const DESCRIPTION_LIMIT: usize = 4096;

/// `EmbedBuilder::new`, `description` and `build` in a row. Trusted: with
/// nothing set but the description, `build` gives an embed exactly when the
/// description is not empty and holds at most 4096 characters.
#[verifier::external_body]
fn build_embed(description: String) -> (embed: Result<Embed, EmbedError>)
    ensures
        embed is Ok <==> 0 < description@.len() <= 4096,
{
    EmbedBuilder::new().description(description).build()
}

/// The embed that shows a rendered menu as its description, or
/// `ContentRejected` where the content is empty or holds more characters
/// than a description may.
pub fn menu_embed(description: String) -> (embed: Result<Embed, MenuError>)
    ensures
        embed is Ok <==> 0 < description@.len() <= DESCRIPTION_LIMIT,
        embed matches Err(error) ==> error == MenuError::ContentRejected,
{
    match build_embed(description) {
        Ok(embed) => Ok(embed),
        Err(_) => Err(MenuError::ContentRejected),
    }
}

} // verus!
