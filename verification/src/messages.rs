//! The texts that the bridge sends: announcements for the chat channel, the
//! bot's presence, the channel topic, and the line broadcast into the game.

use crate::decimal::{decimal, push_decimal, push_signed_decimal, signed_decimal};
use vstd::prelude::*;
use vstd::string::*;

verus! {

/// The announcement that `name` joined.
pub open spec fn joined_text(name: Seq<char>) -> Seq<char> {
    name + " joined the game"@
}

/// The announcement that `name` left.
pub open spec fn left_text(name: Seq<char>) -> Seq<char> {
    name + " left the game"@
}

/// The presence text for `count` players out of `max_players`.
pub open spec fn presence_text(count: nat, max_players: int) -> Seq<char> {
    "Terraria: "@ + decimal(count) + "/"@ + signed_decimal(max_players) + " online"@
}

/// The channel topic for the world `world` with `count` players out of
/// `max_players`.
pub open spec fn topic_text(world: Seq<char>, count: nat, max_players: int) -> Seq<char> {
    world + " | Players online: "@ + decimal(count) + "/"@ + signed_decimal(max_players)
}

/// The line broadcast into the game for a chat message `content` whose sender
/// is shown as `display_name`.
pub open spec fn broadcast_text(display_name: Seq<char>, content: Seq<char>) -> Seq<char> {
    "("@ + display_name + ") "@ + content
}

/// The name under which a sender is shown: the nickname of the channel where
/// there is one, the account's name otherwise.
pub open spec fn shown_name(nickname: Option<Seq<char>>, account_name: Seq<char>) -> Seq<char> {
    match nickname {
        Some(nick) => nick,
        None => account_name,
    }
}

/// The nickname as text, where there is one.
pub open spec fn nickname_view(nickname: Option<String>) -> Option<Seq<char>> {
    match nickname {
        Some(nick) => Some(nick@),
        None => None,
    }
}

/// Builds the announcement that `name` joined.
pub fn join_message(name: &str) -> (text: String)
    ensures
        text@ == joined_text(name@),
{
    let mut text = String::from_str(name);
    text.append(" joined the game");
    text
}

/// Builds the announcement that `name` left.
pub fn leave_message(name: &str) -> (text: String)
    ensures
        text@ == left_text(name@),
{
    let mut text = String::from_str(name);
    text.append(" left the game");
    text
}

/// Builds the presence text for `count` players out of `max_players`.
pub fn presence_message(count: usize, max_players: i32) -> (text: String)
    ensures
        text@ == presence_text(count as nat, max_players as int),
{
    let mut text = String::from_str("Terraria: ");
    push_decimal(&mut text, count as u64);
    text.append("/");
    push_signed_decimal(&mut text, max_players);
    text.append(" online");
    text
}

/// Builds the channel topic for the world `world` with `count` players out of
/// `max_players`.
pub fn topic_message(world: &str, count: usize, max_players: i32) -> (text: String)
    ensures
        text@ == topic_text(world@, count as nat, max_players as int),
{
    let mut text = String::from_str(world);
    text.append(" | Players online: ");
    push_decimal(&mut text, count as u64);
    text.append("/");
    push_signed_decimal(&mut text, max_players);
    text
}

/// Picks the name under which a sender is shown.
pub fn display_name(nickname: Option<String>, account_name: String) -> (name: String)
    ensures
        name@ == shown_name(nickname_view(nickname), account_name@),
        nickname is None ==> name@ == account_name@,
{
    match nickname {
        Some(nick) => nick,
        None => account_name,
    }
}

/// Builds the line broadcast into the game for a chat message.
pub fn broadcast_message(display_name: &str, content: &str) -> (text: String)
    ensures
        text@ == broadcast_text(display_name@, content@),
{
    let mut text = String::from_str("(");
    text.append(display_name);
    text.append(") ");
    text.append(content);
    text
}

} // verus!
