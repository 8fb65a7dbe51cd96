//! Relaying chat messages into the game.
//!
//! Every message that a person posts in the monitored channel is broadcast
//! into the game, tagged with the name under which the sender is shown in the
//! channel. A message is relayed once: a broadcast that fails is not repeated.

use crate::endpoints::{broadcast, broadcast_call, ApiCall};
use crate::messages::{
    broadcast_message, broadcast_text, display_name, nickname_view, shown_name,
};
use vstd::prelude::*;

verus! {

/// Whether a message posted in `message_channel` is relayed: it is when the
/// channel is the monitored one and the author is not a bot.
pub fn should_relay(monitored_channel: u64, message_channel: u64, author_is_bot: bool) -> (relay:
    bool)
    ensures
        relay == (message_channel == monitored_channel && !author_is_bot),
{
    message_channel == monitored_channel && !author_is_bot
}

/// Builds the call that relays one chat message into the game.
///
/// The line that is broadcast is the sender's name in round brackets, a blank
/// and the message's text. The name is the sender's nickname in the channel
/// or, where the sender has none, the account's name as it is.
pub fn relay_call(
    token: &str,
    nickname: Option<String>,
    account_name: String,
    content: &str,
) -> (call: ApiCall)
    ensures
        call@ == broadcast_call(
            token@,
            broadcast_text(shown_name(nickname_view(nickname), account_name@), content@),
        ),
        nickname is None ==> call@ == broadcast_call(
            token@,
            "("@ + account_name@ + ") "@ + content@,
        ),
{
    let name = display_name(nickname, account_name);
    let line = broadcast_message(name.as_str(), content);
    broadcast(token, line.as_str())
}

} // verus!
