//! The settings of a session and their validation.
//!
//! The settings arrive as text. A session starts only when the channel
//! identifier is a number and the base URL of the game server is an absolute
//! URL.

use crate::decimal::{parse_u64, parsed_u64};
use crate::endpoints::{is_absolute_url, url_parses};
use vstd::prelude::*;
use vstd::string::*;

verus! {

/// The settings as they are read, all text.
#[derive(Debug, Clone)]
pub struct Settings {
    pub discord_token: String,
    pub tshock_token: String,
    pub tshock_url: String,
    pub discord_channel: String,
}

/// The settings of a session, validated.
#[derive(Debug, Clone)]
pub struct SessionConfig {
    pub chat_token: String,
    pub game_token: String,
    pub game_base_url: String,
    pub chat_channel_id: u64,
}

/// Why settings were turned down.
#[derive(Debug, Clone, Copy, PartialEq, Eq)]
pub enum SettingsError {
    /// The channel identifier is not a 64-bit unsigned number in decimal
    /// notation.
    InvalidChannelId,
    /// The base URL of the game server is not an absolute URL.
    InvalidBaseUrl,
}

/// The content of [`Settings`].
pub struct SettingsView {
    pub discord_token: Seq<char>,
    pub tshock_token: Seq<char>,
    pub tshock_url: Seq<char>,
    pub discord_channel: Seq<char>,
}

/// The content of a [`SessionConfig`].
pub struct SessionConfigView {
    pub chat_token: Seq<char>,
    pub game_token: Seq<char>,
    pub game_base_url: Seq<char>,
    pub chat_channel_id: u64,
}

impl View for Settings {
    type V = SettingsView;

    open spec fn view(&self) -> SettingsView {
        SettingsView {
            discord_token: self.discord_token@,
            tshock_token: self.tshock_token@,
            tshock_url: self.tshock_url@,
            discord_channel: self.discord_channel@,
        }
    }
}

impl View for SessionConfig {
    type V = SessionConfigView;

    open spec fn view(&self) -> SessionConfigView {
        SessionConfigView {
            chat_token: self.chat_token@,
            game_token: self.game_token@,
            game_base_url: self.game_base_url@,
            chat_channel_id: self.chat_channel_id,
        }
    }
}

/// The validated settings, given whether the base URL is an absolute URL. The
/// channel identifier is looked at first.
pub open spec fn validated(settings: SettingsView, url_is_absolute: bool) -> Result<
    SessionConfigView,
    SettingsError,
> {
    match parsed_u64(settings.discord_channel) {
        None => Err(SettingsError::InvalidChannelId),
        Some(channel) => if url_is_absolute {
            Ok(
                SessionConfigView {
                    chat_token: settings.discord_token,
                    game_token: settings.tshock_token,
                    game_base_url: settings.tshock_url,
                    chat_channel_id: channel,
                },
            )
        } else {
            Err(SettingsError::InvalidBaseUrl)
        },
    }
}

/// The content of the result of a validation.
pub open spec fn result_view(result: Result<SessionConfig, SettingsError>) -> Result<
    SessionConfigView,
    SettingsError,
> {
    match result {
        Ok(config) => Ok(config@),
        Err(error) => Err(error),
    }
}

/// Validates settings, given whether their base URL is an absolute URL.
pub fn validate_with(settings: Settings, url_is_absolute: bool) -> (result: Result<
    SessionConfig,
    SettingsError,
>)
    ensures
        result_view(result) == validated(settings@, url_is_absolute),
{
    match parse_u64(settings.discord_channel.as_str()) {
        None => Err(SettingsError::InvalidChannelId),
        Some(channel) => if url_is_absolute {
            Ok(
                SessionConfig {
                    chat_token: settings.discord_token,
                    game_token: settings.tshock_token,
                    game_base_url: settings.tshock_url,
                    chat_channel_id: channel,
                },
            )
        } else {
            Err(SettingsError::InvalidBaseUrl)
        },
    }
}

/// Validates settings.
///
/// The result is a session's configuration with the tokens and the base URL
/// as they were given and the channel identifier as a number, or the first of
/// the two errors that applies: the channel identifier is looked at before the
/// base URL.
pub fn validate(settings: Settings) -> (result: Result<SessionConfig, SettingsError>)
    ensures
        result_view(result) == validated(settings@, url_parses(settings.tshock_url@)),
{
    let url_is_absolute: bool = is_absolute_url(settings.tshock_url.as_str());
    validate_with(settings, url_is_absolute)
}

impl SettingsError {
    /// The text that tells a person what is wrong.
    pub open spec fn description(self) -> Seq<char> {
        match self {
            SettingsError::InvalidChannelId => "Failed to parse channel ID"@,
            SettingsError::InvalidBaseUrl => "Failed to parse TShock URL"@,
        }
    }

    /// Builds the text that tells a person what is wrong.
    pub fn describe(&self) -> (text: String)
        ensures
            text@ == self.description(),
    {
        match self {
            SettingsError::InvalidChannelId => String::from_str("Failed to parse channel ID"),
            SettingsError::InvalidBaseUrl => String::from_str("Failed to parse TShock URL"),
        }
    }
}

} // verus!
