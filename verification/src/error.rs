//! The failures a relay command can end in.

use vstd::prelude::*;

verus! {

/// Why a relay command was not carried out.
#[derive(Debug, Clone, Copy, PartialEq, Eq, Structural)]
pub enum AudioCommandError {
    /// The hosting slot has no relay session registered.
    AudioTxNotFound,
    /// A relay endpoint is hosted by no slot, or both endpoints are one slot.
    ChannelNotFound,
    /// Every slot already holds a connection for the guild.
    BotUsedFull,
    /// The command loop has stopped.
    ProviderDropped,
    /// The platform failed in a way that is not classified further.
    UnknownError,
}

impl AudioCommandError {
    /// The text shown for each failure.
    pub open spec fn describe(self) -> Seq<char> {
        match self {
            AudioCommandError::AudioTxNotFound => "AudioTx not found"@,
            AudioCommandError::ChannelNotFound => "Channel not found"@,
            AudioCommandError::BotUsedFull => "All bots joined to channel"@,
            AudioCommandError::ProviderDropped => "AudioServiceProvider doropped"@,
            AudioCommandError::UnknownError => "Unknown"@,
        }
    }

    /// Renders the failure as text.
    pub fn message(&self) -> (text: String)
        ensures
            text@ == self.describe(),
    {
        match self {
            AudioCommandError::AudioTxNotFound => "AudioTx not found".to_owned(),
            AudioCommandError::ChannelNotFound => "Channel not found".to_owned(),
            AudioCommandError::BotUsedFull => "All bots joined to channel".to_owned(),
            AudioCommandError::ProviderDropped => "AudioServiceProvider doropped".to_owned(),
            AudioCommandError::UnknownError => "Unknown".to_owned(),
        }
    }
}

} // verus!
