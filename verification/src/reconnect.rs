//! Reconnecting the Twitch chat session: after a session ends, whether to
//! connect again, what the chat is told, and how long to wait first, the
//! waits coming from an exponential backoff.

use vstd::prelude::*;
use backoff::backoff::Backoff;
use crate::model::{ChatMessage, MessageType, ProviderName, UserProfile};

verus! {

#[verifier::external_type_specification]
#[verifier::external_body]
#[verifier::reject_recursive_types(C)]
pub struct ExExponentialBackoff<C>(backoff::exponential::ExponentialBackoff<C>);

#[verifier::external_type_specification]
#[verifier::external_body]
pub struct ExSystemClock(backoff::SystemClock);

/// The next wait of the backoff, in milliseconds; none when it gives up.
///
/// Calls `Backoff::next_backoff` of `ExponentialBackoff`. The wait depends on
/// the time since the backoff started and on chance, so nothing is stated of
/// it.
#[verifier::external_body]
fn next_wait_ms(b: &mut backoff::exponential::ExponentialBackoff<backoff::SystemClock>) -> (r: Option<u64>) {
    b.next_backoff().map(|d| d.as_millis() as u64)
}

/// Starts the backoff over from its first wait.
///
/// Calls `Backoff::reset` of `ExponentialBackoff`; nothing of the backoff is
/// visible to the contract.
#[verifier::external_body]
fn reset_backoff(b: &mut backoff::exponential::ExponentialBackoff<backoff::SystemClock>) {
    b.reset()
}

/// How a chat session ended.
#[derive(Clone, Copy, Debug, PartialEq, Eq, Structural)]
pub enum SessionEnd {
    /// The user quit: no new session.
    Quit,
    /// The connection was lost after it was made.
    Lost,
    /// The connection could not be made.
    Failed,
}

/// What the chat is told before a new session.
#[derive(Clone, Copy, Debug, PartialEq, Eq, Structural)]
pub enum ReconnectNotice {
    LostConnection,
    FailedToReconnect,
}

/// What follows the end of a session.
#[derive(Clone, Copy, Debug, PartialEq, Eq, Structural)]
pub enum ReconnectAction {
    Stop,
    /// Tell the chat, wait the given milliseconds (when the backoff gave a
    /// wait), and connect again.
    Retry { notice: ReconnectNotice, wait_ms: Option<u64> },
}

/// The reconnection policy of the chat session.
pub struct ReconnectPolicy {
    backoff: backoff::exponential::ExponentialBackoff<backoff::SystemClock>,
}

impl ReconnectPolicy {
    /// A policy drawing its waits from the given backoff.
    pub fn new(backoff: backoff::exponential::ExponentialBackoff<backoff::SystemClock>) -> (r: Self) {
        ReconnectPolicy { backoff }
    }

    /// The wait taken before the next session, drawn before it starts.
    pub fn begin_attempt(&mut self) -> (r: Option<u64>) {
        next_wait_ms(&mut self.backoff)
    }

    /// What follows a session that ended, given the wait drawn before it: a
    /// quit stops; a lost connection starts the backoff over, tells the chat
    /// the connection was lost and retries; a failed connection tells the
    /// chat and retries. Either retry waits the wait drawn before the session.
    pub fn session_ended(&mut self, end: SessionEnd, wait_ms: Option<u64>) -> (r: ReconnectAction)
        ensures
            r == match end {
                SessionEnd::Quit => ReconnectAction::Stop,
                SessionEnd::Lost => ReconnectAction::Retry { notice: ReconnectNotice::LostConnection, wait_ms },
                SessionEnd::Failed => ReconnectAction::Retry { notice: ReconnectNotice::FailedToReconnect, wait_ms },
            },
    {
        match end {
            SessionEnd::Quit => ReconnectAction::Stop,
            SessionEnd::Lost => {
                reset_backoff(&mut self.backoff);
                let _ = next_wait_ms(&mut self.backoff);
                ReconnectAction::Retry { notice: ReconnectNotice::LostConnection, wait_ms }
            },
            SessionEnd::Failed => ReconnectAction::Retry { notice: ReconnectNotice::FailedToReconnect, wait_ms },
        }
    }
}

/// A line the client writes into a chat itself: from no user, at the given
/// time, with no profile, combo or removal.
pub open spec fn is_system_line(
    m: ChatMessage,
    now: i64,
    channel: String,
    provider: ProviderName,
    text: String,
    msg_type: MessageType,
) -> bool {
    &&& m.provider == provider
    &&& m.channel == channel
    &&& m.username@.len() == 0
    &&& m.timestamp == now
    &&& m.message == text
    &&& m.profile.badges is None && m.profile.display_name is None && m.profile.color is None
    &&& m.combo_data is None
    &&& m.is_removed is None
    &&& m.msg_type == msg_type
}

/// A line the client writes into a chat itself.
pub fn system_line(now: i64, channel: String, provider: ProviderName, text: String, msg_type: MessageType) -> (r: ChatMessage)
    ensures
        is_system_line(r, now, channel, provider, text, msg_type),
{
    ChatMessage {
        provider,
        channel,
        username: String::new(),
        timestamp: now,
        message: text,
        profile: UserProfile { badges: None, display_name: None, color: None },
        combo_data: None,
        is_removed: None,
        msg_type,
    }
}

} // verus!
