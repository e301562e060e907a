use vstd::prelude::*;

use crate::discovery::publish_succeeded;

verus! {

/// Budget for discovering the recipient's relays, in seconds.
pub const DISCOVERY_TIMEOUT_SECS: u64 = 10;

/// Budget for one publish attempt, in seconds.
pub const PUBLISH_TIMEOUT_SECS: u64 = 20;

/// Pause between two existence confirmations, in milliseconds.
pub const CONFIRM_DELAY_MS: u64 = 600;

/// Existence confirmations made after publishing to a single-relay pool.
pub const CONFIRM_ATTEMPTS: u32 = 2;

/// Why a send failed.
#[derive(Clone, Copy, Debug, PartialEq, Eq, Structural)]
pub enum SendError {
    /// No session key is bound.
    NotInitialized,
    /// The recipient id is not a valid public key.
    InvalidRecipient,
    /// The pool had no relay and could not be reconnected.
    NoRelaysAvailable,
    /// No relay accepted the event, also after a reconnect and a retry.
    PublishFailed,
    /// The publish attempt ran out of time.
    Timeout,
}

/// Where an outbound send stands.
#[derive(Clone, Copy, Debug, PartialEq, Eq, Structural)]
pub enum SendPhase {
    Idle,
    Discovery,
    EmergencyReconnect,
    Publishing,
    RetryReconnect,
    Done,
    Failed(SendError),
}

/// What the caller must do next.
#[derive(Debug)]
pub enum SendAction {
    /// Look up the recipient's relays, within the discovery budget.
    DiscoverRelays,
    /// Run a reconnect-with-backoff cycle on the pool.
    Reconnect,
    /// Send the event to each of these relays, tracking which acknowledge.
    PublishTo(Vec<String>),
    /// Send the event to the whole pool.
    Broadcast,
    /// Report success; confirm existence in the background when asked.
    Succeed { confirm_in_background: bool },
    /// Report the failure.
    Fail(SendError),
}

/// What came back from the caller's last action.
#[derive(Debug)]
pub enum SendEvent {
    /// The recipient's relays (empty when none were found or the lookup failed), and
    /// how many relays the pool holds.
    Discovered { targets: Vec<String>, pool_size: usize },
    /// A reconnect cycle ended, recovered or not.
    Reconnected(bool),
    /// Per-relay acknowledgements of a targeted publish.
    Acks(Vec<bool>),
    /// The result of a pool-wide broadcast.
    Broadcasted(bool),
    /// The publish attempt exceeded its budget.
    TimedOut,
}

/// The send state machine: phase, the discovered targets, whether the publish was
/// already retried, and the pool size seen at discovery.
pub struct SendMachine {
    pub phase: SendPhase,
    pub targets: Vec<String>,
    pub retried: bool,
    pub pool_size: usize,
}

pub open spec fn any_true(v: Seq<bool>) -> bool {
    exists|i: int| 0 <= i < v.len() && #[trigger] v[i]
}

impl SendMachine {
    /// Starts a send. It fails before any network work when no key is bound or the
    /// recipient id did not parse as a public key.
    pub fn start(key_bound: bool, recipient_valid: bool) -> (r: (SendMachine, SendAction))
        ensures
            !key_bound ==> r.0.phase == SendPhase::Failed(SendError::NotInitialized) && r.1 == SendAction::Fail(
                SendError::NotInitialized,
            ),
            key_bound && !recipient_valid ==> r.0.phase == SendPhase::Failed(SendError::InvalidRecipient)
                && r.1 == SendAction::Fail(SendError::InvalidRecipient),
            key_bound && recipient_valid ==> r.0.phase == SendPhase::Discovery && r.1 == SendAction::DiscoverRelays,
            !r.0.retried,
    {
        let (phase, action) = if !key_bound {
            (SendPhase::Failed(SendError::NotInitialized), SendAction::Fail(SendError::NotInitialized))
        } else if !recipient_valid {
            (SendPhase::Failed(SendError::InvalidRecipient), SendAction::Fail(SendError::InvalidRecipient))
        } else {
            (SendPhase::Discovery, SendAction::DiscoverRelays)
        };
        (SendMachine { phase, targets: Vec::new(), retried: false, pool_size: 0 }, action)
    }

    fn publish_action(&self) -> (r: SendAction)
        ensures
            self.targets@.len() == 0 ==> r == SendAction::Broadcast,
            self.targets@.len() > 0 ==> (r matches SendAction::PublishTo(t) && t@ == self.targets@),
    {
        if self.targets.len() == 0 {
            SendAction::Broadcast
        } else {
            SendAction::PublishTo(crate::text::clone_strings(&self.targets))
        }
    }

    fn published(&mut self) -> (r: SendAction)
        ensures
            final(self).phase == SendPhase::Done,
            r == (SendAction::Succeed { confirm_in_background: old(self).pool_size == 1 }),
            final(self).targets == old(self).targets,
            final(self).retried == old(self).retried,
            final(self).pool_size == old(self).pool_size,
    {
        self.phase = SendPhase::Done;
        SendAction::Succeed { confirm_in_background: self.pool_size == 1 }
    }

    fn publish_failed(&mut self) -> (r: SendAction)
        ensures
            !old(self).retried ==> final(self).phase == SendPhase::RetryReconnect && r == SendAction::Reconnect
                && final(self).retried,
            old(self).retried ==> final(self).phase == SendPhase::Failed(SendError::PublishFailed) && r
                == SendAction::Fail(SendError::PublishFailed),
            final(self).targets == old(self).targets,
            final(self).pool_size == old(self).pool_size,
            final(self).retried,
    {
        if !self.retried {
            self.retried = true;
            self.phase = SendPhase::RetryReconnect;
            SendAction::Reconnect
        } else {
            self.phase = SendPhase::Failed(SendError::PublishFailed);
            SendAction::Fail(SendError::PublishFailed)
        }
    }

    /// Advances the machine with the result of the last action.
    ///
    /// Discovery: an empty pool first needs a reconnect; otherwise the event goes to the
    /// discovered relays, or to the whole pool when none were found. Publishing: any
    /// acknowledgement succeeds; a targeted publish that nobody acknowledged falls back
    /// to a broadcast; a failed broadcast reconnects and retries once. A timeout fails.
    pub fn step(&mut self, event: SendEvent) -> (r: SendAction)
        ensures
            match (old(self).phase, event) {
                (SendPhase::Discovery, SendEvent::Discovered { targets, pool_size }) => {
                    &&& final(self).targets == targets
                    &&& final(self).pool_size == pool_size
                    &&& pool_size == 0 ==> final(self).phase == SendPhase::EmergencyReconnect && r
                        == SendAction::Reconnect
                    &&& pool_size > 0 ==> final(self).phase == SendPhase::Publishing && (if targets@.len() == 0 {
                        r == SendAction::Broadcast
                    } else {
                        (r matches SendAction::PublishTo(t) && t@ == targets@)
                    })
                },
                (SendPhase::EmergencyReconnect, SendEvent::Reconnected(ok)) => {
                    &&& ok ==> final(self).phase == SendPhase::Publishing && (if old(self).targets@.len() == 0 {
                        r == SendAction::Broadcast
                    } else {
                        (r matches SendAction::PublishTo(t) && t@ == old(self).targets@)
                    })
                    &&& !ok ==> final(self).phase == SendPhase::Failed(SendError::NoRelaysAvailable) && r
                        == SendAction::Fail(SendError::NoRelaysAvailable)
                },
                (SendPhase::Publishing, SendEvent::Acks(acks)) => {
                    &&& any_true(acks@) ==> final(self).phase == SendPhase::Done && r == (SendAction::Succeed {
                        confirm_in_background: old(self).pool_size == 1,
                    })
                    &&& !any_true(acks@) ==> final(self).phase == SendPhase::Publishing && r == SendAction::Broadcast
                },
                (SendPhase::Publishing, SendEvent::Broadcasted(ok)) => {
                    &&& ok ==> final(self).phase == SendPhase::Done && r == (SendAction::Succeed {
                        confirm_in_background: old(self).pool_size == 1,
                    })
                    &&& !ok && !old(self).retried ==> final(self).phase == SendPhase::RetryReconnect && r
                        == SendAction::Reconnect
                    &&& !ok && old(self).retried ==> final(self).phase == SendPhase::Failed(SendError::PublishFailed)
                        && r == SendAction::Fail(SendError::PublishFailed)
                },
                (SendPhase::Publishing, SendEvent::TimedOut) => {
                    &&& final(self).phase == SendPhase::Failed(SendError::Timeout)
                    &&& r == SendAction::Fail(SendError::Timeout)
                },
                (SendPhase::RetryReconnect, SendEvent::Reconnected(ok)) => {
                    &&& ok ==> final(self).phase == SendPhase::Publishing && (if old(self).targets@.len() == 0 {
                        r == SendAction::Broadcast
                    } else {
                        (r matches SendAction::PublishTo(t) && t@ == old(self).targets@)
                    })
                    &&& !ok ==> final(self).phase == SendPhase::Failed(SendError::PublishFailed) && r
                        == SendAction::Fail(SendError::PublishFailed)
                },
                (SendPhase::Done, _) => final(self).phase == SendPhase::Done && r == (SendAction::Succeed {
                    confirm_in_background: old(self).pool_size == 1,
                }),
                (SendPhase::Failed(e), _) => final(self).phase == SendPhase::Failed(e) && r == SendAction::Fail(e),
                _ => final(self).phase == old(self).phase && r == SendAction::Fail(SendError::PublishFailed),
            },
            !(old(self).phase == SendPhase::Discovery && event is Discovered) ==> final(self).targets == old(
                self,
            ).targets && final(self).pool_size == old(self).pool_size,
            final(self).retried == (old(self).retried || (old(self).phase == SendPhase::Publishing
                && final(self).phase == SendPhase::RetryReconnect)),
    {
        match (self.phase, event) {
            (SendPhase::Discovery, SendEvent::Discovered { targets, pool_size }) => {
                self.targets = targets;
                self.pool_size = pool_size;
                if pool_size == 0 {
                    self.phase = SendPhase::EmergencyReconnect;
                    SendAction::Reconnect
                } else {
                    self.phase = SendPhase::Publishing;
                    self.publish_action()
                }
            },
            (SendPhase::EmergencyReconnect, SendEvent::Reconnected(ok)) => {
                if ok {
                    self.phase = SendPhase::Publishing;
                    self.publish_action()
                } else {
                    self.phase = SendPhase::Failed(SendError::NoRelaysAvailable);
                    SendAction::Fail(SendError::NoRelaysAvailable)
                }
            },
            (SendPhase::Publishing, SendEvent::Acks(acks)) => {
                if publish_succeeded(&acks) {
                    self.published()
                } else {
                    SendAction::Broadcast
                }
            },
            (SendPhase::Publishing, SendEvent::Broadcasted(ok)) => {
                if ok {
                    self.published()
                } else {
                    self.publish_failed()
                }
            },
            (SendPhase::Publishing, SendEvent::TimedOut) => {
                self.phase = SendPhase::Failed(SendError::Timeout);
                SendAction::Fail(SendError::Timeout)
            },
            (SendPhase::RetryReconnect, SendEvent::Reconnected(ok)) => {
                if ok {
                    self.phase = SendPhase::Publishing;
                    self.publish_action()
                } else {
                    self.phase = SendPhase::Failed(SendError::PublishFailed);
                    SendAction::Fail(SendError::PublishFailed)
                }
            },
            (SendPhase::Done, _) => SendAction::Succeed { confirm_in_background: self.pool_size == 1 },
            (SendPhase::Failed(e), _) => SendAction::Fail(e),
            _ => SendAction::Fail(SendError::PublishFailed),
        }
    }
}

/// What the background confirmation of a published event does next.
#[derive(Clone, Copy, Debug, PartialEq, Eq, Structural)]
pub enum ConfirmAction {
    /// The event was seen: stop.
    Confirmed,
    /// Wait this many milliseconds and look again.
    LookAgainAfter(u64),
    /// Still unseen after every look: publish once more, then stop.
    Republish,
}

/// The decision after look `attempt` (counted from 1) did or did not find the event.
pub fn after_confirmation(attempt: u32, found: bool) -> (r: ConfirmAction)
    requires
        1 <= attempt <= CONFIRM_ATTEMPTS,
    ensures
        found ==> r == ConfirmAction::Confirmed,
        !found && attempt < CONFIRM_ATTEMPTS ==> r == ConfirmAction::LookAgainAfter(CONFIRM_DELAY_MS),
        !found && attempt == CONFIRM_ATTEMPTS ==> r == ConfirmAction::Republish,
{
    if found {
        ConfirmAction::Confirmed
    } else if attempt < CONFIRM_ATTEMPTS {
        ConfirmAction::LookAgainAfter(CONFIRM_DELAY_MS)
    } else {
        ConfirmAction::Republish
    }
}

} // verus!
