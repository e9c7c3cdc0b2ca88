//! The exchange of the trust center's link key for one of this node's own.
//!
//! Request key, receive it, prove knowledge of it, have it confirmed. Each request
//! is made up to three times.

use vstd::prelude::*;

use crate::bdb::behavior::BaseDeviceBehavior;
use crate::bdb::behavior::BdbState;
use crate::bdb::tables::KeyTable;
use crate::bdb::types::BdbCommissioningStatus;
use crate::bdb::types::Command;
use crate::bdb::types::DeviceKeyPairDescriptor;
use crate::bdb::types::IeeeAddress;
use crate::bdb::types::NetworkError;
use crate::bdb::types::ShortAddress;
use crate::bdb::types::TransportKey;
use crate::bytes::put_le;
use crate::bytes::Le;

verus! {

/// How often a request is made before the exchange is given up.
pub const BDBC_TC_LINK_KEY_EXCHANGE_ATTEMPTS_MAX: u8 = 3;

/// How often to poll for the answer to a request.
pub const BDBC_TC_LINK_KEY_EXCHANGE_POLL_RETRIES: u8 = 15;

/// How far an exchange has come.
#[derive(Clone, Copy, Debug, PartialEq, Eq)]
pub enum ExchangePhase {
    /// The key is being requested.
    Requesting { attempts: u8 },
    /// The key was requested this often.
    AwaitingKey { attempts: u8 },
    /// The hash of the new key is being computed.
    Hashing,
    /// The hash is being sent.
    Verifying { attempts: u8, hash: [u8; 16] },
    /// The hash was sent this often.
    AwaitingConfirm { attempts: u8, hash: [u8; 16] },
}

/// What is to be done next.
#[derive(Clone, Copy, Debug, PartialEq, Eq)]
pub enum ExchangeAction {
    /// Send a command, secured, to the trust center.
    SendCommand { destination: ShortAddress, destination_ieee: IeeeAddress, command: Command },
    /// Poll for a command.
    PollCommand { retries: u8 },
    /// Compute the keyed hash of `input`.
    HashKey { key: [u8; 16], input: [u8; 9] },
}

/// What came of the last action.
#[derive(Clone, Copy, Debug, PartialEq, Eq)]
pub enum ExchangeEvent {
    Sent(Result<(), NetworkError>),
    Polled(Result<Command, NetworkError>),
    /// The hash, if it could be computed.
    Hashed(Option<[u8; 16]>),
}

/// How the exchange goes on.
#[derive(Clone, Copy, Debug, PartialEq, Eq)]
pub enum ExchangeStep {
    Act(ExchangePhase, ExchangeAction),
    Done(Result<(), NetworkError>),
}

impl ExchangePhase {
    /// Attempts are counted up to the limit.
    pub open spec fn wf(self) -> bool {
        match self {
            ExchangePhase::Requesting { attempts } | ExchangePhase::Verifying { attempts, .. } => {
                attempts < BDBC_TC_LINK_KEY_EXCHANGE_ATTEMPTS_MAX
            },
            ExchangePhase::AwaitingKey { attempts } | ExchangePhase::AwaitingConfirm {
                attempts,
                ..
            } => 1 <= attempts <= BDBC_TC_LINK_KEY_EXCHANGE_ATTEMPTS_MAX,
            ExchangePhase::Hashing => true,
        }
    }

    /// The event is what this phase waits for.
    pub open spec fn expects(self, event: ExchangeEvent) -> bool {
        match self {
            ExchangePhase::Requesting { .. } | ExchangePhase::Verifying { .. } => event is Sent,
            ExchangePhase::AwaitingKey { .. } | ExchangePhase::AwaitingConfirm { .. } => {
                event is Polled
            },
            ExchangePhase::Hashing => event is Hashed,
        }
    }

    /// How many events can still come, at most.
    pub open spec fn remaining(self) -> int {
        let max = BDBC_TC_LINK_KEY_EXCHANGE_ATTEMPTS_MAX;
        match self {
            ExchangePhase::Requesting { attempts } => 2 * (max - attempts) + 2 * max + 1,
            ExchangePhase::AwaitingKey { attempts } => 2 * (max - attempts) + 2 * max + 2,
            ExchangePhase::Hashing => 2 * max + 1,
            ExchangePhase::Verifying { attempts, .. } => 2 * (max - attempts),
            ExchangePhase::AwaitingConfirm { attempts, .. } => 2 * (max - attempts) + 1,
        }
    }
}

/// Specification functions of the exchange.
pub struct Exchange;

impl Exchange {
    /// Send a command to the trust center.
    pub open spec fn send(state: BdbState, command: Command) -> ExchangeAction {
        ExchangeAction::SendCommand {
            destination: ShortAddress(0x0000),
            destination_ieee: state.trust_center_address,
            command,
        }
    }

    pub open spec fn poll() -> ExchangeAction {
        ExchangeAction::PollCommand { retries: BDBC_TC_LINK_KEY_EXCHANGE_POLL_RETRIES }
    }

    /// The command that proves knowledge of the key.
    pub open spec fn verify(state: BdbState, hash: [u8; 16]) -> Command {
        Command::VerifyKey {
            key_type: 0x04,
            source_address: state.nib.ieee_address,
            hash,
        }
    }

    /// What is hashed: 3, then this node's unique address.
    pub open spec fn hash_input(state: BdbState) -> Seq<u8> {
        seq![0x03u8] + Le::bytes(state.nib.ieee_address.0 as nat, 8)
    }

    /// The error that ends the exchange at once: the network does not have this
    /// node any more.
    pub open spec fn terminal(polled: Result<Command, NetworkError>) -> Option<NetworkError> {
        match polled {
            Err(NetworkError::LeaveRequested { rejoin }) => Some(
                NetworkError::LeaveRequested { rejoin },
            ),
            Err(NetworkError::NotJoined) => Some(NetworkError::NotJoined),
            _ => None,
        }
    }

    /// A request was not answered as it should: it is made again, or the exchange
    /// has failed.
    pub open spec fn unanswered(
        pre: BdbState,
        attempts: u8,
        again: ExchangePhase,
        command: Command,
        post: BdbState,
        step: ExchangeStep,
    ) -> bool {
        if attempts >= BDBC_TC_LINK_KEY_EXCHANGE_ATTEMPTS_MAX {
            &&& post == (BdbState { status: BdbCommissioningStatus::TclkExFailure, ..pre })
            &&& step == ExchangeStep::Done(Err(NetworkError::NoTransportKey))
        } else {
            &&& post == pre
            &&& step == ExchangeStep::Act(again, Self::send(pre, command))
        }
    }

    /// A new key was received.
    pub open spec fn received(
        pre: BdbState,
        key: [u8; 16],
        keys: Seq<DeviceKeyPairDescriptor>,
        ok: bool,
        post: BdbState,
        step: ExchangeStep,
    ) -> bool {
        &&& KeyTable::installed(pre.keys, pre.trust_center_address, key, keys, ok)
        &&& post == (BdbState { keys, ..pre })
        &&& if ok {
            step matches ExchangeStep::Act(ExchangePhase::Hashing, ExchangeAction::HashKey {
                key: k,
                input,
            }) && k == key && input@ == Self::hash_input(pre)
        } else {
            step == ExchangeStep::Done(Err(NetworkError::InvalidFrame))
        }
    }

    /// An event took the exchange from `pre` and `phase` to `post`, to go on with
    /// `step`.
    pub open spec fn stepped(
        pre: BdbState,
        phase: ExchangePhase,
        event: ExchangeEvent,
        post: BdbState,
        step: ExchangeStep,
    ) -> bool {
        match (phase, event) {
            (_, ExchangeEvent::Sent(Err(e))) => post == pre && step == ExchangeStep::Done(Err(e)),
            (ExchangePhase::Requesting { attempts }, ExchangeEvent::Sent(Ok(_))) => {
                &&& post == pre
                &&& step == ExchangeStep::Act(
                    ExchangePhase::AwaitingKey { attempts: (attempts + 1) as u8 },
                    Self::poll(),
                )
            },
            (ExchangePhase::AwaitingKey { attempts }, ExchangeEvent::Polled(polled)) => match
            Self::terminal(polled) {
                Some(e) => post == pre && step == ExchangeStep::Done(Err(e)),
                None => match polled {
                    Ok(Command::TransportKey(TransportKey::TrustCenterLinkKey { key })) => exists|
                        keys: Seq<DeviceKeyPairDescriptor>,
                        ok: bool,
                    | #[trigger] Self::received(pre, key, keys, ok, post, step),
                    _ => Self::unanswered(
                        pre,
                        attempts,
                        ExchangePhase::Requesting { attempts },
                        Command::RequestTrustCenterLinkKey,
                        post,
                        step,
                    ),
                },
            },
            (ExchangePhase::Hashing, ExchangeEvent::Hashed(hashed)) => post == pre && match hashed {
                Some(hash) => step == ExchangeStep::Act(
                    ExchangePhase::Verifying { attempts: 0, hash },
                    Self::send(pre, Self::verify(pre, hash)),
                ),
                None => step == ExchangeStep::Done(Err(NetworkError::SecurityError)),
            },
            (ExchangePhase::Verifying { attempts, hash }, ExchangeEvent::Sent(Ok(_))) => {
                &&& post == pre
                &&& step == ExchangeStep::Act(
                    ExchangePhase::AwaitingConfirm { attempts: (attempts + 1) as u8, hash },
                    Self::poll(),
                )
            },
            (ExchangePhase::AwaitingConfirm { attempts, hash }, ExchangeEvent::Polled(polled)) => {
                match Self::terminal(polled) {
                    Some(e) => post == pre && step == ExchangeStep::Done(Err(e)),
                    None => match polled {
                        Ok(Command::ConfirmKey { status: 0 }) => {
                            &&& KeyTable::confirmed(pre.keys, pre.trust_center_address, post.keys)
                            &&& post == (BdbState { keys: post.keys, ..pre })
                            &&& step == ExchangeStep::Done(Ok(()))
                        },
                        _ => Self::unanswered(
                            pre,
                            attempts,
                            ExchangePhase::Verifying { attempts, hash },
                            Self::verify(pre, hash),
                            post,
                            step,
                        ),
                    },
                }
            },
            _ => true,
        }
    }
}

/// Tell whether a poll for an answer ends the exchange at once.
///
/// Once the network has asked this node to leave, or does not know it, there is
/// nobody to repeat a request to.
pub fn propagate_tc_terminal_poll_error(polled: &Result<Command, NetworkError>) -> (r: Result<
    (),
    NetworkError,
>)
    ensures
        match Exchange::terminal(*polled) {
            Some(e) => r == Err::<(), NetworkError>(e),
            None => r == Ok::<(), NetworkError>(()),
        },
{
    match polled {
        Err(NetworkError::LeaveRequested { rejoin }) => Err(
            NetworkError::LeaveRequested { rejoin: *rejoin },
        ),
        Err(NetworkError::NotJoined) => Err(NetworkError::NotJoined),
        _ => Ok(()),
    }
}

impl BaseDeviceBehavior {
    fn send_to_trust_center(&self, command: Command) -> (action: ExchangeAction)
        ensures
            action == Exchange::send(self@, command),
    {
        ExchangeAction::SendCommand {
            destination: ShortAddress(0x0000),
            destination_ieee: self.trust_center_address,
            command,
        }
    }

    fn verify_key(&self, hash: [u8; 16]) -> (command: Command)
        ensures
            command == Exchange::verify(self@, hash),
    {
        Command::VerifyKey { key_type: 0x04, source_address: self.nib.ieee_address, hash }
    }

    /// Begin to exchange the link key.
    pub fn tc_link_key_exchange(&self) -> (start: (ExchangePhase, ExchangeAction))
        ensures
            start.0 == (ExchangePhase::Requesting { attempts: 0 }),
            start.1 == Exchange::send(self@, Command::RequestTrustCenterLinkKey),
    {
        (
            ExchangePhase::Requesting { attempts: 0 },
            self.send_to_trust_center(Command::RequestTrustCenterLinkKey),
        )
    }

    /// Go on with the exchange after what came of the last action.
    pub fn exchange_step(&mut self, phase: ExchangePhase, event: ExchangeEvent) -> (step:
        ExchangeStep)
        requires
            old(self).wf(),
            phase.wf(),
            phase.expects(event),
        ensures
            final(self).wf(),
            Exchange::stepped(old(self)@, phase, event, final(self)@, step),
            step is Act ==> step->Act_0.wf() && step->Act_0.remaining() < phase.remaining(),
    {
        match (phase, event) {
            (ExchangePhase::Requesting { attempts }, ExchangeEvent::Sent(Ok(()))) => {
                ExchangeStep::Act(
                    ExchangePhase::AwaitingKey { attempts: attempts + 1 },
                    ExchangeAction::PollCommand { retries: BDBC_TC_LINK_KEY_EXCHANGE_POLL_RETRIES },
                )
            },
            (ExchangePhase::Verifying { attempts, hash }, ExchangeEvent::Sent(Ok(()))) => {
                ExchangeStep::Act(
                    ExchangePhase::AwaitingConfirm { attempts: attempts + 1, hash },
                    ExchangeAction::PollCommand { retries: BDBC_TC_LINK_KEY_EXCHANGE_POLL_RETRIES },
                )
            },
            (_, ExchangeEvent::Sent(Err(e))) => ExchangeStep::Done(Err(e)),
            (ExchangePhase::AwaitingKey { attempts }, ExchangeEvent::Polled(polled)) => {
                if let Err(e) = propagate_tc_terminal_poll_error(&polled) {
                    return ExchangeStep::Done(Err(e));
                }
                match polled {
                    Ok(Command::TransportKey(TransportKey::TrustCenterLinkKey { key })) => {
                        self.receive_link_key(key)
                    },
                    _ => {
                        if attempts >= BDBC_TC_LINK_KEY_EXCHANGE_ATTEMPTS_MAX {
                            self.bdb_commissioning_status = BdbCommissioningStatus::TclkExFailure;
                            return ExchangeStep::Done(Err(NetworkError::NoTransportKey));
                        }
                        ExchangeStep::Act(
                            ExchangePhase::Requesting { attempts },
                            self.send_to_trust_center(Command::RequestTrustCenterLinkKey),
                        )
                    },
                }
            },
            (ExchangePhase::Hashing, ExchangeEvent::Hashed(hashed)) => match hashed {
                Some(hash) => ExchangeStep::Act(
                    ExchangePhase::Verifying { attempts: 0, hash },
                    self.send_to_trust_center(self.verify_key(hash)),
                ),
                None => ExchangeStep::Done(Err(NetworkError::SecurityError)),
            },
            (ExchangePhase::AwaitingConfirm { attempts, hash }, ExchangeEvent::Polled(polled)) => {
                if let Err(e) = propagate_tc_terminal_poll_error(&polled) {
                    return ExchangeStep::Done(Err(e));
                }
                match polled {
                    Ok(Command::ConfirmKey { status: 0 }) => {
                        self.key_table.confirm(self.trust_center_address);
                        ExchangeStep::Done(Ok(()))
                    },
                    _ => {
                        if attempts >= BDBC_TC_LINK_KEY_EXCHANGE_ATTEMPTS_MAX {
                            self.bdb_commissioning_status = BdbCommissioningStatus::TclkExFailure;
                            return ExchangeStep::Done(Err(NetworkError::NoTransportKey));
                        }
                        ExchangeStep::Act(
                            ExchangePhase::Verifying { attempts, hash },
                            self.send_to_trust_center(self.verify_key(hash)),
                        )
                    },
                }
            },
            _ => ExchangeStep::Done(Err(NetworkError::InvalidFrame)),
        }
    }

    /// Install the new key, and have this node's address hashed with it.
    fn receive_link_key(&mut self, key: [u8; 16]) -> (step: ExchangeStep)
        requires
            old(self).wf(),
        ensures
            final(self).wf(),
            exists|keys: Seq<DeviceKeyPairDescriptor>, ok: bool| #[trigger]
                Exchange::received(old(self)@, key, keys, ok, final(self)@, step),
            step is Act ==> step->Act_0 == ExchangePhase::Hashing,
    {
        let ok: bool = self.key_table.install(self.trust_center_address, key);
        let step: ExchangeStep = if ok {
            let mut input: [u8; 9] = [0; 9];
            input[0] = 0x03;
            let mut address: [u8; 8] = [0; 8];
            put_le(&mut address, self.nib.ieee_address.0, 8);
            assert(address@ =~= Le::bytes(self.nib.ieee_address.0 as nat, 8));
            crate::bytes::copy_at(&mut input, 1, &address);
            assert(input@ =~= Exchange::hash_input(old(self)@));
            ExchangeStep::Act(ExchangePhase::Hashing, ExchangeAction::HashKey { key, input })
        } else {
            ExchangeStep::Done(Err(NetworkError::InvalidFrame))
        };
        assert(Exchange::received(old(self)@, key, self@.keys, ok, self@, step));
        step
    }
}

/// Once the network has asked this node to leave, or does not know it, the exchange
/// ends with that, and nothing is changed.
pub proof fn law_leave_ends_the_exchange(
    pre: BdbState,
    phase: ExchangePhase,
    polled: Result<Command, NetworkError>,
    post: BdbState,
    step: ExchangeStep,
)
    requires
        phase is AwaitingKey || phase is AwaitingConfirm,
        Exchange::terminal(polled) is Some,
        Exchange::stepped(pre, phase, ExchangeEvent::Polled(polled), post, step),
    ensures
        post == pre,
        step == ExchangeStep::Done(Err(Exchange::terminal(polled)->0)),
{
}

/// An exchange that succeeds leaves the trust center's key verified; any other end
/// leaves no key newly verified.
pub proof fn law_success_verifies_the_key(
    pre: BdbState,
    phase: ExchangePhase,
    event: ExchangeEvent,
    post: BdbState,
    step: ExchangeStep,
)
    requires
        phase.expects(event),
        Exchange::stepped(pre, phase, event, post, step),
    ensures
        step == ExchangeStep::Done(Ok(())) ==> phase is AwaitingConfirm && KeyTable::confirmed(
            pre.keys,
            pre.trust_center_address,
            post.keys,
        ),
        step is Done && step != ExchangeStep::Done(Ok(())) ==> post.keys == pre.keys,
{
}

/// The key is asked for and verified at most three times each: the exchange repeats a
/// request only where it was made less often.
pub proof fn law_requests_are_bounded(
    pre: BdbState,
    phase: ExchangePhase,
    event: ExchangeEvent,
    post: BdbState,
    step: ExchangeStep,
)
    requires
        phase.wf(),
        phase.expects(event),
        Exchange::stepped(pre, phase, event, post, step),
    ensures
        step matches ExchangeStep::Act(next, action) ==> {
            &&& next.wf()
            &&& 0 <= next.remaining() < phase.remaining()
            &&& action is SendCommand ==> match next {
                ExchangePhase::Requesting { attempts } => {
                    attempts < BDBC_TC_LINK_KEY_EXCHANGE_ATTEMPTS_MAX
                },
                ExchangePhase::Verifying { attempts, .. } => {
                    attempts < BDBC_TC_LINK_KEY_EXCHANGE_ATTEMPTS_MAX
                },
                _ => false,
            }
        },
{
}

} // verus!
