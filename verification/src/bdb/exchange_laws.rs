//! How the exchange of the link key goes on, event by event.

use vstd::prelude::*;

use crate::bdb::behavior::BdbState;
use crate::bdb::exchange::Exchange;
use crate::bdb::exchange::ExchangeAction;
use crate::bdb::exchange::ExchangeEvent;
use crate::bdb::exchange::ExchangePhase;
use crate::bdb::exchange::ExchangeStep;
use crate::bdb::tables::KeyTable;
use crate::bdb::types::BdbCommissioningStatus;
use crate::bdb::types::Command;
use crate::bdb::types::DeviceKeyPairDescriptor;
use crate::bdb::types::IeeeAddress;
use crate::bdb::types::KeyAttribute;
use crate::bdb::types::LinkKeyType;
use crate::bdb::types::NetworkError;
use crate::bdb::types::TransportKey;

verus! {

/// A command is to be sent to the trust center, which has short address 0.
pub open spec fn sends(state: BdbState, step: ExchangeStep, command: Command) -> bool {
    step matches ExchangeStep::Act(
        _,
        ExchangeAction::SendCommand { destination, destination_ieee, command: c },
    ) && destination.0 == 0 && destination_ieee == state.trust_center_address && c == command
}

/// The command that proves knowledge of the key: key type 4, this node's unique address and
/// the hash.
pub open spec fn proves(state: BdbState, step: ExchangeStep, hash: [u8; 16]) -> bool {
    step matches ExchangeStep::Act(
        _,
        ExchangeAction::SendCommand { destination, destination_ieee, command: c },
    ) && destination.0 == 0 && destination_ieee == state.trust_center_address && (c matches Command::VerifyKey {
        key_type,
        source_address,
        hash: h,
    } && key_type == 4 && source_address == state.nib.ieee_address && h == hash)
}

/// An answer is to be polled for, with 15 retries.
pub open spec fn polls(step: ExchangeStep) -> bool {
    step matches ExchangeStep::Act(_, ExchangeAction::PollCommand { retries }) && retries == 15
}

/// A request that was sent counts as one more attempt, and its answer is polled for. One
/// that could not be sent ends the exchange.
pub proof fn law_sent_requests_are_counted(
    pre: BdbState,
    attempts: u8,
    hash: [u8; 16],
    sent: Result<(), NetworkError>,
    post: BdbState,
    step: ExchangeStep,
)
    requires
        attempts < 3,
    ensures
        Exchange::stepped(
            pre,
            ExchangePhase::Requesting { attempts },
            ExchangeEvent::Sent(sent),
            post,
            step,
        ) ==> {
            &&& post == pre
            &&& sent matches Err(e) ==> step == ExchangeStep::Done(Err(e))
            &&& sent is Ok ==> polls(step) && (step matches ExchangeStep::Act(
                ExchangePhase::AwaitingKey { attempts: n },
                _,
            ) && n == attempts + 1)
        },
        Exchange::stepped(
            pre,
            ExchangePhase::Verifying { attempts, hash },
            ExchangeEvent::Sent(sent),
            post,
            step,
        ) ==> {
            &&& post == pre
            &&& sent matches Err(e) ==> step == ExchangeStep::Done(Err(e))
            &&& sent is Ok ==> polls(step) && (step matches ExchangeStep::Act(
                ExchangePhase::AwaitingConfirm { attempts: n, hash: h },
                _,
            ) && n == attempts + 1 && h == hash)
        },
{
}

/// No key came: after fewer than three requests the key is requested again, and after three
/// the exchange has failed. But a node that the network does not have any more stops at
/// once.
pub proof fn law_no_key_came(
    pre: BdbState,
    attempts: u8,
    polled: Result<Command, NetworkError>,
    post: BdbState,
    step: ExchangeStep,
)
    requires
        !(polled matches Ok(Command::TransportKey(TransportKey::TrustCenterLinkKey { .. }))),
        Exchange::stepped(
            pre,
            ExchangePhase::AwaitingKey { attempts },
            ExchangeEvent::Polled(polled),
            post,
            step,
        ),
    ensures
        ({
            let gone = polled == Err::<Command, NetworkError>(NetworkError::NotJoined) || polled
                matches Err(NetworkError::LeaveRequested { .. });
            &&& gone ==> post == pre && step == ExchangeStep::Done(Err(polled->Err_0))
            &&& !gone && attempts < 3 ==> {
                &&& post == pre
                &&& sends(pre, step, Command::RequestTrustCenterLinkKey)
                &&& step->Act_0 == (ExchangePhase::Requesting { attempts })
            }
            &&& !gone && attempts >= 3 ==> {
                &&& step == ExchangeStep::Done(Err(NetworkError::NoTransportKey))
                &&& post == (BdbState { status: BdbCommissioningStatus::TclkExFailure, ..pre })
            }
        }),
{
}

/// The key that came is kept for the trust center, unverified and with its counters at
/// zero, and its hash over a 3 and this node's address is to be computed.
pub proof fn law_key_came(
    pre: BdbState,
    attempts: u8,
    key: [u8; 16],
    post: BdbState,
    step: ExchangeStep,
    i: int,
)
    requires
        Exchange::stepped(
            pre,
            ExchangePhase::AwaitingKey { attempts },
            ExchangeEvent::Polled(
                Ok(Command::TransportKey(TransportKey::TrustCenterLinkKey { key })),
            ),
            post,
            step,
        ),
    ensures
        post == (BdbState { keys: post.keys, ..pre }),
        keeps_key(pre.keys, pre.trust_center_address, key, post.keys, step is Act, i),
        step is Act ==> step->Act_0 is Hashing && (step->Act_1 matches ExchangeAction::HashKey {
            key: k,
            input,
        } && k == key && input@.len() == 9 && input@[0] == 3
            && crate::bdb::zdp_laws::number8(input@, 1) == pre.nib.ieee_address.0),
        step is Done ==> step == ExchangeStep::Done(Err(NetworkError::InvalidFrame)),
{
    let (keys, ok) = choose|keys: Seq<DeviceKeyPairDescriptor>, ok: bool| #[trigger]
        Exchange::received(pre, key, keys, ok, post, step);
    law_installing_a_key(pre.keys, pre.trust_center_address, key, keys, ok, i);
    if ok {
        let ieee = pre.nib.ieee_address.0 as nat;
        crate::bytes::lemma_pow256_small();
        crate::bytes::lemma_bytes_round_trip(ieee, 8);
        crate::bdb::zdp_laws::lemma_number8(crate::bytes::Le::bytes(ieee, 8));
    }
}

/// A hash that could be computed is sent to the trust center; without one the exchange
/// fails.
pub proof fn law_hash_is_sent(
    pre: BdbState,
    hashed: Option<[u8; 16]>,
    post: BdbState,
    step: ExchangeStep,
)
    requires
        Exchange::stepped(pre, ExchangePhase::Hashing, ExchangeEvent::Hashed(hashed), post, step),
    ensures
        post == pre,
        hashed matches Some(hash) ==> proves(pre, step, hash) && step->Act_0
            == (ExchangePhase::Verifying { attempts: 0, hash }),
        hashed is None ==> step == ExchangeStep::Done(Err(NetworkError::SecurityError)),
{
}

/// A confirmation with status 0 ends the exchange with success. Anything else has the hash
/// sent again, three times in all; then the exchange has failed. But a node that the
/// network does not have any more stops at once.
pub proof fn law_confirmation(
    pre: BdbState,
    attempts: u8,
    hash: [u8; 16],
    polled: Result<Command, NetworkError>,
    post: BdbState,
    step: ExchangeStep,
)
    requires
        Exchange::stepped(
            pre,
            ExchangePhase::AwaitingConfirm { attempts, hash },
            ExchangeEvent::Polled(polled),
            post,
            step,
        ),
    ensures
        ({
            let gone = polled == Err::<Command, NetworkError>(NetworkError::NotJoined) || polled
                matches Err(NetworkError::LeaveRequested { .. });
            let confirmed = polled matches Ok(Command::ConfirmKey { status: s }) && s == 0;
            &&& step == ExchangeStep::Done(Ok(())) <==> confirmed
            &&& confirmed ==> post == (BdbState { keys: post.keys, ..pre })
            &&& gone ==> post == pre && step == ExchangeStep::Done(Err(polled->Err_0))
            &&& !gone && !confirmed && attempts < 3 ==> {
                &&& post == pre
                &&& proves(pre, step, hash)
                &&& step->Act_0 == (ExchangePhase::Verifying { attempts, hash })
            }
            &&& !gone && !confirmed && attempts >= 3 ==> {
                &&& step == ExchangeStep::Done(Err(NetworkError::NoTransportKey))
                &&& post == (BdbState { status: BdbCommissioningStatus::TclkExFailure, ..pre })
            }
        }),
{
}

/// `key` was kept for the node `address`: in its entry `i`, where that is its first one; or
/// in an entry of its own behind the others, where it had none and there were fewer than
/// sixteen.
pub open spec fn keeps_key(
    pre: Seq<DeviceKeyPairDescriptor>,
    address: IeeeAddress,
    key: [u8; 16],
    post: Seq<DeviceKeyPairDescriptor>,
    ok: bool,
    i: int,
) -> bool {
    let first = 0 <= i < pre.len() && pre[i].device_address == address && forall|k: int|
        0 <= k < i ==> (#[trigger] pre[k]).device_address != address;
    let none = forall|k: int| 0 <= k < pre.len() ==> (#[trigger] pre[k]).device_address != address;
    &&& first ==> {
        &&& ok
        &&& post.len() == pre.len()
        &&& post[i].device_address == address
        &&& post[i].link_key == key
        &&& post[i].key_attributes == KeyAttribute::UnverifiedKey
        &&& post[i].outgoing_frame_counter == 0
        &&& post[i].incoming_frame_counter == 0
        &&& post[i].link_key_type == pre[i].link_key_type
        &&& forall|k: int| 0 <= k < pre.len() && k != i ==> #[trigger] post[k] == pre[k]
    }
    &&& none && pre.len() < 16 ==> {
        let n = pre.len() as int;
        &&& ok
        &&& post.len() == n + 1
        &&& post.take(n) == pre
        &&& post[n].device_address == address
        &&& post[n].link_key == key
        &&& post[n].key_attributes == KeyAttribute::UnverifiedKey
        &&& post[n].outgoing_frame_counter == 0
        &&& post[n].incoming_frame_counter == 0
        &&& post[n].link_key_type == LinkKeyType::UniqueLinkKey
    }
    &&& none && pre.len() >= 16 ==> !ok && post == pre
}

/// A key is installed in place of the node's first one, or in a new entry if there is room.
pub proof fn law_installing_a_key(
    pre: Seq<DeviceKeyPairDescriptor>,
    address: IeeeAddress,
    key: [u8; 16],
    post: Seq<DeviceKeyPairDescriptor>,
    ok: bool,
    i: int,
)
    requires
        KeyTable::installed(pre, address, key, post, ok),
    ensures
        keeps_key(pre, address, key, post, ok, i),
{
    if 0 <= i < pre.len() && pre[i].device_address == address && (forall|k: int|
        0 <= k < i ==> (#[trigger] pre[k]).device_address != address) {
        assert(KeyTable::is_first(pre, address, i));
    }
    if forall|k: int| 0 <= k < pre.len() ==> (#[trigger] pre[k]).device_address != address {
        assert(!KeyTable::has(pre, address));
        if pre.len() < 16 {
            assert(post.take(pre.len() as int) =~= pre);
        }
    }
}

/// Confirming a node's key makes its first one verified, and changes nothing else.
pub proof fn law_confirming_a_key(
    pre: Seq<DeviceKeyPairDescriptor>,
    address: IeeeAddress,
    post: Seq<DeviceKeyPairDescriptor>,
    i: int,
)
    requires
        KeyTable::confirmed(pre, address, post),
    ensures
        0 <= i < pre.len() && pre[i].device_address == address && (forall|k: int|
            0 <= k < i ==> (#[trigger] pre[k]).device_address != address) ==> {
            &&& post.len() == pre.len()
            &&& post[i].key_attributes == KeyAttribute::VerifiedKey
            &&& post[i].link_key == pre[i].link_key
            &&& post[i].device_address == address
            &&& post[i].outgoing_frame_counter == pre[i].outgoing_frame_counter
            &&& post[i].incoming_frame_counter == pre[i].incoming_frame_counter
            &&& forall|k: int| 0 <= k < pre.len() && k != i ==> #[trigger] post[k] == pre[k]
        },
        (forall|k: int| 0 <= k < pre.len() ==> (#[trigger] pre[k]).device_address != address)
            ==> post == pre,
{
    if 0 <= i < pre.len() && pre[i].device_address == address && (forall|k: int|
        0 <= k < i ==> (#[trigger] pre[k]).device_address != address) {
        assert(KeyTable::is_first(pre, address, i));
    }
    if forall|k: int| 0 <= k < pre.len() ==> (#[trigger] pre[k]).device_address != address {
        assert(!KeyTable::has(pre, address));
    }
}

} // verus!
