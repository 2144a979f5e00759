//! Reading the realised proceeds of a liquidation out of a receipt's events.
use vstd::prelude::*;

use crate::felt::Felt;
use crate::selector::{is_ascii_name, selector_from_name, selector_of};
use crate::value::U256;

verus! {

/// One event of a transaction receipt.
#[derive(Debug, Clone)]
pub struct Event {
    pub from_address: Felt,
    pub keys: Vec<Felt>,
    pub data: Vec<Felt>,
}

/// `e` was emitted by `contract` and its first key is `key`.
pub open spec fn emitted_as(e: Event, contract: Felt, key: Felt) -> bool {
    e.from_address == contract && e.keys@.len() > 0 && e.keys@[0] == key
}

/// The payload `(asset, amount_low, amount_high)` of a liquidation event with at
/// least three data words, or nothing when an amount limb exceeds 128 bits.
pub open spec fn decode_payload(data: Seq<Felt>) -> Option<(Felt, U256)> {
    if data[1].high == 0 && data[2].high == 0 {
        Some((data[0], U256 { low: data[1].low, high: data[2].low }))
    } else {
        None
    }
}

/// The decoded payload of the first event from index `i` on that `contract`
/// emitted under `key`; nothing when that event's payload is shorter than
/// three words.
pub open spec fn liquidation_from(events: Seq<Event>, contract: Felt, key: Felt, i: int) -> Option<
    (Felt, U256),
>
    decreases events.len() - i,
{
    if i < 0 || i >= events.len() {
        None
    } else if emitted_as(events[i], contract, key) {
        if events[i].data@.len() >= 3 {
            decode_payload(events[i].data@)
        } else {
            None
        }
    } else {
        liquidation_from(events, contract, key, i + 1)
    }
}

/// The name of the event that the liquidation contract emits.
pub open spec fn liquidation_event_name() -> Seq<char> {
    seq!['L', 'i', 'q', 'u', 'i', 'd', 'a', 't', 'i', 'o', 'n']
}

/// The asset and amount carried by the first event that `contract_address`
/// emitted with `event_key` as its first key; nothing when there is no such
/// event or its payload is short.
pub fn find_liquidation_event(events: &Vec<Event>, contract_address: Felt, event_key: Felt) -> (r:
    Option<(Felt, U256)>)
    ensures
        r == liquidation_from(events@, contract_address, event_key, 0),
{
    let mut i: usize = 0;
    while i < events.len()
        invariant
            i <= events.len(),
            liquidation_from(events@, contract_address, event_key, 0) == liquidation_from(
                events@,
                contract_address,
                event_key,
                i as int,
            ),
        decreases events.len() - i,
    {
        let event = &events[i];
        if event.from_address == contract_address && event.keys.len() > 0 && event.keys[0]
            == event_key {
            if event.data.len() < 3 {
                return None;
            }
            let asset = event.data[0];
            let low = event.data[1].to_u128();
            let high = event.data[2].to_u128();
            return match (low, high) {
                (Some(low), Some(high)) => Some((asset, U256 { low, high })),
                _ => None,
            };
        }
        i = i + 1;
    }
    None
}

/// The asset and amount of the first `Liquidation` event that
/// `contract_address` emitted, as `find_liquidation_event` finds it.
pub fn parse_liquidation_event(events: &Vec<Event>, contract_address: Felt) -> (r: Option<
    (Felt, U256),
>)
    ensures
        r == liquidation_from(
            events@,
            contract_address,
            selector_of(liquidation_event_name()),
            0,
        ),
{
    let name = "Liquidation";
    proof {
        reveal_strlit("Liquidation");
        assert(name@ =~= liquidation_event_name());
        assert(is_ascii_name(name@));
    }
    match selector_from_name(name) {
        Some(event_key) => find_liquidation_event(events, contract_address, event_key),
        None => None,
    }
}

/// A receipt in which no event came from `contract` under `key` yields no
/// proceeds, whatever other events it holds.
pub proof fn lemma_no_matching_event_no_proceeds(events: Seq<Event>, contract: Felt, key: Felt)
    requires
        forall|j: int| 0 <= j < events.len() ==> !emitted_as(#[trigger] events[j], contract, key),
    ensures
        liquidation_from(events, contract, key, 0) is None,
{
    lemma_no_match_from(events, contract, key, 0);
}

proof fn lemma_no_match_from(events: Seq<Event>, contract: Felt, key: Felt, i: int)
    requires
        forall|j: int| 0 <= j < events.len() ==> !emitted_as(#[trigger] events[j], contract, key),
    ensures
        liquidation_from(events, contract, key, i) is None,
    decreases events.len() - i,
{
    if 0 <= i < events.len() {
        lemma_no_match_from(events, contract, key, i + 1);
    }
}

/// When the first event from `contract` under `key` has a payload shorter than
/// three words, the receipt yields no proceeds, whatever events follow it.
pub proof fn lemma_short_first_match_no_proceeds(events: Seq<Event>, contract: Felt, key: Felt, j: int)
    requires
        0 <= j < events.len(),
        emitted_as(events[j], contract, key),
        events[j].data@.len() < 3,
        forall|i: int| 0 <= i < j ==> !emitted_as(#[trigger] events[i], contract, key),
    ensures
        liquidation_from(events, contract, key, 0) is None,
{
    lemma_short_match_from(events, contract, key, j, 0);
}

proof fn lemma_short_match_from(events: Seq<Event>, contract: Felt, key: Felt, j: int, i: int)
    requires
        0 <= i <= j < events.len(),
        emitted_as(events[j], contract, key),
        events[j].data@.len() < 3,
        forall|t: int| 0 <= t < j ==> !emitted_as(#[trigger] events[t], contract, key),
    ensures
        liquidation_from(events, contract, key, i) is None,
    decreases j - i,
{
    if i < j {
        lemma_short_match_from(events, contract, key, j, i + 1);
    }
}

} // verus!
