use vesu_liquidator::distribution::{
    build_erc20_transfer_call, distribution_calls, plan_distribution, transfer_call,
    DistributionPlan,
};
use vesu_liquidator::event::{find_liquidation_event, parse_liquidation_event, Event};
use vesu_liquidator::felt::Felt;
use vesu_liquidator::monitor::{on_wakeup, LoopAction, Wakeup};
use vesu_liquidator::store::PositionStore;
use vesu_liquidator::sweep::{is_not_undercollateralized, Sweep};
use vesu_liquidator::value::U256;

fn felt_of(fe: starknet::core::types::FieldElement) -> Felt {
    let b = fe.to_bytes_be();
    let mut high = [0u8; 16];
    let mut low = [0u8; 16];
    high.copy_from_slice(&b[..16]);
    low.copy_from_slice(&b[16..]);
    Felt { high: u128::from_be_bytes(high), low: u128::from_be_bytes(low) }
}

fn selector(name: &str) -> Felt {
    felt_of(starknet::core::utils::get_selector_from_name(name).unwrap())
}

fn small(v: u128) -> Felt {
    Felt::from_u128(v)
}

fn liquidation_event(from: Felt, asset: u128, low: u128, high: u128) -> Event {
    Event {
        from_address: from,
        keys: vec![selector("Liquidation")],
        data: vec![small(asset), small(low), small(high)],
    }
}

#[test]
fn sub_gives_exact_difference() {
    let a = U256 { low: 1000, high: 0 };
    let b = U256 { low: 400, high: 0 };
    assert_eq!(a - b, U256 { low: 600, high: 0 });
}

#[test]
fn sub_borrows_from_high_limb() {
    let a = U256 { low: 5, high: 1 };
    let b = U256 { low: 7, high: 0 };
    assert_eq!(a - b, U256 { low: u128::MAX - 1, high: 0 });
    let c = U256 { low: 0, high: 3 };
    let d = U256 { low: 1, high: 1 };
    assert_eq!(c - d, U256 { low: u128::MAX, high: 1 });
}

#[test]
fn sub_saturates_at_zero() {
    let a = U256 { low: 400, high: 0 };
    let b = U256 { low: 1000, high: 0 };
    assert_eq!(a - b, U256 { low: 0, high: 0 });
    let c = U256 { low: 0, high: 1 };
    let d = U256 { low: 1, high: 5 };
    assert_eq!(c - d, U256 { low: 0, high: 0 });
    let e = U256 { low: 3, high: 2 };
    assert_eq!(e - e, U256::zero());
}

#[test]
fn sub_of_largest_values() {
    let max = U256 { low: u128::MAX, high: u128::MAX };
    assert_eq!(max - U256::from_u128(u128::MAX), U256 { low: 0, high: u128::MAX });
    assert_eq!(max.saturating_sub(max), U256::zero());
    assert!(max.ge(&max));
    assert!(!U256::zero().ge(&U256::from_u128(1)));
}

#[test]
fn felt_to_u128_only_below_two_to_the_128() {
    assert_eq!(small(42).to_u128(), Some(42));
    assert_eq!(Felt { high: 1, low: 0 }.to_u128(), None);
}

#[test]
fn extracts_first_matching_liquidation_event() {
    let contract = small(0xabc);
    let events = vec![
        Event { from_address: small(0x1), keys: vec![selector("Transfer")], data: vec![small(9)] },
        liquidation_event(contract, 0x55, 1000, 0),
        liquidation_event(contract, 0x66, 7, 7),
    ];
    assert_eq!(parse_liquidation_event(&events, contract), Some((small(0x55), U256 { low: 1000, high: 0 })));
}

#[test]
fn extraction_ignores_other_contracts_and_selectors() {
    let contract = small(0xabc);
    let events = vec![
        liquidation_event(small(0xdef), 0x55, 1000, 0),
        Event {
            from_address: contract,
            keys: vec![selector("Transfer")],
            data: vec![small(1), small(2), small(3)],
        },
        Event { from_address: contract, keys: vec![], data: vec![small(1), small(2), small(3)] },
    ];
    assert_eq!(parse_liquidation_event(&events, contract), None);
    assert_eq!(parse_liquidation_event(&vec![], contract), None);
}

#[test]
fn short_first_payload_yields_nothing() {
    let contract = small(0xabc);
    let short = Event { from_address: contract, keys: vec![selector("Liquidation")], data: vec![small(1), small(2)] };
    assert_eq!(parse_liquidation_event(&vec![short.clone()], contract), None);
    let events = vec![short, liquidation_event(contract, 0x77, 5, 1)];
    assert_eq!(parse_liquidation_event(&events, contract), None);
    let later = vec![liquidation_event(contract, 0x77, 5, 1), Event { from_address: contract, keys: vec![selector("Liquidation")], data: vec![] }];
    assert_eq!(parse_liquidation_event(&later, contract), Some((small(0x77), U256 { low: 5, high: 1 })));
}

#[test]
fn extraction_rejects_amount_limb_over_128_bits() {
    let contract = small(0xabc);
    let key = small(0x99);
    let events = vec![Event {
        from_address: contract,
        keys: vec![key],
        data: vec![small(1), Felt { high: 1, low: 0 }, small(0)],
    }];
    assert_eq!(find_liquidation_event(&events, contract, key), None);
}

#[test]
fn transfer_call_lays_out_recipient_and_amount() {
    let call = build_erc20_transfer_call(small(0x10), small(0x20), U256 { low: 7, high: 9 });
    assert_eq!(call.contract_address, small(0x10));
    assert_eq!(call.entry_point_selector, selector("transfer"));
    assert_ne!(call.entry_point_selector, Felt::from_u128(0));
    assert_eq!(call.calldata, vec![small(0x20), small(7), small(9)]);
    let plain = transfer_call(small(3), small(0x10), small(0x20), U256 { low: 7, high: 9 });
    assert_eq!(plain.entry_point_selector, small(3));
}

#[test]
fn split_of_forty_against_hundred() {
    let asset = small(0x55);
    let plan = plan_distribution(40, Some(100), Some((asset, U256 { low: 1000, high: 0 })));
    assert_eq!(
        plan,
        DistributionPlan::Split {
            asset,
            total: U256 { low: 1000, high: 0 },
            claimant_score: 40,
            reference_score: 100,
        }
    );
    let calls = distribution_calls(asset, small(0x1), small(0x2), U256 { low: 1000, high: 0 }, 400);
    assert_eq!(calls.len(), 2);
    assert_eq!(calls[0].contract_address, asset);
    assert_eq!(calls[0].calldata, vec![small(0x1), small(400), small(0)]);
    assert_eq!(calls[1].contract_address, asset);
    assert_eq!(calls[1].calldata, vec![small(0x2), small(600), small(0)]);
    assert_eq!(calls[1].entry_point_selector, selector("transfer"));
}

#[test]
fn missing_reference_falls_back_to_claimant_score() {
    let asset = small(0x55);
    let total = U256 { low: 1000, high: 0 };
    let plan = plan_distribution(40, None, Some((asset, total)));
    assert_eq!(plan, DistributionPlan::Split { asset, total, claimant_score: 40, reference_score: 40 });
    let calls = distribution_calls(asset, small(0x1), small(0x2), total, 1000);
    assert_eq!(calls[0].calldata, vec![small(0x1), small(1000), small(0)]);
    assert_eq!(calls[1].calldata, vec![small(0x2), small(0), small(0)]);
}

#[test]
fn zero_reference_skips_distribution() {
    let proceeds = Some((small(0x55), U256 { low: 1000, high: 0 }));
    assert_eq!(plan_distribution(40, Some(0), proceeds), DistributionPlan::ZeroReference);
    assert_eq!(plan_distribution(0, None, proceeds), DistributionPlan::ZeroReference);
}

#[test]
fn no_proceeds_skips_distribution() {
    assert_eq!(plan_distribution(40, Some(100), None), DistributionPlan::NoProceeds);
}

#[test]
fn share_above_total_leaves_nothing_for_sink() {
    let calls = distribution_calls(small(5), small(1), small(2), U256 { low: 10, high: 0 }, 11);
    assert_eq!(calls[1].calldata, vec![small(2), small(0), small(0)]);
}

#[test]
fn marker_is_found_anywhere_in_message() {
    assert!(is_not_undercollateralized("not-undercollateralized"));
    assert!(is_not_undercollateralized("Execution failed: 'not-undercollateralized' (0x1)"));
    assert!(!is_not_undercollateralized("not-under-collateralized"));
    assert!(!is_not_undercollateralized(""));
    assert!(!is_not_undercollateralized("insufficient fee"));
}

#[test]
fn closed_update_leaves_store() {
    let mut store: PositionStore<&str> = PositionStore::new();
    assert!(store.apply_update(1, "open", false));
    assert_eq!(store.get(1), Some(&"open"));
    assert!(!store.apply_update(1, "closed", true));
    assert!(!store.contains(1));
    assert!(!store.apply_update(2, "closed", true));
    assert!(store.is_empty());
}

#[test]
fn update_replaces_position() {
    let mut store: PositionStore<u32> = PositionStore::new();
    store.apply_update(7, 1, false);
    store.apply_update(7, 2, false);
    assert_eq!(store.len(), 1);
    assert_eq!(store.get(7), Some(&2));
    assert_eq!(store.keys(), vec![7]);
}

#[test]
fn rejected_position_is_dropped_after_sweep() {
    let mut store: PositionStore<u32> = PositionStore::new();
    store.insert(1, 10);
    store.insert(2, 20);
    store.insert(3, 30);
    let mut sweep = Sweep::start(&store);
    let mut visited = vec![];
    while let Some(key) = sweep.next_key() {
        visited.push(key);
        if key == 1 {
            assert!(!sweep.record_failure(key, "Error: not-undercollateralized"));
        }
        if key == 2 {
            assert!(sweep.record_failure(key, "Error: nonce too low"));
        }
    }
    assert_eq!(visited, vec![1, 2, 3]);
    sweep.finish(&mut store);
    assert!(!store.contains(1));
    assert_eq!(store.get(2), Some(&20));
    assert_eq!(store.get(3), Some(&30));
    let mut next = Sweep::start(&store);
    let mut later = vec![];
    while let Some(key) = next.next_key() {
        later.push(key);
    }
    assert!(!later.contains(&1));
    assert_eq!(later.len(), 2);
}

#[test]
fn wakeups_act_on_their_own_source() {
    let mut store: PositionStore<u32> = PositionStore::new();
    assert_eq!(on_wakeup(&mut store, Wakeup::Tick), LoopAction::Sweep);
    assert!(store.is_empty());
    let update = Wakeup::Update { block_number: 12, key: 4, position: 40, closed: false };
    assert_eq!(on_wakeup(&mut store, update), LoopAction::Persist { block_number: 12 });
    assert_eq!(store.get(4), Some(&40));
    let closing = Wakeup::Update { block_number: 13, key: 4, position: 0, closed: true };
    assert_eq!(on_wakeup(&mut store, closing), LoopAction::Idle);
    assert!(!store.contains(4));
    assert_eq!(on_wakeup(&mut store, Wakeup::ChannelClosed), LoopAction::Stop);
}
