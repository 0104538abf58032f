use content_market::content::create_content_key;
use content_market::contract::Contract;
use content_market::outcome::{EngineError, OpOutcome, PayoutKind};

fn ten(name: &str) -> Vec<String> {
    let mut v: Vec<String> = Vec::new();
    let mut i = 0;
    while i < 10 {
        v.push(String::from(name));
        i += 1;
    }
    v
}

fn distinct_ten(prefix: &str) -> Vec<String> {
    let mut v: Vec<String> = Vec::new();
    let mut i = 0;
    while i < 10 {
        v.push(format!("{}{}.testnet", prefix, i));
        i += 1;
    }
    v
}

const CREATOR: &str = "alice.testnet";
const SCOUT: &str = "scout.testnet";
const TREASURY: &str = "botticelli.testnet";

fn fresh_bid_s1(c: &mut Contract) {
    let owners = ten(CREATOR);
    let out = c
        .add_bid_coto(
            String::from("content-1"),
            String::from(CREATOR),
            125000000,
            String::from(SCOUT),
            22500,
            10,
            &owners,
        )
        .unwrap();
    assert!(out.created);
    assert_eq!(out.perPointPrice, 2250);
    assert_eq!(out.spent, 22500);
    assert_eq!(out.evictions.len(), 10);
    assert_eq!(out.mints.len(), 11);
}

#[test]
fn scenario_fresh_bid_takes_all_slots() {
    let mut c = Contract::new();
    let owners = ten(CREATOR);
    let out = c
        .add_bid_coto(
            String::from("content-1"),
            String::from(CREATOR),
            125000000,
            String::from(SCOUT),
            22500,
            10,
            &owners,
        )
        .unwrap();
    assert!(out.created);
    assert_eq!(out.perPointPrice, 2250);
    assert_eq!(out.spent, 22500);
    assert_eq!(out.evictions.len(), 10);
    // All ten slots start at zero, so every eviction is a first bid: no
    // refunds, only the royalty split of the full per-point price.
    let mut creator_total = 0u64;
    let mut platform_total = 0u64;
    for p in &out.payouts {
        match p.kind {
            PayoutKind::CreatorRoyalty => {
                assert_eq!(p.to, CREATOR);
                assert_eq!(p.amount, 2025);
                creator_total += p.amount;
            },
            PayoutKind::PlatformShare => {
                assert_eq!(p.to, TREASURY);
                assert_eq!(p.amount, 225);
                platform_total += p.amount;
            },
            _ => panic!("unexpected payout kind"),
        }
    }
    assert_eq!(out.payouts.len(), 20);
    assert_eq!(creator_total, 20250);
    assert_eq!(platform_total, 2250);
    // Eleven mints: the primary token and ten slot tokens, all to the creator.
    assert_eq!(out.mints.len(), 11);
    assert_eq!(out.mints[0].tokenId, 1100);
    assert_eq!(out.mints[0].pt, 90);
    for i in 0..10 {
        assert_eq!(out.mints[i + 1].tokenId, 1101 + i as u64);
        assert_eq!(out.mints[i + 1].receiver, CREATOR);
        assert_eq!(out.mints[i + 1].pt, 1);
    }
    // The record now holds ten slots at the per-point price, sorted.
    let rec = c.get_bidding_state(
        String::from("content-1"),
        125000000,
        String::from(CREATOR),
    );
    assert_eq!(rec.bidvalArr, vec![2250u64; 10]);
    assert_eq!(rec.tokenId, 1100);
}

#[test]
fn scenario_low_second_bid_evicts_nothing() {
    let mut c = Contract::new();
    fresh_bid_s1(&mut c);
    let owners = ten(SCOUT);
    let out = c
        .add_bid_coto(
            String::from("content-1"),
            String::from(CREATOR),
            125000000,
            String::from("late.testnet"),
            5000,
            5,
            &owners,
        )
        .unwrap();
    assert!(!out.created);
    assert_eq!(out.perPointPrice, 1000);
    assert_eq!(out.evictions.len(), 0);
    assert_eq!(out.spent, 0);
    // The whole bid is refunded to the bidder.
    assert_eq!(out.payouts.len(), 1);
    assert_eq!(out.payouts[0].to, "late.testnet");
    assert_eq!(out.payouts[0].amount, 5000);
    assert!(out.payouts[0].kind == PayoutKind::UnspentRefund);
    // Slots are untouched.
    let rec = c.get_bidding_state(
        String::from("content-1"),
        125000000,
        String::from(CREATOR),
    );
    assert_eq!(rec.bidvalArr, vec![2250u64; 10]);
}

#[test]
fn scenario_licence_purchase_splits_revenue() {
    let mut c = Contract::new();
    fresh_bid_s1(&mut c);
    // Ten distinct slot owners; the reserve is the slot sum 22.5.
    let owners = distinct_ten("owner");
    let out = c
        .buy_licence(
            String::from("content-1"),
            String::from(CREATOR),
            125000000,
            String::from("buyer.testnet"),
            30000,
            30000,
            &owners,
        )
        .unwrap();
    assert!(!out.created);
    assert_eq!(out.mints.len(), 0);
    assert_eq!(out.licenceTokenId, 1000001);
    // The platform's tenth, then the creator's ninety points, then one
    // point for each distinct slot owner.
    assert_eq!(out.payouts.len(), 12);
    assert!(out.payouts[0].kind == PayoutKind::LicenceTreasury);
    assert_eq!(out.payouts[0].to, TREASURY);
    assert_eq!(out.payouts[0].amount, 3000);
    assert!(out.payouts[1].kind == PayoutKind::LicenceOwnerShare);
    assert_eq!(out.payouts[1].to, CREATOR);
    assert_eq!(out.payouts[1].amount, 24300);
    for i in 2..12 {
        assert!(out.payouts[i].kind == PayoutKind::LicenceOwnerShare);
        assert_eq!(out.payouts[i].amount, 270);
    }
    // Slots are read, never written, by a licence purchase.
    let rec = c.get_bidding_state(
        String::from("content-1"),
        125000000,
        String::from(CREATOR),
    );
    assert_eq!(rec.bidvalArr, vec![2250u64; 10]);
}

#[test]
fn scenario_licence_below_reserve_fails() {
    let mut c = Contract::new();
    fresh_bid_s1(&mut c);
    let owners = distinct_ten("owner");
    let r = c.buy_licence(
        String::from("content-1"),
        String::from(CREATOR),
        125000000,
        String::from("buyer.testnet"),
        20000,
        20000,
        &owners,
    );
    assert_eq!(r.unwrap_err(), EngineError::PriceTooLow);
    assert_eq!(c.lastContentTokenId, 1000000);
}

#[test]
fn scenario_concurrent_bid_fails_busy() {
    let mut c = Contract::new();
    fresh_bid_s1(&mut c);
    // The guard is held by an operation whose payouts are still in flight.
    assert!(c.lock_start());
    let owners = ten(SCOUT);
    let r = c.add_bid_coto(
        String::from("content-1"),
        String::from(CREATOR),
        125000000,
        String::from("other.testnet"),
        50000,
        10,
        &owners,
    );
    assert_eq!(r.unwrap_err(), EngineError::Busy);
    // Nothing was mutated.
    let rec = c.get_bidding_state(
        String::from("content-1"),
        125000000,
        String::from(CREATOR),
    );
    assert_eq!(rec.bidvalArr, vec![2250u64; 10]);
    assert_eq!(c.lock, 1);
    c.lock_end();
    assert_eq!(c.lock, 0);
}

#[test]
fn get_or_create_is_idempotent() {
    let mut c = Contract::new();
    let k = create_content_key("c1", CREATOR, 5);
    let (existed1, idx1, mints1) = c.confirm_content_by_key(&k);
    assert!(!existed1);
    assert_eq!(idx1, 0);
    assert_eq!(mints1.len(), 11);
    let k2 = create_content_key("c1", CREATOR, 5);
    let (existed2, idx2, mints2) = c.confirm_content_by_key(&k2);
    assert!(existed2);
    assert_eq!(idx2, idx1);
    assert_eq!(mints2.len(), 0);
    assert_eq!(c.dash_get_contents().len(), 1);
    assert_eq!(c.lastTokenId, 1100);
}

#[test]
fn partial_eviction_refunds_unspent() {
    let mut c = Contract::new();
    let owners = ten(CREATOR);
    // Four slots taken at 2.0 each.
    let out1 = c
        .add_bid_coto(
            String::from("content-b"),
            String::from(CREATOR),
            7,
            String::from(SCOUT),
            8000,
            4,
            &owners,
        )
        .unwrap();
    assert_eq!(out1.perPointPrice, 2000);
    assert_eq!(out1.evictions.len(), 4);
    assert_eq!(out1.spent, 8000);
    let rec = c.get_bidding_state(String::from("content-b"), 7, String::from(CREATOR));
    assert_eq!(rec.bidvalArr, vec![0, 0, 0, 0, 0, 0, 2000, 2000, 2000, 2000]);
    // Ten points requested at 1.0 each: only the six free slots are
    // affordable, the rest of the bid comes back.
    let out2 = c
        .add_bid_coto(
            String::from("content-b"),
            String::from(CREATOR),
            7,
            String::from("second.testnet"),
            10000,
            10,
            &owners,
        )
        .unwrap();
    assert_eq!(out2.perPointPrice, 1000);
    assert_eq!(out2.evictions.len(), 6);
    assert_eq!(out2.spent, 6000);
    let last = out2.payouts.last().unwrap();
    assert!(last.kind == PayoutKind::UnspentRefund);
    assert_eq!(last.to, "second.testnet");
    assert_eq!(last.amount, 4000);
    let rec2 = c.get_bidding_state(String::from("content-b"), 7, String::from(CREATOR));
    assert_eq!(
        rec2.bidvalArr,
        vec![1000, 1000, 1000, 1000, 1000, 1000, 2000, 2000, 2000, 2000]
    );
}

#[test]
fn eviction_refunds_exact_previous_value() {
    let mut c = Contract::new();
    let owners = ten(CREATOR);
    c.add_bid_coto(
        String::from("content-b"),
        String::from(CREATOR),
        7,
        String::from(SCOUT),
        10000,
        10,
        &owners,
    )
    .unwrap();
    // All slots now at 1.0 and notionally owned by earlier bidders.
    let holders = distinct_ten("holder");
    let out = c
        .add_bid_coto(
            String::from("content-b"),
            String::from(CREATOR),
            7,
            String::from("third.testnet"),
            6000,
            2,
            &holders,
        )
        .unwrap();
    assert_eq!(out.perPointPrice, 3000);
    assert_eq!(out.evictions.len(), 2);
    // Each evicted slot's previous owner recovers exactly what they paid.
    assert_eq!(out.evictions[0].previousOwner, "holder0.testnet");
    assert_eq!(out.evictions[0].previousValue, 1000);
    assert_eq!(out.evictions[1].previousOwner, "holder1.testnet");
    assert_eq!(out.evictions[1].previousValue, 1000);
    let refunds: Vec<_> = out
        .payouts
        .iter()
        .filter(|p| p.kind == PayoutKind::ScoutRefund)
        .collect();
    assert_eq!(refunds.len(), 2);
    assert_eq!(refunds[0].to, "holder0.testnet");
    assert_eq!(refunds[0].amount, 1000);
    assert_eq!(refunds[1].to, "holder1.testnet");
    assert_eq!(refunds[1].amount, 1000);
    // Conservation: refunds + royalties + platform shares spend the bid.
    let total: u64 = out.payouts.iter().map(|p| p.amount).sum();
    assert_eq!(total, 6000);
    assert_eq!(out.spent, 6000);
}

#[test]
fn transfer_listener_routes_bid_and_buy() {
    let mut c = Contract::new();
    let owners = ten(CREATOR);
    let r = c.ft_on_transfer(
        String::from(SCOUT),
        22500,
        String::from("bid:alice.testnet:contentX:123000:10:22.5"),
        &owners,
    );
    match r.unwrap() {
        OpOutcome::Bid(out) => {
            assert_eq!(out.perPointPrice, 2250);
            assert_eq!(out.evictions.len(), 10);
        },
        _ => panic!("expected a bid outcome"),
    }
    let rec = c.get_bidding_state(
        String::from("contentX"),
        123000,
        String::from("alice.testnet"),
    );
    assert_eq!(rec.bidvalArr, vec![2250u64; 10]);
    let r2 = c.ft_on_transfer(
        String::from("buyer.testnet"),
        30000,
        String::from("buy:alice.testnet:contentX:123000:30"),
        &ten(SCOUT),
    );
    match r2.unwrap() {
        OpOutcome::Buy(out) => {
            assert_eq!(out.payouts[0].amount, 3000);
            assert_eq!(out.licenceTokenId, 1000001);
        },
        _ => panic!("expected a buy outcome"),
    }
}

#[test]
fn transfer_listener_rejects_malformed_and_short_deposits() {
    let mut c = Contract::new();
    let owners = ten(CREATOR);
    let r = c.ft_on_transfer(
        String::from(SCOUT),
        0,
        String::from("gibberish"),
        &owners,
    );
    assert_eq!(r.unwrap_err(), EngineError::MalformedMessage);
    assert_eq!(c.dash_get_contents().len(), 0);
    // A buy whose attached amount is below the price is rejected.
    let r2 = c.ft_on_transfer(
        String::from("buyer.testnet"),
        100,
        String::from("buy:alice.testnet:contentX:123000:30"),
        &owners,
    );
    assert_eq!(r2.unwrap_err(), EngineError::InsufficientDeposit);
    assert_eq!(c.dash_get_contents().len(), 0);
}

#[test]
fn counters_accumulate() {
    let mut c = Contract::new();
    assert_eq!(c.get_contract_cnt(), 0);
    c.inc_cnt();
    c.add_cnt(4);
    assert_eq!(c.get_contract_cnt(), 5);
}
