use content_market::agg::get_content_owners_from_arr;
use content_market::content::create_content_key;
use content_market::contract::Contract;
use content_market::outcome::EngineError;

fn owners(names: [&str; 10]) -> Vec<String> {
    let mut v: Vec<String> = Vec::new();
    for n in names.iter() {
        v.push(String::from(*n));
    }
    v
}

#[test]
fn aggregation_sums_repeat_owners() {
    // The creator also holds three slots; another account holds the rest.
    let slots = owners([
        "alice", "alice", "alice", "bob", "bob", "bob", "bob", "bob", "bob", "bob",
    ]);
    let agg = get_content_owners_from_arr(&slots, String::from("alice"));
    assert_eq!(agg.len(), 2);
    assert_eq!(agg[0].ownerId, "alice");
    assert_eq!(agg[0].pt, 93);
    assert_eq!(agg[1].ownerId, "bob");
    assert_eq!(agg[1].pt, 7);
}

#[test]
fn aggregation_points_sum_to_one_hundred() {
    let slots = owners([
        "a", "b", "c", "d", "e", "f", "g", "h", "i", "j",
    ]);
    let agg = get_content_owners_from_arr(&slots, String::from("creator"));
    let total: i32 = agg.iter().map(|e| e.pt).sum();
    assert_eq!(total, 100);
    assert_eq!(agg.len(), 11);
}

#[test]
fn content_owners_query_requires_presence() {
    let mut c = Contract::new();
    let slots = owners([
        "a", "b", "c", "d", "e", "f", "g", "h", "i", "j",
    ]);
    let r = c.get_content_owners(
        String::from("unknown"),
        String::from("creator"),
        1,
        &slots,
    );
    assert_eq!(r.unwrap_err(), EngineError::NotFound);
    let k = create_content_key("known", "creator", 1);
    c.confirm_content_by_key(&k);
    let r2 = c.get_content_owners(
        String::from("known"),
        String::from("creator"),
        1,
        &slots,
    );
    let agg = r2.unwrap();
    let total: i32 = agg.iter().map(|e| e.pt).sum();
    assert_eq!(total, 100);
}

#[test]
fn valued_aggregation_tracks_slot_values() {
    let mut c = Contract::new();
    let creators = owners([
        "alice.testnet",
        "alice.testnet",
        "alice.testnet",
        "alice.testnet",
        "alice.testnet",
        "alice.testnet",
        "alice.testnet",
        "alice.testnet",
        "alice.testnet",
        "alice.testnet",
    ]);
    c.add_bid_coto(
        String::from("c"),
        String::from("alice.testnet"),
        9,
        String::from("scout.testnet"),
        22500,
        10,
        &creators,
    )
    .unwrap();
    let holders = owners([
        "scout.testnet",
        "scout.testnet",
        "scout.testnet",
        "scout.testnet",
        "scout.testnet",
        "scout.testnet",
        "scout.testnet",
        "scout.testnet",
        "scout.testnet",
        "scout.testnet",
    ]);
    let agg = c
        .get_content_owners_pts_vals(
            String::from("c"),
            String::from("alice.testnet"),
            9,
            &holders,
        )
        .unwrap();
    assert_eq!(agg.len(), 2);
    assert_eq!(agg[0].ownerId, "alice.testnet");
    assert_eq!(agg[0].pt, 90);
    assert_eq!(agg[0].val, 0);
    assert_eq!(agg[1].ownerId, "scout.testnet");
    assert_eq!(agg[1].pt, 10);
    assert_eq!(agg[1].val, 22500);
}

#[test]
fn bidding_state_of_unknown_content_is_empty() {
    let c = Contract::new();
    let rec = c.get_bidding_state(String::from("nope"), 0, String::from("nobody"));
    assert_eq!(rec.creatorId, "");
    assert_eq!(rec.contentId, "");
    assert_eq!(rec.tokenId, 0);
    assert_eq!(rec.bidvalArr, vec![0u64; 10]);
}
