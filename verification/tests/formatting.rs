use content_market::agg::AggPtVal;
use content_market::content::create_content_key;
use content_market::events::{emit_content_bid, emit_content_licensing, emit_transfer_funds};
use content_market::parse::parse_u64;
use content_market::text::{gas_log, milli_to_dec_string, tokenId2Str, tokenId2URL, u64_to_dec_string};

#[test]
fn dec_string_zero() {
    assert_eq!(u64_to_dec_string(0), "0");
}

#[test]
fn dec_string_digits() {
    assert_eq!(u64_to_dec_string(7), "7");
    assert_eq!(u64_to_dec_string(42), "42");
    assert_eq!(u64_to_dec_string(1234567890), "1234567890");
    assert_eq!(u64_to_dec_string(u64::MAX), "18446744073709551615");
}

#[test]
fn token_id_str_pads_to_four() {
    assert_eq!(tokenId2Str(5), "000005");
    assert_eq!(tokenId2Str(99), "000099");
    assert_eq!(tokenId2Str(1100), "001100");
}

#[test]
fn token_id_str_long_ids() {
    assert_eq!(tokenId2Str(12345), "0012345");
}

#[test]
fn token_id_url_wraps_picture_number() {
    assert_eq!(tokenId2URL(0), "https://img.mork.work/lj/0819.jpg");
    assert_eq!(tokenId2URL(1100), "https://img.mork.work/lj/0919.jpg");
    assert_eq!(tokenId2URL(999), "https://img.mork.work/lj/1818.jpg");
    assert_eq!(tokenId2URL(2100), "https://img.mork.work/lj/0919.jpg");
}

#[test]
fn gas_log_reports_giga() {
    assert_eq!(gas_log("pre ", 2_500_000_000), "pre gasUsed: 2 G ");
    assert_eq!(gas_log("", 999_999_999), "gasUsed: 0 G ");
}

#[test]
fn dec_string_round_trips_through_parse() {
    for n in [0u64, 9, 10, 101, 99999, 1000000007, u64::MAX] {
        assert_eq!(parse_u64(&u64_to_dec_string(n)), Some(n));
    }
}

#[test]
fn composite_key_joins_triple_with_colons() {
    let k = create_content_key("85d491b3", "alice.testnet", 125000000);
    assert_eq!(k.key, "85d491b3:alice.testnet:125000000");
    assert_eq!(k.contentId, "85d491b3");
    assert_eq!(k.creatorId, "alice.testnet");
    assert_eq!(k.timestamp, 125000000);
    let k2 = create_content_key("85d491b3", "alice.testnet", 125000000);
    assert_eq!(k.key, k2.key);
}

#[test]
fn milli_amounts_render_as_plain_decimals() {
    assert_eq!(milli_to_dec_string(22500), "22.5");
    assert_eq!(milli_to_dec_string(30000), "30");
    assert_eq!(milli_to_dec_string(0), "0");
    assert_eq!(milli_to_dec_string(1), "0.001");
    assert_eq!(milli_to_dec_string(270), "0.27");
    assert_eq!(milli_to_dec_string(2025), "2.025");
    assert_eq!(milli_to_dec_string(1205), "1.205");
}

#[test]
fn event_lines_carry_exact_shapes() {
    assert_eq!(
        emit_content_licensing("c:a:1", "buyer.testnet", 30000),
        "EVENT_JSON:{\"event\": \"content_licensing\", \"data\": {\"content_id\": \"c:a:1\", \"licence\": {\"buyer\": \"buyer.testnet\", \"price\": 30 } } }"
    );
    assert_eq!(
        emit_transfer_funds("a.testnet", "b.testnet", 2025),
        "EVENT_JSON:{\"event\": \"transfer_funds\", \"data\": {\"from\": \"a.testnet\", \"to\": \"b.testnet\" \"value\": \"2.025\"} }"
    );
    let agg = vec![
        AggPtVal { ownerId: String::from("alice"), pt: 90, val: 0 },
        AggPtVal { ownerId: String::from("bob"), pt: 10, val: 22500 },
    ];
    assert_eq!(
        emit_content_bid("c:a:1", &agg),
        "EVENT_JSON:{\"event\": \"content_bid\", \"data\": {\"content_id\": \"c:a:1\", \"bids\": [{\"owner\":\"alice\", \"value\": 0, \"percentage\": 90, \"date\": 1270000000 },{\"owner\":\"bob\", \"value\": 22.5, \"percentage\": 10, \"date\": 1270000000 }]}}"
    );
}
