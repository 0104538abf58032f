use content_market::outcome::EngineError;
use content_market::parse::{parse_milli, parse_u64, split_colons};
use content_market::wire::{parse_msg, OpDesc};

#[test]
fn parse_u64_reads_digits() {
    assert_eq!(parse_u64("0"), Some(0));
    assert_eq!(parse_u64("123"), Some(123));
    assert_eq!(parse_u64("007"), Some(7));
    assert_eq!(parse_u64("18446744073709551615"), Some(u64::MAX));
}

#[test]
fn parse_u64_rejects_junk_and_overflow() {
    assert_eq!(parse_u64(""), None);
    assert_eq!(parse_u64("12a"), None);
    assert_eq!(parse_u64("-5"), None);
    assert_eq!(parse_u64("1.5"), None);
    assert_eq!(parse_u64("18446744073709551616"), None);
}

#[test]
fn parse_milli_scales_to_thousandths() {
    assert_eq!(parse_milli("22.5"), Some(22500));
    assert_eq!(parse_milli("0.001"), Some(1));
    assert_eq!(parse_milli("0"), Some(0));
    assert_eq!(parse_milli("5"), Some(5000));
    assert_eq!(parse_milli(".5"), Some(500));
    assert_eq!(parse_milli("22."), Some(22000));
    assert_eq!(parse_milli("1.2345"), Some(1234));
}

#[test]
fn parse_milli_respects_amount_bound() {
    assert_eq!(parse_milli("281474976710.655"), Some(281474976710655));
    assert_eq!(parse_milli("281474976710.656"), None);
    assert_eq!(parse_milli("999999999999999"), None);
}

#[test]
fn parse_milli_rejects_junk() {
    assert_eq!(parse_milli(""), None);
    assert_eq!(parse_milli("."), None);
    assert_eq!(parse_milli("1.2.3"), None);
    assert_eq!(parse_milli("abc"), None);
    assert_eq!(parse_milli("-1.0"), None);
}

#[test]
fn split_colons_keeps_empty_fields() {
    let parts = split_colons("a:b::c:");
    assert_eq!(parts.len(), 5);
    assert_eq!(parts[0], "a");
    assert_eq!(parts[1], "b");
    assert_eq!(parts[2], "");
    assert_eq!(parts[3], "c");
    assert_eq!(parts[4], "");
    let single = split_colons("plain");
    assert_eq!(single.len(), 1);
    assert_eq!(single[0], "plain");
}

#[test]
fn parse_msg_reads_bid() {
    let r = parse_msg("bid:creator.testnet:85d491b3:123367777:10:22.5");
    match r {
        Ok(OpDesc::Bid { contentId, creatorId, timestamp, points, value }) => {
            assert_eq!(contentId, "85d491b3");
            assert_eq!(creatorId, "creator.testnet");
            assert_eq!(timestamp, 123367777);
            assert_eq!(points, 10);
            assert_eq!(value, 22500);
        },
        _ => panic!("expected a bid descriptor"),
    }
}

#[test]
fn parse_msg_reads_buy_with_trailing_colon() {
    let r = parse_msg("buy:creator.testnet:85d491b3:123367777:60.5:");
    match r {
        Ok(OpDesc::Buy { contentId, creatorId, timestamp, price }) => {
            assert_eq!(contentId, "85d491b3");
            assert_eq!(creatorId, "creator.testnet");
            assert_eq!(timestamp, 123367777);
            assert_eq!(price, 60500);
        },
        _ => panic!("expected a buy descriptor"),
    }
}

#[test]
fn parse_msg_rejects_malformed() {
    assert_eq!(
        parse_msg("hello").unwrap_err(),
        EngineError::MalformedMessage
    );
    assert_eq!(
        parse_msg("bid:only:three").unwrap_err(),
        EngineError::MalformedMessage
    );
    assert_eq!(
        parse_msg("bid:a:b:123:10").unwrap_err(),
        EngineError::MalformedMessage
    );
    assert_eq!(
        parse_msg("bid:a:b:xx:10:22.5").unwrap_err(),
        EngineError::MalformedMessage
    );
    assert_eq!(
        parse_msg("bid:a:b:123:0:22.5").unwrap_err(),
        EngineError::MalformedMessage
    );
    assert_eq!(
        parse_msg("bid:a:b:123:101:22.5").unwrap_err(),
        EngineError::MalformedMessage
    );
    assert_eq!(
        parse_msg("bid:a:b:123:10:0").unwrap_err(),
        EngineError::MalformedMessage
    );
    assert_eq!(
        parse_msg("buy:a:b:123:abc").unwrap_err(),
        EngineError::MalformedMessage
    );
    assert_eq!(
        parse_msg("sell:a:b:123:5").unwrap_err(),
        EngineError::MalformedMessage
    );
}
