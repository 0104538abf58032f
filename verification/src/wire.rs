//! The transfer-listener wire format.
//!
//! Operations arrive as colon-delimited text: a bid names its identity,
//! the requested percentage points and the bid value; a licence purchase
//! names its identity and the requested price. A message that does not
//! parse — wrong operation name, too few fields, an unreadable number, a
//! value out of range — is rejected as malformed and nothing happens.

use vstd::prelude::*;
use vstd::string::StringExecFns;
use crate::money::MAX_AMOUNT;
use crate::outcome::EngineError;
use crate::parse::{
    all_digits, dec_val, decimal_shape, milli_val, parse_milli, parse_u64, split_colons,
    split_fields,
};

verus! {

/// A parsed operation descriptor.
#[derive(Debug)]
#[allow(non_snake_case)]
pub enum OpDesc {
    /// A bid for `points` percentage points of total value `value`
    /// milli-units.
    Bid { contentId: String, creatorId: String, timestamp: u64, points: u32, value: u64 },
    /// A licence purchase at `price` milli-units.
    Buy { contentId: String, creatorId: String, timestamp: u64, price: u64 },
}

/// Shape of a well-formed bid message: at least six colon-separated
/// fields — the operation name `bid`, the creator, the content
/// identifier, a timestamp, the requested points between one and one
/// hundred, and a positive decimal value within the engine's bound.
pub open spec fn bid_msg_ok(m: Seq<char>) -> bool {
    let f = split_fields(m);
    &&& f.len() >= 6
    &&& f[0] == "bid"@
    &&& f[3].len() > 0 && all_digits(f[3]) && dec_val(f[3]) <= u64::MAX
    &&& f[4].len() > 0 && all_digits(f[4]) && 1 <= dec_val(f[4]) <= 100
    &&& decimal_shape(f[5]) && 1 <= milli_val(f[5]) <= MAX_AMOUNT
}

/// Shape of a well-formed licence-purchase message: at least five
/// colon-separated fields — the operation name `buy`, the creator, the
/// content identifier, a timestamp, and a decimal price within the
/// engine's bound.
pub open spec fn buy_msg_ok(m: Seq<char>) -> bool {
    let f = split_fields(m);
    &&& f.len() >= 5
    &&& f[0] == "buy"@
    &&& f[3].len() > 0 && all_digits(f[3]) && dec_val(f[3]) <= u64::MAX
    &&& decimal_shape(f[4]) && milli_val(f[4]) <= MAX_AMOUNT
}

/// Parses a listener message into an operation descriptor, rejecting
/// exactly the messages of neither well-formed shape.
pub fn parse_msg(msg: &str) -> (r: Result<OpDesc, EngineError>)
    ensures
        bid_msg_ok(msg@) ==> ({
            let f = split_fields(msg@);
            r matches Ok(d) && (d matches OpDesc::Bid {
                contentId,
                creatorId,
                timestamp,
                points,
                value,
            } && contentId@ == f[2] && creatorId@ == f[1] && timestamp == dec_val(f[3])
                && points == dec_val(f[4]) && value == milli_val(f[5]))
        }),
        buy_msg_ok(msg@) ==> ({
            let f = split_fields(msg@);
            r matches Ok(d) && (d matches OpDesc::Buy { contentId, creatorId, timestamp, price }
                && contentId@ == f[2] && creatorId@ == f[1] && timestamp == dec_val(f[3])
                && price == milli_val(f[4]))
        }),
        !bid_msg_ok(msg@) && !buy_msg_ok(msg@) ==> r == Err::<OpDesc, EngineError>(
            EngineError::MalformedMessage,
        ),
{
    proof {
        reveal_strlit("bid");
        reveal_strlit("buy");
    }
    let parts = split_colons(msg);
    let ghost f = split_fields(msg@);
    proof {
        assert(forall|i: int| 0 <= i < parts@.len() ==> #[trigger] parts@[i]@ == f[i]);
    }
    if parts.len() < 5 {
        return Err(EngineError::MalformedMessage);
    }
    let bid_op = String::from_str("bid");
    let buy_op = String::from_str("buy");
    if parts[0] == bid_op {
        proof {
            reveal_strlit("bid");
            reveal_strlit("buy");
            assert(("bid"@)[1] == 'i' && ("buy"@)[1] == 'u');
            assert(f[0] == "bid"@ && f[0] != "buy"@);
        }
        if parts.len() < 6 {
            return Err(EngineError::MalformedMessage);
        }
        let timestamp = match parse_u64(parts[3].as_str()) {
            Some(t) => t,
            None => {
                return Err(EngineError::MalformedMessage);
            },
        };
        let pt = match parse_u64(parts[4].as_str()) {
            Some(p) => p,
            None => {
                return Err(EngineError::MalformedMessage);
            },
        };
        if pt < 1 || pt > 100 {
            return Err(EngineError::MalformedMessage);
        }
        let value = match parse_milli(parts[5].as_str()) {
            Some(v) => v,
            None => {
                return Err(EngineError::MalformedMessage);
            },
        };
        if value < 1 {
            return Err(EngineError::MalformedMessage);
        }
        Ok(
            OpDesc::Bid {
                contentId: parts[2].clone(),
                creatorId: parts[1].clone(),
                timestamp,
                points: pt as u32,
                value,
            },
        )
    } else if parts[0] == buy_op {
        proof {
            reveal_strlit("bid");
            reveal_strlit("buy");
            assert(("bid"@)[1] == 'i' && ("buy"@)[1] == 'u');
            assert(f[0] == "buy"@ && f[0] != "bid"@);
        }
        let timestamp = match parse_u64(parts[3].as_str()) {
            Some(t) => t,
            None => {
                return Err(EngineError::MalformedMessage);
            },
        };
        let price = match parse_milli(parts[4].as_str()) {
            Some(v) => v,
            None => {
                return Err(EngineError::MalformedMessage);
            },
        };
        Ok(
            OpDesc::Buy {
                contentId: parts[2].clone(),
                creatorId: parts[1].clone(),
                timestamp,
                price,
            },
        )
    } else {
        proof {
            reveal_strlit("bid");
            reveal_strlit("buy");
            assert(f[0] != "bid"@ && f[0] != "buy"@);
        }
        Err(EngineError::MalformedMessage)
    }
}

} // verus!
