//! Notification event lines.
//!
//! Each completed operation announces itself with a best-effort,
//! informational event line that no collaborator acknowledges: a bidding
//! state summary per allocation, a licensing line per purchase, and a
//! transfer line per payout. The builders here produce those lines
//! exactly; the embedding host only logs them.

use vstd::prelude::*;
use vstd::string::StringExecFns;
use crate::agg::AggPtVal;
use crate::text::{dec_str, milli_dec_str, milli_to_dec_string, push_char, u64_to_dec_string};

verus! {

/// The licensing event line: the content key, the buyer, and the price.
pub open spec fn licensing_event_str(key: Seq<char>, buyer: Seq<char>, price: int) -> Seq<
    char,
> {
    "EVENT_JSON:{\"event\": \"content_licensing\", \"data\": {\"content_id\": \""@ + key
        + "\", \"licence\": {\"buyer\": \""@ + buyer + "\", \"price\": "@ + milli_dec_str(price)
        + " } } }"@
}

/// Formats the licensing notification line for a completed purchase.
pub fn emit_content_licensing(key: &str, buyer: &str, price: u64) -> (s: String)
    ensures
        s@ == licensing_event_str(key@, buyer@, price as int),
{
    let mut s = String::from_str(
        "EVENT_JSON:{\"event\": \"content_licensing\", \"data\": {\"content_id\": \"",
    );
    s.append(key);
    s.append("\", \"licence\": {\"buyer\": \"");
    s.append(buyer);
    s.append("\", \"price\": ");
    let p = milli_to_dec_string(price);
    s.append(p.as_str());
    s.append(" } } }");
    proof {
        assert(s@ =~= licensing_event_str(key@, buyer@, price as int));
    }
    s
}

/// The transfer event line: the paying account, the recipient, and the
/// amount; the value field follows the recipient without a separating
/// comma.
pub open spec fn transfer_event_str(from: Seq<char>, to: Seq<char>, value: int) -> Seq<char> {
    "EVENT_JSON:{\"event\": \"transfer_funds\", \"data\": {\"from\": \""@ + from
        + "\", \"to\": \""@ + to + "\" \"value\": \""@ + milli_dec_str(value) + "\"} }"@
}

/// Formats the transfer notification line for one dispatched payout.
pub fn emit_transfer_funds(from: &str, to: &str, value: u64) -> (s: String)
    ensures
        s@ == transfer_event_str(from@, to@, value as int),
{
    let mut s = String::from_str(
        "EVENT_JSON:{\"event\": \"transfer_funds\", \"data\": {\"from\": \"",
    );
    s.append(from);
    s.append("\", \"to\": \"");
    s.append(to);
    s.append("\" \"value\": \"");
    let v = milli_to_dec_string(value);
    s.append(v.as_str());
    s.append("\"} }");
    proof {
        assert(s@ =~= transfer_event_str(from@, to@, value as int));
    }
    s
}

/// The date stamp the bidding event carries.
pub const BID_EVENT_DATE: u64 = 1270000000;

/// One entry of the bidding event: an owner, their accumulated bid value,
/// their percentage points, and the date stamp.
pub open spec fn bid_entry_str(owner: Seq<char>, value: int, pt: int) -> Seq<char> {
    "{\"owner\":\""@ + owner + "\", \"value\": "@ + milli_dec_str(value)
        + ", \"percentage\": "@ + dec_str(pt) + ", \"date\": "@ + dec_str(
        BID_EVENT_DATE as int,
    ) + " }"@
}

/// The first `n` aggregation entries as event text, joined by commas.
pub open spec fn bid_entries_str(entries: Seq<AggPtVal>, n: int) -> Seq<char>
    decreases n,
{
    if n <= 0 {
        Seq::<char>::empty()
    } else {
        bid_entries_str(entries, n - 1) + (if n > 1 {
            seq![',']
        } else {
            Seq::<char>::empty()
        }) + bid_entry_str(
            entries[n - 1].ownerId@,
            entries[n - 1].val as int,
            entries[n - 1].pt as int,
        )
    }
}

/// The bidding event line: the content key and every aggregated owner's
/// share.
pub open spec fn bid_event_str(key: Seq<char>, entries: Seq<AggPtVal>) -> Seq<char> {
    "EVENT_JSON:{\"event\": \"content_bid\", \"data\": {\"content_id\": \""@ + key
        + "\", \"bids\": ["@ + bid_entries_str(entries, entries.len() as int) + "]}}"@
}

/// Formats one aggregation entry of the bidding event.
fn bid_entry(e: &AggPtVal) -> (s: String)
    requires
        e.pt >= 0,
    ensures
        s@ == bid_entry_str(e.ownerId@, e.val as int, e.pt as int),
{
    let mut s = String::from_str("{\"owner\":\"");
    s.append(e.ownerId.as_str());
    s.append("\", \"value\": ");
    let v = milli_to_dec_string(e.val);
    s.append(v.as_str());
    s.append(", \"percentage\": ");
    let p = u64_to_dec_string(e.pt as u64);
    s.append(p.as_str());
    s.append(", \"date\": ");
    let d = u64_to_dec_string(BID_EVENT_DATE);
    s.append(d.as_str());
    s.append(" }");
    proof {
        assert(s@ =~= bid_entry_str(e.ownerId@, e.val as int, e.pt as int));
    }
    s
}

/// Formats the bidding notification line for a completed allocation, from
/// the valued ownership aggregation of the content item.
#[allow(non_snake_case)]
pub fn emit_content_bid(key: &str, aggMap: &Vec<AggPtVal>) -> (s: String)
    requires
        forall|i: int| 0 <= i < aggMap@.len() ==> #[trigger] aggMap@[i].pt >= 0,
    ensures
        s@ == bid_event_str(key@, aggMap@),
{
    let mut s = String::from_str(
        "EVENT_JSON:{\"event\": \"content_bid\", \"data\": {\"content_id\": \"",
    );
    s.append(key);
    s.append("\", \"bids\": [");
    let ghost head = s@;
    let n = aggMap.len();
    let mut i: usize = 0;
    while i < n
        invariant
            0 <= i <= n,
            n == aggMap@.len(),
            forall|k: int| 0 <= k < aggMap@.len() ==> #[trigger] aggMap@[k].pt >= 0,
            s@ =~= head + bid_entries_str(aggMap@, i as int),
        decreases n - i,
    {
        if i > 0 {
            push_char(&mut s, ',');
        }
        let entry = bid_entry(&aggMap[i]);
        s.append(entry.as_str());
        proof {
            assert(s@ =~= head + bid_entries_str(aggMap@, i + 1));
        }
        i = i + 1;
    }
    s.append("]}}");
    proof {
        assert(s@ =~= bid_event_str(key@, aggMap@));
    }
    s
}

} // verus!
