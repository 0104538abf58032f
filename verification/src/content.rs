//! Content identities and content records.
//!
//! A content item is named by the triple (creator, content identifier,
//! timestamp), serialized into a single composite key string; equal triples
//! always yield the same key. A content record carries the auctionable
//! slots: a fixed number of bid values paired index-by-index with the
//! ownership tokens standing for them, kept sorted ascending by bid value.

use vstd::prelude::*;
use vstd::string::{StrSliceExecFns, StringExecFns};
use crate::money::MAX_AMOUNT;
use crate::text::{dec_str, push_char, u64_to_dec_string};
use crate::BIDPT;

verus! {

/// The composite key text for a content identity: the content identifier,
/// the creator, and the decimal timestamp, joined by colons.
pub open spec fn composite_key(content_id: Seq<char>, creator_id: Seq<char>, ts: int) -> Seq<
    char,
> {
    content_id + seq![':'] + creator_id + seq![':'] + dec_str(ts)
}

/// A content identity: the triple naming a content item, together with its
/// serialized composite key.
#[allow(non_snake_case)]
pub struct ContentKey {
    pub key: String,
    pub contentId: String,
    pub creatorId: String,
    pub timestamp: u64,
}

/// A content identity is well formed when its key is the composite key of
/// its triple.
pub open spec fn wf_key(k: ContentKey) -> bool {
    k.key@ == composite_key(k.contentId@, k.creatorId@, k.timestamp as int)
}

/// Builds the content identity for a triple. Equal triples always produce
/// equal keys, so they resolve to the same content record.
#[allow(non_snake_case)]
pub fn create_content_key(contentId: &str, creatorId: &str, timestamp: u64) -> (k: ContentKey)
    ensures
        k.contentId@ == contentId@,
        k.creatorId@ == creatorId@,
        k.timestamp == timestamp,
        wf_key(k),
{
    let mut key = contentId.to_owned();
    push_char(&mut key, ':');
    key.append(creatorId);
    push_char(&mut key, ':');
    let ts = u64_to_dec_string(timestamp);
    key.append(ts.as_str());
    proof {
        assert(key@ =~= composite_key(contentId@, creatorId@, timestamp as int));
    }
    ContentKey {
        key,
        contentId: contentId.to_owned(),
        creatorId: creatorId.to_owned(),
        timestamp,
    }
}

/// The mathematical model of a content record.
#[verifier::ext_equal]
pub struct RecModel {
    pub creator: Seq<char>,
    pub content: Seq<char>,
    pub timestamp: int,
    pub vals: Seq<u64>,
    pub tokens: Seq<u64>,
    pub token_base: int,
}

/// A content record: the identity fields copied from the content key, the
/// slot bid values, the slot ownership-token identifiers paired with them
/// index by index, and the identifier of the primary ownership token.
#[derive(Debug)]
#[allow(non_snake_case)]
pub struct ContentRec {
    pub creatorId: String,
    pub contentId: String,
    pub timestamp: u64,
    pub bidvalArr: Vec<u64>,
    pub tokensArr: Vec<u64>,
    pub tokenId: u64,
}

impl View for ContentRec {
    type V = RecModel;

    open spec fn view(&self) -> RecModel {
        RecModel {
            creator: self.creatorId@,
            content: self.contentId@,
            timestamp: self.timestamp as int,
            vals: self.bidvalArr@,
            tokens: self.tokensArr@,
            token_base: self.tokenId as int,
        }
    }
}

/// Bid values in ascending order.
pub open spec fn sorted_vals(s: Seq<u64>) -> bool {
    forall|i: int, j: int| 0 <= i <= j < s.len() ==> s[i] <= s[j]
}

/// Every bid value within the engine's amount bound.
pub open spec fn bounded_vals(s: Seq<u64>) -> bool {
    forall|i: int| 0 <= i < s.len() ==> #[trigger] s[i] <= MAX_AMOUNT
}

/// A content record is well formed when it has exactly one bid value and
/// one ownership token per slot, the values are sorted ascending, and each
/// value is within the engine's amount bound.
pub open spec fn wf_rec(m: RecModel) -> bool {
    &&& m.vals.len() == BIDPT
    &&& m.tokens.len() == BIDPT
    &&& sorted_vals(m.vals)
    &&& bounded_vals(m.vals)
}

/// Sums the slot values of a record.
pub fn sum_slots(v: &Vec<u64>) -> (s: u64)
    requires
        bounded_vals(v@),
        v@.len() <= BIDPT,
    ensures
        s as int == sum_vals(v@),
{
    let mut s: u64 = 0;
    let mut i: usize = 0;
    while i < v.len()
        invariant
            0 <= i <= v@.len(),
            v@.len() <= BIDPT,
            bounded_vals(v@),
            s as int == sum_vals(v@.take(i as int)),
            s as int <= i * (MAX_AMOUNT as int),
        decreases v@.len() - i,
    {
        proof {
            assert(v@.take(i + 1).drop_last() =~= v@.take(i as int));
            assert(v@.take(i + 1).last() == v@[i as int]);
        }
        s = s + v[i];
        i = i + 1;
    }
    proof {
        assert(v@.take(v@.len() as int) =~= v@);
    }
    s
}

/// A vector of one zero per slot.
pub fn zero_slots() -> (v: Vec<u64>)
    ensures
        v@.len() == BIDPT,
        forall|i: int| 0 <= i < v@.len() ==> v@[i] == 0,
{
    let mut v: Vec<u64> = Vec::new();
    let mut i: usize = 0;
    while i < BIDPT
        invariant
            0 <= i <= BIDPT,
            v@.len() == i,
            forall|j: int| 0 <= j < v@.len() ==> v@[j] == 0,
        decreases BIDPT - i,
    {
        v.push(0);
        i = i + 1;
    }
    v
}

/// An exact copy of a slot vector.
pub fn copy_slots(v: &Vec<u64>) -> (r: Vec<u64>)
    ensures
        r@ == v@,
{
    let mut r: Vec<u64> = Vec::new();
    let mut i: usize = 0;
    while i < v.len()
        invariant
            0 <= i <= v@.len(),
            r@ =~= v@.take(i as int),
        decreases v@.len() - i,
    {
        r.push(v[i]);
        proof {
            assert(r@ =~= v@.take(i + 1));
        }
        i = i + 1;
    }
    proof {
        assert(v@.take(v@.len() as int) =~= v@);
    }
    r
}

/// The model of a record for a never-seen content item: empty identity,
/// all slot values zero, no tokens assigned.
pub open spec fn empty_rec_model() -> RecModel {
    RecModel {
        creator: Seq::<char>::empty(),
        content: Seq::<char>::empty(),
        timestamp: 0,
        vals: Seq::new(BIDPT as nat, |i: int| 0u64),
        tokens: Seq::new(BIDPT as nat, |i: int| 0u64),
        token_base: 0,
    }
}

/// How many slot values lie strictly below `x`.
pub open spec fn count_lt(vals: Seq<u64>, x: int) -> int
    decreases vals.len(),
{
    if vals.len() == 0 {
        0
    } else {
        count_lt(vals.drop_last(), x) + if (vals.last() as int) < x {
            1int
        } else {
            0
        }
    }
}

/// The count of values below `x` lies between zero and the length.
pub proof fn lemma_count_lt_bounds(vals: Seq<u64>, x: int)
    ensures
        0 <= count_lt(vals, x) <= vals.len(),
    decreases vals.len(),
{
    if vals.len() > 0 {
        lemma_count_lt_bounds(vals.drop_last(), x);
    }
}

/// In a sorted slot sequence the values below `x` form exactly the prefix
/// of length [`count_lt`].
pub proof fn lemma_sorted_count_lt(vals: Seq<u64>, x: int)
    requires
        sorted_vals(vals),
    ensures
        0 <= count_lt(vals, x) <= vals.len(),
        forall|i: int| 0 <= i < vals.len() ==> ((vals[i] as int) < x <==> i < count_lt(vals, x)),
    decreases vals.len(),
{
    if vals.len() > 0 {
        let pre = vals.drop_last();
        assert(sorted_vals(pre)) by {
            assert(forall|i: int| 0 <= i < pre.len() ==> pre[i] == vals[i]);
        }
        lemma_sorted_count_lt(pre, x);
        let c = count_lt(pre, x);
        if (vals.last() as int) < x {
            assert forall|i: int| 0 <= i < vals.len() - 1 implies (vals[i] as int) < x by {
                assert(vals[i] <= vals[vals.len() - 1]);
            }
            if c < vals.len() - 1 {
                assert(pre[c] == vals[c]);
                assert((vals[c] as int) < x);
                assert(false);
            }
            assert(c == vals.len() - 1);
        }
        assert forall|i: int|
            0 <= i < vals.len() implies ((vals[i] as int) < x <==> i < count_lt(vals, x)) by {
            if i < vals.len() - 1 {
                assert(pre[i] == vals[i]);
            }
        }
    }
}

/// Sum of all slot values.
pub open spec fn sum_vals(vals: Seq<u64>) -> int
    decreases vals.len(),
{
    if vals.len() == 0 {
        0
    } else {
        sum_vals(vals.drop_last()) + vals.last()
    }
}

/// A record for a never-seen content item: empty identity, all slot values
/// zero, no tokens assigned yet.
pub fn create_empty_content_rec() -> (r: ContentRec)
    ensures
        r@ == empty_rec_model(),
        wf_rec(r@),
{
    let r = ContentRec {
        creatorId: String::new(),
        contentId: String::new(),
        timestamp: 0,
        bidvalArr: zero_slots(),
        tokensArr: zero_slots(),
        tokenId: 0,
    };
    proof {
        assert(r@ =~= empty_rec_model());
    }
    r
}

impl ContentRec {
    /// An exact copy of the record.
    pub fn clone_rec(&self) -> (r: ContentRec)
        ensures
            r@ == self@,
    {
        let r = ContentRec {
            creatorId: self.creatorId.clone(),
            contentId: self.contentId.clone(),
            timestamp: self.timestamp,
            bidvalArr: copy_slots(&self.bidvalArr),
            tokensArr: copy_slots(&self.tokensArr),
            tokenId: self.tokenId,
        };
        proof {
            assert(r@ =~= self@);
        }
        r
    }
}

} // verus!
