//! The marketplace engine state and its operations.
//!
//! The engine holds the content registry, the token-identifier counters and
//! the reentrancy guard. Its operations — resolving or creating content
//! records, aggregating ownership, placing bids and selling licences —
//! mutate only this state and return every external effect as a command
//! value (see the outcome module) for the embedding host to dispatch.

use vstd::prelude::*;
use crate::agg::{
    aggregate_owners_pts_vals, distinct_owners, distinct_owners_pv, expected_points,
    get_content_owners_from_arr, lemma_points_le_total, lemma_points_of_absent,
    lemma_points_of_found, nonneg_points, nonneg_points_pv, owner_vals, owner_views, points_of,
    points_of_pv, positive_points, total_points, total_points_pv, AggPtVal, AggRec,
};
use crate::content::{
    bounded_vals, composite_key, copy_slots, count_lt, create_content_key,
    create_empty_content_rec, empty_rec_model, lemma_sorted_count_lt, sorted_vals, sum_slots,
    sum_vals, wf_key, wf_rec, zero_slots, ContentKey, ContentRec, RecModel,
};
use crate::money::{
    split_royalty, MAX_AMOUNT, NEW_CONTENT_RESERVE, TREASURY_ID, UNSPENT_EPSILON,
};
use crate::outcome::{
    bid_eviction_payouts, bid_payouts, eviction_views, evict_payouts, mint_views, payout_views,
    treasury, BidOutcome, BuyOutcome, EngineError, Eviction, EvictionModel, MintCmd, MintModel,
    Payout, PayoutKind, PayoutModel,
};
use crate::outcome::OpOutcome;
use crate::parse::{dec_val, milli_val, split_fields};
use crate::sortslots::{pairs, sortBidding};
use crate::wire::{bid_msg_ok, buy_msg_ok, parse_msg, OpDesc};
use crate::BIDPT;
use vstd::string::StringExecFns;

verus! {

/// Upper bound on how many content records the registry can hold; keeps
/// the token-identifier counter far from its machine limit.
pub const MAX_CONTENTS: usize = 100_000_000;

/// First value of the ownership-token counter; content token bases grow
/// from here in steps of one hundred.
pub const FIRST_TOKEN_ID: u64 = 1000;

/// First value of the licence-token counter.
pub const FIRST_LICENCE_TOKEN_ID: u64 = 1_000_000;

/// The engine state: the content registry keyed by composite key, the two
/// token-identifier counters, a diagnostic counter, and the reentrancy
/// guard.
#[allow(non_snake_case)]
pub struct Contract {
    pub contents: Vec<(String, ContentRec)>,
    pub lastTokenId: u64,
    pub lastContentTokenId: u64,
    pub cnt: u32,
    pub lock: u32,
}

/// Well-formedness of one registry entry at position `i`: the record is
/// well formed, the entry's key is the composite key of the record's own
/// identity, and the record's token base is the one assigned at its
/// creation rank.
pub open spec fn wf_entry(e: (String, ContentRec), i: int) -> bool {
    &&& wf_rec(e.1@)
    &&& e.0@ == composite_key(e.1@.content, e.1@.creator, e.1@.timestamp)
    &&& e.1@.token_base == FIRST_TOKEN_ID + 100 * (i + 1)
}

/// Some registry entry carries this key.
pub open spec fn has_key(entries: Seq<(String, ContentRec)>, key: Seq<char>) -> bool {
    exists|i: int| 0 <= i < entries.len() && entries[i].0@ == key
}

/// The position of the entry carrying this key; meaningful under
/// [`has_key`], unique when keys are distinct.
pub open spec fn key_index(entries: Seq<(String, ContentRec)>, key: Seq<char>) -> int {
    choose|i: int| 0 <= i < entries.len() && entries[i].0@ == key
}

impl Contract {
    /// Well-formedness of the engine state: the registry is within
    /// capacity, the token counter matches the number of records, every
    /// entry is well formed, and keys are pairwise distinct.
    pub open spec fn wf(self) -> bool {
        &&& self.contents@.len() <= MAX_CONTENTS
        &&& self.lastTokenId as int == FIRST_TOKEN_ID + 100 * self.contents@.len()
        &&& forall|i: int|
            0 <= i < self.contents@.len() ==> wf_entry(#[trigger] self.contents@[i], i)
        &&& forall|i: int, j: int|
            0 <= i < j < self.contents@.len() ==> self.contents@[i].0@ != self.contents@[j].0@
    }

    /// Everything but the registry and the ownership-token counter equals
    /// `other`'s.
    pub open spec fn same_counters(self, other: Contract) -> bool {
        &&& self.lastContentTokenId == other.lastContentTokenId
        &&& self.cnt == other.cnt
        &&& self.lock == other.lock
    }

    /// The whole state equals `other`'s.
    pub open spec fn same_state(self, other: Contract) -> bool {
        &&& self.contents@ == other.contents@
        &&& self.lastTokenId == other.lastTokenId
        &&& self.same_counters(other)
    }

    /// A fresh engine: empty registry, counters at their first values, the
    /// guard released.
    pub fn new() -> (c: Contract)
        ensures
            c.wf(),
            c.contents@.len() == 0,
            c.lastTokenId == FIRST_TOKEN_ID,
            c.lastContentTokenId == FIRST_LICENCE_TOKEN_ID,
            c.cnt == 0,
            c.lock == 0,
    {
        Contract {
            contents: Vec::new(),
            lastTokenId: FIRST_TOKEN_ID,
            lastContentTokenId: FIRST_LICENCE_TOKEN_ID,
            cnt: 0,
            lock: 0,
        }
    }

    /// The diagnostic counter.
    pub fn get_contract_cnt(&self) -> (r: u32)
        ensures
            r == self.cnt,
    {
        self.cnt
    }

    /// Bumps the diagnostic counter by one.
    pub fn inc_cnt(&mut self)
        requires
            old(self).cnt < u32::MAX,
        ensures
            final(self).cnt == old(self).cnt + 1,
            final(self).contents@ == old(self).contents@,
            final(self).lastTokenId == old(self).lastTokenId,
            final(self).lastContentTokenId == old(self).lastContentTokenId,
            final(self).lock == old(self).lock,
    {
        self.cnt = self.cnt + 1;
    }

    /// Bumps the diagnostic counter by `cnt`.
    pub fn add_cnt(&mut self, cnt: u32)
        requires
            old(self).cnt + cnt <= u32::MAX,
        ensures
            final(self).cnt == old(self).cnt + cnt,
            final(self).contents@ == old(self).contents@,
            final(self).lastTokenId == old(self).lastTokenId,
            final(self).lastContentTokenId == old(self).lastContentTokenId,
            final(self).lock == old(self).lock,
    {
        self.cnt = self.cnt + cnt;
    }

    /// Tries to acquire the reentrancy guard: succeeds exactly when no
    /// operation is in flight, and then holds it; never blocks or queues.
    pub fn lock_start(&mut self) -> (r: bool)
        ensures
            r == (old(self).lock == 0),
            r ==> final(self).lock == 1,
            !r ==> final(self).lock == old(self).lock,
            final(self).contents@ == old(self).contents@,
            final(self).lastTokenId == old(self).lastTokenId,
            final(self).lastContentTokenId == old(self).lastContentTokenId,
            final(self).cnt == old(self).cnt,
    {
        if self.lock > 0 {
            false
        } else {
            self.lock = self.lock + 1;
            true
        }
    }

    /// Releases the reentrancy guard.
    pub fn lock_end(&mut self)
        requires
            old(self).lock > 0,
        ensures
            final(self).lock == old(self).lock - 1,
            final(self).contents@ == old(self).contents@,
            final(self).lastTokenId == old(self).lastTokenId,
            final(self).lastContentTokenId == old(self).lastContentTokenId,
            final(self).cnt == old(self).cnt,
    {
        self.lock = self.lock - 1;
    }

    /// The position of the entry carrying `key`, if any.
    fn find_entry(&self, key: &String) -> (r: Option<usize>)
        ensures
            r matches Some(i) ==> i < self.contents@.len() && self.contents@[i as int].0@
                == key@,
            r.is_some() == has_key(self.contents@, key@),
    {
        let n = self.contents.len();
        let mut i: usize = 0;
        while i < n
            invariant
                0 <= i <= n,
                n == self.contents@.len(),
                forall|k: int| 0 <= k < i ==> self.contents@[k].0@ != key@,
            decreases n - i,
        {
            if self.contents[i].0 == *key {
                return Some(i);
            }
            i = i + 1;
        }
        None
    }
}

/// The model of the record freshly created for an identity with its slot
/// tokens based at `base`: all slot values zero, slot tokens `base + 1`
/// through `base + BIDPT` in order.
pub open spec fn fresh_rec_model(
    content_id: Seq<char>,
    creator_id: Seq<char>,
    timestamp: int,
    base: int,
) -> RecModel {
    RecModel {
        creator: creator_id,
        content: content_id,
        timestamp: timestamp,
        vals: Seq::new(BIDPT as nat, |i: int| 0u64),
        tokens: Seq::new(BIDPT as nat, |i: int| (base + 1 + i) as u64),
        token_base: base,
    }
}

/// The model of the record freshly created for identity `k`.
pub open spec fn new_rec_model(k: ContentKey, base: int) -> RecModel {
    fresh_rec_model(k.contentId@, k.creatorId@, k.timestamp as int, base)
}

/// The mints that creating a record dispatches: the primary token, worth
/// the non-auctioned share of percentage points, then one slot token per
/// slot, each worth one point — all assigned to the creator.
pub open spec fn creation_mints(creator: Seq<char>, base: int) -> Seq<MintModel> {
    seq![MintModel { token: base, receiver: creator, pt: (100 - BIDPT) as int }] + Seq::new(
        BIDPT as nat,
        |i: int| MintModel { token: base + 1 + i, receiver: creator, pt: 1 },
    )
}

impl Contract {
    /// Resolves the record for identity `k`, creating it when absent.
    /// Returns whether the record already existed, its registry position,
    /// and the mints a creation dispatches. Idempotent: when the key is
    /// already present nothing is created, nothing is minted, and the
    /// registry is unchanged, so repeated calls with the same identity
    /// resolve to the same record and never mint duplicate tokens.
    #[allow(non_snake_case)]
    pub fn confirm_content_by_key(&mut self, k: &ContentKey) -> (r: (bool, usize, Vec<MintCmd>))
        requires
            old(self).wf(),
            wf_key(*k),
            old(self).contents@.len() < MAX_CONTENTS,
        ensures
            final(self).wf(),
            final(self).same_counters(*old(self)),
            r.1 < final(self).contents@.len(),
            final(self).contents@[r.1 as int].0@ == k.key@,
            r.0 == has_key(old(self).contents@, k.key@),
            has_key(old(self).contents@, k.key@) ==> final(self).contents@ == old(
                self,
            ).contents@ && final(self).lastTokenId == old(self).lastTokenId && r.2@.len() == 0,
            !has_key(old(self).contents@, k.key@) ==> {
                let base = old(self).lastTokenId + 100;
                &&& final(self).lastTokenId == base
                &&& final(self).contents@.len() == old(self).contents@.len() + 1
                &&& r.1 == old(self).contents@.len()
                &&& final(self).contents@.drop_last() == old(self).contents@
                &&& final(self).contents@.last().0@ == k.key@
                &&& final(self).contents@.last().1@ == new_rec_model(*k, base as int)
                &&& mint_views(r.2@) == creation_mints(k.creatorId@, base as int)
            },
    {
        match self.find_entry(&k.key) {
            Some(i) => (true, i, Vec::new()),
            None => {
                proof {
                    assert(100 * (self.contents@.len() + 1) <= 100 * MAX_CONTENTS as int);
                }
                let base = self.lastTokenId + 100;
                self.lastTokenId = base;
                let ghost gbase = base as int;
                let mut tokens: Vec<u64> = Vec::new();
                let mut i: usize = 0;
                while i < BIDPT
                    invariant
                        0 <= i <= BIDPT,
                        tokens@.len() == i,
                        gbase == base as int,
                        base + 1 + BIDPT <= u64::MAX,
                        forall|j: int| 0 <= j < i ==> tokens@[j] == (gbase + 1 + j) as u64,
                    decreases BIDPT - i,
                {
                    tokens.push(base + 1 + (i as u64));
                    i = i + 1;
                }
                let rec = ContentRec {
                    creatorId: k.creatorId.clone(),
                    contentId: k.contentId.clone(),
                    timestamp: k.timestamp,
                    bidvalArr: zero_slots(),
                    tokensArr: tokens,
                    tokenId: base,
                };
                proof {
                    assert(rec@ =~= new_rec_model(*k, gbase));
                }
                let mut mints: Vec<MintCmd> = Vec::new();
                mints.push(
                    MintCmd {
                        tokenId: base,
                        receiver: k.creatorId.clone(),
                        pt: (100 - BIDPT) as u64,
                    },
                );
                let mut j: usize = 0;
                while j < BIDPT
                    invariant
                        0 <= j <= BIDPT,
                        mints@.len() == j + 1,
                        gbase == base as int,
                        base + 1 + BIDPT <= u64::MAX,
                        mint_views(mints@) =~= creation_mints(k.creatorId@, gbase).take(
                            j + 1,
                        ),
                    decreases BIDPT - j,
                {
                    let ghost prev = mints@;
                    mints.push(
                        MintCmd {
                            tokenId: base + 1 + (j as u64),
                            receiver: k.creatorId.clone(),
                            pt: 1,
                        },
                    );
                    proof {
                        assert(mint_views(mints@) =~= creation_mints(k.creatorId@, gbase).take(
                            j + 2,
                        ));
                    }
                    j = j + 1;
                }
                proof {
                    assert(creation_mints(k.creatorId@, gbase).take(BIDPT as int + 1)
                        =~= creation_mints(k.creatorId@, gbase));
                }
                let idx = self.contents.len();
                let ghost prev_entries = self.contents@;
                self.contents.push((k.key.clone(), rec));
                proof {
                    assert(self.contents@.drop_last() =~= prev_entries);
                    assert forall|i2: int|
                        0 <= i2 < self.contents@.len() implies wf_entry(
                        #[trigger] self.contents@[i2],
                        i2,
                    ) by {
                        if i2 < self.contents@.len() - 1 {
                            assert(self.contents@[i2] == prev_entries[i2]);
                        }
                    }
                }
                (false, idx, mints)
            },
        }
    }

    /// The current bidding state of a content item: a copy of its record,
    /// or an empty record when the identity has never been seen.
    #[allow(non_snake_case)]
    pub fn get_bidding_state(&self, contentId: String, timestamp: u64, creatorId: String) -> (r:
        ContentRec)
        ensures
            ({
                let key = composite_key(contentId@, creatorId@, timestamp as int);
                &&& has_key(self.contents@, key) ==> exists|i: int|
                    0 <= i < self.contents@.len() && #[trigger] self.contents@[i].0@ == key
                        && r@ == self.contents@[i].1@
                &&& !has_key(self.contents@, key) ==> r@ == empty_rec_model()
            }),
    {
        let k = create_content_key(contentId.as_str(), creatorId.as_str(), timestamp);
        match self.find_entry(&k.key) {
            Some(i) => self.contents[i].1.clone_rec(),
            None => create_empty_content_rec(),
        }
    }

    /// Copies of all content records, in registry order.
    pub fn dash_get_contents(&self) -> (r: Vec<ContentRec>)
        ensures
            r@.len() == self.contents@.len(),
            forall|i: int| 0 <= i < r@.len() ==> #[trigger] r@[i]@ == self.contents@[i].1@,
    {
        let mut r: Vec<ContentRec> = Vec::new();
        let n = self.contents.len();
        let mut i: usize = 0;
        while i < n
            invariant
                0 <= i <= n,
                n == self.contents@.len(),
                r@.len() == i,
                forall|j: int| 0 <= j < i ==> #[trigger] r@[j]@ == self.contents@[j].1@,
            decreases n - i,
        {
            r.push(self.contents[i].1.clone_rec());
            i = i + 1;
        }
        r
    }

    /// The percentage points held per distinct account for a content item,
    /// computed from the current owners of its slot tokens. Fails with
    /// `NotFound` when the identity has never been seen; never creates.
    #[allow(non_snake_case)]
    pub fn get_content_owners(
        &self,
        contentId: String,
        creatorId: String,
        timestamp: u64,
        bidderArr: &Vec<String>,
    ) -> (r: Result<Vec<AggRec>, EngineError>)
        requires
            bidderArr@.len() == BIDPT,
        ensures
            ({
                let key = composite_key(contentId@, creatorId@, timestamp as int);
                &&& r.is_ok() == has_key(self.contents@, key)
                &&& r matches Ok(agg) ==> distinct_owners(agg@) && nonneg_points(agg@)
                    && total_points(agg@) == 100 && forall|o: Seq<char>|
                    points_of(agg@, o) == expected_points(
                        creatorId@,
                        owner_views(bidderArr@),
                        o,
                    )
                &&& !has_key(self.contents@, key) ==> r == Err::<Vec<AggRec>, EngineError>(
                    EngineError::NotFound,
                )
            }),
    {
        let k = create_content_key(contentId.as_str(), creatorId.as_str(), timestamp);
        match self.find_entry(&k.key) {
            Some(_) => Ok(get_content_owners_from_arr(bidderArr, creatorId)),
            None => Err(EngineError::NotFound),
        }
    }

    /// The percentage points and accumulated bid value held per distinct
    /// account for a content item. Fails with `NotFound` when the identity
    /// has never been seen; never creates.
    #[allow(non_snake_case)]
    pub fn get_content_owners_pts_vals(
        &self,
        contentId: String,
        creatorId: String,
        timestamp: u64,
        bidderArr: &Vec<String>,
    ) -> (r: Result<Vec<AggPtVal>, EngineError>)
        requires
            self.wf(),
            bidderArr@.len() == BIDPT,
        ensures
            ({
                let key = composite_key(contentId@, creatorId@, timestamp as int);
                &&& r.is_ok() == has_key(self.contents@, key)
                &&& r matches Ok(agg) ==> distinct_owners_pv(agg@) && nonneg_points_pv(agg@)
                    && total_points_pv(agg@) == 100 && exists|i: int|
                    0 <= i < self.contents@.len() && #[trigger] self.contents@[i].0@ == key && (
                    forall|o: Seq<char>|
                        points_of_pv(agg@, o) == expected_points(
                            creatorId@,
                            owner_views(bidderArr@),
                            o,
                        ) && vals_of_pv_holds(agg@, self.contents@[i].1@, bidderArr@, o))
                &&& !has_key(self.contents@, key) ==> r == Err::<Vec<AggPtVal>, EngineError>(
                    EngineError::NotFound,
                )
            }),
    {
        let k = create_content_key(contentId.as_str(), creatorId.as_str(), timestamp);
        match self.find_entry(&k.key) {
            Some(i) => {
                let agg = aggregate_owners_pts_vals(
                    bidderArr,
                    &self.contents[i].1.bidvalArr,
                    creatorId,
                );
                Ok(agg)
            },
            None => Err(EngineError::NotFound),
        }
    }
}

/// The valued share of owner `o` matches the record: the sum of the bid
/// values of the slots `o` holds.
pub open spec fn vals_of_pv_holds(
    agg: Seq<AggPtVal>,
    rec: RecModel,
    bidders: Seq<String>,
    o: Seq<char>,
) -> bool {
    crate::agg::vals_of_pv(agg, o) == owner_vals(owner_views(bidders), rec.vals, o)
}

/// The smaller of two integers.
pub open spec fn min_int(a: int, b: int) -> int {
    if a <= b {
        a
    } else {
        b
    }
}

/// A sequence with the same multiset of elements as a bounded sequence is
/// bounded too.
proof fn lemma_bounded_from_multiset(a: Seq<u64>, b: Seq<u64>)
    requires
        a.to_multiset() == b.to_multiset(),
        bounded_vals(a),
    ensures
        bounded_vals(b),
{
    broadcast use vstd::seq_lib::group_to_multiset_ensures;

    assert forall|i: int| 0 <= i < b.len() implies #[trigger] b[i] <= MAX_AMOUNT by {
        assert(b.contains(b[i]));
        assert(b.to_multiset().count(b[i]) > 0);
        assert(a.contains(b[i]));
        let j = choose|j: int| 0 <= j < a.len() && a[j] == b[i];
        assert(a[j] <= MAX_AMOUNT);
    }
}

/// What a successful bid does: the record for the identity is resolved or
/// created; the cheapest affordable slots — those whose value lies below
/// the per-point price, up to the requested number of points — are evicted
/// in scan order; each eviction reassigns the slot's token to the bidder,
/// refunds the previous owner exactly the previous value, routes the
/// royalty split of the increase to the creator and the platform, and sets
/// the slot to the per-point price; the unspent remainder above the policy
/// threshold is refunded to the bidder; and the slots are re-sorted with
/// their token pairing preserved.
pub open spec fn bid_applied(
    pre: Contract,
    post: Contract,
    out: BidOutcome,
    content_id: Seq<char>,
    creator_id: Seq<char>,
    timestamp: int,
    scout: Seq<char>,
    value: int,
    points: int,
    owners: Seq<Seq<char>>,
) -> bool {
    let key = composite_key(content_id, creator_id, timestamp);
    let existed = has_key(pre.contents@, key);
    let base = pre.lastTokenId + 100;
    let idx = if existed {
        key_index(pre.contents@, key)
    } else {
        pre.contents@.len() as int
    };
    let rec0 = if existed {
        pre.contents@[idx].1@
    } else {
        fresh_rec_model(content_id, creator_id, timestamp, base)
    };
    let pp = value / points;
    let m = min_int(points, count_lt(rec0.vals, pp));
    let spent = m * pp;
    let unspent = value - spent;
    let updated_vals = Seq::new(
        BIDPT as nat,
        |i: int|
            if i < m {
                pp as u64
            } else {
                rec0.vals[i]
            },
    );
    &&& out.created == !existed
    &&& (existed ==> out.mints@.len() == 0)
    &&& (!existed ==> mint_views(out.mints@) == creation_mints(creator_id, base))
    &&& out.perPointPrice == pp
    &&& out.spent == spent
    &&& eviction_views(out.evictions@) == Seq::new(
        m as nat,
        |i: int|
            EvictionModel {
                token: rec0.tokens[i] as int,
                previous_owner: owners[i],
                previous_value: rec0.vals[i] as int,
                new_value: pp,
            },
    )
    &&& payout_views(out.payouts@) == bid_payouts(
        rec0.vals,
        owners,
        rec0.creator,
        scout,
        pp,
        m,
        unspent,
    )
    &&& post.contents@.len() == (if existed {
        pre.contents@.len()
    } else {
        pre.contents@.len() + 1
    })
    &&& forall|j: int|
        0 <= j < post.contents@.len() && j != idx ==> post.contents@[j] == pre.contents@[j]
    &&& post.contents@[idx].0@ == key
    &&& ({
        let rec1 = post.contents@[idx].1@;
        &&& rec1.creator == rec0.creator
        &&& rec1.content == rec0.content
        &&& rec1.timestamp == rec0.timestamp
        &&& rec1.token_base == rec0.token_base
        &&& sorted_vals(rec1.vals)
        &&& pairs(rec1.vals, rec1.tokens).to_multiset() == pairs(
            updated_vals,
            rec0.tokens,
        ).to_multiset()
    })
    &&& post.lastTokenId as int == (if existed {
        pre.lastTokenId as int
    } else {
        base
    })
    &&& post.lastContentTokenId == pre.lastContentTokenId
    &&& post.cnt == pre.cnt
    &&& post.lock == pre.lock
}

/// The licence reserve price for an identity: the sum of the record's slot
/// values when the record exists, the policy floor for a never-seen
/// identity.
pub open spec fn reserve_for(entries: Seq<(String, ContentRec)>, key: Seq<char>) -> int {
    if has_key(entries, key) {
        sum_vals(entries[key_index(entries, key)].1@.vals)
    } else {
        NEW_CONTENT_RESERVE as int
    }
}

/// The revenue split of a licence purchase: first the platform treasury's
/// tenth of the price, then exactly one share per distinct account holding
/// points — the remainder of the price times the account's points over one
/// hundred, rounded down.
pub open spec fn licence_shares_ok(
    ps: Seq<PayoutModel>,
    creator: Seq<char>,
    owners: Seq<Seq<char>>,
    price: int,
) -> bool {
    let remaining = price - price / 10;
    &&& ps.len() >= 1
    &&& ps[0] == PayoutModel {
        to: treasury(),
        amount: price / 10,
        kind: PayoutKind::LicenceTreasury,
    }
    &&& forall|j: int|
        1 <= j < ps.len() ==> (#[trigger] ps[j]).kind == PayoutKind::LicenceOwnerShare
            && ps[j].amount == remaining * expected_points(creator, owners, ps[j].to) / 100
            && expected_points(creator, owners, ps[j].to) > 0
    &&& forall|j: int, l: int| 1 <= j < l < ps.len() ==> ps[j].to != ps[l].to
    &&& forall|o: Seq<char>|
        expected_points(creator, owners, o) > 0 ==> exists|j: int|
            1 <= j < ps.len() && #[trigger] ps[j].to == o
}

/// What a successful licence purchase does: the record for the identity is
/// resolved or created but its slots are never touched; the platform
/// receives a tenth of the price and every account holding points receives
/// its pro-rata share of the remainder; and a fresh licence token
/// identifier is assigned.
pub open spec fn buy_applied(
    pre: Contract,
    post: Contract,
    out: BuyOutcome,
    content_id: Seq<char>,
    creator_id: Seq<char>,
    timestamp: int,
    price: int,
    owners: Seq<Seq<char>>,
) -> bool {
    let key = composite_key(content_id, creator_id, timestamp);
    let existed = has_key(pre.contents@, key);
    let base = pre.lastTokenId + 100;
    &&& out.created == !existed
    &&& (existed ==> out.mints@.len() == 0 && post.contents@ == pre.contents@
        && post.lastTokenId == pre.lastTokenId)
    &&& (!existed ==> {
        &&& mint_views(out.mints@) == creation_mints(creator_id, base)
        &&& post.lastTokenId as int == base
        &&& post.contents@.len() == pre.contents@.len() + 1
        &&& post.contents@.drop_last() == pre.contents@
        &&& post.contents@.last().0@ == key
        &&& post.contents@.last().1@ == fresh_rec_model(content_id, creator_id, timestamp, base)
    })
    &&& licence_shares_ok(payout_views(out.payouts@), creator_id, owners, price)
    &&& out.licenceTokenId as int == pre.lastContentTokenId + 1
    &&& post.lastContentTokenId as int == pre.lastContentTokenId + 1
    &&& post.cnt == pre.cnt
    &&& post.lock == pre.lock
}

/// The payout list a licence purchase dispatches for a given aggregation:
/// the treasury's tenth of the price first, then one pro-rata share per
/// aggregation entry, in aggregation order.
pub open spec fn agg_share_payouts(ps: Seq<PayoutModel>, agg: Seq<AggRec>, price: int) -> bool {
    let remaining = price - price / 10;
    &&& ps.len() == agg.len() + 1
    &&& ps[0] == PayoutModel {
        to: treasury(),
        amount: price / 10,
        kind: PayoutKind::LicenceTreasury,
    }
    &&& forall|j: int|
        1 <= j < ps.len() ==> #[trigger] ps[j] == (PayoutModel {
            to: agg[j - 1].ownerId@,
            amount: remaining * (agg[j - 1].pt as int) / 100,
            kind: PayoutKind::LicenceOwnerShare,
        })
}

/// Builds the payouts of a licence purchase: the treasury share, then each
/// aggregated account's pro-rata share of the remainder.
fn build_licence_payouts(agg: &Vec<AggRec>, price: u64) -> (payouts: Vec<Payout>)
    requires
        nonneg_points(agg@),
        total_points(agg@) == 100,
        distinct_owners(agg@),
        price <= MAX_AMOUNT,
    ensures
        agg_share_payouts(payout_views(payouts@), agg@, price as int),
{
    let treasuryShare = price / 10;
    let remainingPrice = price - treasuryShare;
    let mut payouts: Vec<Payout> = Vec::new();
    payouts.push(
        Payout {
            to: String::from_str(TREASURY_ID),
            amount: treasuryShare,
            kind: PayoutKind::LicenceTreasury,
        },
    );
    proof {
        assert(payout_views(payouts@)[0] =~= PayoutModel {
            to: treasury(),
            amount: price as int / 10,
            kind: PayoutKind::LicenceTreasury,
        });
    }
    let n = agg.len();
    let mut i: usize = 0;
    while i < n
        invariant
            0 <= i <= n,
            n == agg@.len(),
            distinct_owners(agg@),
            nonneg_points(agg@),
            total_points(agg@) == 100,
            remainingPrice == price - price / 10,
            price <= MAX_AMOUNT,
            payouts@.len() == i + 1,
            payout_views(payouts@)[0] == (PayoutModel {
                to: treasury(),
                amount: price as int / 10,
                kind: PayoutKind::LicenceTreasury,
            }),
            forall|j: int|
                1 <= j < payouts@.len() ==> #[trigger] payout_views(payouts@)[j]
                    == (PayoutModel {
                    to: agg@[j - 1].ownerId@,
                    amount: (remainingPrice as int) * (agg@[j - 1].pt as int) / 100,
                    kind: PayoutKind::LicenceOwnerShare,
                }),
        decreases n - i,
    {
        let pt = agg[i].pt;
        proof {
            lemma_points_of_found(agg@, i as int, agg@[i as int].ownerId@);
            lemma_points_le_total(agg@, agg@[i as int].ownerId@);
            assert(0 <= pt <= 100);
            assert((remainingPrice as int) * (pt as int) <= (remainingPrice as int) * 100)
                by (nonlinear_arith)
                requires
                    0 <= pt <= 100,
                    remainingPrice >= 0,
            ;
        }
        let share = remainingPrice * (pt as u64) / 100;
        let ghost prev = payouts@;
        let entry = Payout {
            to: agg[i].ownerId.clone(),
            amount: share,
            kind: PayoutKind::LicenceOwnerShare,
        };
        proof {
            assert(entry@.to == agg@[i as int].ownerId@);
        }
        payouts.push(entry);
        proof {
            assert forall|j: int|
                1 <= j < payouts@.len() implies #[trigger] payout_views(payouts@)[j]
                == (PayoutModel {
                to: agg@[j - 1].ownerId@,
                amount: (remainingPrice as int) * (agg@[j - 1].pt as int) / 100,
                kind: PayoutKind::LicenceOwnerShare,
            }) by {
                if j < payouts@.len() - 1 {
                    assert(payouts@[j] == prev[j]);
                    assert(payout_views(prev)[j] == (PayoutModel {
                        to: agg@[j - 1].ownerId@,
                        amount: (remainingPrice as int) * (agg@[j - 1].pt as int) / 100,
                        kind: PayoutKind::LicenceOwnerShare,
                    }));
                } else {
                    assert(payouts@[j] == entry);
                    assert(payout_views(payouts@)[j] =~= PayoutModel {
                        to: agg@[j - 1].ownerId@,
                        amount: (remainingPrice as int) * (agg@[j - 1].pt as int) / 100,
                        kind: PayoutKind::LicenceOwnerShare,
                    });
                }
            }
            assert(payout_views(payouts@)[0] == payout_views(prev)[0]);
        }
        i = i + 1;
    }
    payouts
}

/// From an aggregation whose points match the expected shares, the payout
/// list built per entry satisfies the licence revenue split: one share per
/// distinct account, pro rata by points, nothing for anyone else.
proof fn lemma_licence_shares(
    ps: Seq<PayoutModel>,
    agg: Seq<AggRec>,
    creator: Seq<char>,
    owners: Seq<Seq<char>>,
    price: int,
)
    requires
        distinct_owners(agg),
        nonneg_points(agg),
        positive_points(agg),
        total_points(agg) == 100,
        forall|o: Seq<char>| points_of(agg, o) == expected_points(creator, owners, o),
        agg_share_payouts(ps, agg, price),
    ensures
        licence_shares_ok(ps, creator, owners, price),
{
    assert forall|j: int|
        1 <= j < ps.len() implies (#[trigger] ps[j]).kind == PayoutKind::LicenceOwnerShare
        && ps[j].amount == (price - price / 10) * expected_points(creator, owners, ps[j].to)
        / 100 && expected_points(creator, owners, ps[j].to) > 0 by {
        lemma_points_of_found(agg, j - 1, agg[j - 1].ownerId@);
        assert(agg[j - 1].pt >= 1);
    }
    assert forall|j: int, l: int| 1 <= j < l < ps.len() implies ps[j].to != ps[l].to by {
        assert(ps[j].to == agg[j - 1].ownerId@);
        assert(ps[l].to == agg[l - 1].ownerId@);
    }
    assert forall|o: Seq<char>|
        expected_points(creator, owners, o) > 0 implies exists|j: int|
        1 <= j < ps.len() && #[trigger] ps[j].to == o by {
        if forall|ii: int| 0 <= ii < agg.len() ==> agg[ii].ownerId@ != o {
            lemma_points_of_absent(agg, o);
            assert(false);
        }
        let ii = choose|ii: int| 0 <= ii < agg.len() && agg[ii].ownerId@ == o;
        assert(ps[ii + 1].to == o);
    }
}

impl Contract {
    /// Sells a usage licence: under the reentrancy guard, checks the
    /// attached deposit against the requested price and the price against
    /// the reserve — the sum of the current slot values, or the policy
    /// floor for a never-seen identity — then resolves or creates the
    /// record, pays the platform a tenth of the price, distributes the
    /// remainder pro-rata by percentage points to every current owner, and
    /// assigns a fresh licence token. Never touches slot contents. Fails
    /// with `Busy`, `InsufficientDeposit` or `PriceTooLow`, mutating
    /// nothing. `owners` are the current holders of the record's slot
    /// tokens, in slot order (the creator for every slot of a never-seen
    /// identity).
    #[allow(non_snake_case)]
    #[verifier::rlimit(80)]
    pub fn buy_licence(
        &mut self,
        contentId: String,
        creatorId: String,
        timestamp: u64,
        scoutId: String,
        deposit: u64,
        price: u64,
        owners: &Vec<String>,
    ) -> (r: Result<BuyOutcome, EngineError>)
        requires
            old(self).wf(),
            old(self).contents@.len() < MAX_CONTENTS,
            old(self).lastContentTokenId < u64::MAX,
            price <= MAX_AMOUNT,
            owners@.len() == BIDPT,
        ensures
            final(self).wf(),
            ({
                let key = composite_key(contentId@, creatorId@, timestamp as int);
                &&& old(self).lock > 0 ==> r == Err::<BuyOutcome, EngineError>(
                    EngineError::Busy,
                ) && final(self).same_state(*old(self))
                &&& (old(self).lock == 0 && deposit < price) ==> r == Err::<
                    BuyOutcome,
                    EngineError,
                >(EngineError::InsufficientDeposit) && final(self).same_state(*old(self))
                &&& (old(self).lock == 0 && deposit >= price && (price as int) < reserve_for(
                    old(self).contents@,
                    key,
                )) ==> r == Err::<BuyOutcome, EngineError>(EngineError::PriceTooLow)
                    && final(self).same_state(*old(self))
                &&& (old(self).lock == 0 && deposit >= price && (price as int) >= reserve_for(
                    old(self).contents@,
                    key,
                )) ==> (r matches Ok(out) && buy_applied(
                    *old(self),
                    *final(self),
                    out,
                    contentId@,
                    creatorId@,
                    timestamp as int,
                    price as int,
                    owner_views(owners@),
                ))
            }),
    {
        if !self.lock_start() {
            return Err(EngineError::Busy);
        }
        if deposit < price {
            self.lock_end();
            return Err(EngineError::InsufficientDeposit);
        }
        let k = create_content_key(contentId.as_str(), creatorId.as_str(), timestamp);
        let ghost key = composite_key(contentId@, creatorId@, timestamp as int);
        let reserve_met: bool = match self.find_entry(&k.key) {
            Some(i) => {
                proof {
                    let ki = key_index(self.contents@, key);
                    assert(0 <= ki < self.contents@.len() && self.contents@[ki].0@ == key);
                    if ki != i {
                        assert(false);
                    }
                    assert(wf_entry(self.contents@[i as int], i as int));
                }
                let s = sum_slots(&self.contents[i].1.bidvalArr);
                price >= s
            },
            None => price >= NEW_CONTENT_RESERVE,
        };
        if !reserve_met {
            self.lock_end();
            return Err(EngineError::PriceTooLow);
        }
        let (existed, idx, mints) = self.confirm_content_by_key(&k);
        let agg = get_content_owners_from_arr(owners, creatorId);
        let ghost ownersv = owner_views(owners@);
        let ghost creator = creatorId@;
        let payouts = build_licence_payouts(&agg, price);
        self.lastContentTokenId = self.lastContentTokenId + 1;
        let licenceTokenId = self.lastContentTokenId;
        self.lock_end();
        proof {
            lemma_licence_shares(
                payout_views(payouts@),
                agg@,
                creator,
                ownersv,
                price as int,
            );
        }
        Ok(BuyOutcome { created: !existed, mints, payouts, licenceTokenId })
    }
}

/// Conservation law for a completed bid: the creator royalties, the
/// platform shares, the refunds to evicted owners and the unspent refund
/// to the bidder together account for the bid's full value — except for a
/// remainder at most the policy threshold, which stays with the contract —
/// and the bidder's net outlay is exactly the spent amount, the points won
/// times the per-point price.
pub proof fn lemma_bid_outcome_conservation(
    pre: Contract,
    post: Contract,
    out: BidOutcome,
    content_id: Seq<char>,
    creator_id: Seq<char>,
    timestamp: int,
    scout: Seq<char>,
    value: int,
    points: int,
    owners: Seq<Seq<char>>,
)
    requires
        bid_applied(pre, post, out, content_id, creator_id, timestamp, scout, value, points, owners),
        1 <= points,
        0 <= value,
    ensures
        out.spent == out.evictions@.len() * (out.perPointPrice as int),
        0 <= value - out.spent,
        crate::outcome::payout_total(payout_views(out.payouts@)) + (if value - out.spent
            <= UNSPENT_EPSILON {
            value - out.spent
        } else {
            0
        }) == value,
{
    let key = composite_key(content_id, creator_id, timestamp);
    let existed = has_key(pre.contents@, key);
    let base = pre.lastTokenId + 100;
    let idx = if existed {
        key_index(pre.contents@, key)
    } else {
        pre.contents@.len() as int
    };
    let rec0 = if existed {
        pre.contents@[idx].1@
    } else {
        fresh_rec_model(content_id, creator_id, timestamp, base)
    };
    let pp = value / points;
    let m = min_int(points, count_lt(rec0.vals, pp));
    crate::content::lemma_count_lt_bounds(rec0.vals, pp);
    assert(eviction_views(out.evictions@).len() == out.evictions@.len());
    assert(out.evictions@.len() == m);
    vstd::arithmetic::div_mod::lemma_fundamental_div_mod(value, points);
    vstd::arithmetic::div_mod::lemma_remainder_lower(value, points);
    vstd::arithmetic::div_mod::lemma_div_pos_is_pos(value, points);
    assert(m * pp <= value) by (nonlinear_arith)
        requires
            0 <= m <= points,
            pp >= 0,
            pp * points <= value,
    ;
    crate::outcome::lemma_bid_conservation(
        rec0.vals,
        owners,
        rec0.creator,
        scout,
        pp,
        m,
        value,
    );
}

/// Refund correctness for a completed bid: the refund payouts are exactly
/// one per evicted slot that held a positive value, to that slot's
/// previous owner, of exactly the slot's previous value — never more,
/// never negative, and none for anyone else.
pub proof fn lemma_bid_outcome_refunds(
    pre: Contract,
    post: Contract,
    out: BidOutcome,
    content_id: Seq<char>,
    creator_id: Seq<char>,
    timestamp: int,
    scout: Seq<char>,
    value: int,
    points: int,
    owners: Seq<Seq<char>>,
)
    requires
        bid_applied(pre, post, out, content_id, creator_id, timestamp, scout, value, points, owners),
        1 <= points,
    ensures
        ({
            let key = composite_key(content_id, creator_id, timestamp);
            let existed = has_key(pre.contents@, key);
            let idx = if existed {
                key_index(pre.contents@, key)
            } else {
                pre.contents@.len() as int
            };
            let rec0 = if existed {
                pre.contents@[idx].1@
            } else {
                fresh_rec_model(content_id, creator_id, timestamp, pre.lastTokenId + 100)
            };
            crate::outcome::refunds_of(payout_views(out.payouts@))
                == crate::outcome::expected_refunds(
                rec0.vals,
                owners,
                out.evictions@.len() as int,
            )
        }),
{
    let key = composite_key(content_id, creator_id, timestamp);
    let existed = has_key(pre.contents@, key);
    let base = pre.lastTokenId + 100;
    let idx = if existed {
        key_index(pre.contents@, key)
    } else {
        pre.contents@.len() as int
    };
    let rec0 = if existed {
        pre.contents@[idx].1@
    } else {
        fresh_rec_model(content_id, creator_id, timestamp, base)
    };
    let pp = value / points;
    let m = min_int(points, count_lt(rec0.vals, pp));
    let unspent = value - m * pp;
    crate::content::lemma_count_lt_bounds(rec0.vals, pp);
    assert(eviction_views(out.evictions@).len() == out.evictions@.len());
    assert(out.evictions@.len() == m);
    crate::outcome::lemma_refund_correctness(rec0.vals, owners, rec0.creator, pp, m);
    let evs = bid_eviction_payouts(rec0.vals, owners, rec0.creator, pp, m);
    if unspent > UNSPENT_EPSILON {
        let tail = seq![
            PayoutModel { to: scout, amount: unspent, kind: PayoutKind::UnspentRefund },
        ];
        crate::outcome::lemma_refunds_of_add(evs, tail);
        reveal_with_fuel(crate::outcome::refunds_of, 3);
        assert(tail.drop_last() =~= Seq::<PayoutModel>::empty());
        assert(crate::outcome::refunds_of(tail) =~= Seq::<PayoutModel>::empty());
        assert(crate::outcome::refunds_of(evs) + Seq::<PayoutModel>::empty()
            =~= crate::outcome::refunds_of(evs));
    } else {
        assert(evs + Seq::<PayoutModel>::empty() =~= evs);
    }
}

impl Contract {
    /// Places a bid: under the reentrancy guard, resolves or creates the
    /// record, evicts every affordable slot in scan order — refunding the
    /// previous owner, routing the royalty split of the increase to the
    /// creator and the platform, reassigning the slot token to the bidder
    /// — refunds any unspent remainder above the policy threshold, and
    /// re-sorts the slots ascending with their token pairing preserved.
    /// Fails with `Busy`, mutating nothing, when the guard is held.
    /// `owners` are the current holders of the record's slot tokens, in
    /// slot order (the creator for every slot of a never-seen identity).
    #[allow(non_snake_case)]
    pub fn add_bid_coto(
        &mut self,
        contentId: String,
        creatorId: String,
        timestamp: u64,
        scoutId: String,
        cotoValue: u64,
        maxPercent: u32,
        owners: &Vec<String>,
    ) -> (r: Result<BidOutcome, EngineError>)
        requires
            old(self).wf(),
            old(self).contents@.len() < MAX_CONTENTS,
            1 <= maxPercent <= 100,
            1 <= cotoValue <= MAX_AMOUNT,
            owners@.len() == BIDPT,
        ensures
            final(self).wf(),
            old(self).lock > 0 ==> r == Err::<BidOutcome, EngineError>(EngineError::Busy)
                && final(self).same_state(*old(self)),
            old(self).lock == 0 ==> (r matches Ok(out) && bid_applied(
                *old(self),
                *final(self),
                out,
                contentId@,
                creatorId@,
                timestamp as int,
                scoutId@,
                cotoValue as int,
                maxPercent as int,
                owner_views(owners@),
            )),
    {
        if !self.lock_start() {
            return Err(EngineError::Busy);
        }
        let ghost pre = *old(self);
        let k = create_content_key(contentId.as_str(), creatorId.as_str(), timestamp);
        let ghost key = composite_key(contentId@, creatorId@, timestamp as int);
        let (existed, idx, mints) = self.confirm_content_by_key(&k);
        proof {
            if existed {
                let ki = key_index(pre.contents@, key);
                assert(0 <= ki < pre.contents@.len() && pre.contents@[ki].0@ == key);
                if ki != idx {
                    assert(false);
                }
            }
        }
        let ghost rec0 = self.contents@[idx as int].1@;
        let rec_vals = copy_slots(&self.contents[idx].1.bidvalArr);
        let toks = copy_slots(&self.contents[idx].1.tokensArr);
        let rec_creator = self.contents[idx].1.creatorId.clone();
        let ghost vals0 = rec0.vals;
        let ghost ownersv = owner_views(owners@);
        let ghost creator0 = rec0.creator;

        let bidLimit: u64 = cotoValue / (maxPercent as u64);
        let ghost pp_g = bidLimit as int;
        let ghost cnt = count_lt(vals0, pp_g);
        let ghost m = min_int(maxPercent as int, cnt);
        proof {
            lemma_sorted_count_lt(vals0, pp_g);
            assert(wf_entry(self.contents@[idx as int], idx as int));
        }
        let ghost expected_evs = Seq::new(
            m as nat,
            |i: int|
                EvictionModel {
                    token: rec0.tokens[i] as int,
                    previous_owner: ownersv[i],
                    previous_value: rec0.vals[i] as int,
                    new_value: pp_g,
                },
        );

        let mut bidvalArrNew = copy_slots(&rec_vals);
        let mut remainingBids: u32 = maxPercent;
        let mut usedUpValue: u64 = 0;
        let mut evictions: Vec<Eviction> = Vec::new();
        let mut payouts: Vec<Payout> = Vec::new();
        let mut bix: usize = 0;
        proof {
            assert(bidvalArrNew@ =~= Seq::new(
                BIDPT as nat,
                |i: int|
                    if i < min_int(0, m) {
                        bidLimit
                    } else {
                        vals0[i]
                    },
            ));
            assert(eviction_views(evictions@) =~= expected_evs.take(min_int(0, m)));
            assert(payout_views(payouts@) =~= bid_eviction_payouts(
                vals0,
                ownersv,
                creator0,
                pp_g,
                min_int(0, m),
            ));
        }
        while bix < BIDPT && remainingBids >= 1
            invariant
                0 <= bix <= BIDPT,
                rec_vals@ == vals0,
                vals0 == rec0.vals,
                vals0.len() == BIDPT,
                toks@ == rec0.tokens,
                rec0.tokens.len() == BIDPT,
                owners@.len() == BIDPT,
                ownersv == owner_views(owners@),
                rec_creator@ == creator0,
                pp_g == bidLimit as int,
                bidLimit <= MAX_AMOUNT,
                bounded_vals(vals0),
                cnt == count_lt(vals0, pp_g),
                m == min_int(maxPercent as int, cnt),
                0 <= cnt <= BIDPT,
                0 <= m <= BIDPT,
                m <= maxPercent,
                m <= cnt,
                forall|i: int| 0 <= i < BIDPT ==> ((vals0[i] as int) < pp_g <==> i < cnt),
                expected_evs == Seq::new(
                    m as nat,
                    |i: int|
                        EvictionModel {
                            token: rec0.tokens[i] as int,
                            previous_owner: ownersv[i],
                            previous_value: rec0.vals[i] as int,
                            new_value: pp_g,
                        },
                ),
                evictions@.len() == min_int(bix as int, m),
                remainingBids == maxPercent - min_int(bix as int, m),
                usedUpValue == min_int(bix as int, m) * pp_g,
                usedUpValue <= BIDPT * MAX_AMOUNT,
                eviction_views(evictions@) =~= expected_evs.take(min_int(bix as int, m)),
                payout_views(payouts@) =~= bid_eviction_payouts(
                    vals0,
                    ownersv,
                    creator0,
                    pp_g,
                    min_int(bix as int, m),
                ),
                bidvalArrNew@ =~= Seq::new(
                    BIDPT as nat,
                    |i: int|
                        if i < min_int(bix as int, m) {
                            bidLimit
                        } else {
                            vals0[i]
                        },
                ),
            decreases BIDPT - bix,
        {
            let ghost e = min_int(bix as int, m);
            if rec_vals[bix] < bidLimit {
                proof {
                    assert(bix < cnt);
                    if bix >= m {
                        assert(e == m);
                        assert(maxPercent - m >= 1);
                        assert(m == cnt);
                        assert(false);
                    }
                    assert(e == bix as int);
                }
                let oldValue = rec_vals[bix];
                bidvalArrNew[bix] = bidLimit;
                if oldValue > 0 {
                    payouts.push(
                        Payout {
                            to: owners[bix].clone(),
                            amount: oldValue,
                            kind: PayoutKind::ScoutRefund,
                        },
                    );
                }
                let delta = bidLimit - oldValue;
                let shares = split_royalty(delta);
                payouts.push(
                    Payout {
                        to: rec_creator.clone(),
                        amount: shares.0,
                        kind: PayoutKind::CreatorRoyalty,
                    },
                );
                payouts.push(
                    Payout {
                        to: String::from_str(TREASURY_ID),
                        amount: shares.1,
                        kind: PayoutKind::PlatformShare,
                    },
                );
                evictions.push(
                    Eviction {
                        tokenId: toks[bix],
                        previousOwner: owners[bix].clone(),
                        previousValue: oldValue,
                        newValue: bidLimit,
                    },
                );
                proof {
                    let blk = evict_payouts(
                        ownersv[bix as int],
                        vals0[bix as int] as int,
                        creator0,
                        pp_g,
                    );
                    assert(payout_views(payouts@) =~= bid_eviction_payouts(
                        vals0,
                        ownersv,
                        creator0,
                        pp_g,
                        bix as int,
                    ) + blk);
                    assert(bid_eviction_payouts(vals0, ownersv, creator0, pp_g, bix + 1)
                        == bid_eviction_payouts(vals0, ownersv, creator0, pp_g, bix as int)
                        + blk);
                    assert(ownersv[bix as int] == owners@[bix as int]@);
                    assert(0 <= bix < m);
                    assert(expected_evs[bix as int] == EvictionModel {
                        token: rec0.tokens[bix as int] as int,
                        previous_owner: ownersv[bix as int],
                        previous_value: rec0.vals[bix as int] as int,
                        new_value: pp_g,
                    });
                    assert(evictions@.last()@.token == expected_evs[bix as int].token);
                    assert(evictions@.last()@.previous_owner == expected_evs[bix as int]
                        .previous_owner);
                    assert(evictions@.last()@.previous_value == expected_evs[bix as int]
                        .previous_value);
                    assert(evictions@.last()@.new_value == expected_evs[bix as int].new_value);
                    assert(evictions@.last()@ =~= expected_evs[bix as int]);
                    assert(eviction_views(evictions@) =~= expected_evs.take(bix + 1));
                    assert(bidvalArrNew@ =~= Seq::new(
                        BIDPT as nat,
                        |i: int|
                            if i < min_int(bix as int + 1, m) {
                                bidLimit
                            } else {
                                vals0[i]
                            },
                    ));
                    assert((bix + 1) * pp_g == bix as int * pp_g + pp_g) by (nonlinear_arith);
                    assert((bix + 1) * pp_g <= BIDPT * MAX_AMOUNT) by (nonlinear_arith)
                        requires
                            0 <= bix + 1 <= BIDPT,
                            0 <= pp_g <= MAX_AMOUNT,
                    ;
                }
                remainingBids = remainingBids - 1;
                usedUpValue = usedUpValue + bidLimit;
            } else {
                proof {
                    assert(bix >= cnt);
                    assert(min_int(bix as int + 1, m) == e);
                }
            }
            bix = bix + 1;
        }
        proof {
            if bix == BIDPT {
                assert(min_int(bix as int, m) == m);
            } else {
                assert(remainingBids == 0);
                assert(min_int(bix as int, m) == m);
            }
            assert(usedUpValue == m * pp_g);
            assert(expected_evs.take(m) =~= expected_evs);
            assert(eviction_views(evictions@) =~= expected_evs);
            vstd::arithmetic::div_mod::lemma_fundamental_div_mod(
                cotoValue as int,
                maxPercent as int,
            );
            vstd::arithmetic::div_mod::lemma_remainder_lower(cotoValue as int, maxPercent as int);
            assert(pp_g * (maxPercent as int) <= cotoValue as int);
            assert(m * pp_g <= cotoValue as int) by (nonlinear_arith)
                requires
                    0 <= m <= maxPercent as int,
                    pp_g >= 0,
                    pp_g * (maxPercent as int) <= cotoValue as int,
            ;
        }
        let selfRefund = cotoValue - usedUpValue;
        let ghost evs_only = bid_eviction_payouts(vals0, ownersv, creator0, pp_g, m);
        if selfRefund > UNSPENT_EPSILON {
            payouts.push(
                Payout {
                    to: scoutId.clone(),
                    amount: selfRefund,
                    kind: PayoutKind::UnspentRefund,
                },
            );
            proof {
                assert(payout_views(payouts@) =~= evs_only + seq![
                    PayoutModel {
                        to: scoutId@,
                        amount: selfRefund as int,
                        kind: PayoutKind::UnspentRefund,
                    },
                ]);
                assert(payout_views(payouts@) =~= bid_payouts(
                    vals0,
                    ownersv,
                    creator0,
                    scoutId@,
                    pp_g,
                    m,
                    cotoValue - m * pp_g,
                ));
            }
        } else {
            proof {
                assert(evs_only + Seq::<PayoutModel>::empty() =~= evs_only);
                assert(payout_views(payouts@) =~= bid_payouts(
                    vals0,
                    ownersv,
                    creator0,
                    scoutId@,
                    pp_g,
                    m,
                    cotoValue - m * pp_g,
                ));
            }
        }
        let mut toksNew = copy_slots(&toks);
        let ghost updated_vals = bidvalArrNew@;
        sortBidding(&mut bidvalArrNew, &mut toksNew);
        proof {
            lemma_bounded_from_multiset(updated_vals, bidvalArrNew@);
            assert(bounded_vals(updated_vals)) by {
                assert(forall|i: int|
                    0 <= i < updated_vals.len() ==> updated_vals[i] == bidLimit
                        || updated_vals[i] == vals0[i]);
            }
        }
        let key_cl = self.contents[idx].0.clone();
        let e_content = self.contents[idx].1.contentId.clone();
        let e_ts = self.contents[idx].1.timestamp;
        let e_base = self.contents[idx].1.tokenId;
        let newrec = ContentRec {
            creatorId: rec_creator,
            contentId: e_content,
            timestamp: e_ts,
            bidvalArr: bidvalArrNew,
            tokensArr: toksNew,
            tokenId: e_base,
        };
        let ghost mid = self.contents@;
        self.contents[idx] = (key_cl, newrec);
        proof {
            assert forall|i2: int|
                0 <= i2 < self.contents@.len() implies wf_entry(
                #[trigger] self.contents@[i2],
                i2,
            ) by {
                if i2 != idx {
                    assert(self.contents@[i2] == mid[i2]);
                    assert(wf_entry(mid[i2], i2));
                } else {
                    assert(wf_entry(mid[i2], i2));
                }
            }
            assert forall|i2: int, j2: int|
                0 <= i2 < j2 < self.contents@.len() implies self.contents@[i2].0@
                != self.contents@[j2].0@ by {
                assert(self.contents@[i2].0@ == mid[i2].0@);
                assert(self.contents@[j2].0@ == mid[j2].0@);
            }
        }
        self.lock_end();
        Ok(
            BidOutcome {
                created: !existed,
                mints,
                evictions,
                payouts,
                perPointPrice: bidLimit,
                spent: usedUpValue,
            },
        )
    }

    /// The bid-currency transfer listener: parses the attached message
    /// into an operation descriptor and routes it — a bid to the slot
    /// allocator with the sender as the bidder, a purchase to the licence
    /// flow with the transferred amount as the deposit. A message of
    /// neither shape fails the call with `MalformedMessage` and mutates
    /// nothing. `owners` are the current holders of the content's slot
    /// tokens, in slot order (the creator for every slot of a never-seen
    /// identity).
    pub fn ft_on_transfer(
        &mut self,
        sender_id: String,
        amount: u64,
        msg: String,
        owners: &Vec<String>,
    ) -> (r: Result<OpOutcome, EngineError>)
        requires
            old(self).wf(),
            old(self).contents@.len() < MAX_CONTENTS,
            old(self).lastContentTokenId < u64::MAX,
            owners@.len() == BIDPT,
        ensures
            final(self).wf(),
            !bid_msg_ok(msg@) && !buy_msg_ok(msg@) ==> r == Err::<OpOutcome, EngineError>(
                EngineError::MalformedMessage,
            ) && final(self).same_state(*old(self)),
            bid_msg_ok(msg@) ==> ({
                let f = split_fields(msg@);
                &&& old(self).lock > 0 ==> r == Err::<OpOutcome, EngineError>(
                    EngineError::Busy,
                ) && final(self).same_state(*old(self))
                &&& old(self).lock == 0 ==> (r matches Ok(o) && (o matches OpOutcome::Bid(out)
                    && bid_applied(
                    *old(self),
                    *final(self),
                    out,
                    f[2],
                    f[1],
                    dec_val(f[3]),
                    sender_id@,
                    milli_val(f[5]),
                    dec_val(f[4]),
                    owner_views(owners@),
                )))
            }),
            buy_msg_ok(msg@) ==> ({
                let f = split_fields(msg@);
                let key = composite_key(f[2], f[1], dec_val(f[3]));
                let price = milli_val(f[4]);
                &&& old(self).lock > 0 ==> r == Err::<OpOutcome, EngineError>(
                    EngineError::Busy,
                ) && final(self).same_state(*old(self))
                &&& (old(self).lock == 0 && (amount as int) < price) ==> r == Err::<
                    OpOutcome,
                    EngineError,
                >(EngineError::InsufficientDeposit) && final(self).same_state(*old(self))
                &&& (old(self).lock == 0 && (amount as int) >= price && price < reserve_for(
                    old(self).contents@,
                    key,
                )) ==> r == Err::<OpOutcome, EngineError>(EngineError::PriceTooLow)
                    && final(self).same_state(*old(self))
                &&& (old(self).lock == 0 && (amount as int) >= price && price >= reserve_for(
                    old(self).contents@,
                    key,
                )) ==> (r matches Ok(o) && (o matches OpOutcome::Buy(out) && buy_applied(
                    *old(self),
                    *final(self),
                    out,
                    f[2],
                    f[1],
                    dec_val(f[3]),
                    price,
                    owner_views(owners@),
                )))
            }),
    {
        match parse_msg(msg.as_str()) {
            Err(e) => Err(e),
            Ok(OpDesc::Bid { contentId, creatorId, timestamp, points, value }) => {
                match self.add_bid_coto(
                    contentId,
                    creatorId,
                    timestamp,
                    sender_id,
                    value,
                    points,
                    owners,
                ) {
                    Ok(out) => Ok(OpOutcome::Bid(out)),
                    Err(e) => Err(e),
                }
            },
            Ok(OpDesc::Buy { contentId, creatorId, timestamp, price }) => {
                match self.buy_licence(
                    contentId,
                    creatorId,
                    timestamp,
                    sender_id,
                    amount,
                    price,
                    owners,
                ) {
                    Ok(out) => Ok(OpOutcome::Buy(out)),
                    Err(e) => Err(e),
                }
            },
        }
    }
}

} // verus!
