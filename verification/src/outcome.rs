//! Effect commands and operation outcomes.
//!
//! The engine mutates only its own state; every external effect — a value
//! transfer, an ownership-token mint, an ownership-token reassignment — is
//! returned as a plain command value for the embedding host to dispatch,
//! fire-and-forget. The payout stream of a bid is specified here exactly,
//! and the conservation and refund-correctness laws are proved of it.

use vstd::prelude::*;
use crate::money::{creator_share, platform_share, TREASURY_ID, UNSPENT_EPSILON};

verus! {

/// Why a payout is issued.
#[derive(Clone, Copy, Debug, PartialEq, Eq, Structural)]
pub enum PayoutKind {
    /// An evicted slot's previous owner recovering exactly what they paid.
    ScoutRefund,
    /// The creator's nine-tenths share of a slot-price increase.
    CreatorRoyalty,
    /// The platform's share of a slot-price increase.
    PlatformShare,
    /// The part of a bid that could not be placed, returned to the bidder.
    UnspentRefund,
    /// The platform's tenth of a licence price.
    LicenceTreasury,
    /// A fractional owner's pro-rata share of licence revenue.
    LicenceOwnerShare,
}

/// The mathematical model of a payout command.
#[verifier::ext_equal]
pub struct PayoutModel {
    pub to: Seq<char>,
    pub amount: int,
    pub kind: PayoutKind,
}

/// A value transfer to dispatch: best-effort, asynchronous, irrevocable.
#[derive(Debug)]
pub struct Payout {
    pub to: String,
    pub amount: u64,
    pub kind: PayoutKind,
}

impl View for Payout {
    type V = PayoutModel;

    open spec fn view(&self) -> PayoutModel {
        PayoutModel { to: self.to@, amount: self.amount as int, kind: self.kind }
    }
}

/// The models of a payout list, in dispatch order.
pub open spec fn payout_views(s: Seq<Payout>) -> Seq<PayoutModel> {
    s.map_values(|p: Payout| p@)
}

/// The mathematical model of a mint command.
#[verifier::ext_equal]
pub struct MintModel {
    pub token: int,
    pub receiver: Seq<char>,
    pub pt: int,
}

/// An ownership-token mint to dispatch: a new token representing `pt`
/// percentage points, assigned to `receiver`.
#[derive(Debug)]
#[allow(non_snake_case)]
pub struct MintCmd {
    pub tokenId: u64,
    pub receiver: String,
    pub pt: u64,
}

impl View for MintCmd {
    type V = MintModel;

    open spec fn view(&self) -> MintModel {
        MintModel { token: self.tokenId as int, receiver: self.receiver@, pt: self.pt as int }
    }
}

/// The models of a mint list, in dispatch order.
pub open spec fn mint_views(s: Seq<MintCmd>) -> Seq<MintModel> {
    s.map_values(|m: MintCmd| m@)
}

/// The mathematical model of an eviction.
#[verifier::ext_equal]
pub struct EvictionModel {
    pub token: int,
    pub previous_owner: Seq<char>,
    pub previous_value: int,
    pub new_value: int,
}

/// One slot eviction: the slot's ownership token is to be reassigned from
/// its previous owner to the bidder, and the slot's value rises from the
/// previous value to the bid's per-point price.
#[derive(Debug)]
#[allow(non_snake_case)]
pub struct Eviction {
    pub tokenId: u64,
    pub previousOwner: String,
    pub previousValue: u64,
    pub newValue: u64,
}

impl View for Eviction {
    type V = EvictionModel;

    open spec fn view(&self) -> EvictionModel {
        EvictionModel {
            token: self.tokenId as int,
            previous_owner: self.previousOwner@,
            previous_value: self.previousValue as int,
            new_value: self.newValue as int,
        }
    }
}

/// The models of an eviction list, in scan order.
pub open spec fn eviction_views(s: Seq<Eviction>) -> Seq<EvictionModel> {
    s.map_values(|e: Eviction| e@)
}

/// What a bid produced: whether the content record was created by this
/// call, the mints such a creation dispatches, the evictions in scan
/// order, the payouts in dispatch order, and the bid's arithmetic.
#[derive(Debug)]
#[allow(non_snake_case)]
pub struct BidOutcome {
    pub created: bool,
    pub mints: Vec<MintCmd>,
    pub evictions: Vec<Eviction>,
    pub payouts: Vec<Payout>,
    pub perPointPrice: u64,
    pub spent: u64,
}

/// What a licence purchase produced: whether the content record was
/// created by this call, the mints such a creation dispatches, the revenue
/// payouts, and the freshly assigned licence-token identifier.
#[derive(Debug)]
#[allow(non_snake_case)]
pub struct BuyOutcome {
    pub created: bool,
    pub mints: Vec<MintCmd>,
    pub payouts: Vec<Payout>,
    pub licenceTokenId: u64,
}

/// The outcome of a routed transfer-listener operation.
#[derive(Debug)]
pub enum OpOutcome {
    Bid(BidOutcome),
    Buy(BuyOutcome),
}

/// Why an operation was rejected. Every rejection leaves the engine's
/// state unchanged.
#[derive(Clone, Copy, Debug, PartialEq, Eq, Structural)]
pub enum EngineError {
    /// The reentrancy guard is held by an operation still in flight.
    Busy,
    /// The content identity is absent where presence was required.
    NotFound,
    /// A listener message does not parse into a valid operation.
    MalformedMessage,
    /// The attached deposit is below the requested price.
    InsufficientDeposit,
    /// The requested licence price is below the computed reserve.
    PriceTooLow,
}

/// The platform treasury account.
pub open spec fn treasury() -> Seq<char> {
    TREASURY_ID@
}

/// The payouts one eviction issues: the previous owner's refund of exactly
/// the previous value (omitted when zero), the creator's royalty on the
/// price increase, and the platform's share of it.
pub open spec fn evict_payouts(
    prev_owner: Seq<char>,
    prev_val: int,
    creator: Seq<char>,
    pp: int,
) -> Seq<PayoutModel> {
    (if prev_val > 0 {
        seq![PayoutModel { to: prev_owner, amount: prev_val, kind: PayoutKind::ScoutRefund }]
    } else {
        Seq::<PayoutModel>::empty()
    }) + seq![
        PayoutModel {
            to: creator,
            amount: creator_share(pp - prev_val),
            kind: PayoutKind::CreatorRoyalty,
        },
        PayoutModel {
            to: treasury(),
            amount: platform_share(pp - prev_val),
            kind: PayoutKind::PlatformShare,
        },
    ]
}

/// The payouts of the first `m` evictions of a bid, in scan order:
/// `vals` and `owners` are the slot values and slot-token owners before
/// the bid, `creator` the record's creator, `pp` the per-point price.
pub open spec fn bid_eviction_payouts(
    vals: Seq<u64>,
    owners: Seq<Seq<char>>,
    creator: Seq<char>,
    pp: int,
    m: int,
) -> Seq<PayoutModel>
    decreases m,
{
    if m <= 0 {
        Seq::<PayoutModel>::empty()
    } else {
        bid_eviction_payouts(vals, owners, creator, pp, m - 1) + evict_payouts(
            owners[m - 1],
            vals[m - 1] as int,
            creator,
            pp,
        )
    }
}

/// The full payout stream of a bid: the eviction payouts, then the unspent
/// remainder refunded to the bidder when it exceeds the policy threshold.
pub open spec fn bid_payouts(
    vals: Seq<u64>,
    owners: Seq<Seq<char>>,
    creator: Seq<char>,
    scout: Seq<char>,
    pp: int,
    m: int,
    unspent: int,
) -> Seq<PayoutModel> {
    bid_eviction_payouts(vals, owners, creator, pp, m) + (if unspent > UNSPENT_EPSILON {
        seq![PayoutModel { to: scout, amount: unspent, kind: PayoutKind::UnspentRefund }]
    } else {
        Seq::<PayoutModel>::empty()
    })
}

/// Sum of the amounts of a payout stream.
pub open spec fn payout_total(s: Seq<PayoutModel>) -> int
    decreases s.len(),
{
    if s.len() == 0 {
        0
    } else {
        payout_total(s.drop_last()) + s.last().amount
    }
}

/// The total of a concatenation is the sum of the totals.
proof fn lemma_payout_total_add(a: Seq<PayoutModel>, b: Seq<PayoutModel>)
    ensures
        payout_total(a + b) == payout_total(a) + payout_total(b),
    decreases b.len(),
{
    if b.len() == 0 {
        assert(a + b =~= a);
    } else {
        assert((a + b).drop_last() =~= a + b.drop_last());
        lemma_payout_total_add(a, b.drop_last());
    }
}

/// Each eviction pays out exactly the per-point price: the refund returns
/// the previous value and the royalty split covers the increase.
proof fn lemma_evict_payouts_total(
    prev_owner: Seq<char>,
    prev_val: int,
    creator: Seq<char>,
    pp: int,
)
    requires
        prev_val >= 0,
    ensures
        payout_total(evict_payouts(prev_owner, prev_val, creator, pp)) == pp,
{
    reveal_with_fuel(payout_total, 5);
    let s = evict_payouts(prev_owner, prev_val, creator, pp);
    let cr = PayoutModel {
        to: creator,
        amount: creator_share(pp - prev_val),
        kind: PayoutKind::CreatorRoyalty,
    };
    let pl = PayoutModel {
        to: treasury(),
        amount: platform_share(pp - prev_val),
        kind: PayoutKind::PlatformShare,
    };
    if prev_val > 0 {
        let rf = PayoutModel { to: prev_owner, amount: prev_val, kind: PayoutKind::ScoutRefund };
        assert(s =~= seq![rf, cr, pl]);
        assert(s.drop_last() =~= seq![rf, cr]);
        assert(seq![rf, cr].drop_last() =~= seq![rf]);
        assert(seq![rf].drop_last() =~= Seq::<PayoutModel>::empty());
    } else {
        assert(s =~= seq![cr, pl]);
        assert(s.drop_last() =~= seq![cr]);
        assert(seq![cr].drop_last() =~= Seq::<PayoutModel>::empty());
    }
}

/// Conservation law for a bid: the eviction payouts sum to exactly the
/// spent part of the bid, `m` evictions at the per-point price each, and
/// the whole stream together with the remainder kept under the policy
/// threshold accounts for the full bid value.
pub proof fn lemma_bid_conservation(
    vals: Seq<u64>,
    owners: Seq<Seq<char>>,
    creator: Seq<char>,
    scout: Seq<char>,
    pp: int,
    m: int,
    value: int,
)
    requires
        0 <= m,
        pp >= 0,
        m * pp <= value,
    ensures
        payout_total(bid_eviction_payouts(vals, owners, creator, pp, m)) == m * pp,
        payout_total(bid_payouts(vals, owners, creator, scout, pp, m, value - m * pp)) + (
        if value - m * pp <= UNSPENT_EPSILON {
            value - m * pp
        } else {
            0
        }) == value,
    decreases m,
{
    reveal_with_fuel(payout_total, 3);
    if m == 0 {
        assert(bid_eviction_payouts(vals, owners, creator, pp, 0) =~= Seq::<
            PayoutModel,
        >::empty());
        assert(payout_total(bid_eviction_payouts(vals, owners, creator, pp, 0)) == 0);
        assert(m * pp == 0) by (nonlinear_arith)
            requires
                m == 0,
        ;
    } else {
        assert((m - 1) * pp <= value) by (nonlinear_arith)
            requires
                m >= 1,
                pp >= 0,
                m * pp <= value,
        ;
        lemma_bid_conservation(vals, owners, creator, scout, pp, m - 1, value);
        lemma_payout_total_add(
            bid_eviction_payouts(vals, owners, creator, pp, m - 1),
            evict_payouts(owners[m - 1], vals[m - 1] as int, creator, pp),
        );
        lemma_evict_payouts_total(owners[m - 1], vals[m - 1] as int, creator, pp);
        assert(bid_eviction_payouts(vals, owners, creator, pp, m) == bid_eviction_payouts(
            vals,
            owners,
            creator,
            pp,
            m - 1,
        ) + evict_payouts(owners[m - 1], vals[m - 1] as int, creator, pp));
        assert(m * pp == (m - 1) * pp + pp) by (nonlinear_arith);
        assert(payout_total(bid_eviction_payouts(vals, owners, creator, pp, m)) == m * pp);
    }
    let evs = bid_eviction_payouts(vals, owners, creator, pp, m);
    let unspent = value - m * pp;
    if unspent > UNSPENT_EPSILON {
        let tail = seq![
            PayoutModel { to: scout, amount: unspent, kind: PayoutKind::UnspentRefund },
        ];
        assert(tail.drop_last() =~= Seq::<PayoutModel>::empty());
        assert(payout_total(tail) == unspent);
        lemma_payout_total_add(evs, tail);
    } else {
        assert(evs + Seq::<PayoutModel>::empty() =~= evs);
    }
}

/// The refund payouts of a stream, in order.
pub open spec fn refunds_of(s: Seq<PayoutModel>) -> Seq<PayoutModel>
    decreases s.len(),
{
    if s.len() == 0 {
        Seq::<PayoutModel>::empty()
    } else {
        refunds_of(s.drop_last()) + (if s.last().kind == PayoutKind::ScoutRefund {
            seq![s.last()]
        } else {
            Seq::<PayoutModel>::empty()
        })
    }
}

/// The refunds owed by the first `m` evictions: one payout of exactly the
/// previous value to the previous owner for every evicted slot that held a
/// positive value, in scan order, and nothing else.
pub open spec fn expected_refunds(vals: Seq<u64>, owners: Seq<Seq<char>>, m: int) -> Seq<
    PayoutModel,
>
    decreases m,
{
    if m <= 0 {
        Seq::<PayoutModel>::empty()
    } else {
        expected_refunds(vals, owners, m - 1) + (if vals[m - 1] > 0 {
            seq![
                PayoutModel {
                    to: owners[m - 1],
                    amount: vals[m - 1] as int,
                    kind: PayoutKind::ScoutRefund,
                },
            ]
        } else {
            Seq::<PayoutModel>::empty()
        })
    }
}

/// Filtering a concatenation filters each part.
pub proof fn lemma_refunds_of_add(a: Seq<PayoutModel>, b: Seq<PayoutModel>)
    ensures
        refunds_of(a + b) == refunds_of(a) + refunds_of(b),
    decreases b.len(),
{
    if b.len() == 0 {
        assert(a + b =~= a);
        assert(refunds_of(a) + refunds_of(b) =~= refunds_of(a));
    } else {
        assert((a + b).drop_last() =~= a + b.drop_last());
        lemma_refunds_of_add(a, b.drop_last());
        if b.last().kind == PayoutKind::ScoutRefund {
            assert(refunds_of(a) + refunds_of(b) =~= (refunds_of(a) + refunds_of(b.drop_last()))
                + seq![b.last()]);
        } else {
            assert(refunds_of(a) + refunds_of(b) =~= refunds_of(a) + refunds_of(b.drop_last()));
        }
    }
}

/// Refund correctness: the refunds in a bid's eviction payouts are exactly
/// one payout per evicted slot that held a positive value, to that slot's
/// previous owner, of exactly the slot's previous value — never more,
/// never negative, and none for any other account.
pub proof fn lemma_refund_correctness(
    vals: Seq<u64>,
    owners: Seq<Seq<char>>,
    creator: Seq<char>,
    pp: int,
    m: int,
)
    requires
        0 <= m,
    ensures
        refunds_of(bid_eviction_payouts(vals, owners, creator, pp, m)) == expected_refunds(
            vals,
            owners,
            m,
        ),
    decreases m,
{
    if m > 0 {
        lemma_refund_correctness(vals, owners, creator, pp, m - 1);
        lemma_refunds_of_add(
            bid_eviction_payouts(vals, owners, creator, pp, m - 1),
            evict_payouts(owners[m - 1], vals[m - 1] as int, creator, pp),
        );
        reveal_with_fuel(refunds_of, 5);
        let blk = evict_payouts(owners[m - 1], vals[m - 1] as int, creator, pp);
        let pv = vals[m - 1] as int;
        let cr = PayoutModel {
            to: creator,
            amount: creator_share(pp - pv),
            kind: PayoutKind::CreatorRoyalty,
        };
        let pl = PayoutModel {
            to: treasury(),
            amount: platform_share(pp - pv),
            kind: PayoutKind::PlatformShare,
        };
        if vals[m - 1] > 0 {
            let rf = PayoutModel { to: owners[m - 1], amount: pv, kind: PayoutKind::ScoutRefund };
            assert(blk =~= seq![rf, cr, pl]);
            assert(blk.drop_last() =~= seq![rf, cr]);
            assert(seq![rf, cr].drop_last() =~= seq![rf]);
            assert(seq![rf].drop_last() =~= Seq::<PayoutModel>::empty());
            assert(refunds_of(blk) =~= seq![rf]);
        } else {
            assert(blk =~= seq![cr, pl]);
            assert(blk.drop_last() =~= seq![cr]);
            assert(seq![cr].drop_last() =~= Seq::<PayoutModel>::empty());
            assert(refunds_of(blk) =~= Seq::<PayoutModel>::empty());
        }
        assert(refunds_of(bid_eviction_payouts(vals, owners, creator, pp, m))
            =~= expected_refunds(vals, owners, m));
    }
}

} // verus!
