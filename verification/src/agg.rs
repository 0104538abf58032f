//! Ownership aggregation.
//!
//! The aggregator turns a content record and the current owners of its slot
//! tokens into one entry per distinct account: the creator is credited the
//! primary share of percentage points, every slot credits its owner one
//! point (and, in the valued variant, the slot's bid value). An account
//! holding several slots, or both the creator share and slots, accumulates
//! into a single entry.

use vstd::prelude::*;
use crate::money::MAX_AMOUNT;
use crate::BIDPT;

verus! {

/// One account's share of percentage points.
#[derive(Debug)]
#[allow(non_snake_case)]
pub struct AggRec {
    pub ownerId: String,
    pub pt: i32,
}

/// One account's share of percentage points and accumulated bid value.
#[derive(Debug)]
#[allow(non_snake_case)]
pub struct AggPtVal {
    pub ownerId: String,
    pub pt: i32,
    pub val: u64,
}

/// Points credited to owner `o` over the aggregation.
pub open spec fn points_of(s: Seq<AggRec>, o: Seq<char>) -> int
    decreases s.len(),
{
    if s.len() == 0 {
        0
    } else {
        points_of(s.drop_last(), o) + if s.last().ownerId@ == o {
            s.last().pt as int
        } else {
            0
        }
    }
}

/// Sum of all points over the aggregation.
pub open spec fn total_points(s: Seq<AggRec>) -> int
    decreases s.len(),
{
    if s.len() == 0 {
        0
    } else {
        total_points(s.drop_last()) + s.last().pt
    }
}

/// Owners are pairwise distinct: one entry per account.
pub open spec fn distinct_owners(s: Seq<AggRec>) -> bool {
    forall|i: int, j: int| 0 <= i < j < s.len() ==> s[i].ownerId@ != s[j].ownerId@
}

/// No entry carries a negative point count.
pub open spec fn nonneg_points(s: Seq<AggRec>) -> bool {
    forall|i: int| 0 <= i < s.len() ==> #[trigger] s[i].pt >= 0
}

/// Every entry carries at least one point: no account is listed without a
/// share.
pub open spec fn positive_points(s: Seq<AggRec>) -> bool {
    forall|i: int| 0 <= i < s.len() ==> #[trigger] s[i].pt >= 1
}

/// Replacing one entry changes an owner's points by exactly the difference
/// the old and new entry contribute to that owner.
proof fn lemma_points_of_update(s: Seq<AggRec>, i: int, e: AggRec, o: Seq<char>)
    requires
        0 <= i < s.len(),
    ensures
        points_of(s.update(i, e), o) == points_of(s, o) - (if s[i].ownerId@ == o {
            s[i].pt as int
        } else {
            0
        }) + (if e.ownerId@ == o {
            e.pt as int
        } else {
            0
        }),
    decreases s.len(),
{
    if i == s.len() - 1 {
        assert(s.update(i, e).drop_last() =~= s.drop_last());
    } else {
        assert(s.update(i, e).drop_last() =~= s.drop_last().update(i, e));
        lemma_points_of_update(s.drop_last(), i, e, o);
    }
}

/// Replacing one entry changes the total by the difference of the entries.
proof fn lemma_total_points_update(s: Seq<AggRec>, i: int, e: AggRec)
    requires
        0 <= i < s.len(),
    ensures
        total_points(s.update(i, e)) == total_points(s) - s[i].pt + e.pt,
    decreases s.len(),
{
    if i == s.len() - 1 {
        assert(s.update(i, e).drop_last() =~= s.drop_last());
    } else {
        assert(s.update(i, e).drop_last() =~= s.drop_last().update(i, e));
        lemma_total_points_update(s.drop_last(), i, e);
    }
}

/// With one entry per account, an owner present at index `i` holds exactly
/// that entry's points.
pub proof fn lemma_points_of_found(s: Seq<AggRec>, i: int, o: Seq<char>)
    requires
        distinct_owners(s),
        0 <= i < s.len(),
        s[i].ownerId@ == o,
    ensures
        points_of(s, o) == s[i].pt,
    decreases s.len(),
{
    if i == s.len() - 1 {
        lemma_points_of_absent(s.drop_last(), o);
    } else {
        assert(s.drop_last()[i] == s[i]);
        lemma_points_of_found(s.drop_last(), i, o);
    }
}

/// An owner that appears in no entry holds zero points.
pub proof fn lemma_points_of_absent(s: Seq<AggRec>, o: Seq<char>)
    requires
        forall|i: int| 0 <= i < s.len() ==> s[i].ownerId@ != o,
    ensures
        points_of(s, o) == 0,
    decreases s.len(),
{
    if s.len() > 0 {
        lemma_points_of_absent(s.drop_last(), o);
    }
}

/// Every owner's points lie between zero and the total.
pub proof fn lemma_points_le_total(s: Seq<AggRec>, o: Seq<char>)
    requires
        nonneg_points(s),
    ensures
        0 <= points_of(s, o),
        points_of(s, o) <= total_points(s),
    decreases s.len(),
{
    if s.len() > 0 {
        assert(nonneg_points(s.drop_last())) by {
            assert(forall|i: int|
                0 <= i < s.drop_last().len() ==> s.drop_last()[i] == s[i]);
        }
        lemma_points_le_total(s.drop_last(), o);
    }
}

/// Credits `pt` points to `ownerId`, accumulating into the existing entry
/// for that account or appending a new one.
#[allow(non_snake_case)]
pub fn addToAgg(ownerId: String, pt: i32, aggMap: &mut Vec<AggRec>)
    requires
        distinct_owners(old(aggMap)@),
        nonneg_points(old(aggMap)@),
        0 <= pt,
        points_of(old(aggMap)@, ownerId@) + pt <= i32::MAX,
    ensures
        distinct_owners(final(aggMap)@),
        nonneg_points(final(aggMap)@),
        positive_points(old(aggMap)@) && pt >= 1 ==> positive_points(final(aggMap)@),
        total_points(final(aggMap)@) == total_points(old(aggMap)@) + pt,
        forall|o: Seq<char>|
            points_of(final(aggMap)@, o) == points_of(old(aggMap)@, o) + (if o == ownerId@ {
                pt as int
            } else {
                0
            }),
{
    let n = aggMap.len();
    let mut i: usize = 0;
    while i < n
        invariant
            0 <= i <= n,
            n == aggMap@.len(),
            aggMap@ == old(aggMap)@,
            distinct_owners(aggMap@),
            nonneg_points(aggMap@),
            points_of(aggMap@, ownerId@) + pt <= i32::MAX,
            0 <= pt,
            forall|k: int| 0 <= k < i ==> aggMap@[k].ownerId@ != ownerId@,
        decreases n - i,
    {
        if aggMap[i].ownerId == ownerId {
            let oldpt = aggMap[i].pt;
            proof {
                lemma_points_of_found(aggMap@, i as int, ownerId@);
            }
            let e = AggRec { ownerId, pt: oldpt + pt };
            let ghost prev = aggMap@;
            aggMap[i] = e;
            proof {
                lemma_total_points_update(prev, i as int, e);
                assert forall|o: Seq<char>|
                    points_of(aggMap@, o) == points_of(prev, o) + (if o == ownerId@ {
                        pt as int
                    } else {
                        0
                    }) by {
                    lemma_points_of_update(prev, i as int, e, o);
                    if o == ownerId@ {
                        lemma_points_of_found(prev, i as int, o);
                    }
                }
            }
            return;
        }
        i = i + 1;
    }
    let e = AggRec { ownerId, pt };
    let ghost prev = aggMap@;
    aggMap.push(e);
    proof {
        assert(aggMap@.drop_last() =~= prev);
        lemma_points_of_absent(prev, e.ownerId@);
        assert forall|o: Seq<char>|
            points_of(aggMap@, o) == points_of(prev, o) + (if o == e.ownerId@ {
                pt as int
            } else {
                0
            }) by {
            assert(points_of(aggMap@, o) == points_of(prev, o) + if e.ownerId@ == o {
                e.pt as int
            } else {
                0
            });
        }
    }
}

/// The number of slots held by owner `o`.
pub open spec fn owner_slots(owners: Seq<Seq<char>>, o: Seq<char>) -> int
    decreases owners.len(),
{
    if owners.len() == 0 {
        0
    } else {
        owner_slots(owners.drop_last(), o) + if owners.last() == o {
            1int
        } else {
            0
        }
    }
}

/// The views of a vector of account names.
pub open spec fn owner_views(owners: Seq<String>) -> Seq<Seq<char>> {
    owners.map_values(|s: String| s@)
}

/// Expected points for owner `o`: the primary share when `o` is the
/// creator, plus one point per slot held.
pub open spec fn expected_points(
    creator: Seq<char>,
    owners: Seq<Seq<char>>,
    o: Seq<char>,
) -> int {
    (if o == creator {
        (100 - BIDPT) as int
    } else {
        0
    }) + owner_slots(owners, o)
}

/// Aggregates percentage points per account: the creator is credited the
/// primary share, and each slot credits one point to its current owner.
/// The result has one entry per distinct account and its points always sum
/// to exactly one hundred.
#[allow(non_snake_case)]
pub fn get_content_owners_from_arr(bidderArr: &Vec<String>, creatorId: String) -> (agg: Vec<
    AggRec,
>)
    requires
        bidderArr@.len() == BIDPT,
    ensures
        distinct_owners(agg@),
        nonneg_points(agg@),
        positive_points(agg@),
        total_points(agg@) == 100,
        forall|o: Seq<char>|
            points_of(agg@, o) == expected_points(creatorId@, owner_views(bidderArr@), o),
{
    let ghost all = owner_views(bidderArr@);
    let mut aggMap: Vec<AggRec> = Vec::new();
    proof {
        assert forall|o: Seq<char>| points_of(aggMap@, o) == 0 by {
            lemma_points_of_absent(aggMap@, o);
        }
    }
    addToAgg(creatorId, 100 - BIDPT as i32, &mut aggMap);
    let ghost creator = creatorId@;
    let mut i: usize = 0;
    while i < BIDPT
        invariant
            0 <= i <= BIDPT,
            bidderArr@.len() == BIDPT,
            all == owner_views(bidderArr@),
            distinct_owners(aggMap@),
            nonneg_points(aggMap@),
            positive_points(aggMap@),
            total_points(aggMap@) == (100 - BIDPT) + i,
            forall|o: Seq<char>|
                points_of(aggMap@, o) == (if o == creator {
                    (100 - BIDPT) as int
                } else {
                    0
                }) + owner_slots(all.take(i as int), o),
        decreases BIDPT - i,
    {
        let owner = bidderArr[i].clone();
        proof {
            lemma_points_le_total(aggMap@, owner@);
        }
        addToAgg(owner, 1, &mut aggMap);
        proof {
            assert forall|o: Seq<char>|
                points_of(aggMap@, o) == (if o == creator {
                    (100 - BIDPT) as int
                } else {
                    0
                }) + owner_slots(all.take(i + 1), o) by {
                assert(all.take(i + 1).drop_last() =~= all.take(i as int));
                assert(all.take(i + 1).last() == all[i as int]);
            }
        }
        i = i + 1;
    }
    proof {
        assert(all.take(BIDPT as int) =~= all);
    }
    aggMap
}

/// Points credited to owner `o` over a valued aggregation.
pub open spec fn points_of_pv(s: Seq<AggPtVal>, o: Seq<char>) -> int
    decreases s.len(),
{
    if s.len() == 0 {
        0
    } else {
        points_of_pv(s.drop_last(), o) + if s.last().ownerId@ == o {
            s.last().pt as int
        } else {
            0
        }
    }
}

/// Bid value credited to owner `o` over a valued aggregation.
pub open spec fn vals_of_pv(s: Seq<AggPtVal>, o: Seq<char>) -> int
    decreases s.len(),
{
    if s.len() == 0 {
        0
    } else {
        vals_of_pv(s.drop_last(), o) + if s.last().ownerId@ == o {
            s.last().val as int
        } else {
            0
        }
    }
}

/// Sum of all points over a valued aggregation.
pub open spec fn total_points_pv(s: Seq<AggPtVal>) -> int
    decreases s.len(),
{
    if s.len() == 0 {
        0
    } else {
        total_points_pv(s.drop_last()) + s.last().pt
    }
}

/// Sum of all credited value over a valued aggregation.
pub open spec fn total_vals_pv(s: Seq<AggPtVal>) -> int
    decreases s.len(),
{
    if s.len() == 0 {
        0
    } else {
        total_vals_pv(s.drop_last()) + s.last().val
    }
}

/// Owners are pairwise distinct: one entry per account.
pub open spec fn distinct_owners_pv(s: Seq<AggPtVal>) -> bool {
    forall|i: int, j: int| 0 <= i < j < s.len() ==> s[i].ownerId@ != s[j].ownerId@
}

/// No entry carries a negative point count.
pub open spec fn nonneg_points_pv(s: Seq<AggPtVal>) -> bool {
    forall|i: int| 0 <= i < s.len() ==> #[trigger] s[i].pt >= 0
}

/// Replacing one entry changes an owner's shares and the totals by exactly
/// the difference the old and new entry contribute.
proof fn lemma_pv_update(s: Seq<AggPtVal>, i: int, e: AggPtVal, o: Seq<char>)
    requires
        0 <= i < s.len(),
    ensures
        points_of_pv(s.update(i, e), o) == points_of_pv(s, o) - (if s[i].ownerId@ == o {
            s[i].pt as int
        } else {
            0
        }) + (if e.ownerId@ == o {
            e.pt as int
        } else {
            0
        }),
        vals_of_pv(s.update(i, e), o) == vals_of_pv(s, o) - (if s[i].ownerId@ == o {
            s[i].val as int
        } else {
            0
        }) + (if e.ownerId@ == o {
            e.val as int
        } else {
            0
        }),
        total_points_pv(s.update(i, e)) == total_points_pv(s) - s[i].pt + e.pt,
        total_vals_pv(s.update(i, e)) == total_vals_pv(s) - s[i].val + e.val,
    decreases s.len(),
{
    if i == s.len() - 1 {
        assert(s.update(i, e).drop_last() =~= s.drop_last());
    } else {
        assert(s.update(i, e).drop_last() =~= s.drop_last().update(i, e));
        lemma_pv_update(s.drop_last(), i, e, o);
    }
}

/// With one entry per account, an owner present at index `i` holds exactly
/// that entry's points and value.
proof fn lemma_pv_found(s: Seq<AggPtVal>, i: int, o: Seq<char>)
    requires
        distinct_owners_pv(s),
        0 <= i < s.len(),
        s[i].ownerId@ == o,
    ensures
        points_of_pv(s, o) == s[i].pt,
        vals_of_pv(s, o) == s[i].val,
    decreases s.len(),
{
    if i == s.len() - 1 {
        lemma_pv_absent(s.drop_last(), o);
    } else {
        assert(s.drop_last()[i] == s[i]);
        lemma_pv_found(s.drop_last(), i, o);
    }
}

/// An owner that appears in no entry holds zero points and zero value.
proof fn lemma_pv_absent(s: Seq<AggPtVal>, o: Seq<char>)
    requires
        forall|i: int| 0 <= i < s.len() ==> s[i].ownerId@ != o,
    ensures
        points_of_pv(s, o) == 0,
        vals_of_pv(s, o) == 0,
    decreases s.len(),
{
    if s.len() > 0 {
        lemma_pv_absent(s.drop_last(), o);
    }
}

/// Every owner's shares lie between zero and the totals.
pub proof fn lemma_pv_le_total(s: Seq<AggPtVal>, o: Seq<char>)
    requires
        nonneg_points_pv(s),
    ensures
        0 <= points_of_pv(s, o) <= total_points_pv(s),
        0 <= vals_of_pv(s, o) <= total_vals_pv(s),
    decreases s.len(),
{
    if s.len() > 0 {
        assert(nonneg_points_pv(s.drop_last())) by {
            assert(forall|i: int|
                0 <= i < s.drop_last().len() ==> s.drop_last()[i] == s[i]);
        }
        lemma_pv_le_total(s.drop_last(), o);
    }
}

/// Credits `pt` points and `val` bid value to `ownerId`, accumulating into
/// the existing entry for that account or appending a new one.
#[allow(non_snake_case)]
pub fn addToAggPtVal(ownerId: String, pt: i32, val: u64, aggMap: &mut Vec<AggPtVal>)
    requires
        distinct_owners_pv(old(aggMap)@),
        nonneg_points_pv(old(aggMap)@),
        0 <= pt,
        points_of_pv(old(aggMap)@, ownerId@) + pt <= i32::MAX,
        vals_of_pv(old(aggMap)@, ownerId@) + val <= u64::MAX,
    ensures
        distinct_owners_pv(final(aggMap)@),
        nonneg_points_pv(final(aggMap)@),
        total_points_pv(final(aggMap)@) == total_points_pv(old(aggMap)@) + pt,
        total_vals_pv(final(aggMap)@) == total_vals_pv(old(aggMap)@) + val,
        forall|o: Seq<char>|
            points_of_pv(final(aggMap)@, o) == points_of_pv(old(aggMap)@, o) + (if o
                == ownerId@ {
                pt as int
            } else {
                0
            }),
        forall|o: Seq<char>|
            vals_of_pv(final(aggMap)@, o) == vals_of_pv(old(aggMap)@, o) + (if o == ownerId@ {
                val as int
            } else {
                0
            }),
{
    let n = aggMap.len();
    let mut i: usize = 0;
    while i < n
        invariant
            0 <= i <= n,
            n == aggMap@.len(),
            aggMap@ == old(aggMap)@,
            distinct_owners_pv(aggMap@),
            nonneg_points_pv(aggMap@),
            points_of_pv(aggMap@, ownerId@) + pt <= i32::MAX,
            vals_of_pv(aggMap@, ownerId@) + val <= u64::MAX,
            0 <= pt,
            forall|k: int| 0 <= k < i ==> aggMap@[k].ownerId@ != ownerId@,
        decreases n - i,
    {
        if aggMap[i].ownerId == ownerId {
            let oldpt = aggMap[i].pt;
            let oldval = aggMap[i].val;
            proof {
                lemma_pv_found(aggMap@, i as int, ownerId@);
            }
            let e = AggPtVal { ownerId, pt: oldpt + pt, val: oldval + val };
            let ghost prev = aggMap@;
            aggMap[i] = e;
            proof {
                assert forall|o: Seq<char>|
                    points_of_pv(aggMap@, o) == points_of_pv(prev, o) + (if o == ownerId@ {
                        pt as int
                    } else {
                        0
                    }) && vals_of_pv(aggMap@, o) == vals_of_pv(prev, o) + (if o == ownerId@ {
                        val as int
                    } else {
                        0
                    }) by {
                    lemma_pv_update(prev, i as int, e, o);
                    if o == ownerId@ {
                        lemma_pv_found(prev, i as int, o);
                    }
                }
                lemma_pv_update(prev, i as int, e, ownerId@);
            }
            return;
        }
        i = i + 1;
    }
    let e = AggPtVal { ownerId, pt, val };
    let ghost prev = aggMap@;
    aggMap.push(e);
    proof {
        assert(aggMap@.drop_last() =~= prev);
        lemma_pv_absent(prev, e.ownerId@);
        assert forall|o: Seq<char>|
            points_of_pv(aggMap@, o) == points_of_pv(prev, o) + (if o == e.ownerId@ {
                pt as int
            } else {
                0
            }) && vals_of_pv(aggMap@, o) == vals_of_pv(prev, o) + (if o == e.ownerId@ {
                val as int
            } else {
                0
            }) by {
            assert(points_of_pv(aggMap@, o) == points_of_pv(prev, o) + if e.ownerId@ == o {
                e.pt as int
            } else {
                0
            });
            assert(vals_of_pv(aggMap@, o) == vals_of_pv(prev, o) + if e.ownerId@ == o {
                e.val as int
            } else {
                0
            });
        }
    }
}

/// Bid value held by owner `o`: the sum of the values of the slots held.
pub open spec fn owner_vals(owners: Seq<Seq<char>>, vals: Seq<u64>, o: Seq<char>) -> int
    decreases owners.len(),
{
    if owners.len() == 0 {
        0
    } else {
        owner_vals(owners.drop_last(), vals.drop_last(), o) + if owners.last() == o {
            vals[owners.len() - 1] as int
        } else {
            0
        }
    }
}

/// Aggregates percentage points and accumulated bid value per account: the
/// creator is credited the primary share with zero value, and each slot
/// credits one point and its bid value to its current owner.
#[allow(non_snake_case)]
pub fn aggregate_owners_pts_vals(
    bidderArr: &Vec<String>,
    bidvalArr: &Vec<u64>,
    creatorId: String,
) -> (agg: Vec<AggPtVal>)
    requires
        bidderArr@.len() == BIDPT,
        bidvalArr@.len() == BIDPT,
        forall|i: int| 0 <= i < bidvalArr@.len() ==> #[trigger] bidvalArr@[i] <= MAX_AMOUNT,
    ensures
        distinct_owners_pv(agg@),
        nonneg_points_pv(agg@),
        total_points_pv(agg@) == 100,
        forall|o: Seq<char>|
            points_of_pv(agg@, o) == expected_points(creatorId@, owner_views(bidderArr@), o),
        forall|o: Seq<char>|
            vals_of_pv(agg@, o) == owner_vals(owner_views(bidderArr@), bidvalArr@, o),
{
    let ghost all = owner_views(bidderArr@);
    let ghost vals = bidvalArr@;
    let mut aggMap: Vec<AggPtVal> = Vec::new();
    proof {
        assert forall|o: Seq<char>|
            points_of_pv(aggMap@, o) == 0 && vals_of_pv(aggMap@, o) == 0 by {
            lemma_pv_absent(aggMap@, o);
        }
    }
    addToAggPtVal(creatorId, 100 - BIDPT as i32, 0, &mut aggMap);
    let ghost creator = creatorId@;
    let mut i: usize = 0;
    while i < BIDPT
        invariant
            0 <= i <= BIDPT,
            bidderArr@.len() == BIDPT,
            bidvalArr@.len() == BIDPT,
            forall|k: int| 0 <= k < bidvalArr@.len() ==> #[trigger] bidvalArr@[k] <= MAX_AMOUNT,
            all == owner_views(bidderArr@),
            vals == bidvalArr@,
            distinct_owners_pv(aggMap@),
            nonneg_points_pv(aggMap@),
            total_points_pv(aggMap@) == (100 - BIDPT) + i,
            total_vals_pv(aggMap@) <= i * MAX_AMOUNT,
            0 <= total_vals_pv(aggMap@),
            forall|o: Seq<char>|
                points_of_pv(aggMap@, o) == (if o == creator {
                    (100 - BIDPT) as int
                } else {
                    0
                }) + owner_slots(all.take(i as int), o),
            forall|o: Seq<char>|
                vals_of_pv(aggMap@, o) == owner_vals(all.take(i as int), vals.take(i as int), o),
        decreases BIDPT - i,
    {
        let owner = bidderArr[i].clone();
        let v = bidvalArr[i];
        proof {
            lemma_pv_le_total(aggMap@, owner@);
        }
        addToAggPtVal(owner, 1, v, &mut aggMap);
        proof {
            assert forall|o: Seq<char>|
                points_of_pv(aggMap@, o) == (if o == creator {
                    (100 - BIDPT) as int
                } else {
                    0
                }) + owner_slots(all.take(i + 1), o) && vals_of_pv(aggMap@, o) == owner_vals(
                all.take(i + 1),
                vals.take(i + 1),
                o,
            ) by {
                assert(all.take(i + 1).drop_last() =~= all.take(i as int));
                assert(vals.take(i + 1).drop_last() =~= vals.take(i as int));
                assert(all.take(i + 1).last() == all[i as int]);
                assert(vals.take(i + 1)[all.take(i + 1).len() - 1] == vals[i as int]);
            }
        }
        i = i + 1;
    }
    proof {
        assert(all.take(BIDPT as int) =~= all);
        assert(vals.take(BIDPT as int) =~= vals);
    }
    aggMap
}

} // verus!

