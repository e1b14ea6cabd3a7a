//! Timelines and audit listings: how many audit events a listing returns and in which order
//! timeline items are shown.
use vstd::prelude::*;

verus! {

/// Query of an audit event listing.
pub struct AuditEventsQuery {
    pub limit: Option<i64>,
    pub work_order_id: Option<String>,
    pub run_id: Option<String>,
}

/// Audit listings return 100 events unless asked otherwise, and between 1 and 500.
pub open spec fn clamp_limit(limit: Option<i64>) -> i64 {
    let l = match limit {
        Some(l) => l,
        None => 100,
    };
    if l < 1 {
        1
    } else if l > 500 {
        500
    } else {
        l
    }
}

pub fn audit_event_limit(query: &AuditEventsQuery) -> (r: i64)
    ensures
        r == clamp_limit(query.limit),
        1 <= r <= 500,
{
    let l = match query.limit {
        Some(l) => l,
        None => 100,
    };
    if l < 1 {
        1
    } else if l > 500 {
        500
    } else {
        l
    }
}

/// `a` comes no later than `b` in the requested direction.
pub open spec fn in_order(a: i64, b: i64, descending: bool) -> bool {
    if descending {
        a >= b
    } else {
        a <= b
    }
}

/// `order` lists each index below `n` once.
pub open spec fn is_index_permutation(order: Seq<usize>, n: nat) -> bool {
    &&& order.len() == n
    &&& forall|i: int| 0 <= i < order.len() ==> #[trigger] order[i] < n
    &&& forall|i: int, j: int| 0 <= i < j < order.len() ==> #[trigger] order[i] != #[trigger] order[j]
}

/// `order` sorts `keys` in the requested direction, keeping equal keys in their input order.
pub open spec fn is_stable_order(order: Seq<usize>, keys: Seq<i64>, descending: bool) -> bool {
    &&& forall|i: int, j: int|
        0 <= i < j < order.len() ==> in_order(
            keys[#[trigger] order[i] as int],
            keys[#[trigger] order[j] as int],
            descending,
        )
    &&& forall|i: int, j: int|
        0 <= i < j < order.len() && keys[#[trigger] order[i] as int] == keys[#[trigger] order[j] as int]
            ==> order[i] < order[j]
}

/// The order in which timeline items with times `keys` are shown: by time, ascending or
/// descending, items with the same time in the order they were collected.
pub fn order_by_time(keys: &Vec<i64>, descending: bool) -> (r: Vec<usize>)
    ensures
        is_index_permutation(r@, keys@.len()),
        is_stable_order(r@, keys@, descending),
{
    let n = keys.len();
    let mut order: Vec<usize> = Vec::new();
    let mut k: usize = 0;
    while k < n
        invariant
            n == keys@.len(),
            k <= n,
            is_index_permutation(order@, k as nat),
            is_stable_order(order@, keys@, descending),
        decreases n - k,
    {
        let key = keys[k];
        let m = order.len();
        let mut j: usize = 0;
        while j < m && in_order_exec(keys[order[j]], key, descending)
            invariant
                n == keys@.len(),
                k < n,
                m == order@.len(),
                j <= m,
                is_index_permutation(order@, k as nat),
                forall|t: int| 0 <= t < j ==> in_order(keys@[#[trigger] order@[t] as int], key, descending),
            decreases m - j,
        {
            j = j + 1;
        }
        let ghost before = order@;
        proof {
            if j < m {
                assert(!in_order(keys@[before[j as int] as int], key, descending));
            }
        }
        order.insert(j, k);
        proof {
            let after = order@;
            assert(after =~= before.take(j as int).push(k).add(before.skip(j as int)));
            assert forall|t: int| 0 <= t < after.len() implies #[trigger] after[t] < k + 1 by {
                if t < j {
                    assert(after[t] == before[t]);
                } else if t > j {
                    assert(after[t] == before[t - 1]);
                }
            }
            assert forall|a: int, b: int| 0 <= a < b < after.len() implies #[trigger] after[a]
                != #[trigger] after[b] by {
                if a < j && b < j {
                    assert(after[a] == before[a] && after[b] == before[b]);
                } else if a < j && b == j {
                    assert(after[a] == before[a]);
                } else if a < j && b > j {
                    assert(after[a] == before[a] && after[b] == before[b - 1]);
                } else if a == j {
                    assert(after[b] == before[b - 1]);
                } else {
                    assert(after[a] == before[a - 1] && after[b] == before[b - 1]);
                }
            }
            assert forall|a: int, b: int| 0 <= a < b < after.len() implies in_order(
                keys@[#[trigger] after[a] as int],
                keys@[#[trigger] after[b] as int],
                descending,
            ) && (keys@[after[a] as int] == keys@[after[b] as int] ==> after[a] < after[b]) by {
                if a < j && b < j {
                    assert(after[a] == before[a] && after[b] == before[b]);
                } else if a < j && b == j {
                    assert(after[a] == before[a]);
                } else if a < j && b > j {
                    assert(after[a] == before[a] && after[b] == before[b - 1]);
                    assert(in_order(keys@[before[a] as int], key, descending));
                    assert(!in_order(keys@[before[j as int] as int], key, descending));
                    if b - 1 > j {
                        assert(in_order(keys@[before[j as int] as int], keys@[before[b - 1] as int], descending));
                    }
                } else if a == j {
                    assert(after[b] == before[b - 1]);
                    assert(!in_order(keys@[before[j as int] as int], key, descending));
                    if b - 1 > j {
                        assert(in_order(keys@[before[j as int] as int], keys@[before[b - 1] as int], descending));
                    }
                } else {
                    assert(after[a] == before[a - 1] && after[b] == before[b - 1]);
                }
            }
        }
        k = k + 1;
    }
    order
}

fn in_order_exec(a: i64, b: i64, descending: bool) -> (r: bool)
    ensures
        r == in_order(a, b, descending),
{
    if descending {
        a >= b
    } else {
        a <= b
    }
}

} // verus!
