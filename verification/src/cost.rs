//! Company cost summaries: token usage per department, in department order.
//!
//! Costs in dollars are floating-point and are summed alongside by the caller; this module
//! groups the token counts.
use vstd::prelude::*;

use crate::text::same_text;

verus! {

/// One agent's worker usage, under the department of the agent.
pub struct UsageRow {
    pub department: String,
    pub tokens: i64,
}

/// Tokens a department used.
pub struct DepartmentTotal {
    pub department: String,
    pub tokens: i64,
}

/// `a` sorts before `b` as `String`s do (UTF-8 byte order, which is code point order).
pub open spec fn text_lt(a: Seq<char>, b: Seq<char>) -> bool
    decreases a.len(),
{
    if a.len() == 0 {
        b.len() > 0
    } else if b.len() == 0 {
        false
    } else if a[0] != b[0] {
        a[0] < b[0]
    } else {
        text_lt(a.drop_first(), b.drop_first())
    }
}

proof fn lemma_text_lt_irreflexive(a: Seq<char>)
    ensures
        !text_lt(a, a),
    decreases a.len(),
{
    if a.len() > 0 {
        lemma_text_lt_irreflexive(a.drop_first());
    }
}

proof fn lemma_text_lt_transitive(a: Seq<char>, b: Seq<char>, c: Seq<char>)
    requires
        text_lt(a, b),
        text_lt(b, c),
    ensures
        text_lt(a, c),
    decreases a.len(),
{
    if a.len() > 0 && b.len() > 0 && c.len() > 0 {
        if a[0] == b[0] && b[0] == c[0] {
            lemma_text_lt_transitive(a.drop_first(), b.drop_first(), c.drop_first());
        } else if a[0] == b[0] {
            assert(a[0] < c[0]);
        } else if b[0] == c[0] {
            assert(a[0] < c[0]);
        } else {
            assert(a[0] < c[0]);
        }
    }
}

proof fn lemma_text_lt_total(a: Seq<char>, b: Seq<char>)
    ensures
        a == b || text_lt(a, b) || text_lt(b, a),
    decreases a.len(),
{
    if a.len() > 0 && b.len() > 0 {
        if a[0] == b[0] {
            lemma_text_lt_total(a.drop_first(), b.drop_first());
            if a.drop_first() == b.drop_first() {
                assert(a =~= seq![a[0]] + a.drop_first());
                assert(b =~= seq![b[0]] + b.drop_first());
            }
        } else {
            assert(a[0] != b[0]);
        }
    } else if a.len() == 0 && b.len() == 0 {
        assert(a =~= b);
    }
}

fn text_less(a: &str, b: &str) -> (r: bool)
    ensures
        r == text_lt(a@, b@),
{
    let x = crate::text::chars_of(a);
    let y = crate::text::chars_of(b);
    let mut i: usize = 0;
    proof {
        assert(a@.skip(0) =~= a@);
        assert(b@.skip(0) =~= b@);
    }
    while i < x.len() && i < y.len() && x[i] == y[i]
        invariant
            x@ == a@,
            y@ == b@,
            i <= x@.len(),
            i <= y@.len(),
            text_lt(a@, b@) == text_lt(a@.skip(i as int), b@.skip(i as int)),
        decreases x@.len() - i,
    {
        assert(a@.skip(i as int).drop_first() =~= a@.skip(i + 1));
        assert(b@.skip(i as int).drop_first() =~= b@.skip(i + 1));
        i = i + 1;
    }
    if i == x.len() {
        i < y.len()
    } else if i == y.len() {
        false
    } else {
        x[i] < y[i]
    }
}

/// Tokens the rows of department `d` used.
pub open spec fn dept_tokens(rows: Seq<UsageRow>, d: Seq<char>) -> int
    decreases rows.len(),
{
    if rows.len() == 0 {
        0
    } else {
        dept_tokens(rows.drop_last(), d) + (if rows.last().department@ == d {
            rows.last().tokens as int
        } else {
            0
        })
    }
}

/// Tokens all rows used.
pub open spec fn total_tokens(rows: Seq<UsageRow>) -> int
    decreases rows.len(),
{
    if rows.len() == 0 {
        0
    } else {
        total_tokens(rows.drop_last()) + rows.last().tokens
    }
}

pub open spec fn names_of(ts: Seq<DepartmentTotal>) -> Seq<Seq<char>> {
    ts.map_values(|t: DepartmentTotal| t.department@)
}

/// Departments strictly ascending.
pub open spec fn strictly_sorted(names: Seq<Seq<char>>) -> bool {
    forall|i: int, j: int| 0 <= i < j < names.len() ==> text_lt(#[trigger] names[i], #[trigger] names[j])
}

/// Every row's department is listed, every listed department has a row, and each carries the
/// tokens of its rows.
pub open spec fn totals_match(ts: Seq<DepartmentTotal>, rows: Seq<UsageRow>) -> bool {
    &&& forall|i: int| 0 <= i < rows.len() ==> names_of(ts).contains(#[trigger] rows[i].department@)
    &&& forall|k: int| #![trigger ts[k]] 0 <= k < ts.len() ==> exists|i: int| 0 <= i < rows.len() && #[trigger] rows[i].department@ == ts[k].department@
    &&& forall|k: int| 0 <= k < ts.len() ==> #[trigger] ts[k].tokens as int == dept_tokens(rows, ts[k].department@)
}

/// Adding the rows up in order never takes a department's running total out of `i64`.
pub open spec fn running_totals_fit(rows: Seq<UsageRow>) -> bool {
    forall|i: int, d: Seq<char>|
        0 <= i <= rows.len() ==> i64::MIN <= #[trigger] dept_tokens(rows.take(i), d) <= i64::MAX
}

/// Token use per department, ascending by department name.
pub fn department_token_totals(rows: &Vec<UsageRow>) -> (r: Vec<DepartmentTotal>)
    requires
        running_totals_fit(rows@),
    ensures
        strictly_sorted(names_of(r@)),
        totals_match(r@, rows@),
{
    let n = rows.len();
    let mut out: Vec<DepartmentTotal> = Vec::new();
    let mut i: usize = 0;
    while i < n
        invariant
            n == rows@.len(),
            i <= n,
            running_totals_fit(rows@),
            strictly_sorted(names_of(out@)),
            totals_match(out@, rows@.take(i as int)),
        decreases n - i,
    {
        let ghost pre = rows@.take(i as int);
        let ghost post = rows@.take(i + 1);
        let ghost before = out@;
        let row = &rows[i];
        proof {
            assert(post.drop_last() =~= pre);
            assert(post.last() == rows@[i as int]);
            assert(i64::MIN <= dept_tokens(post, row.department@) <= i64::MAX);
        }
        let m = out.len();
        let mut j: usize = 0;
        while j < m && text_less(out[j].department.as_str(), row.department.as_str())
            invariant
                m == out@.len(),
                j <= m,
                out@ == before,
                forall|t: int| 0 <= t < j ==> text_lt(#[trigger] names_of(out@)[t], row.department@),
            decreases m - j,
        {
            j = j + 1;
        }
        if j < m && same_text(out[j].department.as_str(), row.department.as_str()) {
            let old_tokens = out[j].tokens;
            proof {
                assert(dept_tokens(post, row.department@) == dept_tokens(pre, row.department@) + row.tokens);
                assert(before[j as int].tokens as int == dept_tokens(pre, row.department@));
            }
            let name = out[j].department.clone();
            out.set(j, DepartmentTotal { department: name, tokens: old_tokens + row.tokens });
            proof {
                let after = out@;
                assert(names_of(after) =~= names_of(before));
                assert forall|k: int| 0 <= k < post.len() implies names_of(after).contains(#[trigger] post[k].department@) by {
                    if k < pre.len() {
                        assert(post[k] == pre[k]);
                        assert(names_of(before).contains(pre[k].department@));
                    } else {
                        assert(names_of(after)[j as int] == row.department@);
                    }
                }
                assert forall|q: int| #![trigger after[q]] 0 <= q < after.len() implies exists|t: int| 0 <= t < post.len() && #[trigger] post[t].department@ == after[q].department@ by {
                    assert(after[q].department@ == before[q].department@);
                    let t = choose|t: int| 0 <= t < pre.len() && #[trigger] pre[t].department@ == before[q].department@;
                    assert(post[t] == pre[t]);
                }
                assert forall|q: int| 0 <= q < after.len() implies #[trigger] after[q].tokens as int == dept_tokens(post, after[q].department@) by {
                    if q != j {
                        assert(after[q] == before[q]);
                        assert(names_of(before)[q] != names_of(before)[j as int]) by {
                            if q < j {
                                assert(text_lt(names_of(before)[q], names_of(before)[j as int]));
                            } else {
                                assert(text_lt(names_of(before)[j as int], names_of(before)[q]));
                            }
                            lemma_text_lt_irreflexive(names_of(before)[j as int]);
                        }
                    }
                }
            }
        } else {
            let ghost name = row.department@;
            out.insert(j, DepartmentTotal { department: row.department.clone(), tokens: row.tokens });
            proof {
                let after = out@;
                assert(after =~= before.take(j as int).push(after[j as int]).add(before.skip(j as int)));
                assert(names_of(after) =~= names_of(before).take(j as int).push(name).add(names_of(before).skip(j as int)));
                // the new name is in no earlier total
                assert forall|q: int| 0 <= q < before.len() implies #[trigger] names_of(before)[q] != name by {
                    if q < j {
                        assert(text_lt(names_of(before)[q], name));
                        lemma_text_lt_irreflexive(name);
                    } else {
                        if j < m {
                            assert(!text_lt(names_of(before)[j as int], name));
                            assert(names_of(before)[j as int] != name);
                            lemma_text_lt_total(names_of(before)[j as int], name);
                            if q > j {
                                assert(text_lt(names_of(before)[j as int], names_of(before)[q]));
                                lemma_text_lt_transitive(name, names_of(before)[j as int], names_of(before)[q]);
                                lemma_text_lt_irreflexive(name);
                            }
                        }
                    }
                }
                assert(dept_tokens(pre, name) == 0) by {
                    lemma_absent_zero(pre, name, names_of(before));
                }
                assert forall|a: int, b: int| 0 <= a < b < after.len() implies text_lt(#[trigger] names_of(after)[a], #[trigger] names_of(after)[b]) by {
                    let na = names_of(after)[a];
                    let nb = names_of(after)[b];
                    if a < j && b < j {
                        assert(na == names_of(before)[a] && nb == names_of(before)[b]);
                    } else if a < j && b == j {
                        assert(na == names_of(before)[a]);
                    } else if a < j {
                        assert(na == names_of(before)[a] && nb == names_of(before)[b - 1]);
                    } else if a == j {
                        assert(nb == names_of(before)[b - 1]);
                        assert(!text_lt(names_of(before)[j as int], name));
                        assert(names_of(before)[j as int] != name);
                        lemma_text_lt_total(names_of(before)[j as int], name);
                        if b - 1 > j {
                            lemma_text_lt_transitive(name, names_of(before)[j as int], nb);
                        }
                    } else {
                        assert(na == names_of(before)[a - 1] && nb == names_of(before)[b - 1]);
                    }
                }
                assert forall|k: int| 0 <= k < post.len() implies names_of(after).contains(#[trigger] post[k].department@) by {
                    if k < pre.len() {
                        assert(post[k] == pre[k]);
                        let q = choose|q: int| 0 <= q < names_of(before).len() && names_of(before)[q] == pre[k].department@;
                        if q < j {
                            assert(names_of(after)[q] == names_of(before)[q]);
                        } else {
                            assert(names_of(after)[q + 1] == names_of(before)[q]);
                        }
                    } else {
                        assert(names_of(after)[j as int] == name);
                    }
                }
                assert forall|q: int| #![trigger after[q]] 0 <= q < after.len() implies exists|t: int| 0 <= t < post.len() && #[trigger] post[t].department@ == after[q].department@ by {
                    if q == j {
                        assert(post[i as int].department@ == name);
                    } else {
                        let p = if q < j { q } else { q - 1 };
                        assert(after[q] == before[p]);
                        let t = choose|t: int| 0 <= t < pre.len() && #[trigger] pre[t].department@ == before[p].department@;
                        assert(post[t] == pre[t]);
                    }
                }
                assert forall|q: int| 0 <= q < after.len() implies #[trigger] after[q].tokens as int == dept_tokens(post, after[q].department@) by {
                    if q != j {
                        let p = if q < j { q } else { q - 1 };
                        assert(after[q] == before[p]);
                        assert(names_of(before)[p] != name);
                    }
                }
            }
        }
        i = i + 1;
    }
    assert(rows@.take(n as int) =~= rows@);
    out
}

proof fn lemma_absent_zero(rows: Seq<UsageRow>, d: Seq<char>, names: Seq<Seq<char>>)
    requires
        forall|i: int| 0 <= i < rows.len() ==> names.contains(#[trigger] rows[i].department@),
        !names.contains(d),
    ensures
        dept_tokens(rows, d) == 0,
    decreases rows.len(),
{
    if rows.len() > 0 {
        let p = rows.drop_last();
        assert forall|i: int| 0 <= i < p.len() implies names.contains(#[trigger] p[i].department@) by {
            assert(p[i] == rows[i]);
        }
        assert(rows[rows.len() - 1] == rows.last());
        lemma_absent_zero(p, d, names);
    }
}


/// Tokens summed over the department totals.
pub open spec fn sum_totals(ts: Seq<DepartmentTotal>) -> int
    decreases ts.len(),
{
    if ts.len() == 0 {
        0
    } else {
        sum_totals(ts.drop_last()) + ts.last().tokens
    }
}

/// Adding the totals up in order stays inside `i64`.
pub open spec fn running_sum_fits(ts: Seq<DepartmentTotal>) -> bool {
    forall|i: int| 0 <= i <= ts.len() ==> i64::MIN <= #[trigger] sum_totals(ts.take(i)) <= i64::MAX
}

/// The company total: the department totals added up.
pub fn total_department_tokens(ts: &Vec<DepartmentTotal>) -> (r: i64)
    requires
        running_sum_fits(ts@),
    ensures
        r == sum_totals(ts@),
{
    let mut sum: i64 = 0;
    let mut i: usize = 0;
    proof {
        assert(ts@.take(0) =~= Seq::<DepartmentTotal>::empty());
    }
    while i < ts.len()
        invariant
            i <= ts@.len(),
            running_sum_fits(ts@),
            sum == sum_totals(ts@.take(i as int)),
        decreases ts@.len() - i,
    {
        proof {
            assert(ts@.take(i + 1).drop_last() =~= ts@.take(i as int));
            assert(i64::MIN <= sum_totals(ts@.take(i + 1)) <= i64::MAX);
        }
        sum = sum + ts[i].tokens;
        i = i + 1;
    }
    assert(ts@.take(ts@.len() as int) =~= ts@);
    sum
}

/// Tokens of the named departments, each counted once per occurrence in `names`.
pub open spec fn dept_sum(names: Seq<Seq<char>>, rows: Seq<UsageRow>) -> int
    decreases names.len(),
{
    if names.len() == 0 {
        0
    } else {
        dept_sum(names.drop_last(), rows) + dept_tokens(rows, names.last())
    }
}

proof fn lemma_sum_totals_as_dept_sum(ts: Seq<DepartmentTotal>, rows: Seq<UsageRow>)
    requires
        forall|k: int| 0 <= k < ts.len() ==> #[trigger] ts[k].tokens as int == dept_tokens(rows, ts[k].department@),
    ensures
        sum_totals(ts) == dept_sum(names_of(ts), rows),
    decreases ts.len(),
{
    if ts.len() > 0 {
        let p = ts.drop_last();
        assert forall|k: int| 0 <= k < p.len() implies #[trigger] p[k].tokens as int == dept_tokens(rows, p[k].department@) by {
            assert(p[k] == ts[k]);
        }
        lemma_sum_totals_as_dept_sum(p, rows);
        assert(names_of(ts).drop_last() =~= names_of(p));
        assert(ts[ts.len() - 1] == ts.last());
    }
}

proof fn lemma_dept_sum_no_rows(names: Seq<Seq<char>>, rows: Seq<UsageRow>)
    requires
        rows.len() == 0,
    ensures
        dept_sum(names, rows) == 0,
    decreases names.len(),
{
    if names.len() > 0 {
        lemma_dept_sum_no_rows(names.drop_last(), rows);
    }
}

proof fn lemma_dept_sum_last_row(names: Seq<Seq<char>>, rows: Seq<UsageRow>)
    requires
        rows.len() > 0,
        forall|a: int, b: int| 0 <= a < b < names.len() ==> #[trigger] names[a] != #[trigger] names[b],
    ensures
        dept_sum(names, rows) == dept_sum(names, rows.drop_last()) + (if names.contains(rows.last().department@) {
            rows.last().tokens as int
        } else {
            0
        }),
    decreases names.len(),
{
    if names.len() > 0 {
        let p = names.drop_last();
        let d = rows.last().department@;
        assert forall|a: int, b: int| 0 <= a < b < p.len() implies #[trigger] p[a] != #[trigger] p[b] by {
            assert(p[a] == names[a] && p[b] == names[b]);
        }
        lemma_dept_sum_last_row(p, rows);
        if p.contains(d) {
            let q = choose|q: int| 0 <= q < p.len() && p[q] == d;
            assert(names[q] == d);
            assert(names.last() == names[names.len() - 1]);
            assert(names.last() != d);
            assert(names.contains(d));
        } else if names.last() == d {
            assert(names[names.len() - 1] == d);
            assert(names.contains(d));
        } else {
            assert forall|q: int| 0 <= q < names.len() implies names[q] != d by {
                if q < p.len() {
                    assert(p[q] == names[q]);
                }
            }
        }
    }
}

proof fn lemma_dept_sum_covers(names: Seq<Seq<char>>, rows: Seq<UsageRow>)
    requires
        forall|a: int, b: int| 0 <= a < b < names.len() ==> #[trigger] names[a] != #[trigger] names[b],
        forall|i: int| 0 <= i < rows.len() ==> names.contains(#[trigger] rows[i].department@),
    ensures
        dept_sum(names, rows) == total_tokens(rows),
    decreases rows.len(),
{
    if rows.len() == 0 {
        lemma_dept_sum_no_rows(names, rows);
    } else {
        let p = rows.drop_last();
        assert forall|i: int| 0 <= i < p.len() implies names.contains(#[trigger] p[i].department@) by {
            assert(p[i] == rows[i]);
        }
        assert(rows[rows.len() - 1] == rows.last());
        lemma_dept_sum_covers(names, p);
        lemma_dept_sum_last_row(names, rows);
    }
}

/// The department totals add up to the tokens of all the rows: grouping loses and invents
/// nothing.
pub proof fn lemma_department_totals_sum(ts: Seq<DepartmentTotal>, rows: Seq<UsageRow>)
    requires
        strictly_sorted(names_of(ts)),
        totals_match(ts, rows),
    ensures
        sum_totals(ts) == total_tokens(rows),
{
    let names = names_of(ts);
    assert forall|a: int, b: int| 0 <= a < b < names.len() implies #[trigger] names[a] != #[trigger] names[b] by {
        assert(text_lt(names[a], names[b]));
        lemma_text_lt_irreflexive(names[a]);
    }
    lemma_sum_totals_as_dept_sum(ts, rows);
    lemma_dept_sum_covers(names, rows);
}

/// The quota set for `department`: the last row that names it, as a map built from the rows
/// in order keeps it.
pub fn quota_for(quotas: &Vec<(String, i64)>, department: &str) -> (r: Option<i64>)
    ensures
        match r {
            Some(q) => exists|i: int|
                0 <= i < quotas@.len() && #[trigger] quotas@[i].0@ == department@ && quotas@[i].1 == q
                    && forall|j: int| i < j < quotas@.len() ==> #[trigger] quotas@[j].0@ != department@,
            None => forall|i: int| 0 <= i < quotas@.len() ==> #[trigger] quotas@[i].0@ != department@,
        },
{
    let mut found: Option<i64> = None;
    let mut i: usize = 0;
    let ghost mut at: int = -1;
    while i < quotas.len()
        invariant
            i <= quotas@.len(),
            -1 <= at < i,
            match found {
                Some(q) => 0 <= at && quotas@[at].0@ == department@ && quotas@[at].1 == q
                    && forall|j: int| at < j < i ==> #[trigger] quotas@[j].0@ != department@,
                None => forall|j: int| 0 <= j < i ==> #[trigger] quotas@[j].0@ != department@,
            },
        decreases quotas@.len() - i,
    {
        if same_text(quotas[i].0.as_str(), department) {
            found = Some(quotas[i].1);
            proof {
                at = i as int;
            }
        }
        i = i + 1;
    }
    found
}


/// The department of `agent_id`: the last entry that names the agent, as a map built from the
/// entries in order keeps it, else "Unknown".
pub open spec fn department_of(departments: Seq<(String, String)>, agent_id: Seq<char>) -> Seq<char>
    decreases departments.len(),
{
    if departments.len() == 0 {
        "Unknown"@
    } else if departments.last().0@ == agent_id {
        departments.last().1@
    } else {
        department_of(departments.drop_last(), agent_id)
    }
}

pub fn department_of_agent(departments: &Vec<(String, String)>, agent_id: &str) -> (r: String)
    ensures
        r@ == department_of(departments@, agent_id@),
{
    let mut i: usize = departments.len();
    assert(departments@.take(i as int) =~= departments@);
    while i > 0
        invariant
            i <= departments@.len(),
            department_of(departments@, agent_id@) == department_of(departments@.take(i as int), agent_id@),
        decreases i,
    {
        proof {
            assert(departments@.take(i as int).drop_last() =~= departments@.take(i - 1));
            assert(departments@.take(i as int).last() == departments@[i - 1]);
        }
        if same_text(departments[i - 1].0.as_str(), agent_id) {
            return departments[i - 1].1.clone();
        }
        i = i - 1;
    }
    String::from_str("Unknown")
}

/// The usage query: tokens and cost per agent of one company, from the window start on when
/// there is one.
pub open spec fn run_usage_query_text(windowed: bool) -> Seq<char> {
    "SELECT agent_id,
                COALESCE(SUM(total_tokens),0) AS tokens,
                COALESCE(SUM(total_cost_usd),0) AS cost
         FROM worker_runs
         WHERE opc_id = ?"@ + (if windowed {
        " AND COALESCE(ended_at_ms, started_at_ms, 0) >= ?"@
    } else {
        Seq::empty()
    }) + " GROUP BY agent_id"@
}

pub fn run_usage_query(windowed: bool) -> (r: String)
    ensures
        r@ == run_usage_query_text(windowed),
{
    let mut sql = String::from_str(
        "SELECT agent_id,
                COALESCE(SUM(total_tokens),0) AS tokens,
                COALESCE(SUM(total_cost_usd),0) AS cost
         FROM worker_runs
         WHERE opc_id = ?",
    );
    if windowed {
        sql.append(" AND COALESCE(ended_at_ms, started_at_ms, 0) >= ?");
    } else {
        assert(sql@ + Seq::<char>::empty() =~= sql@);
    }
    sql.append(" GROUP BY agent_id");
    sql
}

} // verus!
