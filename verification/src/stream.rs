//! Server-sent worker event streams: resuming from `Last-Event-ID` and stopping at the end of
//! a run.
use vstd::prelude::*;

use crate::text::{
    decimal, digit_char, is_ws, signed_decimal, signed_decimal_text, same_text, trim, trim_end_seq, trim_seq, trim_start_seq,
};

verus! {

/// Event types that end a run's stream.
pub open spec fn is_terminal_event(event_type: Seq<char>) -> bool {
    event_type == "Done"@ || event_type == "LifecycleEnd"@
}

/// A run's stream ends at a `Done` or a `LifecycleEnd` event and at no other.
pub proof fn lemma_terminal_events(event_type: Seq<char>)
    ensures
        is_terminal_event("Done"@),
        is_terminal_event("LifecycleEnd"@),
        event_type != "Done"@ && event_type != "LifecycleEnd"@ ==> !is_terminal_event(event_type),
{
}

pub fn is_terminal_stream_event(event_type: &str) -> (r: bool)
    ensures
        r == is_terminal_event(event_type@),
{
    same_text(event_type, "Done") || same_text(event_type, "LifecycleEnd")
}

pub open spec fn is_digit(c: char) -> bool {
    '0' <= c <= '9'
}

/// Value of a run of decimal digits.
pub open spec fn digits_value(s: Seq<char>) -> int
    decreases s.len(),
{
    if s.len() == 0 {
        0
    } else {
        digits_value(s.drop_last()) * 10 + (s.last() as int - '0' as int)
    }
}

/// `str::parse::<i64>`: an optional `+` or `-`, then one or more ASCII digits, whose value
/// fits in `i64`.
pub open spec fn parse_i64(s: Seq<char>) -> Option<i64> {
    let negative = s.len() > 0 && s[0] == '-';
    let digits = if s.len() > 0 && (s[0] == '-' || s[0] == '+') {
        s.drop_first()
    } else {
        s
    };
    let v = if negative {
        -digits_value(digits)
    } else {
        digits_value(digits)
    };
    if digits.len() > 0 && all_digits(digits)
        && i64::MIN <= v <= i64::MAX {
        Some(v as i64)
    } else {
        None
    }
}

/// Every character is a decimal digit.
pub open spec fn all_digits(s: Seq<char>) -> bool {
    forall|i: int| 0 <= i < s.len() ==> is_digit(#[trigger] s[i])
}

proof fn lemma_digits_value_nonneg(s: Seq<char>)
    requires
        all_digits(s),
    ensures
        digits_value(s) >= 0,
    decreases s.len(),
{
    if s.len() > 0 {
        let p = s.drop_last();
        assert forall|i: int| 0 <= i < p.len() implies is_digit(#[trigger] p[i]) by {
            assert(p[i] == s[i]);
        }
        lemma_digits_value_nonneg(p);
        assert(is_digit(s[s.len() - 1]));
    }
}

proof fn lemma_digits_value_grows(s: Seq<char>, j: int)
    requires
        all_digits(s),
        0 <= j <= s.len(),
    ensures
        digits_value(s.take(j)) <= digits_value(s),
    decreases s.len(),
{
    if j == s.len() {
        assert(s.take(j) =~= s);
    } else {
        let p = s.drop_last();
        assert forall|i: int| 0 <= i < p.len() implies is_digit(#[trigger] p[i]) by {
            assert(p[i] == s[i]);
        }
        lemma_digits_value_grows(p, j);
        assert(p.take(j) =~= s.take(j));
        lemma_digits_value_nonneg(p);
        assert(is_digit(s[s.len() - 1]));
    }
}

/// The value of the digits of `c` from `start` on, when there is at least one, all are
/// digits, and the value fits in `u64`.
pub(crate) fn digits_magnitude(c: &Vec<char>, start: usize) -> (r: Option<u64>)
    requires
        start <= c@.len(),
    ensures
        r == (if start < c@.len() && all_digits(c@.skip(start as int)) && digits_value(
            c@.skip(start as int),
        ) <= u64::MAX {
            Some(digits_value(c@.skip(start as int)) as u64)
        } else {
            None
        }),
{
    let n = c.len();
    if start == n {
        return None;
    }
    let ghost d = c@.skip(start as int);
    let mut v: u64 = 0;
    let mut i: usize = start;
    proof {
        assert(d.take(0) =~= Seq::<char>::empty());
    }
    while i < n
        invariant
            start <= i <= n,
            n == c@.len(),
            d == c@.skip(start as int),
            all_digits(d.take(i - start)),
            v == digits_value(d.take(i - start)),
        decreases n - i,
    {
        let ch = c[i];
        assert(d[i - start] == ch);
        if !('0' <= ch && ch <= '9') {
            return None;
        }
        let digit: u64 = (ch as u32 - '0' as u32) as u64;
        let ghost next = d.take(i - start + 1);
        proof {
            assert(next.drop_last() =~= d.take(i - start));
            assert(next.last() == ch);
            assert forall|k: int| 0 <= k < next.len() implies is_digit(#[trigger] next[k]) by {
                if k < next.len() - 1 {
                    assert(next[k] == d.take(i - start)[k]);
                }
            }
            assert(digits_value(next) == v * 10 + digit);
        }
        let grown = match v.checked_mul(10) {
            Some(m) => m.checked_add(digit),
            None => None,
        };
        match grown {
            Some(g) => {
                v = g;
            },
            None => {
                proof {
                    if all_digits(d) {
                        lemma_digits_value_grows(d, i - start + 1);
                    }
                }
                return None;
            },
        }
        i = i + 1;
    }
    assert(d.take(n - start) =~= d);
    Some(v)
}

/// `<i64 as FromStr>::from_str`, written out: the strings `parse_i64` describes, and their
/// values.
fn parse_i64_text(s: &str) -> (r: Option<i64>)
    ensures
        r == parse_i64(s@),
{
    let c = crate::text::chars_of(s);
    let negative = c.len() > 0 && c[0] == '-';
    let start: usize = if c.len() > 0 && (c[0] == '-' || c[0] == '+') {
        1
    } else {
        0
    };
    proof {
        if start == 1 {
            assert(c@.skip(1) =~= s@.drop_first());
        } else {
            assert(c@.skip(0) =~= s@);
        }
    }
    let ghost digits = c@.skip(start as int);
    proof {
        if all_digits(digits) {
            lemma_digits_value_nonneg(digits);
        }
    }
    match digits_magnitude(&c, start) {
        None => None,
        Some(m) => if negative {
            if m <= 9_223_372_036_854_775_807 {
                Some(-(m as i64))
            } else if m == 9_223_372_036_854_775_808 {
                Some(i64::MIN)
            } else {
                None
            }
        } else {
            if m <= 9_223_372_036_854_775_807 {
                Some(m as i64)
            } else {
                None
            }
        },
    }
}

/// The last event sequence number a client saw, from its `Last-Event-ID` header (trimmed);
/// -1 when the header is absent or not a number.
pub fn parse_last_event_id(header: Option<&str>) -> (r: i64)
    ensures
        r == (match header {
            Some(h) => match parse_i64(trim_seq(h@)) {
                Some(v) => v,
                None => -1i64,
            },
            None => -1i64,
        }),
{
    match header {
        Some(h) => match parse_i64_text(trim(h).as_str()) {
            Some(v) => v,
            None => -1,
        },
        None => -1,
    }
}

/// An event row as the stream reads it: its sequence number and type, when the row has them.
pub struct StreamRow {
    pub event_seq: Option<i64>,
    pub event_type: Option<String>,
}

/// Sequence numbers the stream gives rows read after `last`: a row's own number, else one past
/// the previous.
pub open spec fn stream_seqs(last: int, rows: Seq<StreamRow>) -> Seq<int>
    decreases rows.len(),
{
    if rows.len() == 0 {
        Seq::empty()
    } else {
        let s = match rows[0].event_seq {
            Some(v) => v as int,
            None => last + 1,
        };
        seq![s] + stream_seqs(s, rows.drop_first())
    }
}

/// Number of rows of a batch the stream sends: up to and including the first terminal event.
pub open spec fn stream_sent(rows: Seq<StreamRow>) -> nat
    decreases rows.len(),
{
    if rows.len() == 0 {
        0
    } else if row_terminal(rows[0]) {
        1
    } else {
        1 + stream_sent(rows.drop_first())
    }
}

/// The batch reaches a terminal event.
pub open spec fn stream_finished(rows: Seq<StreamRow>) -> bool {
    exists|i: int| 0 <= i < rows.len() && row_terminal(#[trigger] rows[i])
}

/// What the stream does with one polled batch of rows.
pub struct StreamStep {
    /// Sequence number under which each sent row goes out, in order.
    pub sent_seqs: Vec<i64>,
    /// The cursor for the next poll.
    pub last_seq: i64,
    /// The run's stream ends after this batch.
    pub finished: bool,
}

/// The row is a terminal event.
pub open spec fn row_terminal(row: StreamRow) -> bool {
    match row.event_type {
        Some(t) => is_terminal_event(t@),
        None => false,
    }
}

proof fn lemma_stream_seqs_len(last: int, rows: Seq<StreamRow>)
    ensures
        stream_seqs(last, rows).len() == rows.len(),
    decreases rows.len(),
{
    if rows.len() > 0 {
        let s = match rows[0].event_seq {
            Some(v) => v as int,
            None => last + 1,
        };
        lemma_stream_seqs_len(s, rows.drop_first());
    }
}

proof fn lemma_stream_seqs_at(last: int, rows: Seq<StreamRow>, i: int)
    requires
        0 <= i < rows.len(),
    ensures
        stream_seqs(last, rows)[i] == (match rows[i].event_seq {
            Some(v) => v as int,
            None => (if i == 0 {
                last
            } else {
                stream_seqs(last, rows)[i - 1]
            }) + 1,
        }),
    decreases i,
{
    let s = match rows[0].event_seq {
        Some(v) => v as int,
        None => last + 1,
    };
    let rest = rows.drop_first();
    lemma_stream_seqs_len(s, rest);
    if i > 0 {
        lemma_stream_seqs_at(s, rest, i - 1);
        assert(rest[i - 1] == rows[i]);
    }
}

proof fn lemma_stream_sent_first_terminal(rows: Seq<StreamRow>, m: int)
    requires
        0 <= m < rows.len(),
        row_terminal(rows[m]),
        forall|k: int| 0 <= k < m ==> !row_terminal(#[trigger] rows[k]),
    ensures
        stream_sent(rows) == m + 1,
    decreases m,
{
    if m > 0 {
        let rest = rows.drop_first();
        assert(!row_terminal(rows[0]));
        assert forall|k: int| 0 <= k < m - 1 implies !row_terminal(#[trigger] rest[k]) by {
            assert(rest[k] == rows[k + 1]);
        }
        lemma_stream_sent_first_terminal(rest, m - 1);
    }
}

proof fn lemma_stream_sent_all(rows: Seq<StreamRow>)
    requires
        forall|k: int| 0 <= k < rows.len() ==> !row_terminal(#[trigger] rows[k]),
    ensures
        stream_sent(rows) == rows.len(),
    decreases rows.len(),
{
    if rows.len() > 0 {
        let rest = rows.drop_first();
        assert(!row_terminal(rows[0]));
        assert forall|k: int| 0 <= k < rest.len() implies !row_terminal(#[trigger] rest[k]) by {
            assert(rest[k] == rows[k + 1]);
        }
        lemma_stream_sent_all(rest);
    }
}

proof fn lemma_stream_seqs_above(base: int, last: int, rows: Seq<StreamRow>)
    requires
        base >= last,
        forall|i: int| 0 <= i < rows.len() ==> (#[trigger] rows[i].event_seq matches Some(v) ==> v > last),
    ensures
        forall|i: int| 0 <= i < stream_seqs(base, rows).len() ==> #[trigger] stream_seqs(base, rows)[i] > last,
    decreases rows.len(),
{
    if rows.len() > 0 {
        let s = match rows[0].event_seq {
            Some(v) => v as int,
            None => base + 1,
        };
        let rest = rows.drop_first();
        assert forall|i: int| 0 <= i < rest.len() implies (#[trigger] rest[i].event_seq matches Some(v) ==> v > last) by {
            assert(rest[i] == rows[i + 1]);
        }
        lemma_stream_seqs_above(s, last, rest);
        let all = stream_seqs(base, rows);
        assert forall|i: int| 0 <= i < all.len() implies #[trigger] all[i] > last by {
            if i > 0 {
                assert(all[i] == stream_seqs(s, rest)[i - 1]);
            }
        }
    }
}

/// A stream resumed after `last_seq` never sends an event at or before it: when every row it
/// reads that carries a number carries one above the cursor (as the poll asks for), every
/// number it sends is above the cursor.
pub proof fn lemma_stream_never_resends(last_seq: int, rows: Seq<StreamRow>)
    requires
        forall|i: int| 0 <= i < rows.len() ==> (#[trigger] rows[i].event_seq matches Some(v) ==> v > last_seq),
    ensures
        forall|i: int| 0 <= i < rows.len() ==> #[trigger] stream_seqs(last_seq, rows)[i] > last_seq,
{
    lemma_stream_seqs_len(last_seq, rows);
    lemma_stream_seqs_above(last_seq, last_seq, rows);
}

/// One poll of a run's stream: send the rows in order under their sequence numbers, up to and
/// including the first terminal event, and move the cursor to the last number sent.
pub fn stream_step(last_seq: i64, rows: &Vec<StreamRow>) -> (r: StreamStep)
    requires
        forall|i: int|
            0 <= i < rows@.len() ==> #[trigger] stream_seqs(last_seq as int, rows@)[i] <= i64::MAX,
    ensures
        r.sent_seqs@.len() == stream_sent(rows@),
        forall|i: int|
            0 <= i < r.sent_seqs@.len() ==> #[trigger] r.sent_seqs@[i] as int == stream_seqs(
                last_seq as int,
                rows@,
            )[i],
        r.last_seq as int == (if stream_sent(rows@) == 0 {
            last_seq as int
        } else {
            stream_seqs(last_seq as int, rows@)[stream_sent(rows@) - 1]
        }),
        r.finished == stream_finished(rows@),
{
    let ghost all = stream_seqs(last_seq as int, rows@);
    let n = rows.len();
    let mut sent: Vec<i64> = Vec::new();
    let mut last = last_seq;
    let mut done = false;
    let mut i: usize = 0;
    proof {
        lemma_stream_seqs_len(last_seq as int, rows@);
    }
    while i < n && !done
        invariant
            n == rows@.len(),
            i <= n,
            all == stream_seqs(last_seq as int, rows@),
            all.len() == n,
            forall|k: int| 0 <= k < n ==> #[trigger] all[k] <= i64::MAX,
            sent@.len() == i,
            forall|k: int| 0 <= k < i ==> #[trigger] sent@[k] as int == all[k],
            last as int == (if i == 0 {
                last_seq as int
            } else {
                all[i - 1]
            }),
            done ==> i >= 1 && row_terminal(rows@[i - 1]),
            forall|k: int| 0 <= k < i - (if done { 1int } else { 0int }) ==> !row_terminal(#[trigger] rows@[k]),
        decreases n - i,
    {
        proof {
            lemma_stream_seqs_at(last_seq as int, rows@, i as int);
        }
        let seq = match rows[i].event_seq {
            Some(v) => v,
            None => last + 1,
        };
        sent.push(seq);
        last = seq;
        let terminal = match &rows[i].event_type {
            Some(t) => is_terminal_stream_event(t.as_str()),
            None => false,
        };
        if terminal {
            done = true;
        }
        i = i + 1;
    }
    proof {
        if done {
            lemma_stream_sent_first_terminal(rows@, i - 1);
        } else {
            lemma_stream_sent_all(rows@);
            assert forall|k: int| 0 <= k < rows@.len() implies !row_terminal(#[trigger] rows@[k]) by {}
        }
    }
    StreamStep { sent_seqs: sent, last_seq: last, finished: done }
}


/// The `id` of the server-sent event for sequence number `seq` (`i64::to_string`).
pub open spec fn event_id_of(seq: i64) -> Seq<char> {
    signed_decimal(seq as int)
}

pub fn event_id(seq: i64) -> (r: String)
    ensures
        r@ == event_id_of(seq),
{
    signed_decimal_text(seq)
}

proof fn lemma_decimal_digits(n: nat)
    ensures
        decimal(n).len() > 0,
        forall|i: int| 0 <= i < decimal(n).len() ==> is_digit(#[trigger] decimal(n)[i]),
        digits_value(decimal(n)) == n,
    decreases n,
{
    let last = (n % 10) as int;
    assert(digit_char(last) as int == '0' as int + last);
    assert(n == (n / 10) * 10 + n % 10) by (nonlinear_arith);
    if n < 10 {
        assert(decimal(n).drop_last() =~= Seq::<char>::empty());
        assert(digits_value(decimal(n).drop_last()) == 0);
        assert(decimal(n).last() == digit_char(last));
        assert(digits_value(decimal(n)) == last);
    } else {
        lemma_decimal_digits(n / 10);
        let d = decimal(n);
        assert(d.drop_last() =~= decimal(n / 10));
        assert(d.last() == digit_char((n % 10) as int));
        assert forall|i: int| 0 <= i < d.len() implies is_digit(#[trigger] d[i]) by {
            if i < d.len() - 1 {
                assert(d[i] == decimal(n / 10)[i]);
            }
        }
        assert(digits_value(d) == digits_value(decimal(n / 10)) * 10 + last);
        assert(digits_value(d) == n);
    }
}

proof fn lemma_digits_untrimmed(s: Seq<char>)
    requires
        s.len() > 0,
        !is_ws(s[0]),
        !is_ws(s.last()),
    ensures
        trim_seq(s) == s,
{
    assert(trim_start_seq(s) == s);
    assert(trim_end_seq(s) == s);
}

/// A client that reconnects with the id of the last event it got resumes right after that
/// event: the `Last-Event-ID` the stream reads back is the sequence number it sent.
pub proof fn lemma_event_id_resumes(seq: i64)
    ensures
        parse_i64(trim_seq(event_id_of(seq))) == Some(seq),
{
    let m: nat = if seq >= 0 { seq as nat } else { (-seq) as nat };
    lemma_decimal_digits(m);
    let d = decimal(m);
    let s = event_id_of(seq);
    assert(!is_ws(d.last()));
    if seq >= 0 {
        assert(s == d);
        assert(!is_ws(s[0]));
        assert(!is_digit('+'));
    } else {
        assert(s[0] == '-');
        assert(s.last() == d.last());
        assert(s.drop_first() =~= d);
    }
    lemma_digits_untrimmed(s);
}

} // verus!
