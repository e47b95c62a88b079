//! The duration literal: one or more groups of decimal digits followed by a
//! unit (`h`, `m` or `s`), written without separators, as in `1h10m30s`.
//! Each group contributes its number times its unit, and the groups are
//! summed whatever their order.

use crate::error::{outcome, WorkoutError, WorkoutErrorView};
use crate::text::{
    all_digits, char_digit_value, char_is_digit, chars_of, digits_value, is_digit, string_of,
};
use crate::types::Duration;
use vstd::prelude::*;
use vstd::slice::slice_subrange;

verus! {

/// `c` is one of the three unit characters.
pub open spec fn is_unit(c: char) -> bool {
    c == 'h' || c == 'm' || c == 's'
}

/// The seconds in one unit; zero for a character that is no unit.
pub open spec fn unit_seconds(c: char) -> nat {
    if c == 'h' {
        3600
    } else if c == 'm' {
        60
    } else if c == 's' {
        1
    } else {
        0
    }
}

/// The digits that `s` ends in: its longest suffix made of digits.
pub open spec fn trailing_digits(s: Seq<char>) -> Seq<char>
    decreases s.len(),
{
    if s.len() > 0 && is_digit(s.last()) {
        trailing_digits(s.drop_last()).push(s.last())
    } else {
        Seq::empty()
    }
}

/// The number that the digits at the end of `s` denote.
pub open spec fn pending_number(s: Seq<char>) -> nat {
    digits_value(trailing_digits(s))
}

/// The seconds that the groups of `s` add up to.
pub open spec fn seconds_of(s: Seq<char>) -> nat
    decreases s.len(),
{
    if s.len() == 0 {
        0
    } else {
        seconds_of(s.drop_last()) + pending_number(s.drop_last()) * unit_seconds(s.last())
    }
}

/// The character at `i` may stand where it does: it is a digit, or a unit
/// right behind a digit.
pub open spec fn in_place(s: Seq<char>, i: int) -> bool {
    is_digit(s[i]) || (is_unit(s[i]) && i > 0 && is_digit(s[i - 1]))
}

/// `s` is one or more groups of digits and a unit.
pub open spec fn is_duration_literal(s: Seq<char>) -> bool {
    &&& s.len() > 0
    &&& is_unit(s.last())
    &&& forall|i: int| 0 <= i < s.len() ==> in_place(s, i)
}

/// Where the first character stands that is not in place; `s.len()` if
/// every character is.
pub open spec fn first_misplaced(s: Seq<char>) -> int
    decreases s.len(),
{
    if s.len() == 0 {
        0
    } else {
        let p = first_misplaced(s.drop_last());
        if p < s.len() - 1 {
            p
        } else if in_place(s, s.len() - 1) {
            s.len() as int
        } else {
            s.len() - 1
        }
    }
}

/// What is reported of a text that is no duration literal: the first
/// character that is out of place, or else the digits at the end that no
/// unit follows (none, for the empty text).
pub open spec fn offending_fragment(s: Seq<char>) -> Seq<char> {
    let p = first_misplaced(s);
    if p < s.len() {
        seq![s[p]]
    } else {
        trailing_digits(s)
    }
}

/// What parsing `s` as a duration literal gives.
pub open spec fn duration_result(s: Seq<char>) -> Result<Duration, WorkoutErrorView> {
    if !is_duration_literal(s) {
        Err(WorkoutErrorView::MalformedDuration(offending_fragment(s)))
    } else if seconds_of(s) > u32::MAX {
        Err(WorkoutErrorView::DurationOverflow)
    } else {
        Ok(Duration(seconds_of(s) as u32))
    }
}

/// `first_misplaced` is the least position whose character is out of place.
pub proof fn lemma_first_misplaced(s: Seq<char>)
    ensures
        0 <= first_misplaced(s) <= s.len(),
        forall|i: int| 0 <= i < first_misplaced(s) ==> in_place(s, i),
        first_misplaced(s) < s.len() ==> !in_place(s, first_misplaced(s)),
    decreases s.len(),
{
    if s.len() > 0 {
        let t = s.drop_last();
        lemma_first_misplaced(t);
        assert forall|i: int| 0 <= i < t.len() implies in_place(s, i) == in_place(t, i) by {}
    }
}

/// A position that is out of place while all before it are in place is the
/// first misplaced one.
pub proof fn lemma_first_misplaced_is(s: Seq<char>, p: int)
    requires
        0 <= p <= s.len(),
        forall|i: int| 0 <= i < p ==> in_place(s, i),
        p < s.len() ==> !in_place(s, p),
    ensures
        first_misplaced(s) == p,
{
    lemma_first_misplaced(s);
    let q = first_misplaced(s);
    if q < p {
        assert(in_place(s, q));
    } else if p < q {
        assert(in_place(s, p));
    }
}

proof fn lemma_trailing_digits_all(s: Seq<char>)
    ensures
        all_digits(trailing_digits(s)),
        trailing_digits(s).len() <= s.len(),
        trailing_digits(s) == s.skip(s.len() - trailing_digits(s).len()),
    decreases s.len(),
{
    if s.len() > 0 && is_digit(s.last()) {
        let t = s.drop_last();
        lemma_trailing_digits_all(t);
        let k = trailing_digits(t).len();
        assert(t.skip(t.len() - k).push(s.last()) =~= s.skip(s.len() - (k + 1)));
    } else {
        assert(s.skip(s.len() as int) =~= Seq::<char>::empty());
    }
}

/// One group denotes its number times its unit.
pub proof fn lemma_single_group(digits: Seq<char>, unit: char)
    requires
        digits.len() > 0,
        all_digits(digits),
        is_unit(unit),
    ensures
        is_duration_literal(digits.push(unit)),
        seconds_of(digits.push(unit)) == digits_value(digits) * unit_seconds(unit),
{
    let s = digits.push(unit);
    assert(s.drop_last() =~= digits);
    lemma_digits_only(digits);
    assert forall|i: int| 0 <= i < s.len() implies in_place(s, i) by {
        if i < digits.len() {
            assert(s[i] == digits[i]);
        } else {
            assert(s[i - 1] == digits[i - 1]);
        }
    }
}

proof fn lemma_digits_only(digits: Seq<char>)
    requires
        all_digits(digits),
    ensures
        trailing_digits(digits) == digits,
        seconds_of(digits) == 0,
    decreases digits.len(),
{
    if digits.len() > 0 {
        let t = digits.drop_last();
        lemma_digits_only(t);
        assert(t.push(digits.last()) =~= digits);
        assert(unit_seconds(digits.last()) == 0);
        assert(pending_number(t) * unit_seconds(digits.last()) == 0) by (nonlinear_arith)
            requires
                unit_seconds(digits.last()) == 0,
        ;
    }
}

proof fn lemma_after_unit(a: Seq<char>, b: Seq<char>)
    requires
        a.len() > 0,
        !is_digit(a.last()),
    ensures
        trailing_digits(a + b) == trailing_digits(b),
        seconds_of(a + b) == seconds_of(a) + seconds_of(b),
    decreases b.len(),
{
    if b.len() == 0 {
        assert(a + b =~= a);
    } else {
        let ab = a + b;
        assert(ab.drop_last() =~= a + b.drop_last());
        assert(ab.last() == b.last());
        lemma_after_unit(a, b.drop_last());
    }
}

/// Two literals written one after the other form a literal, which denotes
/// the sum of the two.
pub proof fn lemma_concat(a: Seq<char>, b: Seq<char>)
    requires
        is_duration_literal(a),
        is_duration_literal(b),
    ensures
        is_duration_literal(a + b),
        seconds_of(a + b) == seconds_of(a) + seconds_of(b),
{
    let ab = a + b;
    lemma_after_unit(a, b);
    assert(ab.last() == b.last());
    assert forall|i: int| 0 <= i < ab.len() implies in_place(ab, i) by {
        if i < a.len() {
            assert(in_place(a, i));
        } else {
            let j = i - a.len();
            assert(in_place(b, j));
            assert(ab[i] == b[j]);
            if j > 0 {
                assert(ab[i - 1] == b[j - 1]);
            }
        }
    }
}

/// The order of two literals does not change the sum.
pub proof fn lemma_order_irrelevant(a: Seq<char>, b: Seq<char>)
    requires
        is_duration_literal(a),
        is_duration_literal(b),
    ensures
        is_duration_literal(a + b),
        is_duration_literal(b + a),
        seconds_of(a + b) == seconds_of(b + a),
{
    lemma_concat(a, b);
    lemma_concat(b, a);
}

/// Hours, minutes and seconds, each a run of digits before its unit, denote
/// `hours * 3600 + minutes * 60 + seconds` in each of the six orders in which
/// the three groups can be written.
pub proof fn lemma_hours_minutes_seconds(hours: Seq<char>, minutes: Seq<char>, seconds: Seq<char>)
    requires
        hours.len() > 0,
        minutes.len() > 0,
        seconds.len() > 0,
        all_digits(hours),
        all_digits(minutes),
        all_digits(seconds),
    ensures
        ({
            let h = hours.push('h');
            let m = minutes.push('m');
            let s = seconds.push('s');
            let total = digits_value(hours) * 3600 + digits_value(minutes) * 60 + digits_value(
                seconds,
            );
            &&& is_duration_literal(h + m + s) && seconds_of(h + m + s) == total
            &&& is_duration_literal(h + s + m) && seconds_of(h + s + m) == total
            &&& is_duration_literal(m + h + s) && seconds_of(m + h + s) == total
            &&& is_duration_literal(m + s + h) && seconds_of(m + s + h) == total
            &&& is_duration_literal(s + h + m) && seconds_of(s + h + m) == total
            &&& is_duration_literal(s + m + h) && seconds_of(s + m + h) == total
        }),
{
    let h = hours.push('h');
    let m = minutes.push('m');
    let s = seconds.push('s');
    lemma_single_group(hours, 'h');
    lemma_single_group(minutes, 'm');
    lemma_single_group(seconds, 's');
    assert(unit_seconds('h') == 3600 && unit_seconds('m') == 60 && unit_seconds('s') == 1);
    assert(seconds_of(h) == digits_value(hours) * 3600);
    assert(seconds_of(m) == digits_value(minutes) * 60);
    assert(seconds_of(s) == digits_value(seconds) * 1);
    lemma_concat(h, m);
    lemma_concat(h + m, s);
    lemma_concat(h, s);
    lemma_concat(h + s, m);
    lemma_concat(m, h);
    lemma_concat(m + h, s);
    lemma_concat(m, s);
    lemma_concat(m + s, h);
    lemma_concat(s, h);
    lemma_concat(s + h, m);
    lemma_concat(s, m);
    lemma_concat(s + m, h);
}

proof fn lemma_step(s: Seq<char>, i: int)
    requires
        0 <= i < s.len(),
    ensures
        s.take(i + 1).drop_last() == s.take(i),
        s.take(i + 1).last() == s[i],
        seconds_of(s.take(i + 1)) == seconds_of(s.take(i)) + pending_number(s.take(i))
            * unit_seconds(s[i]),
        is_digit(s[i]) ==> trailing_digits(s.take(i + 1)) == trailing_digits(s.take(i)).push(s[i]),
        !is_digit(s[i]) ==> trailing_digits(s.take(i + 1)) == Seq::<char>::empty(),
{
    assert(s.take(i + 1).drop_last() =~= s.take(i));
}

/// Parses the characters of a duration literal.
pub fn parse_duration(s: &[char]) -> (r: Result<Duration, WorkoutError>)
    ensures
        outcome(r) == duration_result(s@),
{
    let n = s.len();
    let mut i: usize = 0;
    let mut run_start: usize = 0;
    let mut total: u64 = 0;
    let mut pending: u64 = 0;
    let mut pending_large = false;
    let mut overflow = false;
    proof {
        assert(s@.take(0) =~= Seq::<char>::empty());
    }
    while i < n
        invariant
            n == s@.len(),
            0 <= run_start <= i <= n,
            forall|j: int| 0 <= j < i ==> in_place(s@, j),
            trailing_digits(s@.take(i as int)) == s@.subrange(run_start as int, i as int),
            pending_large ==> pending_number(s@.take(i as int)) > u32::MAX,
            !pending_large ==> pending == pending_number(s@.take(i as int)) && pending
                <= u32::MAX,
            overflow ==> seconds_of(s@.take(i as int)) > u32::MAX,
            !overflow ==> total == seconds_of(s@.take(i as int)) && total <= u32::MAX,
        decreases n - i,
    {
        let c = s[i];
        proof {
            lemma_step(s@, i as int);
        }
        let ghost run = trailing_digits(s@.take(i as int));
        if char_is_digit(c) {
            let d = char_digit_value(c);
            proof {
                assert(run.push(c).drop_last() =~= run);
                assert(run.push(c) =~= s@.subrange(run_start as int, i + 1));
                assert(seconds_of(s@.take(i + 1)) == seconds_of(s@.take(i as int))) by {
                    assert(unit_seconds(c) == 0);
                    assert(pending_number(s@.take(i as int)) * unit_seconds(c) == 0)
                        by (nonlinear_arith)
                        requires
                            unit_seconds(c) == 0,
                    ;
                }
            }
            if !pending_large {
                let p = pending * 10 + d as u64;
                if p > u32::MAX as u64 {
                    pending_large = true;
                } else {
                    pending = p;
                }
            }
        } else {
            let unit: u64 = if c == 'h' {
                3600
            } else if c == 'm' {
                60
            } else if c == 's' {
                1
            } else {
                0
            };
            if unit == 0 || run_start == i {
                proof {
                    if run_start == i && i > 0 && is_digit(s@[i - 1]) {
                        assert(s@.take(i as int).last() == s@[i - 1]);
                        assert(trailing_digits(s@.take(i as int)).len() > 0);
                    }
                    assert(!in_place(s@, i as int));
                    lemma_first_misplaced_is(s@, i as int);
                }
                let fragment = string_of(slice_subrange(s, i, i + 1));
                proof {
                    assert(s@.subrange(i as int, i + 1) =~= seq![s@[i as int]]);
                }
                return Err(WorkoutError::MalformedDuration(fragment));
            }
            proof {
                assert(s@.subrange(run_start as int, i as int).last() == s@[i - 1]);
                lemma_trailing_digits_all(s@.take(i as int));
                assert(is_digit(s@[i - 1]));
                assert(in_place(s@, i as int));
                assert(s@.subrange(i + 1, i + 1) =~= Seq::<char>::empty());
            }
            if !overflow {
                if pending_large {
                    overflow = true;
                    proof {
                        assert(pending_number(s@.take(i as int)) * unit_seconds(c)
                            >= pending_number(s@.take(i as int))) by (nonlinear_arith)
                            requires
                                unit_seconds(c) >= 1,
                        ;
                    }
                } else {
                    assert(pending * unit <= 3600 * 0xffff_ffff) by (nonlinear_arith)
                        requires
                            pending <= 0xffff_ffff,
                            unit <= 3600,
                    ;
                    let t = total + pending * unit;
                    if t > u32::MAX as u64 {
                        overflow = true;
                    } else {
                        total = t;
                    }
                }
            }
            pending = 0;
            pending_large = false;
            run_start = i + 1;
        }
        i += 1;
    }
    proof {
        assert(s@.take(n as int) =~= s@);
        lemma_first_misplaced_is(s@, n as int);
    }
    if run_start < n || n == 0 {
        proof {
            if run_start < n {
                assert(s@.subrange(run_start as int, n as int).last() == s@[n - 1]);
                lemma_trailing_digits_all(s@);
                assert(is_digit(s@.last()));
            }
        }
        let fragment = string_of(slice_subrange(s, run_start, n));
        return Err(WorkoutError::MalformedDuration(fragment));
    }
    proof {
        lemma_trailing_digits_all(s@);
        assert(trailing_digits(s@).len() == 0);
        assert(!is_digit(s@.last()));
        assert(in_place(s@, n - 1));
    }
    if overflow {
        Err(WorkoutError::DurationOverflow)
    } else {
        Ok(Duration(total as u32))
    }
}

impl Duration {
    /// Reads a duration literal such as `1h10m30s`.
    pub fn parse(literal: &str) -> (r: Result<Duration, WorkoutError>)
        ensures
            outcome(r) == duration_result(literal@),
    {
        let chars = chars_of(literal);
        parse_duration(chars.as_slice())
    }
}

impl std::str::FromStr for Duration {
    type Err = WorkoutError;

    fn from_str(s: &str) -> (r: Result<Duration, WorkoutError>)
        ensures
            outcome(r) == duration_result(s@),
    {
        Duration::parse(s)
    }
}

impl TryFrom<String> for Duration {
    type Error = WorkoutError;

    fn try_from(value: String) -> (r: Result<Duration, WorkoutError>)
        ensures
            outcome(r) == duration_result(value@),
    {
        Duration::parse(value.as_str())
    }
}

impl vstd::std_specs::convert::TryFromSpecImpl<String> for Duration {
    /// The error of a failed conversion owns a fresh text, which no
    /// specification value can name: what `try_from` returns is stated in
    /// its own `ensures`.
    open spec fn obeys_try_from_spec() -> bool {
        false
    }

    open spec fn try_from_spec(value: String) -> Result<Duration, WorkoutError> {
        arbitrary()
    }
}

} // verus!
