//! The power literal: a whole number of watts, or a decimal fraction of the
//! rider's functional threshold power (FTP). A number that fits 16 bits and
//! has no decimal point is watts; every other non-negative decimal is a
//! fraction, held exactly.

use crate::error::{outcome, PowerFault, WorkoutError, WorkoutErrorView};
use crate::text::{
    after_first, all_digits, append_digits, before_first, chars_of, digit_value, digits_value,
    find_first, is_all_digits, is_digit, lemma_append_digits_concat, lemma_append_digits_grows,
    read_digits,
};
use vstd::prelude::*;
use vstd::slice::slice_subrange;

verus! {

/// A non-negative decimal number, `mantissa / 10^scale`.
#[derive(Copy, Clone, Debug, PartialEq, Eq, Structural)]
pub struct Decimal {
    pub mantissa: u64,
    pub scale: u8,
}

/// What a segment asks of the rider: an absolute power, or a fraction of FTP
/// (which may exceed one).
#[derive(Copy, Clone, Debug, PartialEq, Eq, Structural)]
pub enum PowerTarget {
    Watts(u16),
    Percentage(Decimal),
}

/// The shortest way to write `mantissa / 10^scale`: zeros at the end of the
/// fraction are dropped.
pub open spec fn canonical(mantissa: nat, scale: nat) -> (nat, nat)
    decreases scale,
{
    if scale > 0 && mantissa % 10 == 0 {
        canonical(mantissa / 10, (scale - 1) as nat)
    } else {
        (mantissa, scale)
    }
}

impl Decimal {
    /// No other `Decimal` with a smaller scale denotes the same number.
    pub open spec fn is_canonical(self) -> bool {
        self.scale == 0 || self.mantissa % 10 != 0
    }

    /// The canonical `Decimal` for `mantissa / 10^scale`.
    pub fn new(mantissa: u64, scale: u8) -> (d: Decimal)
        ensures
            (d.mantissa as nat, d.scale as nat) == canonical(mantissa as nat, scale as nat),
            d.is_canonical(),
    {
        let mut m = mantissa;
        let mut k = scale;
        while k > 0 && m % 10 == 0
            invariant
                canonical(m as nat, k as nat) == canonical(mantissa as nat, scale as nat),
            decreases k,
        {
            m = m / 10;
            k = k - 1;
        }
        Decimal { mantissa: m, scale: k }
    }
}

impl From<u16> for PowerTarget {
    fn from(value: u16) -> (target: PowerTarget) {
        PowerTarget::Watts(value)
    }
}

impl vstd::std_specs::convert::FromSpecImpl<u16> for PowerTarget {
    open spec fn obeys_from_spec() -> bool {
        true
    }

    open spec fn from_spec(value: u16) -> PowerTarget {
        PowerTarget::Watts(value)
    }
}

impl From<Decimal> for PowerTarget {
    fn from(value: Decimal) -> (target: PowerTarget) {
        PowerTarget::Percentage(value)
    }
}

impl vstd::std_specs::convert::FromSpecImpl<Decimal> for PowerTarget {
    open spec fn obeys_from_spec() -> bool {
        true
    }

    open spec fn from_spec(value: Decimal) -> PowerTarget {
        PowerTarget::Percentage(value)
    }
}

/// The literal starts with a minus sign.
pub open spec fn has_minus(s: Seq<char>) -> bool {
    s.len() > 0 && s[0] == '-'
}

/// The literal without the sign that it may start with.
pub open spec fn magnitude(s: Seq<char>) -> Seq<char> {
    if s.len() > 0 && (s[0] == '+' || s[0] == '-') {
        s.skip(1)
    } else {
        s
    }
}

/// The digits before the decimal point.
pub open spec fn whole_part(m: Seq<char>) -> Seq<char> {
    before_first(m, '.')
}

/// The digits after the decimal point; none where there is no point.
pub open spec fn fraction_part(m: Seq<char>) -> Seq<char> {
    match after_first(m, '.') {
        Some(f) => f,
        None => Seq::empty(),
    }
}

/// `m` is digits with at most one decimal point among them, and at least
/// one digit.
pub open spec fn is_decimal(m: Seq<char>) -> bool {
    &&& all_digits(whole_part(m))
    &&& all_digits(fraction_part(m))
    &&& whole_part(m).len() + fraction_part(m).len() > 0
}

/// `s` without the zeros at its end.
pub open spec fn trim_zeros(s: Seq<char>) -> Seq<char>
    decreases s.len(),
{
    if s.len() > 0 && s.last() == '0' {
        trim_zeros(s.drop_last())
    } else {
        s
    }
}

/// The digits that make up the mantissa of the decimal `m`.
pub open spec fn significant_digits(m: Seq<char>) -> Seq<char> {
    whole_part(m) + trim_zeros(fraction_part(m))
}

/// What parsing `s` as a power literal gives.
pub open spec fn power_result(s: Seq<char>) -> Result<PowerTarget, WorkoutErrorView> {
    let m = magnitude(s);
    let mantissa = digits_value(significant_digits(m));
    let scale = trim_zeros(fraction_part(m)).len();
    if !is_decimal(m) {
        Err(WorkoutErrorView::MalformedPowerTarget(PowerFault::NotNumeric))
    } else if has_minus(s) {
        Err(WorkoutErrorView::MalformedPowerTarget(PowerFault::Negative))
    } else if m.index_of_first('.') is None && mantissa <= u16::MAX {
        Ok(PowerTarget::Watts(mantissa as u16))
    } else if mantissa > u64::MAX || scale > u8::MAX {
        Err(WorkoutErrorView::MalformedPowerTarget(PowerFault::OutOfRange))
    } else {
        Ok(PowerTarget::Percentage(Decimal { mantissa: mantissa as u64, scale: scale as u8 }))
    }
}

proof fn lemma_trim_zeros(s: Seq<char>)
    ensures
        trim_zeros(s).len() <= s.len(),
        trim_zeros(s) == s.take(trim_zeros(s).len() as int),
        trim_zeros(s).len() > 0 ==> trim_zeros(s).last() != '0',
    decreases s.len(),
{
    if s.len() > 0 && s.last() == '0' {
        lemma_trim_zeros(s.drop_last());
        let k = trim_zeros(s.drop_last()).len() as int;
        assert(s.drop_last().take(k) =~= s.take(k));
    } else {
        assert(s.take(s.len() as int) =~= s);
    }
}

/// A fraction that parsing yields is in canonical form.
pub proof fn lemma_fraction_is_canonical(s: Seq<char>)
    ensures
        power_result(s) matches Ok(PowerTarget::Percentage(d)) ==> d.is_canonical(),
{
    let m = magnitude(s);
    let kept = trim_zeros(fraction_part(m));
    lemma_trim_zeros(fraction_part(m));
    if power_result(s) is Ok && kept.len() > 0 {
        let digits = significant_digits(m);
        assert(digits.last() == kept.last());
        assert(fraction_part(m)[kept.len() - 1] == kept.last());
        assert(is_digit(kept.last()));
        assert(digit_value(digits.last()) != 0);
        assert(digits_value(digits) % 10 == digit_value(digits.last()));
    }
}

/// The longest prefix of `s` that does not end in a zero.
fn strip_zeros(s: &[char]) -> (kept: &[char])
    ensures
        kept@ == trim_zeros(s@),
{
    let mut end: usize = s.len();
    proof {
        assert(s@.take(end as int) =~= s@);
    }
    while end > 0 && s[end - 1] == '0'
        invariant
            0 <= end <= s@.len(),
            trim_zeros(s@) == trim_zeros(s@.take(end as int)),
        decreases end,
    {
        proof {
            assert(s@.take(end as int).drop_last() =~= s@.take(end - 1));
        }
        end -= 1;
    }
    slice_subrange(s, 0, end)
}

/// Parses the characters of a power literal.
pub fn parse_power(s: &[char]) -> (r: Result<PowerTarget, WorkoutError>)
    ensures
        outcome(r) == power_result(s@),
{
    let n = s.len();
    let minus = n > 0 && s[0] == '-';
    let signed = n > 0 && (s[0] == '+' || s[0] == '-');
    let m = if signed {
        slice_subrange(s, 1, n)
    } else {
        s
    };
    proof {
        if signed {
            assert(s@.subrange(1, n as int) =~= s@.skip(1));
        }
        assert(m@ == magnitude(s@));
    }
    let point = find_first(m, '.');
    let (whole, fraction) = match point {
        Some(p) => (slice_subrange(m, 0, p), slice_subrange(m, p + 1, m.len())),
        None => (m, slice_subrange(m, 0, 0)),
    };
    proof {
        assert(m@.subrange(0, 0) =~= Seq::<char>::empty());
        if let Some(p) = point {
            assert(m@.subrange(p + 1, m@.len() as int) =~= m@.skip(p + 1));
        }
        assert(whole@ == whole_part(m@));
        assert(fraction@ == fraction_part(m@));
    }
    if !is_all_digits(whole) || !is_all_digits(fraction) || (whole.len() == 0 && fraction.len()
        == 0) {
        return Err(WorkoutError::MalformedPowerTarget(PowerFault::NotNumeric));
    }
    if minus {
        return Err(WorkoutError::MalformedPowerTarget(PowerFault::Negative));
    }
    let kept = strip_zeros(fraction);
    proof {
        lemma_trim_zeros(fraction@);
        lemma_append_digits_concat(0, whole@, kept@);
        lemma_append_digits_grows(append_digits(0, whole@), kept@, 0);
        assert(kept@.take(0) =~= Seq::<char>::empty());
        assert(all_digits(kept@)) by {
            assert forall|i: int| 0 <= i < kept@.len() implies is_digit(#[trigger] kept@[i]) by {
                assert(kept@[i] == fraction@[i]);
            }
        }
    }
    let mantissa = match read_digits(0, whole) {
        Some(w) => read_digits(w, kept),
        None => None,
    };
    match mantissa {
        Some(value) => {
            if point.is_none() && value <= u16::MAX as u64 {
                Ok(PowerTarget::Watts(value as u16))
            } else if kept.len() > u8::MAX as usize {
                Err(WorkoutError::MalformedPowerTarget(PowerFault::OutOfRange))
            } else {
                Ok(PowerTarget::Percentage(Decimal { mantissa: value, scale: kept.len() as u8 }))
            }
        },
        None => Err(WorkoutError::MalformedPowerTarget(PowerFault::OutOfRange)),
    }
}

impl PowerTarget {
    /// Reads a power literal such as `200` or `0.85`.
    pub fn parse(literal: &str) -> (r: Result<PowerTarget, WorkoutError>)
        ensures
            outcome(r) == power_result(literal@),
    {
        let chars = chars_of(literal);
        parse_power(chars.as_slice())
    }
}

impl std::str::FromStr for PowerTarget {
    type Err = WorkoutError;

    fn from_str(s: &str) -> (r: Result<PowerTarget, WorkoutError>)
        ensures
            outcome(r) == power_result(s@),
    {
        PowerTarget::parse(s)
    }
}

} // verus!
