//! Character-level vocabulary shared by the literal grammars: decimal digits,
//! white space, trimming and digit-run values, each as a specification over
//! `Seq<char>` with an executable counterpart on `&[char]`.

use vstd::prelude::*;
use vstd::slice::slice_subrange;

verus! {

/// `c` is one of the ten ASCII decimal digits.
pub open spec fn is_digit(c: char) -> bool {
    '0' <= c && c <= '9'
}

/// The number a decimal digit stands for.
pub open spec fn digit_value(c: char) -> nat
    recommends
        is_digit(c),
{
    (c as u32 - '0' as u32) as nat
}

/// Every character of `s` is a decimal digit.
pub open spec fn all_digits(s: Seq<char>) -> bool {
    forall|i: int| 0 <= i < s.len() ==> is_digit(#[trigger] s[i])
}

/// The number written by appending the digits of `s` to a number that
/// already reads `init`.
pub open spec fn append_digits(init: nat, s: Seq<char>) -> nat
    decreases s.len(),
{
    if s.len() == 0 {
        init
    } else {
        append_digits(init, s.drop_last()) * 10 + digit_value(s.last())
    }
}

/// The number a run of decimal digits denotes; the empty run denotes zero.
pub open spec fn digits_value(s: Seq<char>) -> nat {
    append_digits(0, s)
}

/// The number that `text` writes: digits, with or without a plus sign in
/// front. `None` where it is anything else.
pub open spec fn unsigned_value(text: Seq<char>) -> Option<nat> {
    let digits = if text.len() > 0 && text[0] == '+' {
        text.skip(1)
    } else {
        text
    };
    if digits.len() > 0 && all_digits(digits) {
        Some(digits_value(digits))
    } else {
        None
    }
}

/// The character that writes a number below ten.
pub open spec fn digit_char(d: nat) -> char
    recommends
        d < 10,
{
    (d + '0' as u32) as char
}

/// A number written in decimal digits, without zeros in front.
pub open spec fn decimal_text(n: nat) -> Seq<char>
    decreases n,
{
    if n < 10 {
        seq![digit_char(n)]
    } else {
        decimal_text(n / 10).push(digit_char(n % 10))
    }
}

/// `c` has the Unicode property White_Space.
pub open spec fn is_space(c: char) -> bool {
    ||| ('\u{9}' <= c && c <= '\u{d}')
    ||| c == ' '
    ||| c == '\u{85}'
    ||| c == '\u{a0}'
    ||| c == '\u{1680}'
    ||| ('\u{2000}' <= c && c <= '\u{200a}')
    ||| c == '\u{2028}'
    ||| c == '\u{2029}'
    ||| c == '\u{202f}'
    ||| c == '\u{205f}'
    ||| c == '\u{3000}'
}

/// `s` without its leading white space.
pub open spec fn trim_start(s: Seq<char>) -> Seq<char>
    decreases s.len(),
{
    if s.len() > 0 && is_space(s[0]) {
        trim_start(s.drop_first())
    } else {
        s
    }
}

/// `s` without its trailing white space.
pub open spec fn trim_end(s: Seq<char>) -> Seq<char>
    decreases s.len(),
{
    if s.len() > 0 && is_space(s.last()) {
        trim_end(s.drop_last())
    } else {
        s
    }
}

/// `s` without its leading and trailing white space.
pub open spec fn trimmed(s: Seq<char>) -> Seq<char> {
    trim_end(trim_start(s))
}

/// The part of `s` before the first occurrence of `c`; all of `s` where `c`
/// does not occur.
pub open spec fn before_first(s: Seq<char>, c: char) -> Seq<char> {
    match s.index_of_first(c) {
        Some(i) => s.take(i),
        None => s,
    }
}

/// The part of `s` after the first occurrence of `c`; `None` where `c` does
/// not occur.
pub open spec fn after_first(s: Seq<char>, c: char) -> Option<Seq<char>> {
    match s.index_of_first(c) {
        Some(i) => Some(s.skip(i + 1)),
        None => None,
    }
}

/// Appending digits never makes a number smaller, and a longer run of
/// digits reads at least what each of its prefixes reads.
pub proof fn lemma_append_digits_grows(init: nat, s: Seq<char>, k: int)
    requires
        0 <= k <= s.len(),
    ensures
        init <= append_digits(init, s.take(k)) <= append_digits(init, s),
    decreases s.len(),
{
    if s.len() == 0 {
        assert(s.take(k) =~= s);
    } else if k == s.len() {
        assert(s.take(k) =~= s);
        lemma_append_digits_grows(init, s.drop_last(), 0);
        assert(s.drop_last().take(0) =~= Seq::<char>::empty());
    } else {
        assert(s.drop_last().take(k) =~= s.take(k));
        lemma_append_digits_grows(init, s.drop_last(), k);
    }
}

/// Reading `a` and then `b` is reading the two written together.
pub proof fn lemma_append_digits_concat(init: nat, a: Seq<char>, b: Seq<char>)
    ensures
        append_digits(append_digits(init, a), b) == append_digits(init, a + b),
    decreases b.len(),
{
    if b.len() == 0 {
        assert(a + b =~= a);
    } else {
        assert((a + b).drop_last() =~= a + b.drop_last());
        lemma_append_digits_concat(init, a, b.drop_last());
    }
}

/// The characters of a string slice, in order.
pub fn chars_of(s: &str) -> (v: Vec<char>)
    ensures
        v@ == s@,
{
    broadcast use vstd::string::group_string_axioms;

    let mut v: Vec<char> = Vec::new();
    for c in it: s.chars()
        invariant
            it.seq() == s@,
            v@ == it.seq().take(it.index()),
    {
        v.push(c);
    }
    v
}

/// Whether `c` is a decimal digit.
pub fn char_is_digit(c: char) -> (b: bool)
    ensures
        b == is_digit(c),
{
    '0' <= c && c <= '9'
}

/// The number that the digit `c` stands for.
pub fn char_digit_value(c: char) -> (d: u8)
    requires
        is_digit(c),
    ensures
        d == digit_value(c),
        d <= 9,
{
    (c as u32 - '0' as u32) as u8
}

/// Whether `c` is white space.
pub fn char_is_space(c: char) -> (b: bool)
    ensures
        b == is_space(c),
{
    ('\u{9}' <= c && c <= '\u{d}') || c == ' ' || c == '\u{85}' || c == '\u{a0}' || c
        == '\u{1680}' || ('\u{2000}' <= c && c <= '\u{200a}') || c == '\u{2028}' || c
        == '\u{2029}' || c == '\u{202f}' || c == '\u{205f}' || c == '\u{3000}'
}

/// Whether every character of `s` is a decimal digit.
pub fn is_all_digits(s: &[char]) -> (b: bool)
    ensures
        b == all_digits(s@),
{
    let mut i: usize = 0;
    while i < s.len()
        invariant
            0 <= i <= s@.len(),
            forall|j: int| 0 <= j < i ==> is_digit(#[trigger] s@[j]),
        decreases s@.len() - i,
    {
        if !char_is_digit(s[i]) {
            return false;
        }
        i += 1;
    }
    true
}

/// Reads the digits of `s` behind a number that already reads `init`;
/// `None` where the result does not fit 64 bits.
pub fn read_digits(init: u64, s: &[char]) -> (r: Option<u64>)
    requires
        all_digits(s@),
    ensures
        match r {
            Some(v) => v == append_digits(init as nat, s@),
            None => append_digits(init as nat, s@) > u64::MAX,
        },
{
    let mut value: u64 = init;
    let mut i: usize = 0;
    proof {
        assert(s@.take(0) =~= Seq::<char>::empty());
    }
    while i < s.len()
        invariant
            0 <= i <= s@.len(),
            all_digits(s@),
            value == append_digits(init as nat, s@.take(i as int)),
        decreases s@.len() - i,
    {
        let d = char_digit_value(s[i]) as u64;
        proof {
            assert(s@.take(i + 1).drop_last() =~= s@.take(i as int));
            lemma_append_digits_grows(init as nat, s@, i + 1);
        }
        if value > (u64::MAX - d) / 10 {
            return None;
        }
        value = value * 10 + d;
        i += 1;
    }
    proof {
        assert(s@.take(s@.len() as int) =~= s@);
    }
    Some(value)
}

/// Reads an unsigned number; `None` where `text` writes none, or one that
/// does not fit 64 bits.
pub fn read_unsigned(text: &[char]) -> (r: Option<u64>)
    ensures
        match r {
            Some(v) => unsigned_value(text@) == Some(v as nat),
            None => match unsigned_value(text@) {
                Some(v) => v > u64::MAX,
                None => true,
            },
        },
{
    let n = text.len();
    let digits = if n > 0 && text[0] == '+' {
        proof {
            assert(text@.subrange(1, n as int) =~= text@.skip(1));
        }
        slice_subrange(text, 1, n)
    } else {
        text
    };
    if digits.len() == 0 || !is_all_digits(digits) {
        return None;
    }
    read_digits(0, digits)
}

/// What writes a number is read back as that number.
pub proof fn lemma_decimal_text_reads_back(n: nat)
    ensures
        decimal_text(n).len() > 0,
        all_digits(decimal_text(n)),
        digits_value(decimal_text(n)) == n,
        unsigned_value(decimal_text(n)) == Some(n),
    decreases n,
{
    let text = decimal_text(n);
    let last = digit_char(n % 10);
    assert(is_digit(last) && digit_value(last) == n % 10 && last != '+');
    if n >= 10 {
        lemma_decimal_text_reads_back(n / 10);
        let shorter = decimal_text(n / 10);
        assert(text.drop_last() =~= shorter);
        assert(text.last() == last);
        assert(text[0] == shorter[0]);
        assert(is_digit(shorter[0]));
        assert forall|i: int| 0 <= i < text.len() implies is_digit(#[trigger] text[i]) by {
            if i < shorter.len() {
                assert(text[i] == shorter[i]);
            }
        }
        assert(digits_value(text) == digits_value(shorter) * 10 + digit_value(last));
    } else {
        assert(text.drop_last() =~= Seq::<char>::empty());
        assert(text.last() == last);
        assert(append_digits(0, Seq::<char>::empty()) == 0);
        assert(digits_value(text) == digit_value(last));
    }
    assert(text[0] != '+');
}

/// Writes a number in decimal digits.
pub fn decimal_string(n: u16) -> (text: String)
    ensures
        text@ == decimal_text(n as nat),
{
    let mut reversed: Vec<char> = Vec::new();
    let mut rest: u16 = n;
    while rest >= 10
        invariant
            decimal_text(n as nat) == decimal_text(rest as nat) + reversed@.reverse(),
        decreases rest,
    {
        let digit = ((rest % 10) as u8 + 48u8) as char;
        let ghost before = reversed@;
        reversed.push(digit);
        proof {
            assert(digit == digit_char((rest % 10) as nat));
            assert(reversed@.reverse() =~= seq![digit] + before.reverse());
            assert(decimal_text(rest as nat) + before.reverse() =~= decimal_text(
                (rest / 10) as nat,
            ) + reversed@.reverse());
        }
        rest = rest / 10;
    }
    let first = (rest as u8 + 48u8) as char;
    let mut digits: Vec<char> = Vec::new();
    digits.push(first);
    let mut i: usize = reversed.len();
    proof {
        assert(first == digit_char(rest as nat));
        assert(digits@ =~= decimal_text(rest as nat));
        assert(reversed@.reverse().take(0) =~= Seq::<char>::empty());
    }
    while i > 0
        invariant
            0 <= i <= reversed@.len(),
            digits@ == decimal_text(rest as nat) + reversed@.reverse().take(reversed@.len() - i),
        decreases i,
    {
        i -= 1;
        let ghost before = digits@;
        digits.push(reversed[i]);
        proof {
            let turned = reversed@.reverse();
            let k = reversed@.len() - i;
            assert(turned[k - 1] == reversed@[i as int]);
            assert(turned.take(k) =~= turned.take(k - 1).push(turned[k - 1]));
            assert(digits@ =~= decimal_text(rest as nat) + turned.take(k));
        }
    }
    proof {
        let turned = reversed@.reverse();
        assert(turned.take(turned.len() as int) =~= turned);
    }
    string_of(digits.as_slice())
}

/// `String::push`, which vstd leaves unspecified: the text grows by exactly
/// the one character, at its end.
#[verifier::external_body]
fn push_char(text: &mut String, c: char)
    ensures
        final(text)@ == old(text)@.push(c),
{
    text.push(c);
}

/// A string that holds the given characters, in order.
pub fn string_of(s: &[char]) -> (text: String)
    ensures
        text@ == s@,
{
    let mut text = String::new();
    let mut i: usize = 0;
    while i < s.len()
        invariant
            0 <= i <= s@.len(),
            text@ == s@.take(i as int),
        decreases s@.len() - i,
    {
        push_char(&mut text, s[i]);
        i += 1;
        assert(s@.take(i as int) =~= s@.take(i - 1).push(s@[i - 1]));
    }
    assert(s@.take(s@.len() as int) =~= s@);
    text
}

/// Position of the first `c` in `s`, if any.
pub fn find_first(s: &[char], c: char) -> (r: Option<usize>)
    ensures
        match r {
            Some(i) => i < s@.len() && s@.index_of_first(c) == Some(i as int),
            None => s@.index_of_first(c) is None,
        },
{
    let mut i: usize = 0;
    while i < s.len()
        invariant
            0 <= i <= s@.len(),
            forall|j: int| 0 <= j < i ==> s@[j] != c,
        decreases s@.len() - i,
    {
        if s[i] == c {
            proof {
                s@.index_of_first_ensures(c);
            }
            return Some(i);
        }
        i += 1;
    }
    proof {
        s@.index_of_first_ensures(c);
    }
    None
}

proof fn lemma_trim_start_skip(s: Seq<char>, lo: int)
    requires
        0 <= lo <= s.len(),
        forall|j: int| 0 <= j < lo ==> is_space(#[trigger] s[j]),
    ensures
        trim_start(s) == trim_start(s.skip(lo)),
    decreases lo,
{
    if lo > 0 {
        assert(s.drop_first().skip(lo - 1) =~= s.skip(lo));
        lemma_trim_start_skip(s.drop_first(), lo - 1);
    } else {
        assert(s.skip(0) =~= s);
    }
}

proof fn lemma_trim_end_take(s: Seq<char>, hi: int)
    requires
        0 <= hi <= s.len(),
        forall|j: int| hi <= j < s.len() ==> is_space(#[trigger] s[j]),
    ensures
        trim_end(s) == trim_end(s.take(hi)),
    decreases s.len() - hi,
{
    if hi < s.len() {
        assert(s.drop_last().take(hi) =~= s.take(hi));
        lemma_trim_end_take(s.drop_last(), hi);
    } else {
        assert(s.take(hi) =~= s);
    }
}

/// The range of `s` that is left when white space is trimmed from both ends.
pub fn trim(s: &[char]) -> (t: &[char])
    ensures
        t@ == trimmed(s@),
{
    let mut lo: usize = 0;
    while lo < s.len() && char_is_space(s[lo])
        invariant
            0 <= lo <= s@.len(),
            forall|j: int| 0 <= j < lo ==> is_space(#[trigger] s@[j]),
        decreases s@.len() - lo,
    {
        lo += 1;
    }
    let mut hi: usize = s.len();
    while lo < hi && char_is_space(s[hi - 1])
        invariant
            lo <= hi <= s@.len(),
            forall|j: int| hi <= j < s@.len() ==> is_space(#[trigger] s@[j]),
        decreases hi,
    {
        hi -= 1;
    }
    proof {
        lemma_trim_start_skip(s@, lo as int);
        let rest = s@.skip(lo as int);
        assert(trim_start(rest) == rest);
        assert forall|j: int| hi - lo <= j < rest.len() implies is_space(#[trigger] rest[j]) by {
            assert(rest[j] == s@[j + lo]);
        }
        lemma_trim_end_take(rest, hi - lo);
        assert(rest.take(hi - lo) =~= s@.subrange(lo as int, hi as int));
        let kept = rest.take(hi - lo);
        assert(trim_end(kept) == kept) by {
            if kept.len() > 0 {
                assert(kept.last() == s@[hi - 1]);
            }
        }
    }
    slice_subrange(s, lo, hi)
}

} // verus!
