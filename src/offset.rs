use vstd::prelude::*;

use crate::text::chars_of;

verus! {

/// `s` with every `'+'` removed, as `str::replace("+", "")` leaves it.
pub open spec fn without_plus(s: Seq<char>) -> Seq<char>
    decreases s.len(),
{
    if s.len() == 0 {
        s
    } else if s.last() == '+' {
        without_plus(s.drop_last())
    } else {
        without_plus(s.drop_last()).push(s.last())
    }
}

pub open spec fn starts_zero_minutes(s: Seq<char>) -> bool {
    s.len() >= 3 && s[0] == ':' && s[1] == '0' && s[2] == '0'
}

/// `s` with each `":00"` removed, matched from the left without overlap, as
/// `str::replace(":00", "")` leaves it.
pub open spec fn without_zero_minutes(s: Seq<char>) -> Seq<char>
    decreases s.len(),
{
    if s.len() == 0 {
        s
    } else if starts_zero_minutes(s) {
        without_zero_minutes(s.skip(3))
    } else {
        seq![s[0]] + without_zero_minutes(s.skip(1))
    }
}

pub open spec fn is_digit(c: char) -> bool {
    '0' <= c <= '9'
}

pub open spec fn all_digits(s: Seq<char>) -> bool {
    forall|i: int| 0 <= i < s.len() ==> is_digit(#[trigger] s[i])
}

/// The number that a run of decimal digits denotes.
pub open spec fn digits_value(s: Seq<char>) -> nat
    decreases s.len(),
{
    if s.len() == 0 {
        0
    } else {
        digits_value(s.drop_last()) * 10 + ((s.last() as u32) - ('0' as u32)) as nat
    }
}

/// The text after an optional leading sign.
pub open spec fn magnitude(s: Seq<char>) -> Seq<char> {
    if s.len() > 0 && (s[0] == '-' || s[0] == '+') {
        s.skip(1)
    } else {
        s
    }
}

pub open spec fn negative(s: Seq<char>) -> bool {
    s.len() > 0 && s[0] == '-'
}

/// What `str::parse::<i32>` gives: an optional sign, then one or more ASCII
/// digits whose value fits in `i32`.
pub open spec fn i32_text(s: Seq<char>) -> Option<int> {
    let m = magnitude(s);
    let v = if negative(s) { -digits_value(m) } else { digits_value(m) as int };
    if m.len() > 0 && all_digits(m) && i32::MIN <= v <= i32::MAX {
        Some(v)
    } else {
        None
    }
}

/// The whole number of hours that an offset text such as `+05:00`, `+05` or
/// `-03` names.
pub open spec fn offset_hours(s: Seq<char>) -> Option<int> {
    i32_text(without_zero_minutes(without_plus(s)))
}

/// Why an offset text was not accepted.
#[derive(Clone, Copy, Debug, PartialEq, Eq, Structural)]
pub enum OffsetError {
    /// The text does not name a whole number of hours.
    Malformed,
    /// The hours lie outside `-23..=23`.
    OutOfRange,
}

pub open spec fn offset_result(s: Seq<char>) -> Result<i32, OffsetError> {
    match offset_hours(s) {
        None => Err(OffsetError::Malformed),
        Some(h) => if -23 <= h <= 23 {
            Ok(h as i32)
        } else {
            Err(OffsetError::OutOfRange)
        },
    }
}

fn drop_plus(s: &Vec<char>) -> (r: Vec<char>)
    ensures
        r@ == without_plus(s@),
{
    let mut out: Vec<char> = Vec::new();
    let mut i: usize = 0;
    while i < s.len()
        invariant
            i <= s.len(),
            out@ == without_plus(s@.subrange(0, i as int)),
        decreases s.len() - i,
    {
        assert(s@.subrange(0, i + 1).drop_last() =~= s@.subrange(0, i as int));
        if s[i] != '+' {
            out.push(s[i]);
        }
        i = i + 1;
    }
    assert(s@.subrange(0, s.len() as int) =~= s@);
    out
}

fn drop_zero_minutes(s: &Vec<char>) -> (r: Vec<char>)
    ensures
        r@ == without_zero_minutes(s@),
{
    let mut out: Vec<char> = Vec::new();
    let mut i: usize = 0;
    assert(s@.skip(0) =~= s@);
    while i < s.len()
        invariant
            i <= s.len(),
            out@ + without_zero_minutes(s@.skip(i as int)) == without_zero_minutes(s@),
        decreases s.len() - i,
    {
        let ghost rest = s@.skip(i as int);
        if s.len() - i >= 3 && s[i] == ':' && s[i + 1] == '0' && s[i + 2] == '0' {
            assert(starts_zero_minutes(rest));
            assert(rest.skip(3) =~= s@.skip(i + 3));
            i = i + 3;
        } else {
            assert(!starts_zero_minutes(rest));
            assert(rest.skip(1) =~= s@.skip(i + 1));
            assert(rest[0] == s@[i as int]);
            assert(out@.push(s@[i as int]) + without_zero_minutes(s@.skip(i + 1)) =~= out@ + (seq![
                rest[0]] + without_zero_minutes(rest.skip(1))));
            out.push(s[i]);
            i = i + 1;
        }
    }
    assert(s@.skip(i as int) =~= Seq::<char>::empty());
    assert(out@ + without_zero_minutes(s@.skip(i as int)) =~= out@);
    out
}

proof fn lemma_digits_prefix(s: Seq<char>, i: int)
    requires
        all_digits(s),
        0 <= i <= s.len(),
    ensures
        digits_value(s.subrange(0, i)) <= digits_value(s),
    decreases s.len(),
{
    if i < s.len() {
        assert(s.drop_last().subrange(0, i) =~= s.subrange(0, i));
        lemma_digits_prefix(s.drop_last(), i);
    } else {
        assert(s.subrange(0, i) =~= s);
    }
}

/// Reads an `i32` from its text as `str::parse::<i32>` does.
fn parse_i32(s: &Vec<char>) -> (r: Option<i32>)
    ensures
        r matches Some(v) ==> i32_text(s@) == Some(v as int),
        r is None ==> i32_text(s@) is None,
{
    let ghost m = magnitude(s@);
    let mut start: usize = 0;
    let mut neg = false;
    if s.len() > 0 && s[0] == '-' {
        start = 1;
        neg = true;
    } else if s.len() > 0 && s[0] == '+' {
        start = 1;
    }
    assert(m =~= s@.skip(start as int));
    if start >= s.len() {
        return None;
    }
    let mut acc: i64 = 0;
    let mut i: usize = start;
    while i < s.len()
        invariant
            start <= i <= s.len(),
            m =~= s@.skip(start as int),
            m == magnitude(s@),
            neg == negative(s@),
            all_digits(s@.subrange(start as int, i as int)),
            acc == digits_value(s@.subrange(start as int, i as int)),
            acc <= 0x8000_0000,
        decreases s.len() - i,
    {
        let c = s[i];
        if !('0' <= c && c <= '9') {
            assert(m[i - start] == c);
            assert(!is_digit(m[i - start]));
            assert(!all_digits(m));
            return None;
        }
        let d = (c as u32 - '0' as u32) as i64;
        let ghost pre = s@.subrange(start as int, i as int);
        assert(s@.subrange(start as int, i + 1).drop_last() =~= pre);
        acc = acc * 10 + d;
        i = i + 1;
        assert(all_digits(s@.subrange(start as int, i as int))) by {
            assert forall|j: int| 0 <= j < i - start implies is_digit(
                #[trigger] s@.subrange(start as int, i as int)[j],
            ) by {
                if j < i - 1 - start {
                    assert(s@.subrange(start as int, i as int)[j] == pre[j]);
                }
            }
        }
        if acc > 0x8000_0000 {
            proof {
                let full = s@.subrange(start as int, s.len() as int);
                assert(full =~= m);
                if all_digits(m) {
                    assert(s@.subrange(start as int, i as int) =~= m.subrange(0, i - start));
                    lemma_digits_prefix(m, i - start);
                    assert(digits_value(m) > 0x8000_0000);
                }
                assert(i32_text(s@) is None);
            }
            return None;
        }
    }
    assert(s@.subrange(start as int, s.len() as int) =~= m);
    if neg {
        Some((-acc) as i32)
    } else if acc <= 0x7fff_ffff {
        Some(acc as i32)
    } else {
        None
    }
}

/// Reads a whole-hour UTC offset: drops every `+`, then every `:00`, and reads
/// the rest as an integer; a leading `-` gives a negative offset. Sub-hour
/// offsets such as `+05:30` do not read as a number and are refused.
pub fn parse_offset(s: &str) -> (r: Result<i32, OffsetError>)
    ensures
        r == offset_result(s@),
{
    let chars = chars_of(s);
    let a = drop_plus(&chars);
    let b = drop_zero_minutes(&a);
    match parse_i32(&b) {
        None => Err(OffsetError::Malformed),
        Some(h) => {
            if -23 <= h && h <= 23 {
                Ok(h)
            } else {
                Err(OffsetError::OutOfRange)
            }
        },
    }
}

} // verus!
