use vstd::prelude::*;

use crate::civil::Civil;
use crate::civil::DateTime;

verus! {

pub open spec fn digit_char(d: int) -> char {
    seq!['0', '1', '2', '3', '4', '5', '6', '7', '8', '9'][d]
}

/// Decimal digits of `n`, without leading zeros.
pub open spec fn decimal(n: nat) -> Seq<char>
    decreases n,
{
    if n < 10 {
        seq![digit_char(n as int)]
    } else {
        decimal(n / 10).push(digit_char((n % 10) as int))
    }
}

/// Decimal digits of `n`, zero-padded on the left to at least `w` digits.
pub open spec fn zero_padded(n: nat, w: nat) -> Seq<char> {
    let d = decimal(n);
    if d.len() < w {
        Seq::new((w - d.len()) as nat, |i: int| '0') + d
    } else {
        d
    }
}

/// A year as `%Y` writes it: four digits within 0..=9999, else signed.
pub open spec fn year_text(y: int) -> Seq<char> {
    if 0 <= y <= 9999 {
        zero_padded(y as nat, 4)
    } else if y < 0 {
        seq!['-'] + zero_padded((-y) as nat, 4)
    } else {
        seq!['+'] + zero_padded(y as nat, 4)
    }
}

/// A moment written as `YYYY-MM-DD HH:MM:SS`.
pub open spec fn datetime_text(c: Civil) -> Seq<char> {
    year_text(c.year) + seq!['-'] + zero_padded(c.month as nat, 2) + seq!['-'] + zero_padded(
        c.day as nat,
        2,
    ) + seq![' '] + zero_padded(c.hour as nat, 2) + seq![':'] + zero_padded(c.minute as nat, 2)
        + seq![':'] + zero_padded(c.second as nat, 2)
}

fn digit_text(d: u32) -> (r: &'static str)
    requires
        d < 10,
    ensures
        r@ == seq![digit_char(d as int)],
{
    proof {
        reveal_strlit("0");
        reveal_strlit("1");
        reveal_strlit("2");
        reveal_strlit("3");
        reveal_strlit("4");
        reveal_strlit("5");
        reveal_strlit("6");
        reveal_strlit("7");
        reveal_strlit("8");
        reveal_strlit("9");
    }
    let r = match d {
        0 => "0",
        1 => "1",
        2 => "2",
        3 => "3",
        4 => "4",
        5 => "5",
        6 => "6",
        7 => "7",
        8 => "8",
        _ => "9",
    };
    assert(r@ =~= seq![digit_char(d as int)]);
    r
}

fn decimal_text(n: u32) -> (r: String)
    ensures
        r@ == decimal(n as nat),
    decreases n,
{
    if n < 10 {
        String::from_str(digit_text(n))
    } else {
        let mut s = decimal_text(n / 10);
        s.append(digit_text(n % 10));
        assert(s@ =~= decimal((n / 10) as nat).push(digit_char((n % 10) as int)));
        s
    }
}

/// Appends `n` zero-padded to `w` digits.
fn append_padded(out: &mut String, n: u32, w: usize)
    ensures
        final(out)@ == old(out)@ + zero_padded(n as nat, w as nat),
{
    let d = decimal_text(n);
    let len = d.as_str().unicode_len();
    if len < w {
        let mut i: usize = len;
        let ghost start = out@;
        while i < w
            invariant
                len <= i <= w,
                out@ == start + Seq::new((i - len) as nat, |j: int| '0'),
            decreases w - i,
        {
            proof {
                reveal_strlit("0");
            }
            out.append("0");
            assert(out@ =~= start + Seq::new((i + 1 - len) as nat, |j: int| '0'));
            i = i + 1;
        }
    }
    out.append(d.as_str());
    assert(final(out)@ =~= old(out)@ + zero_padded(n as nat, w as nat));
}

fn append_lit(out: &mut String, s: &str, c: char)
    requires
        s@ == seq![c],
    ensures
        final(out)@ == old(out)@ + seq![c],
{
    out.append(s);
}

/// Writes a moment as `YYYY-MM-DD HH:MM:SS`, the year as chrono's `%Y` does.
pub fn format_datetime(d: &DateTime) -> (r: String)
    ensures
        r@ == datetime_text(d@),
{
    proof {
        reveal_strlit("-");
        reveal_strlit("+");
        reveal_strlit(" ");
        reveal_strlit(":");
        assert("-"@ =~= seq!['-']);
        assert("+"@ =~= seq!['+']);
        assert(" "@ =~= seq![' ']);
        assert(":"@ =~= seq![':']);
    }
    let mut out = String::new();
    if 0 <= d.year && d.year <= 9999 {
        append_padded(&mut out, d.year as u32, 4);
    } else if d.year < 0 {
        append_lit(&mut out, "-", '-');
        append_padded(&mut out, (-(d.year as i64)) as u32, 4);
    } else {
        append_lit(&mut out, "+", '+');
        append_padded(&mut out, d.year as u32, 4);
    }
    assert(out@ =~= year_text(d.year as int));
    append_lit(&mut out, "-", '-');
    append_padded(&mut out, d.month, 2);
    append_lit(&mut out, "-", '-');
    append_padded(&mut out, d.day, 2);
    append_lit(&mut out, " ", ' ');
    append_padded(&mut out, d.hour, 2);
    append_lit(&mut out, ":", ':');
    append_padded(&mut out, d.minute, 2);
    append_lit(&mut out, ":", ':');
    append_padded(&mut out, d.second, 2);
    assert(out@ =~= datetime_text(d@));
    out
}

/// The characters of a string, one by one.
pub fn chars_of(s: &str) -> (r: Vec<char>)
    ensures
        r@ == s@,
{
    let n = s.unicode_len();
    let mut out: Vec<char> = Vec::new();
    let mut i: usize = 0;
    while i < n
        invariant
            n == s@.len(),
            i <= n,
            out@ == s@.subrange(0, i as int),
        decreases n - i,
    {
        out.push(s.get_char(i));
        assert(out@ =~= s@.subrange(0, i + 1));
        i = i + 1;
    }
    assert(out@ =~= s@);
    out
}

/// Whether two strings hold the same characters.
pub fn same_text(a: &str, b: &str) -> (r: bool)
    ensures
        r == (a@ == b@),
{
    let n = a.unicode_len();
    if n != b.unicode_len() {
        return false;
    }
    let mut i: usize = 0;
    while i < n
        invariant
            n == a@.len(),
            n == b@.len(),
            i <= n,
            a@.subrange(0, i as int) == b@.subrange(0, i as int),
        decreases n - i,
    {
        if a.get_char(i) != b.get_char(i) {
            return false;
        }
        assert(a@.subrange(0, i + 1) =~= a@.subrange(0, i as int).push(a@[i as int]));
        assert(b@.subrange(0, i + 1) =~= b@.subrange(0, i as int).push(b@[i as int]));
        i = i + 1;
    }
    assert(a@ =~= a@.subrange(0, n as int));
    assert(b@ =~= b@.subrange(0, n as int));
    true
}

/// Unicode's `White_Space` property, which `char::is_whitespace` and
/// `str::trim` go by.
pub open spec fn is_white_space(c: char) -> bool {
    let u = c as u32;
    ||| (0x09 <= u <= 0x0d)
    ||| u == 0x20
    ||| u == 0x85
    ||| u == 0xa0
    ||| u == 0x1680
    ||| (0x2000 <= u <= 0x200a)
    ||| u == 0x2028
    ||| u == 0x2029
    ||| u == 0x202f
    ||| u == 0x205f
    ||| u == 0x3000
}

/// A string that trims to nothing: every character is white space.
pub open spec fn blank(s: Seq<char>) -> bool {
    forall|i: int| 0 <= i < s.len() ==> is_white_space(#[trigger] s[i])
}

pub fn white_space(c: char) -> (r: bool)
    ensures
        r == is_white_space(c),
{
    let u = c as u32;
    (0x09 <= u && u <= 0x0d) || u == 0x20 || u == 0x85 || u == 0xa0 || u == 0x1680 || (0x2000
        <= u && u <= 0x200a) || u == 0x2028 || u == 0x2029 || u == 0x202f || u == 0x205f || u
        == 0x3000
}

/// Whether the string is empty once trimmed.
pub fn is_blank(s: &str) -> (r: bool)
    ensures
        r == blank(s@),
{
    let n = s.unicode_len();
    let mut i: usize = 0;
    while i < n
        invariant
            n == s@.len(),
            i <= n,
            forall|j: int| 0 <= j < i ==> is_white_space(#[trigger] s@[j]),
        decreases n - i,
    {
        if !white_space(s.get_char(i)) {
            return false;
        }
        i = i + 1;
    }
    true
}

} // verus!
