use vstd::prelude::*;
use vstd::string::StrSliceExecFns;
use vstd::string::StringExecFns;

verus! {

/// The character for one decimal digit.
pub open spec fn digit_char(d: int) -> char {
    if d == 0 {
        '0'
    } else if d == 1 {
        '1'
    } else if d == 2 {
        '2'
    } else if d == 3 {
        '3'
    } else if d == 4 {
        '4'
    } else if d == 5 {
        '5'
    } else if d == 6 {
        '6'
    } else if d == 7 {
        '7'
    } else if d == 8 {
        '8'
    } else {
        '9'
    }
}

/// The decimal rendering of a non-negative integer, without sign or padding.
pub open spec fn decimal_digits(n: int) -> Seq<char>
    decreases n,
{
    if n < 10 {
        seq![digit_char(n)]
    } else {
        decimal_digits(n / 10).push(digit_char(n % 10))
    }
}

fn digit_str(d: u64) -> (r: &'static str)
    requires
        d < 10,
    ensures
        r@.len() == 1,
        r@[0] == digit_char(d as int),
{
    proof {
        reveal_strlit("0");
        reveal_strlit("1");
        reveal_strlit("2");
        reveal_strlit("3");
        reveal_strlit("4");
        reveal_strlit("5");
        reveal_strlit("6");
        reveal_strlit("7");
        reveal_strlit("8");
        reveal_strlit("9");
    }
    if d == 0 {
        "0"
    } else if d == 1 {
        "1"
    } else if d == 2 {
        "2"
    } else if d == 3 {
        "3"
    } else if d == 4 {
        "4"
    } else if d == 5 {
        "5"
    } else if d == 6 {
        "6"
    } else if d == 7 {
        "7"
    } else if d == 8 {
        "8"
    } else {
        "9"
    }
}

/// Render a number in decimal.
pub fn u64_to_string(n: u64) -> (r: String)
    ensures
        r@ == decimal_digits(n as int),
    decreases n,
{
    if n < 10 {
        let r = String::from_str(digit_str(n));
        proof {
            assert(r@ =~= decimal_digits(n as int));
        }
        r
    } else {
        let mut s = u64_to_string(n / 10);
        s.append(digit_str(n % 10));
        proof {
            assert(s@ =~= decimal_digits(n as int));
        }
        s
    }
}

/// Render a number in decimal.
pub fn usize_to_string(n: usize) -> (r: String)
    ensures
        r@ == decimal_digits(n as int),
{
    u64_to_string(n as u64)
}

/// Division rounded to the nearest integer, ties to the even neighbour —
/// the rounding that fixed-precision display of an exact quotient performs.
pub open spec fn round_half_even(n: int, d: int) -> int
    recommends
        n >= 0,
        d > 0,
{
    let q = n / d;
    let r = n % d;
    if 2 * r > d {
        q + 1
    } else if 2 * r == d && q % 2 == 1 {
        q + 1
    } else {
        q
    }
}

/// A size rendered for humans: plain bytes below 1 KiB, otherwise KiB or MiB
/// with exactly two decimal places, rounded half to even.
pub open spec fn size_display(size: int) -> Seq<char> {
    if size < 1024 {
        decimal_digits(size) + " bytes"@
    } else if size < 1048576 {
        let h = round_half_even(size * 100, 1024);
        decimal_digits(h / 100) + "."@ + seq![digit_char(h % 100 / 10), digit_char(h % 10)]
            + " KB"@
    } else {
        let h = round_half_even(size * 100, 1048576);
        decimal_digits(h / 100) + "."@ + seq![digit_char(h % 100 / 10), digit_char(h % 10)]
            + " MB"@
    }
}

fn div_round_half_even(n: u128, d: u128) -> (h: u128)
    requires
        d > 0,
        n + d <= u128::MAX,
    ensures
        h as int == round_half_even(n as int, d as int),
        h <= n / d + 1,
{
    let q: u128 = n / d;
    let r: u128 = n % d;
    if r > d - r {
        q + 1
    } else if r == d - r && q % 2 == 1 {
        q + 1
    } else {
        q
    }
}

/// Format a byte size as `"<n> bytes"`, `"<q>.<ff> KB"`, or `"<q>.<ff> MB"`,
/// exactly as `size_display` states.
pub fn format_size(size: u64) -> (r: String)
    ensures
        r@ == size_display(size as int),
{
    if size < 1024 {
        let mut s = u64_to_string(size);
        s.append(" bytes");
        proof {
            assert(s@ =~= size_display(size as int));
        }
        s
    } else {
        let divisor: u64 = if size < 1048576 {
            1024
        } else {
            1048576
        };
        let h128 = div_round_half_even((size as u128) * 100, divisor as u128);
        proof {
            assert(h128 <= ((size as u128) * 100) as int / (divisor as int) + 1);
            assert(((size as u128) * 100) as int / (divisor as int) <= (size as int) * 100)
                by (nonlinear_arith)
                requires
                    divisor >= 1,
                    size >= 0,
            ;
            assert((size as int) * 100 <= u64::MAX * 100);
        }
        let h: u64 = (h128 / 100) as u64;
        let f: u64 = (h128 % 100) as u64;
        let mut s = u64_to_string(h);
        s.append(".");
        s.append(digit_str(f / 10));
        s.append(digit_str(f % 10));
        if size < 1048576 {
            s.append(" KB");
        } else {
            s.append(" MB");
        }
        proof {
            reveal_strlit(".");
            let hh = round_half_even(size as int * 100, divisor as int);
            assert(h == hh / 100 && f == hh % 100);
            assert(f % 100 / 10 == f / 10);
            assert(s@ =~= size_display(size as int));
        }
        s
    }
}

/// The Unicode white-space characters: the set that trailing-whitespace
/// trimming removes.
pub open spec fn is_unicode_whitespace(c: char) -> bool {
    let u = c as u32;
    (0x09 <= u && u <= 0x0d) || u == 0x20 || u == 0x85 || u == 0xa0 || u == 0x1680 || (0x2000
        <= u && u <= 0x200a) || u == 0x2028 || u == 0x2029 || u == 0x202f || u == 0x205f || u
        == 0x3000
}

/// Decide whether a character is Unicode white space.
pub fn is_whitespace_char(c: char) -> (r: bool)
    ensures
        r == is_unicode_whitespace(c),
{
    let u = c as u32;
    (0x09 <= u && u <= 0x0d) || u == 0x20 || u == 0x85 || u == 0xa0 || u == 0x1680 || (0x2000
        <= u && u <= 0x200a) || u == 0x2028 || u == 0x2029 || u == 0x202f || u == 0x205f || u
        == 0x3000
}

/// The length of a character sequence once trailing white space is removed.
pub open spec fn trimmed_len(s: Seq<char>) -> int
    decreases s.len(),
{
    if s.len() > 0 && is_unicode_whitespace(s.last()) {
        trimmed_len(s.drop_last())
    } else {
        s.len() as int
    }
}

/// A character sequence with its trailing white space removed.
pub open spec fn trim_end_view(s: Seq<char>) -> Seq<char> {
    s.subrange(0, trimmed_len(s))
}

/// `trimmed_len` is the unique cut point: everything at or after it is white
/// space, and the character just before it (if any) is not.
proof fn lemma_trimmed_len_value(s: Seq<char>, m: int)
    requires
        0 <= m <= s.len(),
        forall|i: int| m <= i < s.len() ==> is_unicode_whitespace(s[i]),
        m == 0 || !is_unicode_whitespace(s[m - 1]),
    ensures
        trimmed_len(s) == m,
    decreases s.len(),
{
    if m < s.len() {
        assert(is_unicode_whitespace(s.last()));
        assert(forall|i: int|
            m <= i < s.drop_last().len() ==> is_unicode_whitespace(s.drop_last()[i]));
        lemma_trimmed_len_value(s.drop_last(), m);
    }
}

/// Remove trailing Unicode white space.
pub fn trim_end_str(s: &str) -> (r: String)
    ensures
        r@ == trim_end_view(s@),
{
    let n = s.unicode_len();
    let mut k = n;
    while k > 0 && is_whitespace_char(s.get_char(k - 1))
        invariant
            k <= n,
            n == s@.len(),
            forall|i: int| k <= i < s@.len() ==> is_unicode_whitespace(s@[i]),
        decreases k,
    {
        k = k - 1;
    }
    proof {
        lemma_trimmed_len_value(s@, k as int);
    }
    let r = s.substring_char(0, k);
    String::from_str(r)
}

} // verus!
