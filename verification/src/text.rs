//! Character-level text utilities with exact specifications.
//!
//! Strings are modelled by their view, a `Seq<char>`. The helpers here
//! decide substring occurrence (case-sensitive and ASCII case-insensitive),
//! trim Unicode whitespace, and render integers in decimal and hexadecimal.
use vstd::prelude::*;

verus! {

/// The Unicode `White_Space` property, which `char::is_whitespace` tests.
pub open spec fn is_white(c: char) -> bool {
    ||| ('\u{9}' <= c && c <= '\u{d}')
    ||| c == ' '
    ||| c == '\u{85}'
    ||| c == '\u{a0}'
    ||| c == '\u{1680}'
    ||| ('\u{2000}' <= c && c <= '\u{200a}')
    ||| c == '\u{2028}'
    ||| c == '\u{2029}'
    ||| c == '\u{202f}'
    ||| c == '\u{205f}'
    ||| c == '\u{3000}'
}

/// ASCII lower-casing of one character; every other character is kept.
pub open spec fn ascii_lower(c: char) -> char {
    if 'A' <= c && c <= 'Z' {
        ((c as u32) + 32) as char
    } else {
        c
    }
}

/// The ASCII lower-cased form of a whole text.
pub open spec fn lower_seq(s: Seq<char>) -> Seq<char> {
    s.map_values(|c: char| ascii_lower(c))
}

/// `pat` occurs in `s` starting at position `i`.
pub open spec fn occurs_at(s: Seq<char>, pat: Seq<char>, i: int) -> bool {
    &&& 0 <= i
    &&& i + pat.len() <= s.len()
    &&& s.subrange(i, i + pat.len()) == pat
}

/// `pat` occurs somewhere in `s` (what `str::contains` answers).
pub open spec fn has_sub(s: Seq<char>, pat: Seq<char>) -> bool {
    exists|i: int| occurs_at(s, pat, i)
}

/// Tests the `White_Space` property of one character.
pub fn is_white_char(c: char) -> (r: bool)
    ensures
        r == is_white(c),
{
    ('\u{9}' <= c && c <= '\u{d}') || c == ' ' || c == '\u{85}' || c == '\u{a0}' || c == '\u{1680}'
        || ('\u{2000}' <= c && c <= '\u{200a}') || c == '\u{2028}' || c == '\u{2029}' || c
        == '\u{202f}' || c == '\u{205f}' || c == '\u{3000}'
}

/// ASCII lower-casing of one character.
pub fn lower_char(c: char) -> (r: char)
    ensures
        r == ascii_lower(c),
{
    if 'A' <= c && c <= 'Z' {
        let b: u8 = c as u8;
        let l: u8 = b + 32;
        l as char
    } else {
        c
    }
}

/// The characters of `s`, one by one.
pub fn char_vec(s: &str) -> (v: Vec<char>)
    ensures
        v@ == s@,
{
    let n = s.unicode_len();
    let mut v: Vec<char> = Vec::new();
    let mut i: usize = 0;
    while i < n
        invariant
            n == s@.len(),
            i <= n,
            v@ == s@.subrange(0, i as int),
        decreases n - i,
    {
        let c = s.get_char(i);
        v.push(c);
        i = i + 1;
        assert(v@ =~= s@.subrange(0, i as int));
    }
    assert(v@ =~= s@);
    v
}

/// The text that a search compares against: `s` itself, or its ASCII
/// lower-cased form when `fold` holds.
pub open spec fn searched(s: Seq<char>, fold: bool) -> Seq<char> {
    if fold {
        lower_seq(s)
    } else {
        s
    }
}

/// Does `pat` occur at `i` in the searched form of `s`.
fn matches_at(s: &Vec<char>, pat: &Vec<char>, i: usize, fold: bool) -> (r: bool)
    requires
        i <= s@.len(),
    ensures
        r == occurs_at(searched(s@, fold), pat@, i as int),
{
    let ghost t = searched(s@, fold);
    if pat.len() > s.len() - i {
        return false;
    }
    let mut j: usize = 0;
    while j < pat.len()
        invariant
            i + pat@.len() <= s@.len(),
            s@.len() <= usize::MAX,
            t == searched(s@, fold),
            t.len() == s@.len(),
            j <= pat@.len(),
            forall|k: int| 0 <= k < j ==> t[i + k] == pat@[k],
        decreases pat@.len() - j,
    {
        let c = if fold {
            lower_char(s[i + j])
        } else {
            s[i + j]
        };
        if c != pat[j] {
            assert(t.subrange(i as int, i + pat@.len())[j as int] != pat@[j as int]);
            return false;
        }
        j = j + 1;
    }
    assert(t.subrange(i as int, i + pat@.len()) =~= pat@);
    true
}

/// The first position at or after `from` where `pat` occurs in the searched
/// form of `s`.
fn find_from(s: &Vec<char>, pat: &Vec<char>, from: usize, fold: bool) -> (r: Option<usize>)
    requires
        from <= s@.len(),
    ensures
        match r {
            Some(i) => from <= i && occurs_at(searched(s@, fold), pat@, i as int) && forall|k: int|
                from <= k < i ==> !occurs_at(searched(s@, fold), pat@, k),
            None => forall|k: int| from <= k ==> !occurs_at(searched(s@, fold), pat@, k),
        },
{
    let ghost t = searched(s@, fold);
    let mut i: usize = from;
    loop
        invariant
            t == searched(s@, fold),
            t.len() == s@.len(),
            from <= i <= s@.len(),
            forall|k: int| from <= k < i ==> !occurs_at(t, pat@, k),
        decreases s@.len() - i,
    {
        if matches_at(s, pat, i, fold) {
            return Some(i);
        }
        if i == s.len() {
            assert forall|k: int| from <= k implies !occurs_at(t, pat@, k) by {
                if k > i {
                    assert(k + pat@.len() > t.len());
                }
            }
            return None;
        }
        i = i + 1;
    }
}

/// Whether `pat` occurs in `s` (`str::contains`).
pub fn contains(s: &str, pat: &str) -> (r: bool)
    ensures
        r == has_sub(s@, pat@),
{
    let sv = char_vec(s);
    let pv = char_vec(pat);
    let found = find_from(&sv, &pv, 0, false);
    match found {
        Some(i) => true,
        None => {
            assert forall|k: int| !occurs_at(s@, pat@, k) by {
                if k >= 0 {
                    assert(!occurs_at(searched(sv@, false), pv@, k));
                }
            }
            false
        },
    }
}

/// Whether `pat` occurs in the ASCII lower-cased form of `s`
/// (`s.to_ascii_lowercase().contains(pat)`).
pub fn contains_folded(s: &str, pat: &str) -> (r: bool)
    ensures
        r == has_sub(lower_seq(s@), pat@),
{
    let sv = char_vec(s);
    let pv = char_vec(pat);
    let found = find_from(&sv, &pv, 0, true);
    match found {
        Some(i) => true,
        None => {
            assert forall|k: int| !occurs_at(lower_seq(s@), pat@, k) by {
                if k >= 0 {
                    assert(!occurs_at(searched(sv@, true), pv@, k));
                }
            }
            false
        },
    }
}

/// The decimal digit character for a value below ten.
pub open spec fn digit_char(d: nat) -> char {
    ((d + 48) as u32) as char
}

/// The lower-case hexadecimal digit character for a value below sixteen.
pub open spec fn hex_char(d: nat) -> char {
    if d < 10 {
        ((d + 48) as u32) as char
    } else {
        ((d + 87) as u32) as char
    }
}

/// The decimal rendering of `n`, without sign or leading zeros (`{}` of an
/// unsigned integer).
pub open spec fn decimal(n: nat) -> Seq<char>
    decreases n,
{
    if n < 10 {
        seq![digit_char(n)]
    } else {
        decimal(n / 10).push(digit_char(n % 10))
    }
}

/// The last `k` hexadecimal digits of `n`, most significant first, padded with
/// zeros (`{:0k$x}` when `n < 16^k`).
pub open spec fn hex_digits(n: nat, k: nat) -> Seq<char>
    decreases k,
{
    if k == 0 {
        Seq::empty()
    } else {
        hex_digits(n / 16, (k - 1) as nat).push(hex_char(n % 16))
    }
}

/// Sixteen to the power `k`.
pub open spec fn pow16(k: nat) -> nat
    decreases k,
{
    if k == 0 {
        1
    } else {
        16 * pow16((k - 1) as nat)
    }
}

/// `hex_digits` always gives `k` characters.
pub proof fn lemma_hex_digits_len(n: nat, k: nat)
    ensures
        hex_digits(n, k).len() == k,
    decreases k,
{
    if k > 0 {
        lemma_hex_digits_len(n / 16, (k - 1) as nat);
    }
}

/// Below `16^k`, the `k` hexadecimal digits of a number determine it.
pub proof fn lemma_hex_digits_injective(a: nat, b: nat, k: nat)
    requires
        a < pow16(k),
        b < pow16(k),
        hex_digits(a, k) == hex_digits(b, k),
    ensures
        a == b,
    decreases k,
{
    if k > 0 {
        let da = hex_digits(a, k);
        let db = hex_digits(b, k);
        assert(da.last() == db.last());
        assert(da.drop_last() =~= hex_digits(a / 16, (k - 1) as nat));
        assert(db.drop_last() =~= hex_digits(b / 16, (k - 1) as nat));
        let x = a % 16;
        let y = b % 16;
        assert(hex_char(x) == hex_char(y));
        assert(x == y) by {
            if x < 10 && y < 10 {
                assert((((x + 48) as u32) as char) as u32 == (x + 48) as u32);
                assert((((y + 48) as u32) as char) as u32 == (y + 48) as u32);
            } else if x >= 10 && y >= 10 {
                assert((((x + 87) as u32) as char) as u32 == (x + 87) as u32);
                assert((((y + 87) as u32) as char) as u32 == (y + 87) as u32);
            } else if x < 10 {
                assert((((x + 48) as u32) as char) as u32 == (x + 48) as u32);
                assert((((y + 87) as u32) as char) as u32 == (y + 87) as u32);
            } else {
                assert((((x + 87) as u32) as char) as u32 == (x + 87) as u32);
                assert((((y + 48) as u32) as char) as u32 == (y + 48) as u32);
            }
        }
        let p = pow16((k - 1) as nat);
        assert(a / 16 < p) by (nonlinear_arith)
            requires
                a < 16 * p,
        ;
        assert(b / 16 < p) by (nonlinear_arith)
            requires
                b < 16 * p,
        ;
        lemma_hex_digits_injective(a / 16, b / 16, (k - 1) as nat);
        assert(a == 16 * (a / 16) + a % 16);
        assert(b == 16 * (b / 16) + b % 16);
    }
}

/// Different 64-bit numbers have different sixteen-digit hexadecimal
/// renderings, so their `.json` file names differ too.
pub proof fn law_hex_names_differ(h1: u64, h2: u64)
    requires
        h1 != h2,
    ensures
        hex_digits(h1 as nat, 16) != hex_digits(h2 as nat, 16),
        hex_digits(h1 as nat, 16) + ".json"@ != hex_digits(h2 as nat, 16) + ".json"@,
{
    assert(pow16(16) == 0x1_0000_0000_0000_0000) by {
        reveal_with_fuel(pow16, 17);
    }
    lemma_hex_digits_len(h1 as nat, 16);
    lemma_hex_digits_len(h2 as nat, 16);
    if hex_digits(h1 as nat, 16) == hex_digits(h2 as nat, 16) {
        lemma_hex_digits_injective(h1 as nat, h2 as nat, 16);
    }
    if hex_digits(h1 as nat, 16) + ".json"@ == hex_digits(h2 as nat, 16) + ".json"@ {
        let l = hex_digits(h1 as nat, 16) + ".json"@;
        let r = hex_digits(h2 as nat, 16) + ".json"@;
        assert(l.subrange(0, 16) =~= hex_digits(h1 as nat, 16));
        assert(r.subrange(0, 16) =~= hex_digits(h2 as nat, 16));
        lemma_hex_digits_injective(h1 as nat, h2 as nat, 16);
    }
}

/// A one-character text holding the digit `d` in base sixteen (lower case).
fn hex_digit_str(d: u64) -> (r: &'static str)
    requires
        d < 16,
    ensures
        r@ == seq![hex_char(d as nat)],
{
    match d {
        0 => { proof { reveal_strlit("0"); } "0" },
        1 => { proof { reveal_strlit("1"); } "1" },
        2 => { proof { reveal_strlit("2"); } "2" },
        3 => { proof { reveal_strlit("3"); } "3" },
        4 => { proof { reveal_strlit("4"); } "4" },
        5 => { proof { reveal_strlit("5"); } "5" },
        6 => { proof { reveal_strlit("6"); } "6" },
        7 => { proof { reveal_strlit("7"); } "7" },
        8 => { proof { reveal_strlit("8"); } "8" },
        9 => { proof { reveal_strlit("9"); } "9" },
        10 => { proof { reveal_strlit("a"); } "a" },
        11 => { proof { reveal_strlit("b"); } "b" },
        12 => { proof { reveal_strlit("c"); } "c" },
        13 => { proof { reveal_strlit("d"); } "d" },
        14 => { proof { reveal_strlit("e"); } "e" },
        _ => { proof { reveal_strlit("f"); } "f" },
    }
}

/// The decimal rendering of `n` (`n.to_string()`).
pub fn to_decimal(n: u128) -> (r: String)
    ensures
        r@ == decimal(n as nat),
    decreases n,
{
    if n < 10 {
        String::from_str(hex_digit_str(n as u64))
    } else {
        let mut r = to_decimal(n / 10);
        r.append(hex_digit_str((n % 10) as u64));
        r
    }
}

/// The `k` last hexadecimal digits of `n`, zero padded (`format!("{:0k$x}", n)`
/// for `n < 16^k`).
pub fn to_hex_padded(n: u64, k: u64) -> (r: String)
    ensures
        r@ == hex_digits(n as nat, k as nat),
    decreases k,
{
    if k == 0 {
        String::new()
    } else {
        let mut r = to_hex_padded(n / 16, k - 1);
        r.append(hex_digit_str(n % 16));
        r
    }
}

/// `s` without leading and trailing whitespace (`str::trim`).
pub open spec fn trim_seq(s: Seq<char>) -> Seq<char>
    decreases s.len(),
{
    if s.len() == 0 {
        s
    } else if is_white(s[0]) {
        trim_seq(s.drop_first())
    } else if is_white(s.last()) {
        trim_seq(s.drop_last())
    } else {
        s
    }
}

/// Trimming drops leading whitespace one character at a time.
proof fn lemma_trim_front(s: Seq<char>, i: int)
    requires
        0 <= i < s.len(),
        is_white(s[i]),
    ensures
        trim_seq(s.subrange(i, s.len() as int)) == trim_seq(s.subrange(i + 1, s.len() as int)),
{
    assert(s.subrange(i, s.len() as int).drop_first() =~= s.subrange(i + 1, s.len() as int));
}

/// Trimming drops trailing whitespace one character at a time, once the
/// front is not whitespace.
proof fn lemma_trim_back(s: Seq<char>, a: int, b: int)
    requires
        0 <= a < b <= s.len(),
        !is_white(s[a]),
        is_white(s[b - 1]),
    ensures
        trim_seq(s.subrange(a, b)) == trim_seq(s.subrange(a, b - 1)),
{
    assert(s.subrange(a, b).drop_last() =~= s.subrange(a, b - 1));
}

/// The bounds `(a, b)` of the trimmed part of `s`.
fn trim_bounds(s: &Vec<char>) -> (r: (usize, usize))
    ensures
        r.0 <= r.1 <= s@.len(),
        trim_seq(s@) == s@.subrange(r.0 as int, r.1 as int),
{
    let n = s.len();
    let mut a: usize = 0;
    assert(s@.subrange(0, n as int) =~= s@);
    while a < n && is_white_char(s[a])
        invariant
            n == s@.len(),
            a <= n,
            trim_seq(s@) == trim_seq(s@.subrange(a as int, n as int)),
        decreases n - a,
    {
        proof {
            lemma_trim_front(s@, a as int);
        }
        a = a + 1;
    }
    if a == n {
        return (a, a);
    }
    let mut b: usize = n;
    while b > a + 1 && is_white_char(s[b - 1])
        invariant
            n == s@.len(),
            a < b <= n,
            !is_white(s@[a as int]),
            trim_seq(s@) == trim_seq(s@.subrange(a as int, b as int)),
        decreases b,
    {
        proof {
            lemma_trim_back(s@, a as int, b as int);
        }
        b = b - 1;
    }
    let ghost t = s@.subrange(a as int, b as int);
    assert(t[0] == s@[a as int]);
    assert(t.last() == s@[b - 1]);
    assert(trim_seq(t) == t);
    (a, b)
}

/// `s` without leading and trailing whitespace (`s.trim()`).
pub fn trim(s: &str) -> (r: &str)
    ensures
        r@ == trim_seq(s@),
{
    let v = char_vec(s);
    let (a, b) = trim_bounds(&v);
    s.substring_char(a, b)
}

/// Equality after ASCII lower-casing both sides (`str::eq_ignore_ascii_case`).
pub fn eq_ignore_ascii_case(a: &str, b: &str) -> (r: bool)
    ensures
        r == (lower_seq(a@) == lower_seq(b@)),
{
    let av = char_vec(a);
    let bv = char_vec(b);
    if av.len() != bv.len() {
        assert(lower_seq(a@).len() != lower_seq(b@).len());
        return false;
    }
    let mut i: usize = 0;
    while i < av.len()
        invariant
            av@ == a@,
            bv@ == b@,
            av@.len() == bv@.len(),
            i <= av@.len(),
            forall|k: int| 0 <= k < i ==> ascii_lower(a@[k]) == ascii_lower(b@[k]),
        decreases av@.len() - i,
    {
        if lower_char(av[i]) != lower_char(bv[i]) {
            assert(lower_seq(a@)[i as int] != lower_seq(b@)[i as int]);
            return false;
        }
        i = i + 1;
    }
    assert(lower_seq(a@) =~= lower_seq(b@));
    true
}

/// Exact equality of two texts (`==` on `str`).
pub fn str_eq(a: &str, b: &str) -> (r: bool)
    ensures
        r == (a@ == b@),
{
    let av = char_vec(a);
    let bv = char_vec(b);
    if av.len() != bv.len() {
        return false;
    }
    let mut i: usize = 0;
    while i < av.len()
        invariant
            av@ == a@,
            bv@ == b@,
            av@.len() == bv@.len(),
            i <= av@.len(),
            forall|k: int| 0 <= k < i ==> a@[k] == b@[k],
        decreases av@.len() - i,
    {
        if av[i] != bv[i] {
            return false;
        }
        i = i + 1;
    }
    assert(a@ =~= b@);
    true
}

/// The decimal rendering of a signed integer, with a leading `-` when negative.
pub open spec fn signed_decimal(n: int) -> Seq<char> {
    if n < 0 {
        seq!['-'] + decimal((-n) as nat)
    } else {
        decimal(n as nat)
    }
}

/// The decimal rendering of `n` (`n.to_string()` for a signed integer).
pub fn to_signed_decimal(n: i64) -> (r: String)
    ensures
        r@ == signed_decimal(n as int),
{
    if n < 0 {
        let magnitude: u64 = if n == i64::MIN {
            9_223_372_036_854_775_808u64
        } else {
            (-n) as u64
        };
        let mut r = String::from_str("-");
        proof {
            reveal_strlit("-");
        }
        let digits = to_decimal(magnitude as u128);
        r.append(digits.as_str());
        r
    } else {
        to_decimal(n as u128)
    }
}

/// An ASCII decimal digit.
pub open spec fn is_digit(c: char) -> bool {
    '0' <= c && c <= '9'
}

/// Every character of `s` is an ASCII decimal digit.
pub open spec fn all_digits(s: Seq<char>) -> bool {
    forall|i: int| 0 <= i < s.len() ==> is_digit(#[trigger] s[i])
}

/// The value of a string of decimal digits.
pub open spec fn digits_value(s: Seq<char>) -> nat
    decreases s.len(),
{
    if s.len() == 0 {
        0
    } else {
        digits_value(s.drop_last()) * 10 + ((s.last() as int) - 48) as nat
    }
}

/// What `str::parse::<u32>` answers: an optional `+`, then one or more digits
/// whose value fits.
pub open spec fn parse_u32_spec(s: Seq<char>) -> Option<u32> {
    let body = if s.len() > 0 && s[0] == '+' {
        s.drop_first()
    } else {
        s
    };
    if body.len() > 0 && all_digits(body) && digits_value(body) <= u32::MAX {
        Some(digits_value(body) as u32)
    } else {
        None
    }
}

/// What `str::parse::<i32>` answers: an optional sign, then one or more digits
/// whose signed value fits.
pub open spec fn parse_i32_spec(s: Seq<char>) -> Option<i32> {
    if s.len() > 0 && s[0] == '-' {
        let body = s.drop_first();
        if body.len() > 0 && all_digits(body) && digits_value(body) <= 2147483648 {
            Some((0 - digits_value(body)) as i32)
        } else {
            None
        }
    } else {
        let body = if s.len() > 0 && s[0] == '+' {
            s.drop_first()
        } else {
            s
        };
        if body.len() > 0 && all_digits(body) && digits_value(body) <= i32::MAX {
            Some(digits_value(body) as i32)
        } else {
            None
        }
    }
}

/// The value of a digit string never falls below that of its prefixes.
proof fn lemma_digits_value_grows(s: Seq<char>, k: int)
    requires
        0 <= k <= s.len(),
        all_digits(s),
    ensures
        digits_value(s.subrange(0, k)) <= digits_value(s),
    decreases s.len() - k,
{
    if k < s.len() {
        let t = s.subrange(0, k + 1);
        assert(t.drop_last() =~= s.subrange(0, k));
        assert(is_digit(s[k]));
        lemma_digits_value_grows(s, k + 1);
    } else {
        assert(s.subrange(0, k) =~= s);
    }
}

/// The value of the digits `v[lo..hi]` if all of them are digits, there is at
/// least one, and the value is at most `max`.
fn parse_digits(v: &Vec<char>, lo: usize, hi: usize, max: u64) -> (r: Option<u64>)
    requires
        lo <= hi <= v@.len(),
        max <= u32::MAX + 1,
    ensures
        ({
            let d = v@.subrange(lo as int, hi as int);
            r == if d.len() > 0 && all_digits(d) && digits_value(d) <= max {
                Some(digits_value(d) as u64)
            } else {
                None::<u64>
            }
        }),
{
    let ghost d = v@.subrange(lo as int, hi as int);
    if lo == hi {
        return None;
    }
    let mut acc: u64 = 0;
    let mut k: usize = lo;
    while k < hi
        invariant
            lo <= k <= hi <= v@.len(),
            d == v@.subrange(lo as int, hi as int),
            max <= u32::MAX + 1,
            all_digits(d.subrange(0, k - lo)),
            acc == digits_value(d.subrange(0, k - lo)),
            acc <= max,
        decreases hi - k,
    {
        let c = v[k];
        if !('0' <= c && c <= '9') {
            assert(!is_digit(d[k - lo]));
            return None;
        }
        let digit: u64 = (c as u32 - 48) as u64;
        let next = acc * 10 + digit;
        let ghost p = d.subrange(0, k - lo + 1);
        assert(p.drop_last() =~= d.subrange(0, k - lo));
        assert(p.last() == c);
        assert(all_digits(p));
        if next > max {
            proof {
                if all_digits(d) {
                    lemma_digits_value_grows(d, k - lo + 1);
                }
            }
            return None;
        }
        acc = next;
        k = k + 1;
    }
    assert(d.subrange(0, hi - lo) =~= d);
    Some(acc)
}

/// `str::parse::<u32>` on the characters `v[lo..hi]`.
pub fn parse_u32_at(v: &Vec<char>, lo: usize, hi: usize) -> (r: Option<u32>)
    requires
        lo <= hi <= v@.len(),
    ensures
        r == parse_u32_spec(v@.subrange(lo as int, hi as int)),
{
    let ghost s = v@.subrange(lo as int, hi as int);
    let start = if lo < hi && v[lo] == '+' {
        assert(s.drop_first() =~= v@.subrange(lo + 1, hi as int));
        lo + 1
    } else {
        lo
    };
    match parse_digits(v, start, hi, 4294967295) {
        Some(x) => Some(x as u32),
        None => None,
    }
}

/// `str::parse::<i32>` on the characters `v[lo..hi]`.
pub fn parse_i32_at(v: &Vec<char>, lo: usize, hi: usize) -> (r: Option<i32>)
    requires
        lo <= hi <= v@.len(),
    ensures
        r == parse_i32_spec(v@.subrange(lo as int, hi as int)),
{
    let ghost s = v@.subrange(lo as int, hi as int);
    if lo < hi && v[lo] == '-' {
        assert(s.drop_first() =~= v@.subrange(lo + 1, hi as int));
        match parse_digits(v, lo + 1, hi, 2147483648) {
            Some(x) => {
                let neg: i64 = 0 - (x as i64);
                Some(neg as i32)
            },
            None => None,
        }
    } else {
        let start = if lo < hi && v[lo] == '+' {
            assert(s.drop_first() =~= v@.subrange(lo + 1, hi as int));
            lo + 1
        } else {
            lo
        };
        match parse_digits(v, start, hi, 2147483647) {
            Some(x) => Some(x as i32),
            None => None,
        }
    }
}

/// The number of leading characters of `s` that do not satisfy `stop`.
pub open spec fn span_not(s: Seq<char>, stop: spec_fn(char) -> bool) -> nat
    decreases s.len(),
{
    if s.len() == 0 || stop(s[0]) {
        0
    } else {
        1 + span_not(s.drop_first(), stop)
    }
}

/// `span_not` is the first position that stops, or the length.
pub proof fn lemma_span_not(s: Seq<char>, stop: spec_fn(char) -> bool, k: int)
    requires
        0 <= k <= s.len(),
        forall|i: int| 0 <= i < k ==> !stop(#[trigger] s[i]),
        k == s.len() || stop(s[k]),
    ensures
        span_not(s, stop) == k,
    decreases k,
{
    if k > 0 {
        let t = s.drop_first();
        assert forall|i: int| 0 <= i < k - 1 implies !stop(#[trigger] t[i]) by {
            assert(t[i] == s[i + 1]);
        }
        if k < s.len() {
            assert(t[k - 1] == s[k]);
        }
        lemma_span_not(t, stop, k - 1);
    }
}

/// The position of the first occurrence of `pat` in `s`, if any.
pub open spec fn first_occurrence(s: Seq<char>, pat: Seq<char>) -> Option<int> {
    if has_sub(s, pat) {
        Some(
            choose|i: int|
                occurs_at(s, pat, i) && forall|k: int| 0 <= k < i ==> !occurs_at(s, pat, k),
        )
    } else {
        None
    }
}

/// The position of the first occurrence of `pat` in `s` (`str::find`, counted in characters).
pub fn find(s: &str, pat: &str) -> (r: Option<usize>)
    ensures
        match r {
            Some(i) => first_occurrence(s@, pat@) == Some(i as int) && occurs_at(
                s@,
                pat@,
                i as int,
            ),
            None => first_occurrence(s@, pat@) is None,
        },
{
    let sv = char_vec(s);
    let pv = char_vec(pat);
    let found = find_from(&sv, &pv, 0, false);
    match found {
        Some(i) => {
            proof {
                assert(searched(sv@, false) == s@);
                let p = |j: int| occurs_at(s@, pat@, j) && forall|k: int| 0 <= k < j ==> !occurs_at(s@, pat@, k);
                assert(p(i as int));
                let c = choose|j: int| occurs_at(s@, pat@, j) && forall|k: int| 0 <= k < j ==> !occurs_at(s@, pat@, k);
                assert(occurs_at(s@, pat@, c));
                if c < i {
                    assert(!occurs_at(s@, pat@, c));
                }
                if c > i {
                    assert(!occurs_at(s@, pat@, i as int));
                }
            }
            Some(i)
        },
        None => {
            assert forall|k: int| !occurs_at(s@, pat@, k) by {
                if k >= 0 {
                    assert(!occurs_at(searched(sv@, false), pv@, k));
                }
            }
            None
        },
    }
}

/// Whether `s` starts with `prefix` (`str::starts_with`).
pub fn starts_with(s: &str, prefix: &str) -> (r: bool)
    ensures
        r == prefix@.is_prefix_of(s@),
{
    let n = s.unicode_len();
    let m = prefix.unicode_len();
    if m > n {
        return false;
    }
    let head = s.substring_char(0, m);
    let r = str_eq(head, prefix);
    assert(r == (s@.subrange(0, m as int) == prefix@));
    r
}

/// Whether `s` ends with `suffix` (`str::ends_with`).
pub fn ends_with(s: &str, suffix: &str) -> (r: bool)
    ensures
        r == suffix@.is_suffix_of(s@),
{
    let n = s.unicode_len();
    let m = suffix.unicode_len();
    if m > n {
        return false;
    }
    let tail = s.substring_char(n - m, n);
    let r = str_eq(tail, suffix);
    assert(r == (s@.subrange(n - m, n as int) == suffix@));
    r
}

} // verus!
