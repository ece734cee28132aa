//! Text primitives: trimming, decimal integers in both directions.
//!
//! The parsers accept exactly what `u64::from_str` and `i64::from_str` accept:
//! an optional sign followed by one or more ASCII digits whose value fits.
use vstd::prelude::*;
use vstd::string::*;

verus! {

// ---------------------------------------------------------------------------
// Digits and their values
// ---------------------------------------------------------------------------

pub open spec fn is_ascii_digit(c: char) -> bool {
    '0' <= c && c <= '9'
}

pub open spec fn digit_value(c: char) -> nat {
    (c as int - '0' as int) as nat
}

pub open spec fn all_digits(s: Seq<char>) -> bool {
    forall|i: int| 0 <= i < s.len() ==> is_ascii_digit(#[trigger] s[i])
}

/// The value of a run of decimal digits, most significant first.
pub open spec fn digits_value(s: Seq<char>) -> nat
    decreases s.len(),
{
    if s.len() == 0 {
        0
    } else {
        digits_value(s.drop_last()) * 10 + digit_value(s.last())
    }
}

/// A non-empty run of digits whose value is at most `bound`.
pub open spec fn digits_within(body: Seq<char>, bound: nat) -> bool {
    body.len() > 0 && all_digits(body) && digits_value(body) <= bound
}

/// What remains after an optional leading `+`.
pub open spec fn unsigned_body(s: Seq<char>) -> Seq<char> {
    if s.len() > 0 && s[0] == '+' {
        s.drop_first()
    } else {
        s
    }
}

/// The result of `u64::from_str`.
pub open spec fn spec_parse_u64(s: Seq<char>) -> Option<u64> {
    let body = unsigned_body(s);
    if digits_within(body, u64::MAX as nat) {
        Some(digits_value(body) as u64)
    } else {
        None
    }
}

/// The result of `i64::from_str`.
pub open spec fn spec_parse_i64(s: Seq<char>) -> Option<i64> {
    if s.len() > 0 && s[0] == '-' {
        let body = s.drop_first();
        if digits_within(body, 0x8000_0000_0000_0000nat) {
            Some((-(digits_value(body) as int)) as i64)
        } else {
            None
        }
    } else {
        let body = unsigned_body(s);
        if digits_within(body, i64::MAX as nat) {
            Some(digits_value(body) as i64)
        } else {
            None
        }
    }
}

proof fn lemma_digits_value_push(s: Seq<char>, c: char)
    ensures
        digits_value(s.push(c)) == digits_value(s) * 10 + digit_value(c),
{
    assert(s.push(c).drop_last() =~= s);
}

/// A prefix of a digit run is worth no more than the whole run.
proof fn lemma_digits_value_prefix(s: Seq<char>, i: int)
    requires
        0 <= i <= s.len(),
    ensures
        digits_value(s.take(i)) <= digits_value(s),
    decreases s.len(),
{
    if i == s.len() {
        assert(s.take(i) =~= s);
    } else {
        let t = s.drop_last();
        lemma_digits_value_prefix(t, i);
        assert(t.take(i) =~= s.take(i));
    }
}

/// Reads `s[start..]` as a run of digits worth at most `bound`.
fn digits_at_most(s: &str, start: usize, bound: u64) -> (res: Option<u64>)
    requires
        start <= s@.len(),
    ensures
        ({
            let body = s@.subrange(start as int, s@.len() as int);
            res == (if digits_within(body, bound as nat) {
                Some(digits_value(body) as u64)
            } else {
                None
            })
        }),
{
    let n = s.unicode_len();
    let ghost full = s@.subrange(start as int, s@.len() as int);
    if start == n {
        return None;
    }
    let mut i = start;
    let mut acc: u64 = 0;
    while i < n
        invariant
            n == s@.len(),
            start < n,
            start <= i <= n,
            full == s@.subrange(start as int, n as int),
            all_digits(s@.subrange(start as int, i as int)),
            acc as nat == digits_value(s@.subrange(start as int, i as int)),
            acc <= bound,
        decreases n - i,
    {
        let ghost prefix = s@.subrange(start as int, i as int);
        let c = s.get_char(i);
        if !(c >= '0' && c <= '9') {
            assert(full[i - start] == c);
            return None;
        }
        let d: u64 = (c as u32 - '0' as u32) as u64;
        assert(s@.subrange(start as int, i + 1) =~= prefix.push(c));
        proof {
            lemma_digits_value_push(prefix, c);
        }
        if d > bound || acc > (bound - d) / 10 {
            proof {
                if d <= bound {
                    assert(acc * 10 + d > bound) by (nonlinear_arith)
                        requires
                            acc > (bound - d) / 10,
                            d <= bound,
                    ;
                }
                if all_digits(full) {
                    assert(full.take(i + 1 - start) =~= prefix.push(c));
                    lemma_digits_value_prefix(full, i + 1 - start);
                }
            }
            return None;
        }
        assert(acc * 10 + d <= bound) by (nonlinear_arith)
            requires
                acc <= (bound - d) / 10,
                d <= bound,
        ;
        acc = acc * 10 + d;
        i = i + 1;
    }
    assert(s@.subrange(start as int, n as int) =~= full);
    Some(acc)
}

/// `u64::from_str`: an optional `+`, then one or more digits that fit.
pub fn parse_u64(s: &str) -> (res: Option<u64>)
    ensures
        res == spec_parse_u64(s@),
{
    let n = s.unicode_len();
    let start: usize = if n > 0 && s.get_char(0) == '+' {
        1
    } else {
        0
    };
    assert(s@.subrange(start as int, s@.len() as int) =~= unsigned_body(s@));
    digits_at_most(s, start, u64::MAX)
}

/// `i64::from_str`: an optional `+` or `-`, then one or more digits whose
/// signed value fits.
pub fn parse_i64(s: &str) -> (res: Option<i64>)
    ensures
        res == spec_parse_i64(s@),
{
    let n = s.unicode_len();
    if n > 0 && s.get_char(0) == '-' {
        assert(s@.subrange(1, s@.len() as int) =~= s@.drop_first());
        match digits_at_most(s, 1, 0x8000_0000_0000_0000u64) {
            Some(m) => {
                let v: i64 = (-(m as i128)) as i64;
                Some(v)
            },
            None => None,
        }
    } else {
        let start: usize = if n > 0 && s.get_char(0) == '+' {
            1
        } else {
            0
        };
        assert(s@.subrange(start as int, s@.len() as int) =~= unsigned_body(s@));
        match digits_at_most(s, start, 0x7fff_ffff_ffff_ffffu64) {
            Some(m) => Some(m as i64),
            None => None,
        }
    }
}


/// Whether two strings hold the same characters.
pub fn str_eq(a: &str, b: &str) -> (res: bool)
    ensures
        res == (a@ == b@),
{
    let n = a.unicode_len();
    if n != b.unicode_len() {
        return false;
    }
    let mut i: usize = 0;
    while i < n
        invariant
            n == a@.len(),
            n == b@.len(),
            i <= n,
            forall|k: int| 0 <= k < i ==> a@[k] == b@[k],
        decreases n - i,
    {
        if a.get_char(i) != b.get_char(i) {
            return false;
        }
        i = i + 1;
    }
    assert(a@ =~= b@);
    true
}

// ---------------------------------------------------------------------------
// Decimal rendering
// ---------------------------------------------------------------------------

pub open spec fn digit_char(d: nat) -> char {
    if d == 0 {
        '0'
    } else if d == 1 {
        '1'
    } else if d == 2 {
        '2'
    } else if d == 3 {
        '3'
    } else if d == 4 {
        '4'
    } else if d == 5 {
        '5'
    } else if d == 6 {
        '6'
    } else if d == 7 {
        '7'
    } else if d == 8 {
        '8'
    } else {
        '9'
    }
}

/// The decimal digits of `n`, without leading zeros (`0` is `"0"`).
pub open spec fn decimal(n: nat) -> Seq<char>
    decreases n,
{
    if n < 10 {
        seq![digit_char(n)]
    } else {
        decimal(n / 10).push(digit_char(n % 10))
    }
}

/// The text of `v.to_string()` for a signed integer.
pub open spec fn signed_decimal(v: int) -> Seq<char> {
    if v < 0 {
        seq!['-'] + decimal((-v) as nat)
    } else {
        decimal(v as nat)
    }
}

fn digit_str(d: u64) -> (res: &'static str)
    requires
        d < 10,
    ensures
        res@ == seq![digit_char(d as nat)],
{
    proof {
        reveal_strlit("0");
        reveal_strlit("1");
        reveal_strlit("2");
        reveal_strlit("3");
        reveal_strlit("4");
        reveal_strlit("5");
        reveal_strlit("6");
        reveal_strlit("7");
        reveal_strlit("8");
        reveal_strlit("9");
    }
    if d == 0 {
        "0"
    } else if d == 1 {
        "1"
    } else if d == 2 {
        "2"
    } else if d == 3 {
        "3"
    } else if d == 4 {
        "4"
    } else if d == 5 {
        "5"
    } else if d == 6 {
        "6"
    } else if d == 7 {
        "7"
    } else if d == 8 {
        "8"
    } else {
        "9"
    }
}

/// Appends the decimal digits of `n` to `out`.
pub fn push_decimal(out: &mut String, n: u64)
    ensures
        final(out)@ == old(out)@ + decimal(n as nat),
    decreases n,
{
    if n >= 10 {
        push_decimal(out, n / 10);
        out.append(digit_str(n % 10));
        assert(out@ =~= old(out)@ + decimal(n as nat));
    } else {
        out.append(digit_str(n));
        assert(out@ =~= old(out)@ + decimal(n as nat));
    }
}

/// `n.to_string()` for an unsigned integer.
pub fn u64_to_text(n: u64) -> (res: String)
    ensures
        res@ == decimal(n as nat),
{
    let mut out = String::new();
    push_decimal(&mut out, n);
    assert(out@ =~= decimal(n as nat));
    out
}

/// `v.to_string()` for a signed integer.
pub fn i64_to_text(v: i64) -> (res: String)
    ensures
        res@ == signed_decimal(v as int),
{
    let mut out = String::new();
    if v < 0 {
        proof {
            reveal_strlit("-");
        }
        out.append("-");
        let m: u64 = (-(v as i128)) as u64;
        push_decimal(&mut out, m);
    } else {
        push_decimal(&mut out, v as u64);
    }
    assert(out@ =~= signed_decimal(v as int));
    out
}

proof fn lemma_digit_char(d: nat)
    requires
        d < 10,
    ensures
        is_ascii_digit(digit_char(d)),
        digit_value(digit_char(d)) == d,
{
}

/// The digits of `n` are a non-empty digit run worth `n`.
pub proof fn lemma_decimal_digits(n: nat)
    ensures
        decimal(n).len() > 0,
        all_digits(decimal(n)),
        digits_value(decimal(n)) == n,
    decreases n,
{
    if n < 10 {
        lemma_digit_char(n);
        assert(seq![digit_char(n)].drop_last() =~= Seq::<char>::empty());
        assert(digits_value(Seq::<char>::empty()) == 0);
        assert(seq![digit_char(n)].last() == digit_char(n));
    } else {
        assert(n == (n / 10) * 10 + n % 10);
        lemma_decimal_digits(n / 10);
        lemma_digit_char(n % 10);
        lemma_digits_value_push(decimal(n / 10), digit_char(n % 10));
        let s = decimal(n);
        assert forall|i: int| 0 <= i < s.len() implies is_ascii_digit(#[trigger] s[i]) by {
            if i < s.len() - 1 {
                assert(s[i] == decimal(n / 10)[i]);
            }
        }
    }
}

/// Rendering a `u64` and reading it back gives the same number.
pub proof fn lemma_u64_text_round_trip(n: u64)
    ensures
        spec_parse_u64(decimal(n as nat)) == Some(n),
{
    lemma_decimal_digits(n as nat);
    let s = decimal(n as nat);
    assert(is_ascii_digit(s[0]));
    assert(unsigned_body(s) == s);
}

/// Rendering a non-negative `i64` and reading it back gives the same number.
pub proof fn lemma_i64_text_round_trip(v: i64)
    requires
        v >= 0,
    ensures
        spec_parse_i64(signed_decimal(v as int)) == Some(v),
{
    lemma_decimal_digits(v as nat);
    let s = decimal(v as nat);
    assert(is_ascii_digit(s[0]));
    assert(unsigned_body(s) == s);
}


// ---------------------------------------------------------------------------
// Trimming
// ---------------------------------------------------------------------------

/// `char::is_whitespace`: the Unicode `White_Space` property.
pub open spec fn is_unicode_whitespace(c: char) -> bool {
    ||| '\t' <= c && c <= '\r'
    ||| c == ' '
    ||| c == '\u{85}'
    ||| c == '\u{A0}'
    ||| c == '\u{1680}'
    ||| '\u{2000}' <= c && c <= '\u{200A}'
    ||| c == '\u{2028}'
    ||| c == '\u{2029}'
    ||| c == '\u{202F}'
    ||| c == '\u{205F}'
    ||| c == '\u{3000}'
}

/// Which characters a trim removes.
pub enum TrimSet {
    Whitespace,
    DoubleQuote,
}

pub open spec fn trims(set: TrimSet, c: char) -> bool {
    match set {
        TrimSet::Whitespace => is_unicode_whitespace(c),
        TrimSet::DoubleQuote => c == '"',
    }
}

pub open spec fn trim_start(s: Seq<char>, set: TrimSet) -> Seq<char>
    decreases s.len(),
{
    if s.len() > 0 && trims(set, s[0]) {
        trim_start(s.drop_first(), set)
    } else {
        s
    }
}

pub open spec fn trim_end(s: Seq<char>, set: TrimSet) -> Seq<char>
    decreases s.len(),
{
    if s.len() > 0 && trims(set, s.last()) {
        trim_end(s.drop_last(), set)
    } else {
        s
    }
}

/// `str::trim_matches`: every leading and trailing character of the set
/// removed (`str::trim` for whitespace).
pub open spec fn trim(s: Seq<char>, set: TrimSet) -> Seq<char> {
    trim_end(trim_start(s, set), set)
}

fn trims_exec(set: &TrimSet, c: char) -> (res: bool)
    ensures
        res == trims(*set, c),
{
    match set {
        TrimSet::Whitespace => {
            ('\t' <= c && c <= '\r') || c == ' ' || c == '\u{85}' || c == '\u{A0}' || c
                == '\u{1680}' || ('\u{2000}' <= c && c <= '\u{200A}') || c == '\u{2028}' || c
                == '\u{2029}' || c == '\u{202F}' || c == '\u{205F}' || c == '\u{3000}'
        },
        TrimSet::DoubleQuote => c == '"',
    }
}

proof fn lemma_trim_start_at(s: Seq<char>, set: TrimSet, i: int)
    requires
        0 <= i <= s.len(),
        forall|k: int| 0 <= k < i ==> trims(set, #[trigger] s[k]),
        i == s.len() || !trims(set, s[i]),
    ensures
        trim_start(s, set) == s.subrange(i, s.len() as int),
    decreases i,
{
    if i == 0 {
        assert(s.subrange(0, s.len() as int) =~= s);
    } else {
        let t = s.drop_first();
        assert forall|k: int| 0 <= k < i - 1 implies trims(set, #[trigger] t[k]) by {
            assert(t[k] == s[k + 1]);
        }
        lemma_trim_start_at(t, set, i - 1);
        assert(t.subrange(i - 1, t.len() as int) =~= s.subrange(i, s.len() as int));
        assert(trims(set, s[0]));
    }
}

proof fn lemma_trim_end_at(s: Seq<char>, set: TrimSet, j: int)
    requires
        0 <= j <= s.len(),
        forall|k: int| j <= k < s.len() ==> trims(set, #[trigger] s[k]),
        j == 0 || !trims(set, s[j - 1]),
    ensures
        trim_end(s, set) == s.subrange(0, j),
    decreases s.len() - j,
{
    if j == s.len() {
        assert(s.subrange(0, j) =~= s);
    } else {
        let t = s.drop_last();
        assert forall|k: int| j <= k < t.len() implies trims(set, #[trigger] t[k]) by {
            assert(t[k] == s[k]);
        }
        lemma_trim_end_at(t, set, j);
        assert(t.subrange(0, j) =~= s.subrange(0, j));
        assert(trims(set, s.last()));
    }
}

/// `s.trim_matches(..)` over the given character set.
pub fn trim_str<'a>(s: &'a str, set: TrimSet) -> (res: &'a str)
    ensures
        res@ == trim(s@, set),
{
    let n = s.unicode_len();
    let mut i: usize = 0;
    while i < n && trims_exec(&set, s.get_char(i))
        invariant
            n == s@.len(),
            i <= n,
            forall|k: int| 0 <= k < i ==> trims(set, #[trigger] s@[k]),
        decreases n - i,
    {
        i = i + 1;
    }
    proof {
        lemma_trim_start_at(s@, set, i as int);
    }
    let ghost t = s@.subrange(i as int, n as int);
    let mut j: usize = n;
    while j > i && trims_exec(&set, s.get_char(j - 1))
        invariant
            n == s@.len(),
            i <= j <= n,
            forall|k: int| j <= k < n ==> trims(set, #[trigger] s@[k]),
        decreases j,
    {
        j = j - 1;
    }
    proof {
        assert forall|k: int| j - i <= k < t.len() implies trims(set, #[trigger] t[k]) by {
            assert(t[k] == s@[k + i]);
        }
        if j > i {
            assert(t[j - i - 1] == s@[j - 1]);
        }
        lemma_trim_end_at(t, set, j - i);
        assert(t.subrange(0, j - i) =~= s@.subrange(i as int, j as int));
    }
    s.substring_char(i, j)
}

} // verus!
