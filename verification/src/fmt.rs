//! Number formatting and parsing on character sequences.
//!
//! The spec functions give the exact text that `{}` / `{:0w$x}` produce and
//! the exact set of inputs that `str::parse` / `from_str_radix` accept.
use vstd::prelude::*;
use crate::text::{chars_of, push_char};

verus! {

/// The digit character for `d` (lower-case letters above nine).
pub open spec fn digit_char(d: nat) -> char {
    if d < 10 {
        ((d + 48) as u8) as char
    } else {
        ((d - 10 + 97) as u8) as char
    }
}

fn digit_char_exec(d: u64) -> (c: char)
    requires
        d < 16,
    ensures
        c == digit_char(d as nat),
{
    if d < 10 {
        ((d + 48) as u8) as char
    } else {
        ((d - 10 + 97) as u8) as char
    }
}

/// Digits of `n` in base `radix`, most significant first, without
/// leading zeros (`"0"` for zero).
pub open spec fn radix_digits(n: nat, radix: nat) -> Seq<char>
    recommends
        2 <= radix <= 16,
    decreases n,
{
    if radix < 2 || n < radix {
        seq![digit_char(n % 16)]
    } else {
        proof {
            lemma_div_smaller(n, radix);
        }
        radix_digits(n / radix, radix).push(digit_char(n % radix))
    }
}

/// What `format!("{}", n)` produces for an unsigned integer.
pub open spec fn dec(n: nat) -> Seq<char> {
    radix_digits(n, 10)
}

/// `n` in lower-case hex, left-padded with `'0'` to at least `width`
/// characters, as `format!("{:0width$x}", n)` produces.
pub open spec fn hex_pad(n: nat, width: nat) -> Seq<char> {
    let d = radix_digits(n, 16);
    if d.len() >= width {
        d
    } else {
        Seq::new((width - d.len()) as nat, |i: int| '0') + d
    }
}

pub proof fn lemma_div_smaller(n: nat, radix: nat)
    requires
        2 <= radix <= n,
    ensures
        n / radix < n,
{
    assert(n / radix < n) by (nonlinear_arith)
        requires
            2 <= radix <= n,
    ;
}

proof fn lemma_radix_digits_nonempty(n: nat, radix: nat)
    requires
        2 <= radix <= 16,
    ensures
        radix_digits(n, radix).len() >= 1,
    decreases n,
{
    if n >= radix {
        lemma_div_smaller(n, radix);
        lemma_radix_digits_nonempty(n / radix, radix);
    }
}

/// Digits of `n` in the given radix.
pub fn u64_to_radix(n: u64, radix: u64) -> (s: String)
    requires
        2 <= radix <= 16,
    ensures
        s@ == radix_digits(n as nat, radix as nat),
    decreases n,
{
    if n < radix {
        let mut s = String::new();
        push_char(&mut s, digit_char_exec(n % 16));
        assert(s@ =~= seq![digit_char((n % 16) as nat)]);
        s
    } else {
        proof {
            lemma_div_smaller(n as nat, radix as nat);
        }
        let mut s = u64_to_radix(n / radix, radix);
        push_char(&mut s, digit_char_exec(n % radix));
        s
    }
}

/// `format!("{}", n)`.
pub fn u64_to_dec(n: u64) -> (s: String)
    ensures
        s@ == dec(n as nat),
{
    u64_to_radix(n, 10)
}

/// `format!("{:0width$x}", n)`.
pub fn u64_to_hex_pad(n: u64, width: usize) -> (s: String)
    ensures
        s@ == hex_pad(n as nat, width as nat),
{
    let d = u64_to_radix(n, 16);
    let dl = chars_of(d.as_str()).len();
    if dl >= width {
        d
    } else {
        let mut s = String::new();
        let mut i: usize = 0;
        while i < width - dl
            invariant
                dl < width,
                i <= width - dl,
                s@ == Seq::new(i as nat, |k: int| '0'),
            decreases width - dl - i,
        {
            push_char(&mut s, '0');
            i = i + 1;
            assert(s@ =~= Seq::new(i as nat, |k: int| '0'));
        }
        s.append(d.as_str());
        s
    }
}

// ---------------------------------------------------------------------------
// Parsing
// ---------------------------------------------------------------------------

/// Value of an ASCII digit in base `radix`, if it is one.
pub open spec fn digit_value(c: char, radix: nat) -> Option<nat> {
    let u = c as u32;
    let v: int = if 48 <= u <= 57 {
        u - 48
    } else if 97 <= u <= 122 {
        u - 97 + 10
    } else if 65 <= u <= 90 {
        u - 65 + 10
    } else {
        99
    };
    if v < radix {
        Some(v as nat)
    } else {
        None
    }
}

fn digit_value_exec(c: char, radix: u64) -> (r: Option<u64>)
    requires
        2 <= radix <= 36,
    ensures
        match digit_value(c, radix as nat) {
            Some(v) => r == Some(v as u64),
            None => r is None,
        },
{
    let u = c as u32;
    let v: u64 = if 48 <= u && u <= 57 {
        (u - 48) as u64
    } else if 97 <= u && u <= 122 {
        (u - 97 + 10) as u64
    } else if 65 <= u && u <= 90 {
        (u - 65 + 10) as u64
    } else {
        99
    };
    if v < radix {
        Some(v)
    } else {
        None
    }
}

/// True when every character of `s` is a digit of `radix`.
pub open spec fn all_digits(s: Seq<char>, radix: nat) -> bool {
    forall|i: int| 0 <= i < s.len() ==> (#[trigger] digit_value(s[i], radix)) is Some
}

/// Positional value of a digit string.
pub open spec fn digits_value(s: Seq<char>, radix: nat) -> nat
    decreases s.len(),
{
    if s.len() == 0 {
        0
    } else {
        let d = match digit_value(s.last(), radix) {
            Some(v) => v,
            None => 0,
        };
        digits_value(s.drop_last(), radix) * radix + d
    }
}

/// The digits that follow an optional leading `'+'`.
pub open spec fn unsigned_body(s: Seq<char>) -> Seq<char> {
    if s.len() > 0 && s[0] == '+' {
        s.skip(1)
    } else {
        s
    }
}

/// What `from_str_radix` (and `str::parse` for radix ten) returns for an
/// unsigned type whose largest value is `max`: an optional `'+'`, then at
/// least one digit, and a value that fits.
pub open spec fn parse_unsigned(s: Seq<char>, radix: nat, max: nat) -> Option<nat> {
    let b = unsigned_body(s);
    if b.len() > 0 && all_digits(b, radix) && digits_value(b, radix) <= max {
        Some(digits_value(b, radix))
    } else {
        None
    }
}

proof fn lemma_digits_value_mono(s: Seq<char>, radix: nat, k: int)
    requires
        2 <= radix,
        0 <= k <= s.len(),
    ensures
        digits_value(s.take(k), radix) <= digits_value(s, radix),
    decreases s.len() - k,
{
    if k < s.len() {
        lemma_digits_value_mono(s, radix, k + 1);
        let t = s.take(k + 1);
        assert(t.drop_last() =~= s.take(k));
        let a = digits_value(s.take(k), radix);
        assert(a * radix >= a) by (nonlinear_arith)
            requires
                radix >= 2,
        ;
    } else {
        assert(s.take(k) =~= s);
    }
}

/// Parse an unsigned integer in `radix`, accepting exactly what
/// `from_str_radix` accepts for an unsigned type whose largest value is
/// `max`.
pub fn parse_unsigned_exec(v: &[char], radix: u64, max: u64) -> (r: Option<u64>)
    requires
        2 <= radix <= 16,
        max >= 16,
    ensures
        match parse_unsigned(v@, radix as nat, max as nat) {
            Some(n) => r == Some(n as u64),
            None => r is None,
        },
{
    let start: usize = if v.len() > 0 && v[0] == '+' { 1 } else { 0 };
    let ghost b = unsigned_body(v@);
    assert(b =~= v@.skip(start as int));
    if start >= v.len() {
        return None;
    }
    let mut acc: u64 = 0;
    let mut i: usize = start;
    while i < v.len()
        invariant
            start <= i <= v@.len(),
            b == v@.skip(start as int),
            b == unsigned_body(v@),
            2 <= radix <= 16,
            max >= 16,
            acc <= max,
            acc as nat == digits_value(b.take(i - start), radix as nat),
            all_digits(b.take(i - start), radix as nat),
        decreases v@.len() - i,
    {
        let ghost k = i - start;
        assert(b.take(k + 1).drop_last() =~= b.take(k));
        assert(b.take(k + 1).last() == v@[i as int]);
        let d = match digit_value_exec(v[i], radix) {
            Some(d) => d,
            None => {
                assert(b[k] == v@[i as int]);
                assert(digit_value(b[k], radix as nat) is None);
                assert(!all_digits(b, radix as nat));
                return None;
            },
        };
        let ghost full = digits_value(b.take(k + 1), radix as nat);
        assert(full == acc * radix + d);
        let q = (max - d) / radix;
        if acc > q {
            proof {
                assert(acc * radix + d > max) by (nonlinear_arith)
                    requires
                        acc > q,
                        q as int == (max as int - d as int) / (radix as int),
                        radix >= 2,
                        d <= max,
                ;
                lemma_digits_value_mono(b, radix as nat, k + 1);
                assert(digits_value(b, radix as nat) > max);
            }
            return None;
        }
        assert(acc * radix + d <= max) by (nonlinear_arith)
            requires
                acc <= q,
                q as int == (max as int - d as int) / (radix as int),
                radix >= 2,
                d <= max,
        ;
        acc = acc * radix + d;
        i = i + 1;
        assert(all_digits(b.take(i - start), radix as nat)) by {
            assert forall|j: int| 0 <= j < b.take(i - start).len() implies (#[trigger] digit_value(
                b.take(i - start)[j],
                radix as nat,
            )) is Some by {
                if j < k {
                    assert(b.take(i - start)[j] == b.take(k)[j]);
                }
            }
        }
    }
    assert(b.take(b.len() as int) =~= b);
    Some(acc)
}

/// `u32` parsed from decimal text, as `str::parse::<u32>` does.
pub fn parse_u32(v: &[char]) -> (r: Option<u32>)
    ensures
        match parse_unsigned(v@, 10, u32::MAX as nat) {
            Some(n) => r == Some(n as u32),
            None => r is None,
        },
{
    match parse_unsigned_exec(v, 10, u32::MAX as u64) {
        Some(n) => Some(n as u32),
        None => None,
    }
}

/// `u64` parsed from decimal text, as `str::parse::<u64>` does.
pub fn parse_u64(v: &[char]) -> (r: Option<u64>)
    ensures
        match parse_unsigned(v@, 10, u64::MAX as nat) {
            Some(n) => r == Some(n as u64),
            None => r is None,
        },
{
    parse_unsigned_exec(v, 10, u64::MAX)
}

/// `u8::from_str_radix(s, 16)`.
pub fn parse_hex_u8(v: &[char]) -> (r: Option<u8>)
    ensures
        match parse_unsigned(v@, 16, u8::MAX as nat) {
            Some(n) => r == Some(n as u8),
            None => r is None,
        },
{
    match parse_unsigned_exec(v, 16, u8::MAX as u64) {
        Some(n) => Some(n as u8),
        None => None,
    }
}

/// `u16::from_str_radix(s, 16)`.
pub fn parse_hex_u16(v: &[char]) -> (r: Option<u16>)
    ensures
        match parse_unsigned(v@, 16, u16::MAX as nat) {
            Some(n) => r == Some(n as u16),
            None => r is None,
        },
{
    match parse_unsigned_exec(v, 16, u16::MAX as u64) {
        Some(n) => Some(n as u16),
        None => None,
    }
}

// ---------------------------------------------------------------------------
// Joining
// ---------------------------------------------------------------------------

/// `parts.join(sep)`.
pub open spec fn join(parts: Seq<Seq<char>>, sep: Seq<char>) -> Seq<char>
    decreases parts.len(),
{
    if parts.len() == 0 {
        Seq::empty()
    } else if parts.len() == 1 {
        parts[0]
    } else {
        join(parts.drop_last(), sep) + sep + parts.last()
    }
}

/// The views of a sequence of strings.
pub open spec fn views(v: Seq<String>) -> Seq<Seq<char>> {
    v.map_values(|x: String| x@)
}

pub proof fn lemma_views_push(s: Seq<String>, x: String)
    ensures
        views(s.push(x)) == views(s).push(x@),
{
    assert(views(s.push(x)) =~= views(s).push(x@));
}

/// `parts.join(sep)` on strings.
pub fn join_strings(parts: &Vec<String>, sep: &str) -> (r: String)
    ensures
        r@ == join(views(parts@), sep@),
{
    let mut r = String::new();
    let mut i: usize = 0;
    while i < parts.len()
        invariant
            i <= parts@.len(),
            r@ == join(views(parts@.take(i as int)), sep@),
        decreases parts@.len() - i,
    {
        let ghost pre = views(parts@.take(i as int));
        let ghost nxt = views(parts@.take((i + 1) as int));
        assert(nxt.drop_last() =~= pre);
        assert(nxt.last() == parts@[i as int]@);
        if i > 0 {
            r.append(sep);
        }
        r.append(parts[i].as_str());
        i = i + 1;
        proof {
            if i == 1 {
                assert(nxt.len() == 1);
                assert(pre.len() == 0);
            }
        }
    }
    assert(parts@.take(parts@.len() as int) =~= parts@);
    r
}

// ---------------------------------------------------------------------------
// Parsing with the error kind that `str::parse` reports
// ---------------------------------------------------------------------------

/// Why an unsigned integer failed to parse.
#[derive(Debug, Clone, Copy, PartialEq, Eq, Structural)]
pub enum ParseErrKind {
    Empty,
    InvalidDigit,
    PosOverflow,
}

/// The first failure met scanning the digits `b` from position `k`: an
/// invalid digit, or a prefix whose value exceeds `max`.
pub open spec fn scan_error(b: Seq<char>, radix: nat, max: nat, k: int) -> Option<ParseErrKind>
    decreases b.len() - k,
{
    if k < 0 || k >= b.len() {
        None
    } else if digit_value(b[k], radix) is None {
        Some(ParseErrKind::InvalidDigit)
    } else if digits_value(b.take(k + 1), radix) > max {
        Some(ParseErrKind::PosOverflow)
    } else {
        scan_error(b, radix, max, k + 1)
    }
}

/// What `from_str_radix` returns for an unsigned type whose largest value
/// is `max`, error kind included.
pub open spec fn parse_full(s: Seq<char>, radix: nat, max: nat) -> core::result::Result<
    nat,
    ParseErrKind,
> {
    if s.len() == 0 {
        Err(ParseErrKind::Empty)
    } else {
        let b = unsigned_body(s);
        if b.len() == 0 {
            Err(ParseErrKind::InvalidDigit)
        } else {
            match scan_error(b, radix, max, 0) {
                Some(e) => Err(e),
                None => Ok(digits_value(b, radix)),
            }
        }
    }
}

/// The text `ParseIntError` displays for each kind.
pub open spec fn parse_err_text(e: ParseErrKind) -> Seq<char> {
    match e {
        ParseErrKind::Empty => "cannot parse integer from empty string"@,
        ParseErrKind::InvalidDigit => "invalid digit found in string"@,
        ParseErrKind::PosOverflow => "number too large to fit in target type"@,
    }
}

pub fn parse_err_message(e: ParseErrKind) -> (r: String)
    ensures
        r@ == parse_err_text(e),
{
    match e {
        ParseErrKind::Empty => String::from_str("cannot parse integer from empty string"),
        ParseErrKind::InvalidDigit => String::from_str("invalid digit found in string"),
        ParseErrKind::PosOverflow => String::from_str("number too large to fit in target type"),
    }
}

proof fn lemma_scan_prefix(b: Seq<char>, radix: nat, max: nat, k: int)
    requires
        0 <= k <= b.len(),
        2 <= radix,
        forall|j: int| 0 <= j < k ==> (#[trigger] digit_value(b[j], radix)) is Some,
        digits_value(b.take(k), radix) <= max,
    ensures
        scan_error(b, radix, max, 0) == scan_error(b, radix, max, k),
    decreases k,
{
    if k > 0 {
        assert(b.take(k).drop_last() =~= b.take(k - 1));
        lemma_digits_value_mono(b.take(k), radix, k - 1);
        assert(b.take(k).take(k - 1) =~= b.take(k - 1));
        lemma_scan_prefix(b, radix, max, k - 1);
    }
}

/// Parse an unsigned integer as `from_str_radix` does, reporting the error
/// kind.
pub fn parse_unsigned_full(v: &[char], radix: u64, max: u64) -> (r: core::result::Result<
    u64,
    ParseErrKind,
>)
    requires
        2 <= radix <= 16,
        max >= 16,
    ensures
        match parse_full(v@, radix as nat, max as nat) {
            Ok(n) => r == Ok::<u64, ParseErrKind>(n as u64) && n <= max,
            Err(e) => r == Err::<u64, ParseErrKind>(e),
        },
{
    if v.len() == 0 {
        return Err(ParseErrKind::Empty);
    }
    let start: usize = if v[0] == '+' { 1 } else { 0 };
    let ghost b = unsigned_body(v@);
    assert(b =~= v@.skip(start as int));
    if start >= v.len() {
        return Err(ParseErrKind::InvalidDigit);
    }
    let mut acc: u64 = 0;
    let mut i: usize = start;
    assert(b.take(0) =~= Seq::<char>::empty());
    while i < v.len()
        invariant
            start <= i <= v@.len(),
            b == v@.skip(start as int),
            b == unsigned_body(v@),
            v@.len() > 0,
            b.len() > 0,
            2 <= radix <= 16,
            max >= 16,
            acc <= max,
            acc as nat == digits_value(b.take(i - start), radix as nat),
            forall|j: int| 0 <= j < i - start ==> (#[trigger] digit_value(b[j], radix as nat)) is Some,
        decreases v@.len() - i,
    {
        let ghost k = i - start;
        proof {
            lemma_scan_prefix(b, radix as nat, max as nat, k);
        }
        assert(b.take(k + 1).drop_last() =~= b.take(k));
        assert(b.take(k + 1).last() == v@[i as int]);
        assert(b[k] == v@[i as int]);
        let d = match digit_value_exec(v[i], radix) {
            Some(d) => d,
            None => {
                return Err(ParseErrKind::InvalidDigit);
            },
        };
        let ghost full = digits_value(b.take(k + 1), radix as nat);
        assert(full == acc * radix + d);
        let q = (max - d) / radix;
        if acc > q {
            assert(acc * radix + d > max) by (nonlinear_arith)
                requires
                    acc > q,
                    q as int == (max as int - d as int) / (radix as int),
                    radix >= 2,
                    d <= max,
            ;
            return Err(ParseErrKind::PosOverflow);
        }
        assert(acc * radix + d <= max) by (nonlinear_arith)
            requires
                acc <= q,
                q as int == (max as int - d as int) / (radix as int),
                radix >= 2,
                d <= max,
        ;
        acc = acc * radix + d;
        i = i + 1;
    }
    proof {
        let k = v@.len() - start;
        assert(b.take(k) =~= b);
        lemma_scan_prefix(b, radix as nat, max as nat, k);
    }
    Ok(acc)
}

/// Lower-case hex digits of a `u128`, as `format!("{:x}", n)` gives.
pub fn u128_to_hex(n: u128) -> (s: String)
    ensures
        s@ == radix_digits(n as nat, 16),
    decreases n,
{
    if n < 16 {
        let mut s = String::new();
        push_char(&mut s, digit_char_exec((n % 16) as u64));
        assert(s@ =~= seq![digit_char((n % 16) as nat)]);
        s
    } else {
        proof {
            lemma_div_smaller(n as nat, 16);
        }
        let mut s = u128_to_hex(n / 16);
        push_char(&mut s, digit_char_exec((n % 16) as u64));
        s
    }
}

} // verus!
