//! Unsigned integers as text: reading them in a radix, the way the standard
//! library's `from_str_radix` does, and writing them in decimal.
use vstd::prelude::*;
use vstd::string::{StrSliceExecFns, StringSliceAdditionalSpecFns};

verus! {

/// Why a text is not an unsigned integer, detected in the same order as the
/// standard library's integer parsing does.
#[derive(Clone, Copy, Debug, PartialEq, Eq, Structural)]
pub enum IntErrorKind {
    /// The text is empty.
    Empty,
    /// A character is not a digit of the radix (a lone sign counts as one).
    InvalidDigit,
    /// The digits read so far already exceed the largest value allowed.
    PosOverflow,
}

/// The value of `c` as a digit in any radix up to 36: `0`-`9`, then the
/// letters in either case.
pub open spec fn digit_value(c: char) -> Option<nat> {
    if '0' <= c && c <= '9' {
        Some((c as nat - '0' as nat) as nat)
    } else if 'a' <= c && c <= 'z' {
        Some((c as nat - 'a' as nat + 10) as nat)
    } else if 'A' <= c && c <= 'Z' {
        Some((c as nat - 'A' as nat + 10) as nat)
    } else {
        None
    }
}

/// The value of `c` as a digit of `radix`, if it is one.
pub open spec fn digit_in_radix(c: char, radix: nat) -> Option<nat> {
    match digit_value(c) {
        Some(d) => if d < radix { Some(d) } else { None },
        None => None,
    }
}

/// Reads `s` digit by digit from the left: the first character that is no
/// digit, or the first prefix whose value exceeds `max`, decides the error.
pub open spec fn scan_digits(s: Seq<char>, radix: nat, max: nat) -> Result<nat, IntErrorKind>
    decreases s.len(),
{
    if s.len() == 0 {
        Ok(0)
    } else {
        match scan_digits(s.drop_last(), radix, max) {
            Err(e) => Err(e),
            Ok(v) => match digit_in_radix(s.last(), radix) {
                None => Err(IntErrorKind::InvalidDigit),
                Some(d) => if v * radix + d > max {
                    Err(IntErrorKind::PosOverflow)
                } else {
                    Ok(v * radix + d)
                },
            },
        }
    }
}

/// An unsigned integer of at most `max` written in `radix`: an optional `+`
/// and at least one digit; nothing else.
pub open spec fn parse_unsigned(s: Seq<char>, radix: nat, max: nat) -> Result<nat, IntErrorKind> {
    if s.len() == 0 {
        Err(IntErrorKind::Empty)
    } else if s.len() == 1 && (s[0] == '+' || s[0] == '-') {
        Err(IntErrorKind::InvalidDigit)
    } else if s[0] == '+' {
        scan_digits(s.drop_first(), radix, max)
    } else {
        scan_digits(s, radix, max)
    }
}

/// The text read as a decimal `u64`, as `str::parse::<u64>` reads it.
pub open spec fn parse_u64_text(s: Seq<char>) -> Result<nat, IntErrorKind> {
    parse_unsigned(s, 10, u64::MAX as nat)
}

/// The text read as a hexadecimal `u128`, as `u128::from_str_radix(s, 16)` reads it.
pub open spec fn parse_hex_u128_text(s: Seq<char>) -> Result<nat, IntErrorKind> {
    parse_unsigned(s, 16, u128::MAX as nat)
}

/// A result of the executable parser, seen as a mathematical one.
pub open spec fn result_as_nat(r: Result<u128, IntErrorKind>) -> Result<nat, IntErrorKind> {
    match r {
        Ok(v) => Ok(v as nat),
        Err(e) => Err(e),
    }
}

/// `s` with every leading `"0x"` removed, one after the other (what
/// `str::trim_start_matches("0x")` gives).
pub open spec fn strip_hex_prefixes(s: Seq<char>) -> Seq<char>
    decreases s.len(),
{
    if s.len() >= 2 && s[0] == '0' && s[1] == 'x' {
        strip_hex_prefixes(s.skip(2))
    } else {
        s
    }
}

/// The decimal digits of `n`, most significant first, as ASCII bytes.
pub open spec fn decimal_bytes(n: nat) -> Seq<u8>
    decreases n,
{
    if n < 10 {
        seq![(n + 48) as u8]
    } else {
        decimal_bytes(n / 10).push((n % 10 + 48) as u8)
    }
}

/// ASCII bytes seen as the characters they encode.
pub open spec fn ascii_chars(b: Seq<u8>) -> Seq<char> {
    Seq::new(b.len(), |i: int| b[i] as char)
}

/// The characters of a string, in order.
pub fn chars_of(s: &str) -> (v: Vec<char>)
    ensures
        v@ == s@,
{
    let mut v: Vec<char> = Vec::new();
    for c in it: s.chars()
        invariant
            v@ == it.seq().take(it.index() as int),
    {
        v.push(c);
    }
    v
}

/// The value of `c` as a digit of `radix`.
pub fn digit_of(c: char, radix: u32) -> (d: Option<u32>)
    requires
        2 <= radix <= 36,
    ensures
        match digit_in_radix(c, radix as nat) {
            Some(v) => d == Some(v as u32),
            None => d is None,
        },
{
    let v: u32 = if '0' <= c && c <= '9' {
        (c as u32) - ('0' as u32)
    } else if 'a' <= c && c <= 'z' {
        (c as u32) - ('a' as u32) + 10
    } else if 'A' <= c && c <= 'Z' {
        (c as u32) - ('A' as u32) + 10
    } else {
        return None;
    };
    if v < radix {
        Some(v)
    } else {
        None
    }
}

/// An error met in a prefix of the digits is the error of all of them.
proof fn lemma_scan_error_extends(s: Seq<char>, k: int, radix: nat, max: nat)
    requires
        0 <= k <= s.len(),
        scan_digits(s.take(k), radix, max) is Err,
    ensures
        scan_digits(s, radix, max) == scan_digits(s.take(k), radix, max),
    decreases s.len(),
{
    if k == s.len() {
        assert(s.take(k) =~= s);
    } else {
        assert(s.drop_last().take(k) =~= s.take(k));
        lemma_scan_error_extends(s.drop_last(), k, radix, max);
    }
}

/// A value read never exceeds the bound it was read under.
pub proof fn parsed_value_is_bounded(s: Seq<char>, radix: nat, max: nat)
    ensures
        parse_unsigned(s, radix, max) matches Ok(v) ==> v <= max,
{
    if s.len() > 0 && s[0] == '+' {
        lemma_scan_bounded(s.drop_first(), radix, max);
    } else {
        lemma_scan_bounded(s, radix, max);
    }
}

proof fn lemma_scan_bounded(s: Seq<char>, radix: nat, max: nat)
    ensures
        scan_digits(s, radix, max) matches Ok(v) ==> v <= max,
    decreases s.len(),
{
    if s.len() > 0 {
        lemma_scan_bounded(s.drop_last(), radix, max);
    }
}

/// Reads `s` as an unsigned integer of at most `max` in `radix`.
pub fn parse_unsigned_text(s: &str, radix: u32, max: u128) -> (res: Result<u128, IntErrorKind>)
    requires
        2 <= radix <= 36,
    ensures
        result_as_nat(res) == parse_unsigned(s@, radix as nat, max as nat),
{
    let cs = chars_of(s);
    let n: usize = cs.len();
    if n == 0 {
        return Err(IntErrorKind::Empty);
    }
    if n == 1 && (cs[0] == '+' || cs[0] == '-') {
        return Err(IntErrorKind::InvalidDigit);
    }
    let start: usize = if cs[0] == '+' { 1 } else { 0 };
    let ghost digits = cs@.subrange(start as int, n as int);
    proof {
        if start == 1 {
            assert(digits =~= s@.drop_first());
        } else {
            assert(digits =~= s@);
        }
        assert(digits.take(0) =~= Seq::<char>::empty());
    }
    let mut acc: u128 = 0;
    let mut i: usize = start;
    while i < n
        invariant
            start <= i <= n,
            n == cs@.len(),
            digits == cs@.subrange(start as int, n as int),
            parse_unsigned(s@, radix as nat, max as nat) == scan_digits(digits, radix as nat, max as nat),
            2 <= radix <= 36,
            scan_digits(digits.take(i - start), radix as nat, max as nat) == Ok::<nat, IntErrorKind>(acc as nat),
        decreases n - i,
    {
        let ghost pre = digits.take(i - start);
        let ghost next = digits.take(i + 1 - start);
        assert(next.drop_last() =~= pre);
        assert(next.last() == cs@[i as int]);
        let d = digit_of(cs[i], radix);
        match d {
            None => {
                proof {
                    lemma_scan_error_extends(digits, i + 1 - start, radix as nat, max as nat);
                }
                return Err(IntErrorKind::InvalidDigit);
            },
            Some(d) => {
                let grown: Option<u128> = match acc.checked_mul(radix as u128) {
                    Some(m) => m.checked_add(d as u128),
                    None => None,
                };
                match grown {
                    Some(v) => {
                        if v > max {
                            proof {
                                lemma_scan_error_extends(digits, i + 1 - start, radix as nat, max as nat);
                            }
                            return Err(IntErrorKind::PosOverflow);
                        }
                        acc = v;
                    },
                    None => {
                        proof {
                            assert(acc * radix + d > u128::MAX) by (nonlinear_arith)
                                requires
                                    (acc * radix > u128::MAX) || (acc * radix + d > u128::MAX),
                                    d >= 0;
                            lemma_scan_error_extends(digits, i + 1 - start, radix as nat, max as nat);
                        }
                        return Err(IntErrorKind::PosOverflow);
                    },
                }
            },
        }
        i = i + 1;
    }
    proof {
        assert(digits.take(n - start) =~= digits);
    }
    Ok(acc)
}

/// The decimal digits of `n` as ASCII bytes.
pub fn decimal_text(n: u64) -> (out: Vec<u8>)
    ensures
        out@ == decimal_bytes(n as nat),
    decreases n,
{
    if n < 10 {
        let mut out: Vec<u8> = Vec::new();
        out.push((n + 48) as u8);
        proof {
            assert(out@ =~= seq![(n + 48) as u8]);
        }
        out
    } else {
        let mut out = decimal_text(n / 10);
        out.push((n % 10 + 48) as u8);
        out
    }
}

proof fn lemma_decimal_bytes_are_digits(n: nat)
    ensures
        decimal_bytes(n).len() >= 1,
        forall|i: int| 0 <= i < decimal_bytes(n).len() ==> 48 <= #[trigger] decimal_bytes(n)[i] <= 57,
    decreases n,
{
    if n >= 10 {
        lemma_decimal_bytes_are_digits(n / 10);
    }
}

proof fn lemma_scan_decimal(n: nat, max: nat)
    requires
        n <= max,
    ensures
        scan_digits(ascii_chars(decimal_bytes(n)), 10, max) == Ok::<nat, IntErrorKind>(n),
    decreases n,
{
    let s = ascii_chars(decimal_bytes(n));
    if n < 10 {
        assert(s.drop_last() =~= Seq::<char>::empty());
        let c = s.last();
        assert(c == ((n + 48) as u8) as char);
        assert(c as nat == n + 48);
        assert(digit_in_radix(c, 10) == Some(n));
        assert(scan_digits(Seq::<char>::empty(), 10, max) == Ok::<nat, IntErrorKind>(0));
        assert(scan_digits(s.drop_last(), 10, max) == Ok::<nat, IntErrorKind>(0));
        assert(0 * 10 + n == n);
    } else {
        lemma_scan_decimal(n / 10, max);
        assert(s.drop_last() =~= ascii_chars(decimal_bytes(n / 10)));
        let c = s.last();
        assert(c == ((n % 10 + 48) as u8) as char);
        assert(c as nat == n % 10 + 48);
        assert(digit_in_radix(c, 10) == Some((n % 10) as nat));
        assert((n / 10) * 10 + n % 10 == n);
        assert(scan_digits(s.drop_last(), 10, max) == Ok::<nat, IntErrorKind>(n / 10));
    }
}

/// Reading back the decimal text of any `u64` gives the number again.
pub proof fn decimal_text_reads_back(n: u64)
    ensures
        parse_u64_text(ascii_chars(decimal_bytes(n as nat))) == Ok::<nat, IntErrorKind>(n as nat),
{
    lemma_decimal_bytes_are_digits(n as nat);
    lemma_scan_decimal(n as nat, u64::MAX as nat);
    let s = ascii_chars(decimal_bytes(n as nat));
    assert(48 <= decimal_bytes(n as nat)[0] <= 57);
    assert(s[0] != '+' && s[0] != '-');
}

/// Appends the bytes of `more` to `out`.
pub fn append_bytes(out: &mut Vec<u8>, more: &[u8])
    ensures
        final(out)@ == old(out)@ + more@,
{
    let ghost start = out@;
    for i in 0..more.len()
        invariant
            out@ == start + more@.take(i as int),
    {
        out.push(more[i]);
        assert(more@.take(i + 1) =~= more@.take(i as int).push(more@[i as int]));
    }
    assert(more@.take(more@.len() as int) =~= more@);
}

/// Appends the UTF-8 bytes of `s` to `out`.
pub fn append_text(out: &mut Vec<u8>, s: &str)
    ensures
        final(out)@ == old(out)@ + s.spec_bytes(),
{
    append_bytes(out, s.as_bytes());
}

/// Index just past the leading `"0x"` prefixes of `cs`.
fn hex_prefixes_end(cs: &Vec<char>) -> (k: usize)
    ensures
        k <= cs@.len(),
        strip_hex_prefixes(cs@) == cs@.skip(k as int),
{
    let mut k: usize = 0;
    proof {
        assert(cs@.skip(0) =~= cs@);
    }
    while k < cs.len() && cs.len() - k >= 2 && cs[k] == '0' && cs[k + 1] == 'x'
        invariant
            k <= cs@.len(),
            strip_hex_prefixes(cs@) == strip_hex_prefixes(cs@.skip(k as int)),
        decreases cs@.len() - k,
    {
        let ghost rest = cs@.skip(k as int);
        assert(rest[0] == '0' && rest[1] == 'x');
        assert(rest.skip(2) =~= cs@.skip(k + 2));
        assert(strip_hex_prefixes(rest) == strip_hex_prefixes(rest.skip(2)));
        k = k + 2;
    }
    proof {
        let rest = cs@.skip(k as int);
        if rest.len() >= 2 {
            assert(rest[0] == cs@[k as int] && rest[1] == cs@[k + 1]);
        }
    }
    k
}

/// `s` with every leading `"0x"` removed.
pub fn trim_hex_prefixes(s: &str) -> (t: &str)
    ensures
        t@ == strip_hex_prefixes(s@),
{
    let cs = chars_of(s);
    let k: usize = hex_prefixes_end(&cs);
    s.substring_char(k, cs.len())
}

} // verus!
