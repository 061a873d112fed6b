//! Text formatting and parsing helpers: hexadecimal and decimal rendering of
//! integers, and string building.

use vstd::prelude::*;
use vstd::string::*;
use vstd::utf8::*;

verus! {

/// The upper-case hexadecimal digit for `n` (`0 <= n < 16`).
pub open spec fn hex_digit(n: int) -> char {
    if n < 10 {
        (n + 48) as char
    } else {
        (n + 55) as char
    }
}

/// The decimal digit for `n` (`0 <= n < 10`).
pub open spec fn dec_digit(n: int) -> char {
    (n + 48) as char
}

/// A byte as two upper-case hex digits (`{:02X}`).
pub open spec fn hex2(b: u8) -> Seq<char> {
    seq![hex_digit((b / 16) as int), hex_digit((b % 16) as int)]
}

/// A 16-bit value as four upper-case hex digits (`{:04X}`).
pub open spec fn hex4(v: u16) -> Seq<char> {
    seq![
        hex_digit((v / 4096) as int),
        hex_digit(((v / 256) % 16) as int),
        hex_digit(((v / 16) % 16) as int),
        hex_digit((v % 16) as int),
    ]
}

/// A natural number in decimal, without leading zeros (`{}`).
pub open spec fn decimal(n: nat) -> Seq<char>
    decreases n,
{
    if n < 10 {
        seq![dec_digit(n as int)]
    } else {
        decimal(n / 10).push(dec_digit((n % 10) as int))
    }
}

/// Bytes as hex pairs separated by single spaces (`"0A FF 10"`).
pub open spec fn hex_spaced(bytes: Seq<u8>) -> Seq<char>
    decreases bytes.len(),
{
    if bytes.len() == 0 {
        Seq::empty()
    } else if bytes.len() == 1 {
        hex2(bytes[0])
    } else {
        hex_spaced(bytes.drop_last()) + seq![' '] + hex2(bytes.last())
    }
}

/// The items of a byte list as hex pairs separated by `", "`.
pub open spec fn hex_items(bytes: Seq<u8>) -> Seq<char>
    decreases bytes.len(),
{
    if bytes.len() == 0 {
        Seq::empty()
    } else if bytes.len() == 1 {
        hex2(bytes[0])
    } else {
        hex_items(bytes.drop_last()) + seq![',', ' '] + hex2(bytes.last())
    }
}

/// A byte list in hex debug form (`{:02X?}`): `"[80, 01, 00, 04]"`.
pub open spec fn hex_list(bytes: Seq<u8>) -> Seq<char> {
    seq!['['] + hex_items(bytes) + seq![']']
}

/// `String::push`: std documents it as appending the given `char` to the
/// end of the string; the contract says exactly that.
#[verifier::external_body]
pub fn push_char(s: &mut String, c: char)
    ensures
        final(s)@ == old(s)@.push(c),
{
    s.push(c);
}

/// A new string holding `t`.
pub fn owned(t: &str) -> (r: String)
    ensures
        r@ == t@,
{
    t.to_owned()
}

/// Appends a string slice.
pub fn push_str(s: &mut String, t: &str)
    ensures
        final(s)@ == old(s)@ + t@,
{
    s.append(t);
}

/// The upper-case hex digit for a nibble.
pub fn hex_digit_char(n: u8) -> (c: char)
    requires
        n < 16,
    ensures
        c == hex_digit(n as int),
{
    if n < 10 {
        (n + 48) as char
    } else {
        (n + 55) as char
    }
}

/// Appends `{:02X}` of a byte.
pub fn push_hex2(s: &mut String, b: u8)
    ensures
        final(s)@ == old(s)@ + hex2(b),
{
    push_char(s, hex_digit_char(b / 16));
    push_char(s, hex_digit_char(b % 16));
}

/// Appends `{:04X}` of a 16-bit value.
pub fn push_hex4(s: &mut String, v: u16)
    ensures
        final(s)@ == old(s)@ + hex4(v),
{
    push_char(s, hex_digit_char((v / 4096) as u8));
    push_char(s, hex_digit_char(((v / 256) % 16) as u8));
    push_char(s, hex_digit_char(((v / 16) % 16) as u8));
    push_char(s, hex_digit_char((v % 16) as u8));
}

/// Appends the decimal form of `n`.
pub fn push_decimal(s: &mut String, n: u64)
    ensures
        final(s)@ == old(s)@ + decimal(n as nat),
    decreases n,
{
    if n < 10 {
        push_char(s, ((n as u8) + 48) as char);
    } else {
        push_decimal(s, n / 10);
        push_char(s, (((n % 10) as u8) + 48) as char);
    }
}

/// `{:02X?}` of a byte slice.
pub fn hex_list_string(bytes: &[u8]) -> (r: String)
    ensures
        r@ == hex_list(bytes@),
{
    let mut s = String::new();
    push_char(&mut s, '[');
    let mut i: usize = 0;
    while i < bytes.len()
        invariant
            i <= bytes.len(),
            s@ == seq!['['] + hex_items(bytes@.take(i as int)),
        decreases bytes.len() - i,
    {
        if i > 0 {
            push_char(&mut s, ',');
            push_char(&mut s, ' ');
        }
        push_hex2(&mut s, bytes[i]);
        i = i + 1;
        assert(bytes@.take(i as int).drop_last() == bytes@.take((i - 1) as int));
    }
    assert(bytes@.take(bytes.len() as int) == bytes@);
    push_char(&mut s, ']');
    s
}


/// What `String::from_utf8_lossy` makes of a byte sequence. std computes it
/// from the bytes alone; for valid UTF-8 it is the decoded text.
pub uninterp spec fn utf8_lossy(bytes: Seq<u8>) -> Seq<char>;

/// `String::from_utf8_lossy`: decodes UTF-8, replacing invalid sequences
/// with U+FFFD. The contract names the result and states what std documents
/// for valid input: the text it encodes. What the replacement does on
/// invalid input is left unsaid.
#[verifier::external_body]
pub fn from_utf8_lossy(bytes: &[u8]) -> (r: String)
    ensures
        r@ == utf8_lossy(bytes@),
        valid_utf8(bytes@) ==> r@ == decode_utf8(bytes@),
{
    String::from_utf8_lossy(bytes).into_owned()
}

/// The text with its trailing NUL characters removed.
pub open spec fn trim_nul(s: Seq<char>) -> Seq<char>
    decreases s.len(),
{
    if s.len() > 0 && s.last() == '\0' {
        trim_nul(s.drop_last())
    } else {
        s
    }
}

/// `s.trim_end_matches('\0')` as a new string.
pub fn trim_trailing_nul(s: &str) -> (r: String)
    ensures
        r@ == trim_nul(s@),
{
    let n = s.unicode_len();
    let mut k: usize = n;
    assert(s@.take(n as int) == s@);
    while k > 0 && s.get_char(k - 1) == '\0'
        invariant
            k <= n == s@.len(),
            trim_nul(s@.take(k as int)) == trim_nul(s@),
        decreases k,
    {
        assert(s@.take(k as int).drop_last() == s@.take(k - 1));
        k = k - 1;
    }
    let mut out = String::new();
    let mut i: usize = 0;
    while i < k
        invariant
            i <= k <= n == s@.len(),
            out@ == s@.take(i as int),
        decreases k - i,
    {
        push_char(&mut out, s.get_char(i));
        i = i + 1;
        assert(s@.take(i as int) == s@.take(i - 1).push(s@[i - 1]));
    }
    out
}


// ---- character classes and number parsing ---------------------------------------

/// `char::to_ascii_lowercase`.
pub open spec fn ascii_lower(c: char) -> char {
    if 'A' <= c && c <= 'Z' {
        ((c as int) + 32) as char
    } else {
        c
    }
}

/// `str::to_ascii_lowercase`, character by character.
pub open spec fn lower(s: Seq<char>) -> Seq<char> {
    s.map_values(|c: char| ascii_lower(c))
}

/// `char::is_whitespace`: the Unicode White_Space characters.
pub open spec fn is_ws(c: char) -> bool {
    ||| ('\u{9}' <= c && c <= '\u{d}')
    ||| c == ' '
    ||| c == '\u{85}'
    ||| c == '\u{a0}'
    ||| c == '\u{1680}'
    ||| ('\u{2000}' <= c && c <= '\u{200a}')
    ||| c == '\u{2028}'
    ||| c == '\u{2029}'
    ||| c == '\u{202f}'
    ||| c == '\u{205f}'
    ||| c == '\u{3000}'
}

/// The characters of `s` that are not whitespace, in order.
pub open spec fn without_ws(s: Seq<char>) -> Seq<char>
    decreases s.len(),
{
    if s.len() == 0 {
        s
    } else if is_ws(s.last()) {
        without_ws(s.drop_last())
    } else {
        without_ws(s.drop_last()).push(s.last())
    }
}

/// The value of a digit character in bases up to 36 (`char::to_digit`);
/// 36 for anything that is no digit in any base.
pub open spec fn digit_value(c: char) -> nat {
    if '0' <= c && c <= '9' {
        (c as int - '0' as int) as nat
    } else if 'a' <= c && c <= 'z' {
        (c as int - 'a' as int + 10) as nat
    } else if 'A' <= c && c <= 'Z' {
        (c as int - 'A' as int + 10) as nat
    } else {
        36
    }
}

/// `char::is_ascii_hexdigit`.
pub open spec fn is_hex_digit(c: char) -> bool {
    digit_value(c) < 16
}

/// Every character of `s` is a digit in base `radix`.
pub open spec fn all_digits(s: Seq<char>, radix: nat) -> bool {
    forall|i: int| 0 <= i < s.len() ==> #[trigger] digit_value(s[i]) < radix
}

/// The number the digits of `s` spell in base `radix`.
pub open spec fn digits_value(s: Seq<char>, radix: nat) -> nat
    decreases s.len(),
{
    if s.len() == 0 {
        0
    } else {
        digits_value(s.drop_last(), radix) * radix + digit_value(s.last())
    }
}

/// What `from_str_radix(s, radix)` gives for an unsigned type whose values
/// are below `bound`: an optional `+`, then at least one digit, all digits
/// of the base, and a value that fits.
pub open spec fn parse_radix(s: Seq<char>, radix: nat, bound: nat) -> Option<nat> {
    let digits = if s.len() > 0 && s[0] == '+' {
        s.skip(1)
    } else {
        s
    };
    if digits.len() > 0 && all_digits(digits, radix) && digits_value(digits, radix) < bound {
        Some(digits_value(digits, radix))
    } else {
        None
    }
}

proof fn lemma_digits_value_grows(s: Seq<char>, radix: nat, i: int, j: int)
    requires
        radix >= 1,
        0 <= i <= j <= s.len(),
    ensures
        digits_value(s.take(i), radix) <= digits_value(s.take(j), radix),
    decreases j - i,
{
    if i < j {
        lemma_digits_value_grows(s, radix, i, j - 1);
        assert(s.take(j).drop_last() == s.take(j - 1));
        let v = digits_value(s.take(j - 1), radix);
        assert(v * radix >= v) by (nonlinear_arith)
            requires
                radix >= 1,
        ;
    }
}

/// `to_digit` on one character, as an integer (36 when no digit).
pub fn digit_value_of(c: char) -> (r: u32)
    ensures
        r == digit_value(c),
{
    if '0' <= c && c <= '9' {
        (c as u32) - ('0' as u32)
    } else if 'a' <= c && c <= 'z' {
        (c as u32) - ('a' as u32) + 10
    } else if 'A' <= c && c <= 'Z' {
        (c as u32) - ('A' as u32) + 10
    } else {
        36
    }
}

/// `from_str_radix` on the characters `s[start..end]`, for an unsigned type
/// whose values are below `bound`.
pub fn parse_radix_chars(s: &Vec<char>, start: usize, end: usize, radix: u32, bound: u32) -> (r:
    Option<u32>)
    requires
        start <= end <= s.len(),
        2 <= radix <= 16,
        1 <= bound <= 0x10000,
    ensures
        match parse_radix(s@.subrange(start as int, end as int), radix as nat, bound as nat) {
            Some(v) => r == Some(v as u32),
            None => r is None,
        },
{
    let ghost whole = s@.subrange(start as int, end as int);
    let mut first = start;
    if start < end && s[start] == '+' {
        first = start + 1;
    }
    let ghost digits = s@.subrange(first as int, end as int);
    assert(digits == if whole.len() > 0 && whole[0] == '+' {
        whole.skip(1)
    } else {
        whole
    });
    if first == end {
        return None;
    }
    let mut acc: u32 = 0;
    let mut i: usize = first;
    while i < end
        invariant
            start <= first <= i <= end <= s.len(),
            digits == s@.subrange(first as int, end as int),
            whole == s@.subrange(start as int, end as int),
            digits == if whole.len() > 0 && whole[0] == '+' {
                whole.skip(1)
            } else {
                whole
            },
            digits.len() > 0,
            2 <= radix <= 16,
            bound <= 0x10000,
            acc < bound,
            all_digits(digits.take(i - first), radix as nat),
            acc == digits_value(digits.take(i - first), radix as nat),
        decreases end - i,
    {
        let d = digit_value_of(s[i]);
        if d >= radix {
            assert(digits[i - first] == s@[i as int]);
            assert(digit_value(digits[(i - first) as int]) >= radix);
            return None;
        }
        let ghost k = (i - first) as int;
        assert(digits.take(k + 1).drop_last() == digits.take(k));
        assert(digits.take(k + 1).last() == s@[i as int]);
        assert(acc * radix + d <= 0x10000 * 16 + 16) by (nonlinear_arith)
            requires
                acc < 0x10000,
                radix <= 16,
                d < 16,
        ;
        acc = acc * radix + d;
        i = i + 1;
        assert(acc == digits_value(digits.take(k + 1), radix as nat));
        assert(all_digits(digits.take(k + 1), radix as nat)) by {
            assert forall|j: int| 0 <= j < k + 1 implies #[trigger] digit_value(
                digits.take(k + 1)[j],
            ) < radix as nat by {
                if j < k {
                    assert(digits.take(k + 1)[j] == digits.take(k)[j]);
                }
            }
        }
        if acc >= bound {
            proof {
                if all_digits(digits, radix as nat) {
                    lemma_digits_value_grows(digits, radix as nat, k + 1, digits.len() as int);
                    assert(digits.take(digits.len() as int) == digits);
                }
            }
            return None;
        }
    }
    assert(digits.take(i - first) == digits);
    Some(acc)
}

/// The characters of `s`, each lower-cased if it is an ASCII letter.
pub fn lower_chars(s: &str) -> (r: Vec<char>)
    ensures
        r@ == lower(s@),
{
    let n = s.unicode_len();
    let mut out: Vec<char> = Vec::new();
    let mut i: usize = 0;
    while i < n
        invariant
            i <= n == s@.len(),
            out@ == lower(s@.take(i as int)),
        decreases n - i,
    {
        let c = s.get_char(i);
        let l = if 'A' <= c && c <= 'Z' {
            ((c as u32) + 32) as u8 as char
        } else {
            c
        };
        out.push(l);
        i = i + 1;
        assert(lower(s@.take(i as int)) =~= lower(s@.take(i - 1)).push(ascii_lower(c)));
    }
    assert(s@.take(n as int) == s@);
    out
}

/// Whether the characters `t` equal the string `lit`.
pub fn chars_eq(t: &Vec<char>, lit: &str) -> (r: bool)
    ensures
        r == (t@ == lit@),
{
    let n = lit.unicode_len();
    if t.len() != n {
        return false;
    }
    let mut i: usize = 0;
    while i < n
        invariant
            i <= n == t.len() == lit@.len(),
            forall|j: int| 0 <= j < i ==> t@[j] == lit@[j],
        decreases n - i,
    {
        if t[i] != lit.get_char(i) {
            return false;
        }
        i = i + 1;
    }
    assert(t@ =~= lit@);
    true
}

/// Whether the characters `t` start with the string `lit`.
pub fn chars_start_with(t: &Vec<char>, lit: &str) -> (r: bool)
    ensures
        r == (lit@.len() <= t@.len() && t@.take(lit@.len() as int) == lit@),
{
    let n = lit.unicode_len();
    if t.len() < n {
        return false;
    }
    let mut i: usize = 0;
    while i < n
        invariant
            i <= n == lit@.len() <= t.len(),
            forall|j: int| 0 <= j < i ==> t@[j] == lit@[j],
        decreases n - i,
    {
        if t[i] != lit.get_char(i) {
            assert(t@.take(n as int)[i as int] != lit@[i as int]);
            return false;
        }
        i = i + 1;
    }
    assert(t@.take(n as int) =~= lit@);
    true
}


/// Bytes as hex pairs separated by single spaces.
pub fn hex_spaced_string(bytes: &[u8]) -> (r: String)
    ensures
        r@ == hex_spaced(bytes@),
{
    let mut s = String::new();
    let mut i: usize = 0;
    while i < bytes.len()
        invariant
            i <= bytes.len(),
            s@ == hex_spaced(bytes@.take(i as int)),
        decreases bytes.len() - i,
    {
        if i > 0 {
            push_char(&mut s, ' ');
        }
        push_hex2(&mut s, bytes[i]);
        i = i + 1;
        assert(bytes@.take(i as int).drop_last() == bytes@.take((i - 1) as int));
    }
    assert(bytes@.take(bytes.len() as int) == bytes@);
    s
}


pub proof fn lemma_decimal_first_digit(n: nat)
    ensures
        '0' <= decimal(n)[0] && decimal(n)[0] <= '9',
{
    lemma_decimal_digits(n);
}

proof fn lemma_decimal_digits(n: nat)
    ensures
        decimal(n).len() > 0,
        all_digits(decimal(n), 10),
        digits_value(decimal(n), 10) == n,
        '0' <= decimal(n)[0] && decimal(n)[0] <= '9',
    decreases n,
{
    if n >= 10 {
        lemma_decimal_digits(n / 10);
        let d = decimal(n);
        assert(d.drop_last() == decimal(n / 10));
        assert(digit_value(d.last()) == n % 10);
        assert(digits_value(d, 10) == digits_value(decimal(n / 10), 10) * 10 + digit_value(d.last()));
        assert((n / 10) * 10 + n % 10 == n);
        assert forall|i: int| 0 <= i < d.len() implies #[trigger] digit_value(d[i]) < 10 by {
            if i < d.len() - 1 {
                assert(d[i] == decimal(n / 10)[i]);
            }
        }
        assert(d[0] == decimal(n / 10)[0]);
    } else {
        let d = decimal(n);
        assert(d.drop_last() =~= Seq::<char>::empty());
        assert(digit_value(d.last()) == n);
        assert(digits_value(d, 10) == digits_value(d.drop_last(), 10) * 10 + digit_value(d.last()));
        assert(digits_value(Seq::<char>::empty(), 10) == 0);
    }
}

/// A number written in decimal parses back to itself (when it fits).
pub proof fn law_decimal_parses_back(n: nat, bound: nat)
    requires
        n < bound,
    ensures
        parse_radix(decimal(n), 10, bound) == Some(n),
{
    lemma_decimal_digits(n);
}

/// An upper-case hex digit, lower-cased, is still the digit of `n`, and is
/// neither whitespace, a colon nor a plus sign.
pub proof fn lemma_lower_hex_digit(n: int)
    requires
        0 <= n < 16,
    ensures
        digit_value(ascii_lower(hex_digit(n))) == n,
        !is_ws(ascii_lower(hex_digit(n))),
        ascii_lower(hex_digit(n)) != ':',
        ascii_lower(hex_digit(n)) != '+',
{
}

/// Lower-casing works character by character, so it distributes over
/// joining.
pub proof fn lemma_lower_concat(a: Seq<char>, b: Seq<char>)
    ensures
        lower(a + b) == lower(a) + lower(b),
{
    assert(lower(a + b) =~= lower(a) + lower(b));
}

/// Text without whitespace is left as it is by dropping whitespace.
pub proof fn lemma_without_ws_none(s: Seq<char>)
    requires
        forall|i: int| 0 <= i < s.len() ==> !is_ws(#[trigger] s[i]),
    ensures
        without_ws(s) == s,
    decreases s.len(),
{
    if s.len() > 0 {
        lemma_without_ws_none(s.drop_last());
        assert(s.drop_last().push(s.last()) =~= s);
    }
}

/// Four hex digits, read in base 16.
pub proof fn lemma_digits_value_4(d: Seq<char>)
    requires
        d.len() == 4,
    ensures
        digits_value(d, 16) == ((digit_value(d[0]) * 16 + digit_value(d[1])) * 16 + digit_value(
            d[2],
        )) * 16 + digit_value(d[3]),
{
    let d3 = d.drop_last();
    let d2 = d3.drop_last();
    let d1 = d2.drop_last();
    assert(d1.drop_last() =~= Seq::<char>::empty());
    assert(digits_value(d1.drop_last(), 16) == 0);
    assert(d1.last() == d[0]);
    assert(digits_value(d1, 16) == digit_value(d[0]));
    assert(digits_value(d2, 16) == digits_value(d1, 16) * 16 + digit_value(d[1]));
    assert(digits_value(d3, 16) == digits_value(d2, 16) * 16 + digit_value(d[2]));
}

/// Two hex digits, read in base 16.
pub proof fn lemma_digits_value_2(d: Seq<char>)
    requires
        d.len() == 2,
    ensures
        digits_value(d, 16) == digit_value(d[0]) * 16 + digit_value(d[1]),
{
    let d1 = d.drop_last();
    assert(d1.drop_last() =~= Seq::<char>::empty());
    assert(digits_value(d1.drop_last(), 16) == 0);
    assert(d1.last() == d[0]);
    assert(digits_value(d1, 16) == digit_value(d[0]));
}

/// A byte written as two hex digits, in either case, parses back to itself.
pub proof fn law_hex2_parses_back(b: u8)
    ensures
        lower(hex2(b)).len() == 2,
        forall|i: int| 0 <= i < 2 ==> #[trigger] is_hex_digit(lower(hex2(b))[i]) && lower(hex2(b))[i]
            != ':' && !is_ws(lower(hex2(b))[i]),
        raw_byte(lower(hex2(b))[0], lower(hex2(b))[1]) == b,
        parse_radix(lower(hex2(b)), 16, 0x100) == Some(b as nat),
{
    let d = lower(hex2(b));
    lemma_lower_hex_digit((b / 16) as int);
    lemma_lower_hex_digit((b % 16) as int);
    lemma_digits_value_2(d);
    assert(all_digits(d, 16));
}

/// The byte two hex digits spell.
pub open spec fn raw_byte(hi: char, lo: char) -> u8 {
    (digit_value(hi) * 16 + digit_value(lo)) as u8
}

/// A 16-bit value written as four hex digits, in either case, parses back
/// to itself.
pub proof fn law_hex4_parses_back(v: u16)
    ensures
        lower(hex4(v)).len() == 4,
        forall|i: int| 0 <= i < 4 ==> #[trigger] is_hex_digit(lower(hex4(v))[i]) && lower(hex4(v))[i]
            != ':' && !is_ws(lower(hex4(v))[i]),
        parse_radix(lower(hex4(v)), 16, 0x10000) == Some(v as nat),
{
    let d = lower(hex4(v));
    lemma_lower_hex_digit((v / 4096) as int);
    lemma_lower_hex_digit(((v / 256) % 16) as int);
    lemma_lower_hex_digit(((v / 16) % 16) as int);
    lemma_lower_hex_digit((v % 16) as int);
    lemma_digits_value_4(d);
    assert(all_digits(d, 16));
    assert((((v / 4096) * 16 + (v / 256) % 16) * 16 + (v / 16) % 16) * 16 + v % 16 == v)
        by (bit_vector);
}

} // verus!
