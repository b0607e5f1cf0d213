//! Text encodings used by the OTLP JSON output: decimal integers,
//! fixed-width lowercase hexadecimal, JSON string literals and base64.

use base64::{engine::general_purpose::STANDARD, Engine};
use vstd::prelude::*;

verus! {

/// The ASCII digit for `d` (`d < 10`).
pub open spec fn digit_char(d: nat) -> char {
    (48 + d) as char
}

/// The decimal representation of `n`, without leading zeros.
pub open spec fn decimal(n: nat) -> Seq<char>
    decreases n,
{
    if n < 10 {
        seq![digit_char(n)]
    } else {
        decimal(n / 10).push(digit_char(n % 10))
    }
}

/// The decimal representation of a signed integer (a leading `-` when negative).
pub open spec fn signed_decimal(i: int) -> Seq<char> {
    if i < 0 {
        seq!['-'] + decimal((-i) as nat)
    } else {
        decimal(i as nat)
    }
}

/// The lowercase hexadecimal digit for `d` (`d < 16`).
pub open spec fn hex_char(d: nat) -> char {
    if d < 10 {
        (48 + d) as char
    } else {
        (87 + d) as char
    }
}

/// The `width` least significant hexadecimal digits of `n`, most significant first.
pub open spec fn hex_digits(n: nat, width: nat) -> Seq<char>
    decreases width,
{
    if width == 0 {
        seq![]
    } else {
        hex_digits(n / 16, (width - 1) as nat).push(hex_char(n % 16))
    }
}

fn digit_str(d: u128) -> (s: &'static str)
    requires
        d < 10,
    ensures
        s@ == seq![digit_char(d as nat)],
{
    if d == 0 {
        proof { reveal_strlit("0"); }
        "0"
    } else if d == 1 {
        proof { reveal_strlit("1"); }
        "1"
    } else if d == 2 {
        proof { reveal_strlit("2"); }
        "2"
    } else if d == 3 {
        proof { reveal_strlit("3"); }
        "3"
    } else if d == 4 {
        proof { reveal_strlit("4"); }
        "4"
    } else if d == 5 {
        proof { reveal_strlit("5"); }
        "5"
    } else if d == 6 {
        proof { reveal_strlit("6"); }
        "6"
    } else if d == 7 {
        proof { reveal_strlit("7"); }
        "7"
    } else if d == 8 {
        proof { reveal_strlit("8"); }
        "8"
    } else {
        proof { reveal_strlit("9"); }
        "9"
    }
}

fn hex_str(d: u128) -> (s: &'static str)
    requires
        d < 16,
    ensures
        s@ == seq![hex_char(d as nat)],
{
    if d < 10 {
        digit_str(d)
    } else if d == 10 {
        proof { reveal_strlit("a"); }
        "a"
    } else if d == 11 {
        proof { reveal_strlit("b"); }
        "b"
    } else if d == 12 {
        proof { reveal_strlit("c"); }
        "c"
    } else if d == 13 {
        proof { reveal_strlit("d"); }
        "d"
    } else if d == 14 {
        proof { reveal_strlit("e"); }
        "e"
    } else {
        proof { reveal_strlit("f"); }
        "f"
    }
}

/// Decimal text of an unsigned integer, as `to_string` writes it.
pub fn u128_to_decimal(n: u128) -> (s: String)
    ensures
        s@ == decimal(n as nat),
    decreases n,
{
    if n < 10 {
        let mut s = String::new();
        s.append(digit_str(n));
        s
    } else {
        let mut s = u128_to_decimal(n / 10);
        s.append(digit_str(n % 10));
        s
    }
}

/// Decimal text of a signed 64-bit integer, as `to_string` writes it.
pub fn i64_to_decimal(i: i64) -> (s: String)
    ensures
        s@ == signed_decimal(i as int),
{
    if i < 0 {
        let magnitude: u128 = (0i128 - (i as i128)) as u128;
        let mut s = String::new();
        proof { reveal_strlit("-"); }
        s.append("-");
        let digits = u128_to_decimal(magnitude);
        s.append(digits.as_str());
        s
    } else {
        u128_to_decimal(i as u128)
    }
}

/// The `width` least significant lowercase hexadecimal digits of `n`, zero-padded.
pub fn lower_hex_fixed(n: u128, width: usize) -> (s: String)
    ensures
        s@ == hex_digits(n as nat, width as nat),
    decreases width,
{
    if width == 0 {
        String::new()
    } else {
        let mut s = lower_hex_fixed(n / 16, width - 1);
        s.append(hex_str(n % 16));
        s
    }
}


/// The JSON escape of one character: `"`, `\` and the control characters
/// below U+0020 are escaped (the short forms `\b \t \n \f \r` where they
/// exist, `\u00XX` with lowercase hex otherwise); every other character is
/// written as itself.
pub open spec fn json_escape_char(c: char) -> Seq<char> {
    let u = c as u32;
    if c == '"' {
        seq!['\\', '"']
    } else if c == '\\' {
        seq!['\\', '\\']
    } else if u == 8 {
        seq!['\\', 'b']
    } else if u == 9 {
        seq!['\\', 't']
    } else if u == 10 {
        seq!['\\', 'n']
    } else if u == 12 {
        seq!['\\', 'f']
    } else if u == 13 {
        seq!['\\', 'r']
    } else if u < 32 {
        seq!['\\', 'u', '0', '0', hex_char((u / 16) as nat), hex_char((u % 16) as nat)]
    } else {
        seq![c]
    }
}

/// The escaped contents of a JSON string literal for `s`.
pub open spec fn json_escape(s: Seq<char>) -> Seq<char>
    decreases s.len(),
{
    if s.len() == 0 {
        seq![]
    } else {
        json_escape(s.drop_last()) + json_escape_char(s.last())
    }
}

/// The JSON string literal for `s`: the escaped contents between double quotes.
pub open spec fn json_string(s: Seq<char>) -> Seq<char> {
    seq!['"'] + json_escape(s) + seq!['"']
}

/// No character of `s` needs escaping in a JSON string: no quote, no
/// backslash and no control character.
pub open spec fn json_plain(s: Seq<char>) -> bool {
    forall|i: int| 0 <= i < s.len() ==> #[trigger] s[i] != '"' && s[i] != '\\' && (s[i] as u32) >= 32
}

/// Text without quotes, backslashes and control characters is written into a
/// JSON string as it is.
pub proof fn lemma_plain_needs_no_escape(s: Seq<char>)
    requires
        json_plain(s),
    ensures
        json_escape(s) == s,
        json_string(s) == seq!['"'] + s + seq!['"'],
    decreases s.len(),
{
    if s.len() > 0 {
        let p = s.drop_last();
        assert forall|i: int| 0 <= i < p.len() implies #[trigger] p[i] != '"' && p[i] != '\\' && (p[i] as u32)
            >= 32 by {
            assert(p[i] == s[i]);
        }
        lemma_plain_needs_no_escape(p);
        let c = s.last();
        assert(c == s[s.len() - 1]);
        assert(json_escape_char(c) == seq![c]);
        assert(p.push(c) =~= s);
    }
}

/// The characters of a decimal are ASCII digits.
pub open spec fn all_digits(s: Seq<char>) -> bool {
    forall|i: int| 0 <= i < s.len() ==> '0' <= #[trigger] s[i] <= '9'
}

/// A decimal is a non-empty run of digits.
pub proof fn lemma_decimal_digits(n: nat)
    ensures
        decimal(n).len() >= 1,
        all_digits(decimal(n)),
        json_plain(decimal(n)),
    decreases n,
{
    if n >= 10 {
        lemma_decimal_digits(n / 10);
    }
    assert forall|i: int| 0 <= i < decimal(n).len() implies '0' <= #[trigger] decimal(n)[i] <= '9' by {
        if n >= 10 && i < decimal(n / 10).len() {
            assert(decimal(n)[i] == decimal(n / 10)[i]);
        }
    }
}

/// A signed decimal has no character that needs escaping.
pub proof fn lemma_signed_decimal_plain(i: int)
    ensures
        json_plain(signed_decimal(i)),
{
    if i < 0 {
        lemma_decimal_digits((-i) as nat);
        let d = decimal((-i) as nat);
        assert forall|k: int| 0 <= k < signed_decimal(i).len() implies #[trigger] signed_decimal(i)[k] != '"'
            && signed_decimal(i)[k] != '\\' && (signed_decimal(i)[k] as u32) >= 32 by {
            if k > 0 {
                assert(signed_decimal(i)[k] == d[k - 1]);
            }
        }
    } else {
        lemma_decimal_digits(i as nat);
    }
}

/// The characters are lowercase hexadecimal digits.
pub open spec fn all_lower_hex(s: Seq<char>) -> bool {
    forall|i: int| 0 <= i < s.len() ==> ('0' <= #[trigger] s[i] <= '9' || 'a' <= s[i] <= 'f')
}

/// A fixed-width hex text has exactly `width` lowercase hex digits, none of
/// which needs escaping.
pub proof fn lemma_hex_digits(n: nat, width: nat)
    ensures
        hex_digits(n, width).len() == width,
        all_lower_hex(hex_digits(n, width)),
        json_plain(hex_digits(n, width)),
    decreases width,
{
    if width > 0 {
        lemma_hex_digits(n / 16, (width - 1) as nat);
        let p = hex_digits(n / 16, (width - 1) as nat);
        assert forall|i: int| 0 <= i < hex_digits(n, width).len() implies ('0' <= #[trigger] hex_digits(
            n,
            width,
        )[i] <= '9' || 'a' <= hex_digits(n, width)[i] <= 'f') by {
            if i < p.len() {
                assert(hex_digits(n, width)[i] == p[i]);
            }
        }
    }
}

#[verifier::external_type_specification]
#[verifier::external_body]
pub struct ExJsonError(serde_json::Error);

/// Calls `serde_json::to_string` on a `str`. The contract claims what
/// serde_json's string formatter does (`format_escaped_str` and its `ESCAPE`
/// table): the result is the quoted, escaped string of `json_string`, and
/// serialising a `str` into the in-memory buffer never fails.
#[verifier::external_body]
fn serde_json_str(s: &str) -> (r: Result<String, serde_json::Error>)
    ensures
        r is Ok,
        r matches Ok(t) ==> t@ == json_string(s@),
{
    serde_json::to_string(s)
}

/// The JSON string literal for `s`.
pub fn json_quote(s: &str) -> (r: String)
    ensures
        r@ == json_string(s@),
{
    match serde_json_str(s) {
        Ok(t) => t,
        // Serialising a `str` into memory never fails.
        Err(_) => vstd::pervasive::unreached(),
    }
}

/// The character of the standard base64 alphabet with index `i` (`i < 64`).
pub open spec fn base64_char(i: nat) -> char {
    if i < 26 {
        (65 + i) as char
    } else if i < 52 {
        (71 + i) as char
    } else if i < 62 {
        (i - 4) as char
    } else if i == 62 {
        '+'
    } else {
        '/'
    }
}

/// Standard base64 (RFC 4648 alphabet, `=` padding) of a byte sequence:
/// every three bytes become four characters; a final group of one or two
/// bytes is padded to four characters with `=`.
pub open spec fn base64_standard(b: Seq<u8>) -> Seq<char>
    decreases b.len(),
{
    if b.len() == 0 {
        seq![]
    } else if b.len() == 1 {
        seq![base64_char((b[0] / 4) as nat), base64_char(((b[0] % 4) * 16) as nat), '=', '=']
    } else if b.len() == 2 {
        seq![
            base64_char((b[0] / 4) as nat),
            base64_char(((b[0] % 4) * 16 + b[1] / 16) as nat),
            base64_char(((b[1] % 16) * 4) as nat),
            '=',
        ]
    } else {
        seq![
            base64_char((b[0] / 4) as nat),
            base64_char(((b[0] % 4) * 16 + b[1] / 16) as nat),
            base64_char(((b[1] % 16) * 4 + b[2] / 64) as nat),
            base64_char((b[2] % 64) as nat),
        ] + base64_standard(b.skip(3))
    }
}

/// Calls `Engine::encode` of the base64 crate's `general_purpose::STANDARD`
/// engine. The contract claims the documented behaviour of that engine:
/// standard alphabet with `=` padding, as `base64_standard` states it.
#[verifier::external_body]
pub(crate) fn base64_encode(bytes: &[u8]) -> (r: String)
    ensures
        r@ == base64_standard(bytes@),
{
    STANDARD.encode(bytes)
}

} // verus!
