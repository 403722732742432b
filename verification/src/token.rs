//! The opaque token carried by a challenge button.
//!
//! A token is the fixed marker, an underscore, and the challenged member's
//! identity in canonical decimal form, e.g. `notabot_42`. The identity is thus
//! recovered from the token alone, with no session state.

use vstd::prelude::*;
use vstd::string::*;
use vstd::utf8::is_ascii_chars;

verus! {

/// The character of the decimal digit `d`.
pub open spec fn digit_char(d: int) -> char {
    if d == 0 {
        '0'
    } else if d == 1 {
        '1'
    } else if d == 2 {
        '2'
    } else if d == 3 {
        '3'
    } else if d == 4 {
        '4'
    } else if d == 5 {
        '5'
    } else if d == 6 {
        '6'
    } else if d == 7 {
        '7'
    } else if d == 8 {
        '8'
    } else {
        '9'
    }
}

/// The decimal digits of `n`, most significant first, without leading zeros.
pub open spec fn digits(n: nat) -> Seq<char>
    decreases n,
{
    if n < 10 {
        seq![digit_char(n as int)]
    } else {
        digits(n / 10).push(digit_char((n % 10) as int))
    }
}

/// The canonical decimal form of `i`: a minus sign for negative numbers, then the
/// digits of the magnitude.
pub open spec fn decimal(i: int) -> Seq<char> {
    if i < 0 {
        seq!['-'] + digits((-i) as nat)
    } else {
        digits(i as nat)
    }
}

/// The fixed text every challenge token starts with, separator included.
pub open spec fn marker_prefix() -> Seq<char> {
    seq!['n', 'o', 't', 'a', 'b', 'o', 't', '_']
}

/// The token that binds a challenge to the member `identity`.
pub open spec fn challenge_token(identity: int) -> Seq<char> {
    marker_prefix() + decimal(identity)
}

/// Whether `c` is one of the ten decimal digits.
pub open spec fn is_digit(c: char) -> bool {
    '0' <= c && c <= '9'
}

/// The number a decimal digit stands for.
pub open spec fn digit_value(c: char) -> nat {
    (c as u32 - '0' as u32) as nat
}

/// The number that a run of decimal digits denotes, most significant first.
pub open spec fn digits_value(s: Seq<char>) -> nat
    decreases s.len(),
{
    if s.len() == 0 {
        0
    } else {
        digits_value(s.drop_last()) * 10 + digit_value(s.last())
    }
}

/// A non-empty run of decimal digits without a superfluous leading zero.
pub open spec fn is_canonical_digits(s: Seq<char>) -> bool {
    &&& s.len() >= 1
    &&& forall|i: int| 0 <= i < s.len() ==> is_digit(#[trigger] s[i])
    &&& s.len() > 1 ==> s[0] != '0'
}

/// The number denoted by `s` if `s` is canonical and the number is at most `limit`.
spec fn bounded_value(s: Seq<char>, limit: nat) -> Option<u64> {
    if is_canonical_digits(s) && digits_value(s) <= limit {
        Some(digits_value(s) as u64)
    } else {
        None
    }
}

/// The 64-bit integer whose canonical decimal form is `s`, if there is one.
pub open spec fn decimal_value(s: Seq<char>) -> Option<i64> {
    if s.len() > 0 && s[0] == '-' {
        let body = s.skip(1);
        if is_canonical_digits(body) && 0 < digits_value(body) <= 0x8000_0000_0000_0000 {
            Some((-digits_value(body)) as i64)
        } else {
            None
        }
    } else if is_canonical_digits(s) && digits_value(s) <= 0x7fff_ffff_ffff_ffff {
        Some(digits_value(s) as i64)
    } else {
        None
    }
}

/// The identity that `token` is bound to, if `token` is a challenge token.
pub open spec fn bound_identity(token: Seq<char>) -> Option<i64> {
    if token.len() >= 8 && token.take(8) == marker_prefix() {
        decimal_value(token.skip(8))
    } else {
        None
    }
}

/// The digits of a number are canonical and denote that number.
pub proof fn lemma_digits_denote(n: nat)
    ensures
        is_canonical_digits(digits(n)),
        digits_value(digits(n)) == n,
        digits(n)[0] == '0' <==> n == 0,
    decreases n,
{
    let s = digits(n);
    if n < 10 {
        assert(s.drop_last() =~= Seq::<char>::empty());
        assert(digits_value(s.drop_last()) == 0);
    } else {
        lemma_digits_denote(n / 10);
        let p = digits(n / 10);
        assert(s.drop_last() =~= p);
        assert(s.last() == digit_char((n % 10) as int));
        assert(s[0] == p[0]);
        assert forall|i: int| 0 <= i < s.len() implies is_digit(#[trigger] s[i]) by {
            if i < p.len() {
                assert(s[i] == p[i]);
            }
        }
    }
}

/// A canonical run of digits is the digits of the number it denotes.
pub proof fn lemma_canonical_digits_render(s: Seq<char>)
    requires
        is_canonical_digits(s),
    ensures
        digits(digits_value(s)) == s,
        s[0] != '0' ==> digits_value(s) >= 1,
    decreases s.len(),
{
    let p = s.drop_last();
    if s.len() == 1 {
        assert(p =~= Seq::<char>::empty());
        assert(digits_value(p) == 0);
        assert(is_digit(s[0]));
        assert(digits(digits_value(s)) =~= s);
    } else {
        assert(is_canonical_digits(p)) by {
            assert forall|i: int| 0 <= i < p.len() implies is_digit(#[trigger] p[i]) by {
                assert(p[i] == s[i]);
            }
            assert(p[0] == s[0]);
        }
        lemma_canonical_digits_render(p);
        assert(p[0] == s[0]);
        assert(is_digit(s.last()));
        let v = digits_value(s);
        assert(v == digits_value(p) * 10 + digit_value(s.last()));
        assert(v / 10 == digits_value(p));
        assert(v % 10 == digit_value(s.last()));
        assert(digits(v) =~= s);
    }
}

/// A prefix of a run of digits denotes no more than the whole run.
proof fn lemma_prefix_value(s: Seq<char>, k: int)
    requires
        0 <= k <= s.len(),
    ensures
        digits_value(s.take(k)) <= digits_value(s),
    decreases s.len() - k,
{
    if k == s.len() {
        assert(s.take(k) =~= s);
    } else {
        lemma_prefix_value(s, k + 1);
        assert(s.take(k + 1).drop_last() =~= s.take(k));
    }
}

/// Reading a canonical decimal form gives back the integer that was rendered, and
/// nothing but a canonical decimal form can be read.
pub proof fn lemma_decimal_value_inverts(s: Seq<char>, i: i64)
    ensures
        decimal_value(s) == Some(i) <==> s == decimal(i as int),
{
    if s == decimal(i as int) {
        if i < 0 {
            let m = (-i) as nat;
            lemma_digits_denote(m);
            assert(s.skip(1) =~= digits(m));
        } else {
            lemma_digits_denote(i as nat);
            assert(is_digit(s[0]));
        }
    }
    if decimal_value(s) == Some(i) {
        if s.len() > 0 && s[0] == '-' {
            let body = s.skip(1);
            lemma_canonical_digits_render(body);
            assert(s =~= seq!['-'] + body);
        } else {
            lemma_canonical_digits_render(s);
        }
    }
}

/// A text is bound to an identity exactly when it is that identity's token.
pub proof fn lemma_bound_identity_inverts(token: Seq<char>, identity: i64)
    ensures
        bound_identity(token) == Some(identity) <==> token == challenge_token(identity as int),
{
    let rest = token.skip(8);
    lemma_decimal_value_inverts(rest, identity);
    if token == challenge_token(identity as int) {
        assert(token.take(8) =~= marker_prefix());
        assert(rest =~= decimal(identity as int));
    }
    if bound_identity(token) == Some(identity) {
        assert(token =~= token.take(8) + rest);
    }
}

/// Distinct identities have distinct tokens.
pub proof fn lemma_token_injective(a: i64, b: i64)
    requires
        challenge_token(a as int) == challenge_token(b as int),
    ensures
        a == b,
{
    assert(challenge_token(a as int).skip(8) =~= decimal(a as int));
    assert(challenge_token(b as int).skip(8) =~= decimal(b as int));
    lemma_decimal_value_inverts(decimal(a as int), a);
    lemma_decimal_value_inverts(decimal(a as int), b);
}

/// Every challenge token is made of ASCII characters.
proof fn lemma_token_is_ascii(identity: i64)
    ensures
        is_ascii_chars(challenge_token(identity as int)),
{
    let t = challenge_token(identity as int);
    let m: nat = if identity < 0 {
        (-identity) as nat
    } else {
        identity as nat
    };
    lemma_digits_denote(m);
    assert forall|i: int| 0 <= i < t.len() implies '\0' <= #[trigger] t[i] <= '\u{7f}' by {
        if i >= 8 {
            if identity < 0 {
                if i >= 9 {
                    assert(t[i] == digits(m)[i - 9]);
                }
            } else {
                assert(t[i] == digits(m)[i - 8]);
            }
        }
    }
}

fn digit_str(d: u64) -> (s: &'static str)
    requires
        d < 10,
    ensures
        s@ == seq![digit_char(d as int)],
{
    proof {
        reveal_strlit("0");
        reveal_strlit("1");
        reveal_strlit("2");
        reveal_strlit("3");
        reveal_strlit("4");
        reveal_strlit("5");
        reveal_strlit("6");
        reveal_strlit("7");
        reveal_strlit("8");
        reveal_strlit("9");
    }
    let s: &'static str = if d == 0 {
        "0"
    } else if d == 1 {
        "1"
    } else if d == 2 {
        "2"
    } else if d == 3 {
        "3"
    } else if d == 4 {
        "4"
    } else if d == 5 {
        "5"
    } else if d == 6 {
        "6"
    } else if d == 7 {
        "7"
    } else if d == 8 {
        "8"
    } else {
        "9"
    };
    assert(s@ =~= seq![digit_char(d as int)]);
    s
}

fn append_digits(out: &mut String, n: u64)
    ensures
        final(out)@ == old(out)@ + digits(n as nat),
    decreases n,
{
    if n >= 10 {
        append_digits(out, n / 10);
    }
    out.append(digit_str(n % 10));
    assert(final(out)@ =~= old(out)@ + digits(n as nat));
}

/// Appends the canonical decimal form of `i` to `out`.
pub fn append_decimal(out: &mut String, i: i64)
    ensures
        final(out)@ == old(out)@ + decimal(i as int),
{
    if i < 0 {
        proof {
            reveal_strlit("-");
        }
        out.append("-");
        let magnitude: u64 = (-(i + 1)) as u64 + 1;
        append_digits(out, magnitude);
        assert(final(out)@ =~= old(out)@ + decimal(i as int));
    } else {
        append_digits(out, i as u64);
    }
}

/// Composes the token of the challenge issued to `identity`.
pub fn make_challenge_token(identity: i64) -> (token: String)
    ensures
        token@ == challenge_token(identity as int),
{
    proof {
        reveal_strlit("notabot_");
    }
    let mut token = String::from_str("notabot_");
    assert(token@ =~= marker_prefix());
    append_decimal(&mut token, identity);
    token
}

/// The byte of the digit zero in ASCII.
const ASCII_ZERO: u8 = 48;

/// The byte of the digit nine in ASCII.
const ASCII_NINE: u8 = 57;

/// The byte of the minus sign in ASCII.
const ASCII_MINUS: u8 = 45;

/// Reads the canonical digits that `s` holds from `from` to its end, as long as
/// they denote no more than `limit`.
fn parse_digits(s: &str, from: usize, limit: u64) -> (value: Option<u64>)
    requires
        s.is_ascii(),
        from <= s@.len(),
    ensures
        value == bounded_value(s@.skip(from as int), limit as nat),
{
    broadcast use is_ascii_spec_bytes;

    let bytes = s.as_bytes();
    let len: usize = bytes.len();
    let ghost body = s@.skip(from as int);
    if from >= len {
        return None;
    }
    if bytes[from] == ASCII_ZERO && len - from > 1 {
        assert(body[0] == '0');
        return None;
    }
    let mut acc: u64 = 0;
    let mut i: usize = from;
    assert(body.take(0) =~= Seq::<char>::empty());
    while i < len
        invariant
            s.is_ascii(),
            bytes@ == s.spec_bytes(),
            len == s@.len(),
            from <= i <= len,
            body == s@.skip(from as int),
            body.len() > 1 ==> body[0] != '0',
            forall|k: int| 0 <= k < i - from ==> is_digit(#[trigger] body[k]),
            acc == digits_value(body.take(i - from)),
            acc <= limit,
        decreases len - i,
    {
        let b: u8 = bytes[i];
        assert(b == s@[i as int] as u8);
        assert(body[i - from] == s@[i as int]);
        if b < ASCII_ZERO || b > ASCII_NINE {
            assert(!is_digit(body[i - from]));
            return None;
        }
        let d: u64 = (b - ASCII_ZERO) as u64;
        assert(d == digit_value(body[i - from]));
        assert(body.take(i - from + 1).drop_last() =~= body.take(i - from));
        assert(digits_value(body.take(i - from + 1)) == acc * 10 + d);
        if d > limit || acc > (limit - d) / 10 {
            proof {
                lemma_prefix_value(body, i - from + 1);
            }
            return None;
        }
        acc = acc * 10 + d;
        i = i + 1;
    }
    assert(body.take(i - from) =~= body);
    Some(acc)
}

/// Reads the canonical decimal form of a 64-bit integer from `s`, starting at `from`.
fn parse_decimal_from(s: &str, from: usize) -> (value: Option<i64>)
    requires
        s.is_ascii(),
        from <= s@.len(),
    ensures
        value == decimal_value(s@.skip(from as int)),
{
    broadcast use is_ascii_spec_bytes;

    let bytes = s.as_bytes();
    let len: usize = bytes.len();
    if from >= len {
        return None;
    }
    let ghost rest = s@.skip(from as int);
    assert(rest[0] == s@[from as int]);
    if bytes[from] == ASCII_MINUS {
        assert(rest[0] == '-');
        assert(rest.skip(1) =~= s@.skip(from + 1));
        match parse_digits(s, from + 1, 0x8000_0000_0000_0000) {
            Some(v) => {
                if v == 0 {
                    None
                } else if v == 0x8000_0000_0000_0000 {
                    Some(i64::MIN)
                } else {
                    Some(-(v as i64))
                }
            },
            None => None,
        }
    } else {
        assert(rest[0] != '-');
        match parse_digits(s, from, 0x7fff_ffff_ffff_ffff) {
            Some(v) => Some(v as i64),
            None => None,
        }
    }
}

/// Whether `s` starts with the marker and its separator.
fn has_marker_prefix(s: &str) -> (b: bool)
    requires
        s.is_ascii(),
    ensures
        b == (s@.len() >= 8 && s@.take(8) == marker_prefix()),
{
    broadcast use is_ascii_spec_bytes;

    if s.as_bytes().len() < 8 {
        return false;
    }
    proof {
        reveal_strlit("notabot_");
    }
    let head = String::from_str(s.substring_ascii(0, 8));
    let marker = String::from_str("notabot_");
    assert(marker@ =~= marker_prefix());
    head == marker
}

/// Recovers the identity that a challenge token is bound to.
///
/// The result is `Some(identity)` exactly when `token` is the token of that
/// identity, character for character; any other text yields `None`.
pub fn parse_challenge_token(token: &str) -> (identity: Option<i64>)
    ensures
        identity == bound_identity(token@),
        match identity {
            Some(id) => token@ == challenge_token(id as int),
            None => forall|id: i64| token@ != challenge_token(id as int),
        },
{
    proof {
        assert forall|id: i64| bound_identity(token@) == Some(id) <==> token@ == challenge_token(
            id as int,
        ) by {
            lemma_bound_identity_inverts(token@, id);
        }
    }
    if !token.is_ascii() {
        proof {
            assert forall|id: i64| token@ != challenge_token(id as int) by {
                lemma_token_is_ascii(id);
            }
            if bound_identity(token@) is Some {
                lemma_bound_identity_inverts(token@, bound_identity(token@).unwrap());
            }
        }
        return None;
    }
    if !has_marker_prefix(token) {
        return None;
    }
    parse_decimal_from(token, 8)
}

/// Whether a pressed button's token is the challenge issued to `responder`.
///
/// This is the sole authorization of a verification: it holds only for the very
/// token that was composed for the responder's own identity.
pub fn is_user_verifying(button_data: &String, responder: i64) -> (verifying: bool)
    ensures
        verifying == (button_data@ == challenge_token(responder as int)),
{
    match parse_challenge_token(button_data.as_str()) {
        Some(bound) => {
            proof {
                if button_data@ == challenge_token(responder as int) {
                    lemma_token_injective(bound, responder);
                }
            }
            bound == responder
        },
        None => false,
    }
}

} // verus!
