//! Session tokens: 128-bit values, written in decimal in a cookie and as
//! sixteen little-endian bytes in the store.

use vstd::prelude::*;
use vstd::string::*;

verus! {

/// The ASCII code of `+`.
const ASCII_PLUS: u8 = 43;

/// The ASCII code of `0`.
const ASCII_ZERO: u8 = 48;

/// The ASCII code of `9`.
const ASCII_NINE: u8 = 57;

/// The character of a decimal digit.
pub open spec fn digit_char(d: nat) -> char
    recommends
        d < 10,
{
    if d == 0 {
        '0'
    } else if d == 1 {
        '1'
    } else if d == 2 {
        '2'
    } else if d == 3 {
        '3'
    } else if d == 4 {
        '4'
    } else if d == 5 {
        '5'
    } else if d == 6 {
        '6'
    } else if d == 7 {
        '7'
    } else if d == 8 {
        '8'
    } else {
        '9'
    }
}

pub open spec fn is_digit(c: char) -> bool {
    '0' <= c && c <= '9'
}

/// The number that a decimal digit stands for.
pub open spec fn digit_value(c: char) -> nat
    recommends
        is_digit(c),
{
    (c as nat - '0' as nat) as nat
}

pub open spec fn all_digits(s: Seq<char>) -> bool {
    forall|i: int| 0 <= i < s.len() ==> is_digit(#[trigger] s[i])
}

/// The number that a string of decimal digits denotes, leading zeros allowed.
pub open spec fn decimal_value(s: Seq<char>) -> nat
    decreases s.len(),
{
    if s.len() == 0 {
        0
    } else {
        decimal_value(s.drop_last()) * 10 + digit_value(s.last())
    }
}

/// The text without one leading plus sign.
pub open spec fn unsigned_part(s: Seq<char>) -> Seq<char> {
    if s.len() > 0 && s[0] == '+' {
        s.subrange(1, s.len() as int)
    } else {
        s
    }
}

/// What a text denotes as an unsigned 128-bit decimal integer: an optional
/// plus sign, then at least one digit, and a value that fits.
pub open spec fn parse_decimal(s: Seq<char>) -> Option<u128> {
    let d = unsigned_part(s);
    if d.len() > 0 && all_digits(d) && decimal_value(d) <= u128::MAX {
        Some(decimal_value(d) as u128)
    } else {
        None
    }
}

/// The shortest decimal notation of a number.
pub open spec fn decimal_digits(n: nat) -> Seq<char>
    decreases n,
{
    if n < 10 {
        seq![digit_char(n)]
    } else {
        decimal_digits(n / 10).push(digit_char(n % 10))
    }
}

/// The first `n` bytes of a number, least significant first.
pub open spec fn le_bytes(v: nat, n: nat) -> Seq<u8>
    decreases n,
{
    if n == 0 {
        Seq::empty()
    } else {
        seq![(v % 256) as u8] + le_bytes(v / 256, (n - 1) as nat)
    }
}

/// The number whose little-endian bytes are `b`.
pub open spec fn le_value(b: Seq<u8>) -> nat
    decreases b.len(),
{
    if b.len() == 0 {
        0
    } else {
        b[0] as nat + 256 * le_value(b.drop_first())
    }
}

/// What is left of a number after its `n` lowest bytes are taken away.
pub open spec fn without_low_bytes(v: nat, n: nat) -> nat
    decreases n,
{
    if n == 0 {
        v
    } else {
        without_low_bytes(v / 256, (n - 1) as nat)
    }
}

proof fn lemma_value_extend(s: Seq<char>, k: int)
    requires
        0 <= k < s.len(),
    ensures
        decimal_value(s.subrange(0, k + 1)) == decimal_value(s.subrange(0, k)) * 10 + digit_value(
            s[k],
        ),
{
    assert(s.subrange(0, k + 1).drop_last() =~= s.subrange(0, k));
}

proof fn lemma_prefix_value_le(s: Seq<char>, k: int)
    requires
        0 <= k <= s.len(),
    ensures
        decimal_value(s.subrange(0, k)) <= decimal_value(s),
    decreases s.len() - k,
{
    if k == s.len() {
        assert(s.subrange(0, k) =~= s);
    } else {
        lemma_value_extend(s, k);
        lemma_prefix_value_le(s, k + 1);
    }
}

/// A text with a character outside ASCII denotes no number.
proof fn lemma_non_ascii_parses_to_none(s: Seq<char>)
    requires
        !vstd::utf8::is_ascii_chars(s),
    ensures
        parse_decimal(s) is None,
{
    let i = choose|i: int| 0 <= i < s.len() && !('\0' <= #[trigger] s[i] <= '\u{7f}');
    let d = unsigned_part(s);
    if d.len() > 0 && all_digits(d) {
        if s[0] == '+' {
            assert(i >= 1);
            assert(d[i - 1] == s[i]);
            assert(is_digit(d[i - 1]));
        } else {
            assert(is_digit(d[i]));
        }
    }
}

fn digit_str(d: u128) -> (r: &'static str)
    requires
        d < 10,
    ensures
        r@ == seq![digit_char(d as nat)],
{
    proof {
        reveal_strlit("0");
        reveal_strlit("1");
        reveal_strlit("2");
        reveal_strlit("3");
        reveal_strlit("4");
        reveal_strlit("5");
        reveal_strlit("6");
        reveal_strlit("7");
        reveal_strlit("8");
        reveal_strlit("9");
    }
    let r = if d == 0 {
        "0"
    } else if d == 1 {
        "1"
    } else if d == 2 {
        "2"
    } else if d == 3 {
        "3"
    } else if d == 4 {
        "4"
    } else if d == 5 {
        "5"
    } else if d == 6 {
        "6"
    } else if d == 7 {
        "7"
    } else if d == 8 {
        "8"
    } else {
        "9"
    };
    assert(r@ =~= seq![digit_char(d as nat)]);
    r
}

/// Writes a number in decimal.
pub fn decimal_string(n: u128) -> (r: String)
    ensures
        r@ == decimal_digits(n as nat),
    decreases n,
{
    if n < 10 {
        digit_str(n).to_owned()
    } else {
        let head = decimal_string(n / 10);
        let r = head.concat(digit_str(n % 10));
        assert(r@ =~= decimal_digits(n as nat));
        r
    }
}

/// Reads an unsigned 128-bit decimal integer.
pub fn parse_u128(s: &str) -> (r: Option<u128>)
    ensures
        r == parse_decimal(s@),
{
    if !s.is_ascii() {
        proof {
            lemma_non_ascii_parses_to_none(s@);
        }
        return None;
    }
    let n = s.unicode_len();
    let mut i: usize = 0;
    if n > 0 && s.get_ascii(0) == ASCII_PLUS {
        i = 1;
    }
    let ghost d = unsigned_part(s@);
    let start = i;
    assert(d =~= s@.subrange(start as int, n as int));
    if i == n {
        return None;
    }
    let mut acc: u128 = 0;
    assert(d.subrange(0, 0) =~= Seq::<char>::empty());
    while i < n
        invariant
            start <= i <= n,
            n == s@.len(),
            s.is_ascii(),
            d == s@.subrange(start as int, n as int),
            d == unsigned_part(s@),
            d.len() > 0,
            all_digits(d.subrange(0, i - start)),
            acc == decimal_value(d.subrange(0, i - start)),
        decreases n - i,
    {
        let b = s.get_ascii(i);
        let ghost k = i - start;
        assert(d[k] == s@[i as int]);
        if b < ASCII_ZERO || b > ASCII_NINE {
            assert(!is_digit(d[k]));
            return None;
        }
        let digit: u128 = (b - ASCII_ZERO) as u128;
        assert(digit == digit_value(d[k]));
        proof {
            lemma_value_extend(d, k);
            lemma_prefix_value_le(d, k + 1);
        }
        let next = match acc.checked_mul(10) {
            Some(tens) => tens.checked_add(digit),
            None => None,
        };
        match next {
            Some(v) => {
                acc = v;
            },
            None => {
                return None;
            },
        }
        i = i + 1;
        assert forall|j: int| 0 <= j < d.subrange(0, i - start).len() implies is_digit(
            #[trigger] d.subrange(0, i - start)[j],
        ) by {
            if j < k {
                assert(d.subrange(0, k)[j] == d[j]);
            }
        }
    }
    assert(d.subrange(0, i - start) =~= d);
    Some(acc)
}

/// The decimal notation of a number reads back as that number.
pub proof fn lemma_decimal_round_trip(n: nat)
    ensures
        decimal_digits(n).len() > 0,
        all_digits(decimal_digits(n)),
        decimal_digits(n)[0] != '+',
        decimal_value(decimal_digits(n)) == n,
    decreases n,
{
    if n < 10 {
        assert(decimal_digits(n).drop_last() =~= Seq::<char>::empty());
        assert(decimal_value(decimal_digits(n).drop_last()) == 0);
    } else {
        lemma_decimal_round_trip(n / 10);
        assert(decimal_digits(n).drop_last() =~= decimal_digits(n / 10));
    }
}

/// The little-endian bytes of a number that they hold in full give it back.
pub proof fn lemma_le_round_trip(v: nat, n: nat)
    requires
        without_low_bytes(v, n) == 0,
    ensures
        le_bytes(v, n).len() == n,
        le_value(le_bytes(v, n)) == v,
    decreases n,
{
    if n > 0 {
        lemma_le_round_trip(v / 256, (n - 1) as nat);
        assert(le_bytes(v, n).drop_first() =~= le_bytes(v / 256, (n - 1) as nat));
    }
}

/// Sixteen bytes hold every 128-bit number in full.
pub proof fn lemma_u128_fits_sixteen_bytes(v: u128)
    ensures
        without_low_bytes(v as nat, 16) == 0,
{
    reveal_with_fuel(without_low_bytes, 17);
    let a = v as nat;
    assert(a / 256 / 256 / 256 / 256 / 256 / 256 / 256 / 256 / 256 / 256 / 256 / 256 / 256 / 256
        / 256 / 256 == 0);
}

/// An opaque credential that proves an authenticated session.
#[derive(Clone, Copy, Debug)]
pub struct SessionToken(u128);

impl View for SessionToken {
    type V = u128;

    closed spec fn view(&self) -> u128 {
        self.0
    }
}

#[verifier::external_type_specification]
#[verifier::external_body]
pub struct ExChaCha8Rng(rand_chacha::ChaCha8Rng);

/// Draws sixteen bytes with `RngCore::fill_bytes` of `rand_chacha::ChaCha8Rng`.
/// Nothing is claimed of the bytes: they depend on the generator's state.
#[verifier::external_body]
fn random_bytes(rng: &mut rand_chacha::ChaCha8Rng) -> (r: [u8; 16]) {
    let mut pool = [0u8; 16];
    rand_core::RngCore::fill_bytes(rng, &mut pool);
    pool
}

impl SessionToken {
    /// The token that sixteen little-endian bytes denote.
    pub fn from_le_bytes(bytes: [u8; 16]) -> (r: SessionToken)
        ensures
            r@ as nat == le_value(bytes@),
    {
        proof {
            reveal_with_fuel(le_value, 17);
        }
        let low: u128 = bytes[0] as u128 + bytes[1] as u128 * 0x100 + bytes[2] as u128 * 0x1_0000
            + bytes[3] as u128 * 0x100_0000 + bytes[4] as u128 * 0x1_0000_0000 + bytes[5] as u128
            * 0x100_0000_0000 + bytes[6] as u128 * 0x1_0000_0000_0000 + bytes[7] as u128
            * 0x100_0000_0000_0000;
        let high: u128 = bytes[8] as u128 + bytes[9] as u128 * 0x100 + bytes[10] as u128 * 0x1_0000
            + bytes[11] as u128 * 0x100_0000 + bytes[12] as u128 * 0x1_0000_0000 + bytes[13] as u128
            * 0x100_0000_0000 + bytes[14] as u128 * 0x1_0000_0000_0000 + bytes[15] as u128
            * 0x100_0000_0000_0000;
        SessionToken(low + high * 0x1_0000_0000_0000_0000)
    }

    /// Reads a token from a cookie's value: `None` unless the text is an
    /// unsigned 128-bit decimal integer.
    pub fn from_str(s: &str) -> (r: Option<SessionToken>)
        ensures
            match parse_decimal(s@) {
                Some(v) => r is Some && r->0@ == v,
                None => r is None,
            },
    {
        match parse_u128(s) {
            Some(v) => Some(SessionToken(v)),
            None => None,
        }
    }

    /// A fresh token, drawn from the generator.
    pub fn generate_new(rng: &mut rand_chacha::ChaCha8Rng) -> SessionToken {
        SessionToken::from_le_bytes(random_bytes(rng))
    }

    /// The token in decimal, as a cookie carries it.
    pub fn into_cookie_value(self) -> (r: String)
        ensures
            r@ == decimal_digits(self@ as nat),
    {
        decimal_string(self.0)
    }

    /// The token as sixteen little-endian bytes, as the store keeps it.
    pub fn into_database_value(self) -> (r: Vec<u8>)
        ensures
            r@ == le_bytes(self@ as nat, 16),
    {
        let mut out: Vec<u8> = Vec::new();
        let mut rest: u128 = self.0;
        let mut i: usize = 0;
        while i < 16
            invariant
                i <= 16,
                out@.len() == i,
                le_bytes(self@ as nat, 16) =~= out@ + le_bytes(rest as nat, (16 - i) as nat),
            decreases 16 - i,
        {
            let low: u8 = (rest % 256) as u8;
            assert(le_bytes(rest as nat, (16 - i) as nat) =~= seq![low] + le_bytes(
                (rest / 256) as nat,
                (16 - i - 1) as nat,
            ));
            out.push(low);
            rest = rest / 256;
            i = i + 1;
        }
        assert(le_bytes(rest as nat, 0) =~= Seq::<u8>::empty());
        assert(out@ =~= le_bytes(self@ as nat, 16));
        out
    }
}

/// A token's cookie value reads back as the same token.
pub proof fn lemma_cookie_value_round_trip(token: SessionToken)
    ensures
        parse_decimal(decimal_digits(token@ as nat)) == Some(token@),
{
    lemma_decimal_round_trip(token@ as nat);
}

/// A token's database value denotes the same token, so two tokens with the
/// same database value are the same.
pub proof fn lemma_database_value_round_trip(token: SessionToken)
    ensures
        le_bytes(token@ as nat, 16).len() == 16,
        le_value(le_bytes(token@ as nat, 16)) == token@,
{
    lemma_u128_fits_sixteen_bytes(token@);
    lemma_le_round_trip(token@ as nat, 16);
}

/// Two tokens that the store keeps as the same bytes are the same token.
pub proof fn lemma_database_value_injective(a: SessionToken, b: SessionToken)
    requires
        le_bytes(a@ as nat, 16) == le_bytes(b@ as nat, 16),
    ensures
        a@ == b@,
{
    lemma_database_value_round_trip(a);
    lemma_database_value_round_trip(b);
}

} // verus!
