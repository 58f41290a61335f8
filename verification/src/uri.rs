//! Byte-level construction of connection URIs.
//!
//! Credentials and identifiers are percent-encoded before they are
//! interpolated into a URI, so reserved characters in a secret can never
//! corrupt the URI. Encoding and decoding are defined over byte sequences
//! (the UTF-8 bytes of the configured strings) and proved to be mutually
//! inverse.

use vstd::prelude::*;
use vstd::string::StrSliceExecFns;
use vstd::utf8::encode_utf8;
use vstd::utf8::encode_utf8_decode_utf8;
use vstd::utf8::is_leading_byte_width_1;
use vstd::utf8::pop_first_scalar;
use vstd::utf8::valid_first_scalar;
use vstd::utf8::valid_utf8;

verus! {

/// String equality, decided through the UTF-8 bytes (UTF-8 encoding is
/// injective, so equal bytes mean equal character sequences).
pub fn str_eq(a: &str, b: &str) -> (r: bool)
    ensures
        r == (a@ == b@),
{
    let av = a.as_bytes_vec();
    let bv = b.as_bytes_vec();
    if av.len() != bv.len() {
        return false;
    }
    let mut i: usize = 0;
    while i < av.len()
        invariant
            av@ == encode_utf8(a@),
            bv@ == encode_utf8(b@),
            av@.len() == bv@.len(),
            i <= av@.len(),
            forall|j: int| 0 <= j < i ==> av@[j] == bv@[j],
        decreases av@.len() - i,
    {
        if av[i] != bv[i] {
            return false;
        }
        i = i + 1;
    }
    proof {
        assert(av@ =~= bv@);
        encode_utf8_decode_utf8(a@);
        encode_utf8_decode_utf8(b@);
    }
    true
}

/// True for bytes that percent-encoding passes through unchanged:
/// ASCII letters, ASCII digits, and `-`, `.`, `_`, `~`.
pub open spec fn is_unreserved_byte(b: u8) -> bool {
    ||| 0x41 <= b <= 0x5a  // 'A' ..= 'Z'
    ||| 0x61 <= b <= 0x7a  // 'a' ..= 'z'
    ||| 0x30 <= b <= 0x39  // '0' ..= '9'
    ||| b == 0x2d  // '-'
    ||| b == 0x2e  // '.'
    ||| b == 0x5f  // '_'
    ||| b == 0x7e  // '~'
}

/// The ASCII code of the uppercase hexadecimal digit for a value below 16.
pub open spec fn spec_hex_digit(n: u8) -> u8
    recommends
        n < 16,
{
    if n < 10 {
        (0x30 + n) as u8  // '0' ..= '9'
    } else {
        (0x41 + (n - 10)) as u8  // 'A' ..= 'F'
    }
}

/// The value of an ASCII hexadecimal digit, accepting both cases.
pub open spec fn spec_hex_value(b: u8) -> Option<u8> {
    if 0x30 <= b <= 0x39 {
        Some((b - 0x30) as u8)
    } else if 0x41 <= b <= 0x46 {
        Some((b - 0x41 + 10) as u8)
    } else if 0x61 <= b <= 0x66 {
        Some((b - 0x61 + 10) as u8)
    } else {
        None
    }
}

/// The percent-encoding of one byte: unreserved bytes stand for themselves,
/// every other byte becomes `%` followed by two uppercase hex digits.
pub open spec fn spec_encode_byte(b: u8) -> Seq<u8> {
    if is_unreserved_byte(b) {
        seq![b]
    } else {
        seq![0x25u8, spec_hex_digit(b / 16), spec_hex_digit(b % 16)]
    }
}

/// The percent-encoding of a byte sequence.
pub open spec fn spec_percent_encode(s: Seq<u8>) -> Seq<u8>
    decreases s.len(),
{
    if s.len() == 0 {
        Seq::empty()
    } else {
        spec_encode_byte(s[0]) + spec_percent_encode(s.drop_first())
    }
}

/// The percent-decoding of a byte sequence; `None` when a `%` is not
/// followed by two hexadecimal digits.
pub open spec fn spec_percent_decode(s: Seq<u8>) -> Option<Seq<u8>>
    decreases s.len(),
{
    if s.len() == 0 {
        Some(Seq::empty())
    } else if s[0] == 0x25 {
        if s.len() >= 3 && spec_hex_value(s[1]) is Some && spec_hex_value(s[2]) is Some {
            let b = (spec_hex_value(s[1]).unwrap() * 16 + spec_hex_value(s[2]).unwrap()) as u8;
            match spec_percent_decode(s.subrange(3, s.len() as int)) {
                Some(rest) => Some(seq![b] + rest),
                None => None,
            }
        } else {
            None
        }
    } else {
        match spec_percent_decode(s.drop_first()) {
            Some(rest) => Some(seq![s[0]] + rest),
            None => None,
        }
    }
}

/// Percent-encoding distributes over concatenation.
pub proof fn lemma_percent_encode_concat(a: Seq<u8>, b: Seq<u8>)
    ensures
        spec_percent_encode(a + b) == spec_percent_encode(a) + spec_percent_encode(b),
    decreases a.len(),
{
    if a.len() == 0 {
        assert(a + b =~= b);
        assert(spec_percent_encode(a) + spec_percent_encode(b) =~= spec_percent_encode(b));
    } else {
        assert((a + b).drop_first() =~= a.drop_first() + b);
        lemma_percent_encode_concat(a.drop_first(), b);
        assert(spec_percent_encode(a + b) =~= spec_percent_encode(a) + spec_percent_encode(b));
    }
}

/// Every byte of a percent-encoded sequence is ASCII.
pub proof fn lemma_percent_encode_ascii(s: Seq<u8>)
    ensures
        forall|i: int|
            0 <= i < spec_percent_encode(s).len() ==> #[trigger] spec_percent_encode(s)[i] < 0x80,
    decreases s.len(),
{
    if s.len() > 0 {
        lemma_percent_encode_ascii(s.drop_first());
        let e0 = spec_encode_byte(s[0]);
        let er = spec_percent_encode(s.drop_first());
        assert(spec_percent_encode(s) == e0 + er);
        assert forall|i: int|
            0 <= i < spec_percent_encode(s).len() implies #[trigger] spec_percent_encode(s)[i]
            < 0x80 by {
            if i < e0.len() {
                assert(spec_percent_encode(s)[i] == e0[i]);
            } else {
                assert(spec_percent_encode(s)[i] == er[i - e0.len()]);
            }
        }
    }
}

/// An encoded component holds no URI separator: every byte is either the
/// escape byte `%` or an unreserved byte, so none of `:`, `/`, `?`, `#`,
/// `@`, `&` or `=` can appear and the component's boundaries in a URI
/// always survive.
pub proof fn lemma_percent_encode_no_separators(s: Seq<u8>)
    ensures
        forall|i: int|
            0 <= i < spec_percent_encode(s).len() ==> (#[trigger] spec_percent_encode(s)[i] == 0x25
                || is_unreserved_byte(spec_percent_encode(s)[i])),
    decreases s.len(),
{
    if s.len() > 0 {
        lemma_percent_encode_no_separators(s.drop_first());
        let e0 = spec_encode_byte(s[0]);
        let er = spec_percent_encode(s.drop_first());
        assert(spec_percent_encode(s) == e0 + er);
        assert forall|i: int| 0 <= i < spec_percent_encode(s).len() implies (
        #[trigger] spec_percent_encode(s)[i] == 0x25 || is_unreserved_byte(
            spec_percent_encode(s)[i],
        )) by {
            if i < e0.len() {
                assert(spec_percent_encode(s)[i] == e0[i]);
            } else {
                assert(spec_percent_encode(s)[i] == er[i - e0.len()]);
            }
        }
    }
}

/// A sequence of ASCII bytes is valid UTF-8.
pub proof fn lemma_ascii_valid_utf8(s: Seq<u8>)
    requires
        forall|i: int| 0 <= i < s.len() ==> #[trigger] s[i] < 0x80,
    ensures
        valid_utf8(s),
    decreases s.len(),
{
    if s.len() > 0 {
        assert(is_leading_byte_width_1(s[0]));
        assert(valid_first_scalar(s));
        assert(pop_first_scalar(s) =~= s.drop_first());
        lemma_ascii_valid_utf8(s.drop_first());
    }
}

/// The hex digits emitted for a value below 16 decode back to that value.
proof fn lemma_hex_digit_round_trip(n: u8)
    requires
        n < 16,
    ensures
        spec_hex_value(spec_hex_digit(n)) == Some(n),
{
}

/// Decoding a percent-encoded sequence restores the original bytes: the
/// encoding loses nothing, whatever the input holds.
pub proof fn lemma_percent_round_trip(s: Seq<u8>)
    ensures
        spec_percent_decode(spec_percent_encode(s)) == Some(s),
    decreases s.len(),
{
    if s.len() == 0 {
    } else {
        let e = spec_percent_encode(s);
        let rest = spec_percent_encode(s.drop_first());
        lemma_percent_round_trip(s.drop_first());
        if is_unreserved_byte(s[0]) {
            assert(e[0] == s[0] && s[0] != 0x25);
            assert(e.drop_first() =~= rest);
            assert(seq![s[0]] + s.drop_first() =~= s);
        } else {
            let hi = spec_hex_digit(s[0] / 16);
            let lo = spec_hex_digit(s[0] % 16);
            lemma_hex_digit_round_trip(s[0] / 16);
            lemma_hex_digit_round_trip(s[0] % 16);
            assert(e[0] == 0x25 && e[1] == hi && e[2] == lo);
            assert((s[0] / 16) * 16 + (s[0] % 16) == s[0]) by (nonlinear_arith);
            assert(e.subrange(3, e.len() as int) =~= rest);
            assert(seq![s[0]] + s.drop_first() =~= s);
        }
    }
}

/// The exec form of `spec_hex_digit`.
fn hex_digit(n: u8) -> (r: u8)
    requires
        n < 16,
    ensures
        r == spec_hex_digit(n),
{
    if n < 10 {
        0x30 + n
    } else {
        0x41 + (n - 10)
    }
}

/// The exec form of `spec_hex_value`.
fn hex_value(b: u8) -> (r: Option<u8>)
    ensures
        r == spec_hex_value(b),
        r matches Some(v) ==> v < 16,
{
    if 0x30 <= b && b <= 0x39 {
        Some(b - 0x30)
    } else if 0x41 <= b && b <= 0x46 {
        Some(b - 0x41 + 10)
    } else if 0x61 <= b && b <= 0x66 {
        Some(b - 0x61 + 10)
    } else {
        None
    }
}

/// The exec test for `is_unreserved_byte`.
fn is_unreserved(b: u8) -> (r: bool)
    ensures
        r == is_unreserved_byte(b),
{
    (0x41 <= b && b <= 0x5a) || (0x61 <= b && b <= 0x7a) || (0x30 <= b && b <= 0x39) || b == 0x2d
        || b == 0x2e || b == 0x5f || b == 0x7e
}

/// `spec_percent_encode` of a one-longer prefix extends the encoding by one
/// encoded byte.
proof fn lemma_percent_encode_take_step(s: Seq<u8>, i: int)
    requires
        0 <= i < s.len(),
    ensures
        spec_percent_encode(s.take(i + 1)) == spec_percent_encode(s.take(i)) + spec_encode_byte(
            s[i],
        ),
{
    assert(s.take(i + 1) =~= s.take(i) + seq![s[i]]);
    lemma_percent_encode_concat(s.take(i), seq![s[i]]);
    assert(seq![s[i]].drop_first() =~= Seq::<u8>::empty());
    assert(spec_percent_encode(Seq::<u8>::empty()) == Seq::<u8>::empty());
    assert(spec_percent_encode(seq![s[i]]) =~= spec_encode_byte(s[i]));
}

/// Appends the percent-encoding of `s` to `out`.
pub fn push_percent_encoded(out: &mut Vec<u8>, s: &Vec<u8>)
    ensures
        final(out)@ == old(out)@ + spec_percent_encode(s@),
{
    let ghost base = out@;
    let mut i: usize = 0;
    while i < s.len()
        invariant
            i <= s@.len(),
            out@ == base + spec_percent_encode(s@.take(i as int)),
        decreases s@.len() - i,
    {
        let b = s[i];
        if is_unreserved(b) {
            out.push(b);
        } else {
            out.push(0x25);
            out.push(hex_digit(b / 16));
            out.push(hex_digit(b % 16));
        }
        proof {
            lemma_percent_encode_take_step(s@, i as int);
            assert(out@ =~= base + spec_percent_encode(s@.take((i + 1) as int)));
        }
        i = i + 1;
    }
    proof {
        assert(s@.take(s@.len() as int) =~= s@);
    }
}

/// Appends the raw bytes of `s` to `out`.
pub fn push_bytes(out: &mut Vec<u8>, s: &Vec<u8>)
    ensures
        final(out)@ == old(out)@ + s@,
{
    let ghost base = out@;
    let mut i: usize = 0;
    while i < s.len()
        invariant
            i <= s@.len(),
            out@ == base + s@.take(i as int),
        decreases s@.len() - i,
    {
        out.push(s[i]);
        proof {
            assert(s@.take((i + 1) as int) =~= s@.take(i as int) + seq![s@[i as int]]);
            assert(out@ =~= base + s@.take((i + 1) as int));
        }
        i = i + 1;
    }
    proof {
        assert(s@.take(s@.len() as int) =~= s@);
    }
}

/// Appends the UTF-8 bytes of `s` to `out`.
pub fn push_str_bytes(out: &mut Vec<u8>, s: &str)
    ensures
        final(out)@ == old(out)@ + encode_utf8(s@),
{
    let mut b = s.as_bytes_vec();
    out.append(&mut b);
}

/// Appends the percent-encoding of the UTF-8 bytes of `s` to `out`.
pub fn push_percent_encoded_str(out: &mut Vec<u8>, s: &str)
    ensures
        final(out)@ == old(out)@ + spec_percent_encode(encode_utf8(s@)),
{
    let b = s.as_bytes_vec();
    push_percent_encoded(out, &b);
}

/// The ASCII decimal digits of `n`, most significant first.
pub open spec fn spec_decimal(n: int) -> Seq<u8>
    recommends
        n >= 0,
    decreases n,
{
    if n < 10 {
        seq![(0x30 + n) as u8]
    } else {
        spec_decimal(n / 10) + seq![(0x30 + n % 10) as u8]
    }
}

/// Every byte of a decimal rendering is an ASCII digit.
pub proof fn lemma_decimal_ascii(n: int)
    requires
        n >= 0,
    ensures
        forall|i: int| 0 <= i < spec_decimal(n).len() ==> #[trigger] spec_decimal(n)[i] < 0x80,
    decreases n,
{
    if n >= 10 {
        lemma_decimal_ascii(n / 10);
        let hd = spec_decimal(n / 10);
        assert forall|i: int| 0 <= i < spec_decimal(n).len() implies #[trigger] spec_decimal(n)[i]
            < 0x80 by {
            if i < hd.len() {
                assert(spec_decimal(n)[i] == hd[i]);
            }
        }
    }
}

/// Appends the decimal digits of `n` to `out`.
pub fn push_decimal(out: &mut Vec<u8>, n: u64)
    ensures
        final(out)@ == old(out)@ + spec_decimal(n as int),
    decreases n,
{
    if n < 10 {
        out.push(0x30 + (n as u8));
        proof {
            assert(old(out)@.push((0x30 + n) as u8) =~= old(out)@ + spec_decimal(n as int));
        }
    } else {
        push_decimal(out, n / 10);
        out.push(0x30 + ((n % 10) as u8));
        proof {
            assert(old(out)@ + spec_decimal((n / 10) as int) + seq![(0x30 + (n as int) % 10) as u8]
                =~= old(out)@ + spec_decimal(n as int));
        }
    }
}

/// The percent-encoding of any byte sequence is valid UTF-8 (it is ASCII).
pub proof fn lemma_percent_encode_valid_utf8(s: Seq<u8>)
    ensures
        valid_utf8(spec_percent_encode(s)),
{
    lemma_percent_encode_ascii(s);
    lemma_ascii_valid_utf8(spec_percent_encode(s));
}

/// A decimal rendering is valid UTF-8 (it is ASCII).
pub proof fn lemma_decimal_valid_utf8(n: int)
    requires
        n >= 0,
    ensures
        valid_utf8(spec_decimal(n)),
{
    lemma_decimal_ascii(n);
    lemma_ascii_valid_utf8(spec_decimal(n));
}

/// The views of a vector of byte vectors.
pub open spec fn views_of(ps: Seq<Vec<u8>>) -> Seq<Seq<u8>> {
    Seq::new(ps.len(), |i: int| ps[i]@)
}

/// The query parameters joined by `&`.
pub open spec fn spec_amp_join(ps: Seq<Seq<u8>>) -> Seq<u8>
    decreases ps.len(),
{
    if ps.len() == 0 {
        Seq::empty()
    } else if ps.len() == 1 {
        ps[0]
    } else {
        spec_amp_join(ps.drop_last()) + encode_utf8("&"@) + ps.last()
    }
}

/// The query suffix of a URI: `?` followed by the parameters joined by `&`,
/// or nothing at all when there are no parameters.
pub open spec fn spec_query_suffix(ps: Seq<Seq<u8>>) -> Seq<u8> {
    if ps.len() == 0 {
        Seq::empty()
    } else {
        encode_utf8("?"@) + spec_amp_join(ps)
    }
}

/// Parameters that are valid UTF-8 join into a valid UTF-8 sequence.
pub proof fn lemma_amp_join_valid_utf8(ps: Seq<Seq<u8>>)
    requires
        forall|i: int| 0 <= i < ps.len() ==> valid_utf8(#[trigger] ps[i]),
    ensures
        valid_utf8(spec_amp_join(ps)),
    decreases ps.len(),
{
    broadcast use vstd::utf8::valid_utf8_concat;
    broadcast use vstd::utf8::encode_utf8_valid_utf8;

    if ps.len() == 0 {
        assert(valid_utf8(Seq::<u8>::empty()));
    } else if ps.len() == 1 {
        assert(valid_utf8(ps[0]));
    } else {
        assert forall|i: int| 0 <= i < ps.drop_last().len() implies valid_utf8(
            #[trigger] ps.drop_last()[i],
        ) by {
            assert(ps.drop_last()[i] == ps[i]);
        }
        lemma_amp_join_valid_utf8(ps.drop_last());
        assert(valid_utf8(ps.last()));
        assert(valid_utf8(encode_utf8("&"@)));
        assert(valid_utf8(spec_amp_join(ps.drop_last()) + encode_utf8("&"@)));
        assert(valid_utf8(spec_amp_join(ps.drop_last()) + encode_utf8("&"@) + ps.last()));
    }
}

/// Every parameter that is valid UTF-8 keeps the joined query suffix valid.
pub proof fn lemma_query_suffix_valid_utf8(ps: Seq<Seq<u8>>)
    requires
        forall|i: int| 0 <= i < ps.len() ==> valid_utf8(#[trigger] ps[i]),
    ensures
        valid_utf8(spec_query_suffix(ps)),
{
    broadcast use vstd::utf8::valid_utf8_concat;
    broadcast use vstd::utf8::encode_utf8_valid_utf8;

    if ps.len() == 0 {
        assert(valid_utf8(Seq::<u8>::empty()));
    } else {
        lemma_amp_join_valid_utf8(ps);
        assert(valid_utf8(encode_utf8("?"@)));
    }
}

/// Appends the query suffix made from `ps` to `out`.
pub fn append_query_suffix(out: &mut Vec<u8>, ps: &Vec<Vec<u8>>)
    ensures
        final(out)@ == old(out)@ + spec_query_suffix(views_of(ps@)),
{
    let ghost base = out@;
    let ghost pv = views_of(ps@);
    if ps.len() == 0 {
        proof {
            assert(base + spec_query_suffix(pv) =~= base);
        }
        return ;
    }
    push_str_bytes(out, "?");
    let mut i: usize = 0;
    while i < ps.len()
        invariant
            pv == views_of(ps@),
            i <= pv.len(),
            pv.len() == ps@.len(),
            pv.len() > 0,
            i > 0 ==> out@ == base + encode_utf8("?"@) + spec_amp_join(pv.take(i as int)),
            i == 0 ==> out@ == base + encode_utf8("?"@),
        decreases pv.len() - i,
    {
        if i > 0 {
            push_str_bytes(out, "&");
        }
        push_bytes(out, &ps[i]);
        proof {
            assert(pv[i as int] == ps@[i as int]@);
            if i == 0 {
                assert(pv.take(1) =~= seq![pv[0]]);
                assert(spec_amp_join(pv.take(1)) == pv.take(1)[0]);
                assert(out@ =~= base + encode_utf8("?"@) + spec_amp_join(pv.take(1)));
            } else {
                let t = pv.take((i + 1) as int);
                assert(t.drop_last() =~= pv.take(i as int));
                assert(t.last() == pv[i as int]);
                assert(t.len() >= 2);
                assert(spec_amp_join(t) == spec_amp_join(pv.take(i as int)) + encode_utf8("&"@)
                    + pv[i as int]);
                assert(out@ =~= base + encode_utf8("?"@) + spec_amp_join(t));
            }
        }
        i = i + 1;
    }
    proof {
        assert(pv.take(pv.len() as int) =~= pv);
        assert(out@ =~= base + spec_query_suffix(pv));
    }
}

/// A connection URI that embeds credentials. The bytes are kept in a private
/// field with no debug output; they are only revealed through [`Self::expose`],
/// at the single point where a pool is created (and in tests).
pub struct SecretUri {
    bytes: Vec<u8>,
}

impl View for SecretUri {
    type V = Seq<u8>;

    closed spec fn view(&self) -> Seq<u8> {
        self.bytes@
    }
}

impl SecretUri {
    /// Wraps finished URI bytes.
    pub(crate) fn from_bytes(bytes: Vec<u8>) -> (r: SecretUri)
        ensures
            r@ == bytes@,
    {
        SecretUri { bytes }
    }

    /// Reveals the URI bytes.
    pub fn expose(&self) -> (r: &Vec<u8>)
        ensures
            r@ == self@,
    {
        &self.bytes
    }
}

/// Percent-decodes `s`; `None` exactly when `s` holds a `%` that is not
/// followed by two hexadecimal digits.
pub fn percent_decode(s: &Vec<u8>) -> (r: Option<Vec<u8>>)
    ensures
        match r {
            Some(out) => spec_percent_decode(s@) == Some(out@),
            None => spec_percent_decode(s@) is None,
        },
{
    let mut out: Vec<u8> = Vec::new();
    let mut i: usize = 0;
    proof {
        assert(s@.skip(0) =~= s@);
        if spec_percent_decode(s@) is Some {
            assert(Seq::<u8>::empty() + spec_percent_decode(s@).unwrap() =~= spec_percent_decode(
                s@,
            ).unwrap());
        }
    }
    while i < s.len()
        invariant
            i <= s@.len(),
            spec_percent_decode(s@) == match spec_percent_decode(s@.skip(i as int)) {
                Some(rest) => Some(out@ + rest),
                None => None::<Seq<u8>>,
            },
        decreases s@.len() - i,
    {
        let ghost tail = s@.skip(i as int);
        proof {
            assert(tail.len() == s@.len() - i);
            assert(tail[0] == s@[i as int]);
        }
        let b = s[i];
        if b == 0x25 {
            if s.len() - i < 3 {
                proof {
                    assert(spec_percent_decode(tail) is None);
                }
                return None;
            }
            proof {
                assert(tail[1] == s@[i + 1]);
                assert(tail[2] == s@[i + 2]);
            }
            let h1 = hex_value(s[i + 1]);
            let h2 = hex_value(s[i + 2]);
            if h1.is_none() || h2.is_none() {
                proof {
                    assert(spec_percent_decode(tail) is None);
                }
                return None;
            }
            let v1 = h1.unwrap();
            let v2 = h2.unwrap();
            let d = v1 * 16 + v2;
            let ghost out0 = out@;
            out.push(d);
            proof {
                assert(tail.subrange(3, tail.len() as int) =~= s@.skip(i + 3));
                let dec3 = spec_percent_decode(s@.skip(i + 3));
                if dec3 is Some {
                    assert(spec_percent_decode(tail) == Some(seq![d] + dec3.unwrap()));
                    assert(out0 + (seq![d] + dec3.unwrap()) =~= out@ + dec3.unwrap());
                } else {
                    assert(spec_percent_decode(tail) is None);
                }
            }
            i = i + 3;
        } else {
            let ghost out0 = out@;
            out.push(b);
            proof {
                assert(tail.drop_first() =~= s@.skip(i + 1));
                let dec1 = spec_percent_decode(s@.skip(i + 1));
                if dec1 is Some {
                    assert(spec_percent_decode(tail) == Some(seq![b] + dec1.unwrap()));
                    assert(out0 + (seq![b] + dec1.unwrap()) =~= out@ + dec1.unwrap());
                } else {
                    assert(spec_percent_decode(tail) is None);
                }
            }
            i = i + 1;
        }
    }
    proof {
        assert(s@.skip(s@.len() as int) =~= Seq::<u8>::empty());
        assert(out@ + Seq::<u8>::empty() =~= out@);
    }
    Some(out)
}

} // verus!
