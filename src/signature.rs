//! Byte signatures with wildcards: their text form, and the search for them
//! in memory images.
use vstd::prelude::*;

use crate::notes::{find_byte, next_index};
use vstd::string::StringSliceAdditionalSpecFns;

verus! {

/// One position of a signature.
#[derive(Debug, PartialEq, Eq, Structural, Clone, Copy)]
pub enum SignatureByte {
    /// Matches exactly this byte.
    Byte(u8),
    /// Matches any byte.
    Any,
}

/// A byte pattern with wildcard positions.
pub struct Signature {
    pub bytes: Vec<SignatureByte>,
}

#[derive(Debug, PartialEq, Eq, Structural, Clone, Copy)]
pub enum SignatureError {
    /// The text's length is not 2 more than a multiple of 3, the length of
    /// two-character tokens separated by single spaces.
    InvalidLength(usize),
    /// A token between spaces is neither `??` nor a hexadecimal byte.
    InvalidToken,
}

pub const SPACE: u8 = 32;

pub const PLUS: u8 = 43;

pub const WILDCARD: u8 = 63;

pub open spec fn hex_value(c: u8) -> Option<u8> {
    if 48 <= c <= 57 {
        Some((c - 48) as u8)
    } else if 65 <= c <= 70 {
        Some((c - 55) as u8)
    } else if 97 <= c <= 102 {
        Some((c - 87) as u8)
    } else {
        None
    }
}

pub open spec fn all_hex(d: Seq<u8>) -> bool {
    forall|i: int| 0 <= i < d.len() ==> (#[trigger] hex_value(d[i])) is Some
}

/// The value of a run of hexadecimal digits, most significant first.
pub open spec fn hex_digits_value(d: Seq<u8>) -> nat
    decreases d.len(),
{
    if d.len() == 0 {
        0
    } else {
        hex_digits_value(d.drop_last()) * 16 + hex_value(d.last())->0 as nat
    }
}

/// The signature byte that a token writes: `??` for any byte, or a
/// hexadecimal number below 256 with an optional leading `+`.
pub open spec fn token_value(tok: Seq<u8>) -> Option<SignatureByte> {
    let d = if tok.len() > 0 && tok[0] == PLUS {
        tok.drop_first()
    } else {
        tok
    };
    if tok == seq![WILDCARD, WILDCARD] {
        Some(SignatureByte::Any)
    } else if d.len() == 0 || !all_hex(d) || hex_digits_value(d) > 255 {
        None
    } else {
        Some(SignatureByte::Byte(hex_digits_value(d) as u8))
    }
}

/// The bytes written by the space-separated tokens of `t` from index `i` on,
/// appended to `acc`; `None` when a token is not valid.
pub open spec fn tokens_from(t: Seq<u8>, i: int, acc: Seq<SignatureByte>) -> Option<
    Seq<SignatureByte>,
>
    decreases t.len() + 1 - i,
{
    let e = next_index(t, i, SPACE);
    if i < 0 || i > t.len() || e < i || e > t.len() {
        None
    } else {
        match token_value(t.subrange(i, e)) {
            None => None,
            Some(b) => if e >= t.len() {
                Some(acc.push(b))
            } else {
                tokens_from(t, e + 1, acc.push(b))
            },
        }
    }
}

/// The signature that the text `t` writes: tokens separated by single spaces,
/// in a text whose length is 2 more than a multiple of 3.
pub open spec fn signature_of(t: Seq<u8>) -> Option<Seq<SignatureByte>> {
    if t.len() % 3 != 2 {
        None
    } else {
        tokens_from(t, 0, Seq::empty())
    }
}

fn hex_digit(c: u8) -> (r: Option<u8>)
    ensures
        r == hex_value(c),
{
    if 48 <= c && c <= 57 {
        Some(c - 48)
    } else if 65 <= c && c <= 70 {
        Some(c - 55)
    } else if 97 <= c && c <= 102 {
        Some(c - 87)
    } else {
        None
    }
}

proof fn lemma_hex_value_grows(d: Seq<u8>, j: int)
    requires
        0 <= j <= d.len(),
        all_hex(d),
    ensures
        hex_digits_value(d.subrange(0, j)) <= hex_digits_value(d),
    decreases d.len() - j,
{
    if j < d.len() {
        lemma_hex_value_grows(d, j + 1);
        assert(d.subrange(0, j + 1).drop_last() =~= d.subrange(0, j));
    } else {
        assert(d.subrange(0, j) =~= d);
    }
}

/// The byte written by the hex digits `b[start..end]`, when there is at least
/// one, all are hex digits, and the value is below 256.
fn hex_byte(b: &[u8], start: usize, end: usize) -> (r: Option<u8>)
    requires
        start <= end <= b@.len(),
    ensures
        ({
            let d = b@.subrange(start as int, end as int);
            match r {
                Some(v) => d.len() > 0 && all_hex(d) && v == hex_digits_value(d),
                None => d.len() == 0 || !all_hex(d) || hex_digits_value(d) > 255,
            }
        }),
{
    let ghost d = b@.subrange(start as int, end as int);
    if start == end {
        return None;
    }
    let mut value: u32 = 0;
    let mut i: usize = start;
    while i < end
        invariant
            start <= i <= end <= b@.len(),
            d == b@.subrange(start as int, end as int),
            all_hex(b@.subrange(start as int, i as int)),
            value == hex_digits_value(b@.subrange(start as int, i as int)),
            value <= 255,
        decreases end - i,
    {
        assert(b@.subrange(start as int, i + 1) =~= d.subrange(0, i + 1 - start));
        assert(b@.subrange(start as int, i + 1).drop_last() =~= b@.subrange(start as int, i as int));
        let digit = match hex_digit(b[i]) {
            Some(h) => h as u32,
            None => {
                assert(hex_value(d[i - start]) is None);
                return None;
            },
        };
        if value * 16 + digit > 255 {
            proof {
                if all_hex(d) {
                    lemma_hex_value_grows(d, i + 1 - start);
                }
            }
            return None;
        }
        value = value * 16 + digit;
        i = i + 1;
    }
    assert(b@.subrange(start as int, i as int) =~= d);
    Some(value as u8)
}

fn token_of(t: &[u8], start: usize, end: usize) -> (r: Option<SignatureByte>)
    requires
        start <= end <= t@.len(),
    ensures
        r == token_value(t@.subrange(start as int, end as int)),
{
    let ghost tok = t@.subrange(start as int, end as int);
    if end - start == 2 && t[start] == WILDCARD && t[start + 1] == WILDCARD {
        assert(tok =~= seq![WILDCARD, WILDCARD]);
        return Some(SignatureByte::Any);
    }
    assert(tok != seq![WILDCARD, WILDCARD]) by {
        if tok.len() == 2 {
            assert(tok[0] == t@[start as int] && tok[1] == t@[start + 1]);
        }
    }
    let mut from = start;
    if start < end && t[start] == PLUS {
        from = start + 1;
        assert(tok.drop_first() =~= t@.subrange(from as int, end as int));
    } else {
        assert(tok =~= t@.subrange(from as int, end as int));
    }
    match hex_byte(t, from, end) {
        Some(v) => Some(SignatureByte::Byte(v)),
        None => None,
    }
}

impl Signature {
    /// Reads a signature from its text form, such as `"AA ?? CC"`.
    pub fn parse(text: &str) -> (r: Result<Signature, SignatureError>)
        ensures
            r matches Ok(s) ==> signature_of(text.spec_bytes()) == Some(s.bytes@),
            r is Err ==> signature_of(text.spec_bytes()) is None,
            text.spec_bytes().len() % 3 != 2 <==> r == Err::<Signature, SignatureError>(
                SignatureError::InvalidLength(text.spec_bytes().len() as usize),
            ),
            r == Err::<Signature, SignatureError>(SignatureError::InvalidToken) <==> (
            text.spec_bytes().len() % 3 == 2 && signature_of(text.spec_bytes()) is None),
    {
        let t = text.as_bytes();
        let ghost tb = t@;
        if t.len() % 3 != 2 {
            return Err(SignatureError::InvalidLength(t.len()));
        }
        let mut bytes: Vec<SignatureByte> = Vec::new();
        let mut i: usize = 0;
        loop
            invariant
                tb == t@,
                tb == text.spec_bytes(),
                tb.len() % 3 == 2,
                i <= tb.len(),
                signature_of(tb) == tokens_from(tb, i as int, bytes@),
            decreases tb.len() + 1 - i,
        {
            let e = find_byte(t, i, SPACE);
            match token_of(t, i, e) {
                None => {
                    return Err(SignatureError::InvalidToken);
                },
                Some(b) => bytes.push(b),
            }
            if e >= t.len() {
                return Ok(Signature { bytes });
            }
            i = e + 1;
        }
    }
}

/// Whether the signature byte `s` accepts the byte `b`.
pub open spec fn byte_matches(s: SignatureByte, b: u8) -> bool {
    match s {
        SignatureByte::Any => true,
        SignatureByte::Byte(x) => x == b,
    }
}

/// Whether `sig` matches `buf` at offset `i`.
pub open spec fn matches_at(buf: Seq<u8>, sig: Seq<SignatureByte>, i: int) -> bool {
    0 <= i && i + sig.len() <= buf.len() && forall|j: int|
        0 <= j < sig.len() ==> byte_matches(#[trigger] sig[j], buf[i + j])
}

/// The first offset at which `sig` matches `buf`, if any.
pub open spec fn first_match(buf: Seq<u8>, sig: Seq<SignatureByte>) -> Option<int> {
    if exists|i: int| matches_at(buf, sig, i) {
        Some(choose|i: int| matches_at(buf, sig, i) && forall|j: int| 0 <= j < i ==> !matches_at(buf, sig, j))
    } else {
        None
    }
}

fn matches_here(buf: &[u8], sig: &Vec<SignatureByte>, i: usize) -> (r: bool)
    requires
        i + sig@.len() <= buf@.len() <= usize::MAX,
    ensures
        r == matches_at(buf@, sig@, i as int),
{
    let mut j: usize = 0;
    while j < sig.len()
        invariant
            i + sig@.len() <= buf@.len() <= usize::MAX,
            j <= sig@.len(),
            forall|k: int| 0 <= k < j ==> byte_matches(#[trigger] sig@[k], buf@[i + k]),
        decreases sig@.len() - j,
    {
        let at = i + j;
        let ok = match sig[j] {
            SignatureByte::Any => true,
            SignatureByte::Byte(x) => x == buf[at],
        };
        if !ok {
            return false;
        }
        j = j + 1;
    }
    true
}

/// The first offset in `buff` at which `sign` matches.
pub fn find_signature(buff: &[u8], sign: &Signature) -> (r: Option<usize>)
    ensures
        r matches Some(i) ==> matches_at(buff@, sign.bytes@, i as int) && forall|j: int|
            0 <= j < i ==> !matches_at(buff@, sign.bytes@, j),
        r is None ==> forall|j: int| !matches_at(buff@, sign.bytes@, j),
        r matches Some(i) ==> first_match(buff@, sign.bytes@) == Some(i as int),
        r is None ==> first_match(buff@, sign.bytes@) is None,
{
    let m = sign.bytes.len();
    if m > buff.len() {
        return None;
    }
    let last = buff.len() - m;
    let mut i: usize = 0;
    loop
        invariant
            m == sign.bytes@.len(),
            last + m == buff@.len(),
            buff@.len() <= usize::MAX,
            i <= last,
            forall|j: int| 0 <= j < i ==> !matches_at(buff@, sign.bytes@, j),
        decreases last - i,
    {
        if matches_here(buff, &sign.bytes, i) {
            proof {
                let c = choose|k: int|
                    matches_at(buff@, sign.bytes@, k) && forall|j: int|
                        0 <= j < k ==> !matches_at(buff@, sign.bytes@, j);
                assert(matches_at(buff@, sign.bytes@, c));
                assert(!(c < i) && !(i < c));
            }
            return Some(i);
        }
        if i == last {
            assert forall|j: int| !matches_at(buff@, sign.bytes@, j) by {
                if 0 <= j && j <= i {
                } else if j > i {
                    assert(j + m > buff@.len());
                }
            }
            return None;
        }
        i = i + 1;
    }
}

/// A match at an offset, with no match at any offset before it, is the first
/// match: the one that the search reports.
pub proof fn lemma_first_match_is_found(buf: Seq<u8>, sig: Seq<SignatureByte>, i: int)
    requires
        matches_at(buf, sig, i),
        forall|j: int| 0 <= j < i ==> !matches_at(buf, sig, j),
    ensures
        first_match(buf, sig) == Some(i),
{
    let c = choose|k: int|
        matches_at(buf, sig, k) && forall|j: int| 0 <= j < k ==> !matches_at(buf, sig, j);
    assert(matches_at(buf, sig, c));
    assert(!(c < i) && !(i < c));
}

} // verus!
