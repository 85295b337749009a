//! Stable content identifiers for reportable events.
//!
//! An event's identifier is the lower-case hex encoding of the SHA-256
//! digest of its identity string: the timestamp rendered in decimal,
//! immediately followed by the event body.

use vstd::prelude::*;
use crate::numfmt::{dec_int, digit_char, i64_to_dec};

verus! {

/// What SHA-256 returns for a given character sequence. The digest depends
/// on the input characters alone (a `str`'s UTF-8 bytes are a function of
/// its characters), so the result can be named.
pub uninterp spec fn sha256_of(s: Seq<char>) -> Seq<u8>;

/// Relies on sha2's `Sha256` through the `Digest` trait: a pure function of
/// the input bytes with a 32-byte output.
#[verifier::external_body]
fn sha256_digest(s: &str) -> (r: Vec<u8>)
    ensures
        r@ == sha256_of(s@),
        r@.len() == 32,
{
    <sha2::Sha256 as sha2::Digest>::digest(s.as_bytes()).to_vec()
}

/// The character for one hex digit value, lower case.
pub open spec fn hex_digit(d: int) -> char
    recommends
        0 <= d < 16,
{
    if d < 10 {
        digit_char(d)
    } else if d == 10 {
        'a'
    } else if d == 11 {
        'b'
    } else if d == 12 {
        'c'
    } else if d == 13 {
        'd'
    } else if d == 14 {
        'e'
    } else {
        'f'
    }
}

/// Lower-case hex encoding of a byte sequence, two digits per byte,
/// high nibble first.
pub open spec fn hex_seq(data: Seq<u8>) -> Seq<char>
    decreases data.len(),
{
    if data.len() == 0 {
        Seq::empty()
    } else {
        seq![hex_digit(data[0] as int / 16), hex_digit(data[0] as int % 16)] + hex_seq(
            data.drop_first(),
        )
    }
}

pub proof fn lemma_hex_seq_len(data: Seq<u8>)
    ensures
        hex_seq(data).len() == 2 * data.len(),
    decreases data.len(),
{
    if data.len() > 0 {
        lemma_hex_seq_len(data.drop_first());
    }
}

fn hex_digit_literal(d: u8) -> (r: &'static str)
    requires
        d < 16,
    ensures
        r@ == seq![hex_digit(d as int)],
{
    proof {
        reveal_strlit("0");
        reveal_strlit("1");
        reveal_strlit("2");
        reveal_strlit("3");
        reveal_strlit("4");
        reveal_strlit("5");
        reveal_strlit("6");
        reveal_strlit("7");
        reveal_strlit("8");
        reveal_strlit("9");
        reveal_strlit("a");
        reveal_strlit("b");
        reveal_strlit("c");
        reveal_strlit("d");
        reveal_strlit("e");
        reveal_strlit("f");
    }
    match d {
        0 => "0",
        1 => "1",
        2 => "2",
        3 => "3",
        4 => "4",
        5 => "5",
        6 => "6",
        7 => "7",
        8 => "8",
        9 => "9",
        10 => "a",
        11 => "b",
        12 => "c",
        13 => "d",
        14 => "e",
        _ => "f",
    }
}

/// Renders a byte vector as lower-case hex.
pub fn to_hex(data: &Vec<u8>) -> (r: String)
    ensures
        r@ == hex_seq(data@),
{
    let mut s = String::new();
    let mut i: usize = 0;
    proof {
        assert(data@.skip(0) =~= data@);
    }
    while i < data.len()
        invariant
            i <= data@.len(),
            hex_seq(data@) == s@ + hex_seq(data@.skip(i as int)),
        decreases data@.len() - i,
    {
        let b = data[i];
        s.append(hex_digit_literal(b / 16));
        s.append(hex_digit_literal(b % 16));
        proof {
            assert(data@.skip(i as int).drop_first() =~= data@.skip(i as int + 1));
        }
        i = i + 1;
    }
    proof {
        assert(s@ + hex_seq(data@.skip(i as int)) =~= s@);
    }
    s
}

/// The identity string of an event: its timestamp in decimal, then its body.
pub open spec fn identity_seq(timestamp: int, body: Seq<char>) -> Seq<char> {
    dec_int(timestamp) + body
}

/// The identifier of an event: lower-case hex of the SHA-256 digest of its
/// identity string.
pub open spec fn identifier_of(timestamp: int, body: Seq<char>) -> Seq<char> {
    hex_seq(sha256_of(identity_seq(timestamp, body)))
}

/// A reportable event: anything with an epoch timestamp and an identity
/// body, from which a stable dedup identifier is derived.
pub trait Identifier {
    spec fn spec_timestamp(&self) -> int;

    spec fn spec_body(&self) -> Seq<char>;

    fn get_timestamp(&self) -> (r: i64)
        ensures
            r as int == self.spec_timestamp(),
    ;

    fn get_body(&self) -> (r: String)
        ensures
            r@ == self.spec_body(),
    ;

    /// Derives the event's stable identifier. Identical (timestamp, body)
    /// pairs always yield the same identifier.
    fn get_identifier(&self) -> (r: String)
        ensures
            r@ == identifier_of(self.spec_timestamp(), self.spec_body()),
            r@.len() == 64,
    {
        let mut s = i64_to_dec(self.get_timestamp());
        let body = self.get_body();
        s.append(body.as_str());
        let digest = sha256_digest(s.as_str());
        proof {
            lemma_hex_seq_len(digest@);
        }
        to_hex(&digest)
    }
}

/// Identification is deterministic: the identifier is a function of the
/// timestamp and the body alone.
pub proof fn lemma_identifier_deterministic(t1: int, b1: Seq<char>, t2: int, b2: Seq<char>)
    requires
        t1 == t2,
        b1 == b2,
    ensures
        identifier_of(t1, b1) == identifier_of(t2, b2),
{
}

/// Before hashing, the identity string is injective on pairs whose bodies
/// have equal length: distinct events then have distinct identity strings.
/// (Distinctness of the identifiers themselves additionally rests on the
/// collision resistance of the digest.)
pub proof fn lemma_identity_seq_injective(t1: int, b1: Seq<char>, t2: int, b2: Seq<char>)
    requires
        identity_seq(t1, b1) == identity_seq(t2, b2),
        b1.len() == b2.len(),
    ensures
        t1 == t2,
        b1 == b2,
{
    let s1 = dec_int(t1);
    let s2 = dec_int(t2);
    assert((s1 + b1).len() == s1.len() + b1.len());
    assert((s2 + b2).len() == s2.len() + b2.len());
    assert(s1.len() == s2.len());
    assert(s1 =~= s2) by {
        assert forall|i: int| 0 <= i < s1.len() implies s1[i] == s2[i] by {
            assert((s1 + b1)[i] == s1[i]);
            assert((s2 + b2)[i] == s2[i]);
        }
    }
    crate::numfmt::lemma_dec_int_injective(t1, t2);
    assert(b1 =~= b2) by {
        assert forall|j: int| 0 <= j < b1.len() implies b1[j] == b2[j] by {
            assert((s1 + b1)[s1.len() + j] == b1[j]);
            assert((s2 + b2)[s2.len() + j] == b2[j]);
        }
    }
}

} // verus!
