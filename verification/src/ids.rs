//! Identifiers as text, and digests.

use vstd::arithmetic::power::pow;
use vstd::prelude::*;
use vstd::string::*;

use crate::lists::selects_last;
use crate::principal::Id;
use crate::text::{lowered, texts};

verus! {

/// The hexadecimal digit of a number below sixteen, in small letters.
pub open spec fn hex_digit(n: int) -> char {
    if n < 10 {
        (('0' as u32) + n) as char
    } else {
        (('a' as u32) + n - 10) as char
    }
}

/// The number that a hexadecimal digit stands for, in either case.
pub open spec fn hex_value(c: char) -> Option<int> {
    if '0' <= c <= '9' {
        Some(c as int - '0' as int)
    } else if 'a' <= c <= 'f' {
        Some(c as int - 'a' as int + 10)
    } else if 'A' <= c <= 'F' {
        Some(c as int - 'A' as int + 10)
    } else {
        None
    }
}

/// The last `width` hexadecimal digits of a number.
pub open spec fn hex_text(n: int, width: nat) -> Seq<char>
    decreases width,
{
    if width == 0 {
        Seq::empty()
    } else {
        hex_text(n / 16, (width - 1) as nat).push(hex_digit(n % 16))
    }
}

/// The number that a run of hexadecimal digits stands for.
pub open spec fn hex_number(s: Seq<char>) -> Option<int>
    decreases s.len(),
{
    if s.len() == 0 {
        Some(0)
    } else {
        match (hex_number(s.drop_last()), hex_value(s.last())) {
            (Some(high), Some(low)) => Some(16 * high + low),
            _ => None,
        }
    }
}

/// Each byte as two hexadecimal digits.
pub open spec fn hex_bytes(b: Seq<u8>) -> Seq<char> {
    Seq::new(
        2 * b.len(),
        |i: int|
            hex_digit(
                if i % 2 == 0 {
                    b[i / 2] as int / 16
                } else {
                    b[i / 2] as int % 16
                },
            ),
    )
}

/// An identifier as thirty-two digits.
pub open spec fn simple_text(id: Id) -> Seq<char> {
    hex_text(id as int, 32)
}

/// Thirty-two digits with hyphens after the eighth, twelfth, sixteenth and
/// twentieth.
pub open spec fn hyphened(s: Seq<char>) -> Seq<char> {
    s.subrange(0, 8).push('-') + s.subrange(8, 12).push('-') + s.subrange(12, 16).push('-')
        + s.subrange(16, 20).push('-') + s.subrange(20, 32)
}

/// An identifier in its usual form.
pub open spec fn id_text(id: Id) -> Seq<char> {
    hyphened(simple_text(id))
}

/// The digits of a text that has its four hyphens in place.
pub open spec fn unhyphened(s: Seq<char>) -> Option<Seq<char>> {
    if s.len() == 36 && s[8] == '-' && s[13] == '-' && s[18] == '-' && s[23] == '-' {
        Some(
            s.subrange(0, 8) + s.subrange(9, 13) + s.subrange(14, 18) + s.subrange(19, 23)
                + s.subrange(24, 36),
        )
    } else {
        None
    }
}

/// The digits of an identifier in any of the forms it is written in: bare, with
/// hyphens, in braces, or as a URN.
pub open spec fn id_digits(s: Seq<char>) -> Option<Seq<char>> {
    if s.len() == 32 {
        Some(s)
    } else if s.len() == 36 {
        unhyphened(s)
    } else if s.len() == 38 && s.first() == '{' && s.last() == '}' {
        unhyphened(s.subrange(1, 37))
    } else if s.len() == 45 && lowered(s.take(9)) == "urn:uuid:"@ {
        unhyphened(s.skip(9))
    } else {
        None
    }
}

/// The identifier that a text stands for.
pub open spec fn id_of(s: Seq<char>) -> Option<Id> {
    match id_digits(s) {
        Some(d) => match hex_number(d) {
            Some(n) => Some(n as Id),
            None => None,
        },
        None => None,
    }
}

proof fn hex_digit_value(n: int)
    requires
        0 <= n < 16,
    ensures
        hex_value(hex_digit(n)) == Some(n),
{
}

proof fn hex_text_number(n: int, width: nat)
    requires
        0 <= n < pow(16, width),
    ensures
        hex_text(n, width).len() == width,
        hex_number(hex_text(n, width)) == Some(n),
    decreases width,
{
    reveal(pow);
    if width > 0 {
        let w = (width - 1) as nat;
        assert(n / 16 < pow(16, w));
        hex_text_number(n / 16, w);
        hex_digit_value(n % 16);
        let s = hex_text(n, width);
        assert(s.drop_last() == hex_text(n / 16, w));
    }
}

proof fn sixteen_to_the_thirty_two()
    ensures
        pow(16, 32) == 0x1_0000_0000_0000_0000_0000_0000_0000_0000int,
{
    vstd::arithmetic::power::lemma_pow_adds(16, 16, 16);
    vstd::arithmetic::power::lemma_pow_adds(16, 8, 8);
    vstd::arithmetic::power::lemma_pow_adds(16, 4, 4);
    reveal_with_fuel(pow, 5);
    assert(pow(16, 4) == 65536);
    assert(pow(16, 4) * pow(16, 4) == 0x1_0000_0000int) by (nonlinear_arith)
        requires
            pow(16, 4) == 65536,
    ;
    assert(pow(16, 8) * pow(16, 8) == 0x1_0000_0000_0000_0000int) by (nonlinear_arith)
        requires
            pow(16, 8) == 0x1_0000_0000int,
    ;
    assert(pow(16, 16) * pow(16, 16) == 0x1_0000_0000_0000_0000_0000_0000_0000_0000int)
        by (nonlinear_arith)
        requires
            pow(16, 16) == 0x1_0000_0000_0000_0000int,
    ;
}

/// The thirty-two digits of an identifier stand for it.
pub proof fn simple_text_reads_back(id: Id)
    ensures
        simple_text(id).len() == 32,
        hex_number(simple_text(id)) == Some(id as int),
{
    sixteen_to_the_thirty_two();
    hex_text_number(id as int, 32);
}

/// An identifier's usual text stands for that identifier.
pub proof fn id_text_reads_back(id: Id)
    ensures
        id_text(id).len() == 36,
        id_of(id_text(id)) == Some(id),
{
    simple_text_reads_back(id);
    let d = simple_text(id);
    let s = id_text(id);
    assert(s.len() == 36);
    assert(s.subrange(0, 8) + s.subrange(9, 13) + s.subrange(14, 18) + s.subrange(19, 23)
        + s.subrange(24, 36) == d);
}

/// `Uuid::to_string`: the identifier with hyphens, in small letters.
#[verifier::external_body]
pub(crate) fn id_to_text(id: Id) -> (r: String)
    ensures
        r@ == id_text(id),
{
    uuid::Uuid::from_u128(id).to_string()
}

/// `Uuid::simple`: the identifier's thirty-two digits, in small letters.
#[verifier::external_body]
pub(crate) fn id_to_simple_text(id: Id) -> (r: String)
    ensures
        r@ == simple_text(id),
{
    uuid::Uuid::from_u128(id).simple().to_string()
}

/// `Uuid::parse_str`: reads an identifier in any of its four forms, and nothing
/// else.
#[verifier::external_body]
pub(crate) fn parse_id(s: &str) -> (r: Option<Id>)
    ensures
        r == id_of(s@),
{
    uuid::Uuid::parse_str(s).ok().map(|u| u.as_u128())
}

/// The SHA-256 digest of some bytes.
pub uninterp spec fn sha256(bytes: Seq<u8>) -> Seq<u8>;

/// `Sha256::digest`: the digest, which is thirty-two bytes long.
#[verifier::external_body]
pub(crate) fn sha256_of(bytes: &[u8]) -> (r: Vec<u8>)
    ensures
        r@ == sha256(bytes@),
        r@.len() == 32,
{
    <sha2::Sha256 as sha2::Digest>::digest(bytes).to_vec()
}

/// `hex::encode`: two small hexadecimal digits for each byte.
#[verifier::external_body]
pub(crate) fn hex_encode(bytes: &[u8]) -> (r: String)
    ensures
        r@ == hex_bytes(bytes@),
{
    hex::encode(bytes)
}

/// The identifiers among texts, in their order; what is no identifier is passed over.
pub open spec fn ids_among(s: Seq<Seq<char>>) -> Seq<Id>
    decreases s.len(),
{
    if s.len() == 0 {
        Seq::empty()
    } else {
        let before = ids_among(s.drop_last());
        match id_of(s.last()) {
            Some(id) => before.push(id),
            None => before,
        }
    }
}

/// Reads the identifiers among texts.
pub(crate) fn read_ids(v: &Vec<String>) -> (r: Vec<Id>)
    ensures
        r@ == ids_among(texts(v@)),
{
    let ghost all = texts(v@);
    let mut out: Vec<Id> = Vec::new();
    let mut i: usize = 0;
    assert(all.take(0) == Seq::<Seq<char>>::empty());
    while i < v.len()
        invariant
            i <= v@.len(),
            all == texts(v@),
            out@ == ids_among(all.take(i as int)),
        decreases v@.len() - i,
    {
        assert(all.take(i as int + 1).drop_last() == all.take(i as int));
        match parse_id(v[i].as_str()) {
            Some(id) => out.push(id),
            None => {},
        }
        i = i + 1;
    }
    assert(all.take(v@.len() as int) == all);
    out
}

/// Every text that is an identifier is read as one, in their order; the others are passed over.
pub proof fn identifiers_are_read_where_they_are(s: Seq<Seq<char>>)
    ensures
        ids_among(s)
            == s.filter(|x: Seq<char>| id_of(x) is Some).map_values(|x: Seq<char>| id_of(x)->0),
    decreases s.len(),
{
    let p = |x: Seq<char>| id_of(x) is Some;
    selects_last(s, p);
    if s.len() > 0 {
        identifiers_are_read_where_they_are(s.drop_last());
    }
    assert(ids_among(s) =~= s.filter(p).map_values(|x: Seq<char>| id_of(x)->0));
}

/// An identifier is written as thirty-two small hexadecimal digits in five groups, with hyphens
/// between them.
pub proof fn identifiers_are_written_in_groups(id: Id)
    ensures
        id_text(id).len() == 36,
        forall|i: int|
            #![trigger id_text(id)[i]]
            0 <= i < 36 ==> if i == 8 || i == 13 || i == 18 || i == 23 {
                id_text(id)[i] == '-'
            } else {
                '0' <= id_text(id)[i] <= '9' || 'a' <= id_text(id)[i] <= 'f'
            },
{
    simple_text_reads_back(id);
    hex_texts_are_small(id as int, 32);
    let s = simple_text(id);
    let t = id_text(id);
    assert forall|i: int| #![trigger t[i]] 0 <= i < 36 implies if i == 8 || i == 13 || i == 18 || i
        == 23 {
        t[i] == '-'
    } else {
        '0' <= t[i] <= '9' || 'a' <= t[i] <= 'f'
    } by {
        if i < 8 {
            assert(t[i] == s[i]);
        } else if 8 < i < 13 {
            assert(t[i] == s[i - 1]);
        } else if 13 < i < 18 {
            assert(t[i] == s[i - 2]);
        } else if 18 < i < 23 {
            assert(t[i] == s[i - 3]);
        } else if 23 < i {
            assert(t[i] == s[i - 4]);
        }
    }
}

proof fn hex_texts_are_small(n: int, width: nat)
    requires
        n >= 0,
    ensures
        hex_text(n, width).len() == width,
        forall|i: int|
            #![trigger hex_text(n, width)[i]]
            0 <= i < width ==> '0' <= hex_text(n, width)[i] <= '9' || 'a' <= hex_text(n, width)[i]
                <= 'f',
    decreases width,
{
    if width > 0 {
        hex_texts_are_small(n / 16, (width - 1) as nat);
    }
}

/// An identifier is read with hyphens or without, in braces, or as a resource's name, from
/// hexadecimal digits in capitals or not; and from nothing else.
pub proof fn identifiers_are_read_in_four_ways(s: Seq<char>, c: char)
    ensures
        id_of(s) is Some ==> s.len() == 32 || s.len() == 36 || s.len() == 38 || s.len() == 45,
        s.len() == 32 ==> (id_of(s) is Some <==> hex_number(s) is Some),
        s.len() == 36 && id_of(s) is Some ==> s[8] == '-' && s[13] == '-' && s[18] == '-' && s[23]
            == '-',
        s.len() == 38 ==> (id_of(s) is Some <==> s[0] == '{' && s[37] == '}' && id_of(
            s.subrange(1, 37),
        ) is Some),
        s.len() == 38 && id_of(s) is Some ==> id_of(s) == id_of(s.subrange(1, 37)),
        s.len() == 45 && id_of(s) is Some ==> lowered(s.take(9)) == "urn:uuid:"@ && id_of(s)
            == id_of(s.skip(9)),
        hex_value(c) is Some <==> '0' <= c <= '9' || 'a' <= c <= 'f' || 'A' <= c <= 'F',
{
}

/// Bytes are written as two hexadecimal digits each, the higher one first.
pub proof fn bytes_are_written_in_pairs(b: Seq<u8>, i: int)
    requires
        0 <= i < b.len(),
    ensures
        hex_bytes(b).len() == 2 * b.len(),
        hex_value(hex_bytes(b)[2 * i]) == Some(b[i] as int / 16),
        hex_value(hex_bytes(b)[2 * i + 1]) == Some(b[i] as int % 16),
{
    hex_digit_value(b[i] as int / 16);
    hex_digit_value(b[i] as int % 16);
}

} // verus!
