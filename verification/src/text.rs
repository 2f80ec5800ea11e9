//! Text as the handlers read it: sequences of characters, with the few
//! operations on them that the rest of the library is written in.

use vstd::prelude::*;
use vstd::string::*;

use crate::lists::selects_last;
verus! {

/// `String::push`: the character is added at the end of the text.
pub assume_specification[ String::push ](s: &mut String, ch: char)
    ensures
        final(s)@ == old(s)@.push(ch),
;

/// The characters with the Unicode property White_Space.
pub open spec fn is_white_space(c: char) -> bool {
    ||| '\u{9}' <= c <= '\u{d}'
    ||| c == ' '
    ||| c == '\u{85}'
    ||| c == '\u{a0}'
    ||| c == '\u{1680}'
    ||| '\u{2000}' <= c <= '\u{200a}'
    ||| c == '\u{2028}'
    ||| c == '\u{2029}'
    ||| c == '\u{202f}'
    ||| c == '\u{205f}'
    ||| c == '\u{3000}'
}

/// The control characters (general category Cc).
pub open spec fn is_control(c: char) -> bool {
    c <= '\u{1f}' || '\u{7f}' <= c <= '\u{9f}'
}

pub open spec fn is_ascii_lower(c: char) -> bool {
    'a' <= c <= 'z'
}

pub open spec fn is_ascii_upper(c: char) -> bool {
    'A' <= c <= 'Z'
}

pub open spec fn is_ascii_digit(c: char) -> bool {
    '0' <= c <= '9'
}

pub open spec fn is_ascii_alphanumeric(c: char) -> bool {
    is_ascii_lower(c) || is_ascii_upper(c) || is_ascii_digit(c)
}

/// An ASCII capital made small; every other character as it is.
pub open spec fn ascii_lower(c: char) -> char {
    if is_ascii_upper(c) {
        ((c as u32) + 32) as char
    } else {
        c
    }
}

/// An ASCII small letter made capital; every other character as it is.
pub open spec fn ascii_upper(c: char) -> char {
    if is_ascii_lower(c) {
        ((c as u32) - 32) as char
    } else {
        c
    }
}

/// Text without the white space at either end.
pub open spec fn trimmed(s: Seq<char>) -> Seq<char>
    decreases s.len(),
{
    if s.len() == 0 {
        s
    } else if is_white_space(s.first()) {
        trimmed(s.drop_first())
    } else if is_white_space(s.last()) {
        trimmed(s.drop_last())
    } else {
        s
    }
}

/// Nothing but white space.
pub open spec fn is_blank(s: Seq<char>) -> bool {
    forall|i: int| 0 <= i < s.len() ==> is_white_space(#[trigger] s[i])
}

/// `part` stands in `s` from position `i` on.
pub open spec fn occurs_at(s: Seq<char>, part: Seq<char>, i: int) -> bool {
    &&& 0 <= i
    &&& i + part.len() <= s.len()
    &&& s.subrange(i, i + part.len()) == part
}

pub open spec fn has_text(s: Seq<char>, part: Seq<char>) -> bool {
    exists|i: int| occurs_at(s, part, i)
}

pub open spec fn starts_with(s: Seq<char>, part: Seq<char>) -> bool {
    occurs_at(s, part, 0)
}

pub open spec fn ends_with(s: Seq<char>, part: Seq<char>) -> bool {
    occurs_at(s, part, s.len() - part.len())
}

/// The pieces of `s` between the occurrences of `c`; one more than there are
/// occurrences.
pub open spec fn split_on(s: Seq<char>, c: char) -> Seq<Seq<char>>
    decreases s.len(),
{
    if s.len() == 0 {
        seq![Seq::empty()]
    } else {
        let before = split_on(s.drop_last(), c);
        if s.last() == c {
            before.push(Seq::empty())
        } else {
            before.drop_last().push(before.last().push(s.last()))
        }
    }
}

/// The position of the first `c`.
pub open spec fn first_of(s: Seq<char>, c: char) -> Option<int>
    decreases s.len(),
{
    if s.len() == 0 {
        None
    } else {
        match first_of(s.drop_last(), c) {
            Some(i) => Some(i),
            None => if s.last() == c {
                Some(s.len() - 1)
            } else {
                None
            },
        }
    }
}

/// The position of the last `c`.
pub open spec fn last_of(s: Seq<char>, c: char) -> Option<int>
    decreases s.len(),
{
    if s.len() == 0 {
        None
    } else if s.last() == c {
        Some(s.len() - 1)
    } else {
        last_of(s.drop_last(), c)
    }
}

/// At most the first `n` characters.
pub open spec fn clipped(s: Seq<char>, n: nat) -> Seq<char> {
    if s.len() <= n {
        s
    } else {
        s.take(n as int)
    }
}

pub open spec fn digit(d: nat) -> char {
    (('0' as u32) + d) as char
}

/// A number in decimal, without leading zeros.
pub open spec fn decimal(n: nat) -> Seq<char>
    decreases n,
{
    if n < 10 {
        seq![digit(n)]
    } else {
        decimal(n / 10).push(digit(n % 10))
    }
}

/// An integer in decimal, with a minus sign where it is negative.
pub open spec fn signed_decimal(n: int) -> Seq<char> {
    if n < 0 {
        seq!['-'] + decimal((-n) as nat)
    } else {
        decimal(n as nat)
    }
}

/// The texts of a list of strings.
pub open spec fn texts(v: Seq<String>) -> Seq<Seq<char>> {
    v.map_values(|s: String| s@)
}

/// The text in an optional string.
pub open spec fn opt_text(o: Option<String>) -> Option<Seq<char>> {
    match o {
        Some(s) => Some(s@),
        None => None,
    }
}

/// The text behind an optional reference to a string.
pub open spec fn opt_str(o: Option<&str>) -> Option<Seq<char>> {
    match o {
        Some(s) => Some(s@),
        None => None,
    }
}

/// A text that is not empty once trimmed, trimmed; nothing otherwise.
pub open spec fn filled(o: Option<Seq<char>>) -> Option<Seq<char>> {
    match o {
        Some(s) => if trimmed(s).len() == 0 {
            None
        } else {
            Some(trimmed(s))
        },
        None => None,
    }
}

pub fn same(a: &str, b: &str) -> (r: bool)
    ensures
        r == (a@ == b@),
{
    a.to_owned() == b.to_owned()
}

pub fn chars_of(s: &str) -> (r: Vec<char>)
    ensures
        r@ == s@,
{
    let mut out: Vec<char> = Vec::new();
    for c in it: s.chars()
        invariant
            out@ == it.seq().take(it.index()),
    {
        out.push(c);
    }
    out
}

/// The characters from `from` up to `to`, as text.
pub fn text_between(v: &Vec<char>, from: usize, to: usize) -> (r: String)
    requires
        from <= to <= v@.len(),
    ensures
        r@ == v@.subrange(from as int, to as int),
{
    let mut out = String::new();
    let mut i: usize = from;
    while i < to
        invariant
            from <= i <= to <= v@.len(),
            out@ == v@.subrange(from as int, i as int),
        decreases to - i,
    {
        out.push(v[i]);
        i = i + 1;
        assert(v@.subrange(from as int, i as int).drop_last() == v@.subrange(from as int, i - 1));
    }
    out
}

pub fn white_space(c: char) -> (r: bool)
    ensures
        r == is_white_space(c),
{
    ('\u{9}' <= c && c <= '\u{d}') || c == ' ' || c == '\u{85}' || c == '\u{a0}' || c == '\u{1680}'
        || ('\u{2000}' <= c && c <= '\u{200a}') || c == '\u{2028}' || c == '\u{2029}' || c
        == '\u{202f}' || c == '\u{205f}' || c == '\u{3000}'
}

pub fn control(c: char) -> (r: bool)
    ensures
        r == is_control(c),
{
    c <= '\u{1f}' || ('\u{7f}' <= c && c <= '\u{9f}')
}

pub fn ascii_alphanumeric(c: char) -> (r: bool)
    ensures
        r == is_ascii_alphanumeric(c),
{
    ('a' <= c && c <= 'z') || ('A' <= c && c <= 'Z') || ('0' <= c && c <= '9')
}


/// What trimming leaves starts and ends with something that is not white space,
/// and what it takes away is white space only.
pub proof fn trimmed_is_core(s: Seq<char>) -> (bounds: (int, int))
    ensures
        0 <= bounds.0 <= bounds.1 <= s.len(),
        trimmed(s) == s.subrange(bounds.0, bounds.1),
        is_blank(s.take(bounds.0)),
        is_blank(s.skip(bounds.1)),
        trimmed(s).len() > 0 ==> !is_white_space(trimmed(s).first()) && !is_white_space(
            trimmed(s).last(),
        ),
    decreases s.len(),
{
    if s.len() == 0 {
        assert(s.subrange(0, 0) == s);
        (0, 0)
    } else if is_white_space(s.first()) {
        let (a, b) = trimmed_is_core(s.drop_first());
        assert(s.drop_first().subrange(a, b) == s.subrange(a + 1, b + 1));
        assert forall|i: int| 0 <= i < s.take(a + 1).len() implies is_white_space(
            #[trigger] s.take(a + 1)[i],
        ) by {
            if i > 0 {
                assert(s.drop_first().take(a)[i - 1] == s.take(a + 1)[i]);
            }
        }
        assert(s.drop_first().skip(b) == s.skip(b + 1));
        (a + 1, b + 1)
    } else if is_white_space(s.last()) {
        let (a, b) = trimmed_is_core(s.drop_last());
        assert(s.drop_last().subrange(a, b) == s.subrange(a, b));
        assert(s.drop_last().take(a) == s.take(a));
        assert forall|i: int| 0 <= i < s.skip(b).len() implies is_white_space(
            #[trigger] s.skip(b)[i],
        ) by {
            if i < s.len() - 1 - b {
                assert(s.drop_last().skip(b)[i] == s.skip(b)[i]);
            }
        }
        (a, b)
    } else {
        assert(s.subrange(0, s.len() as int) == s);
        (0, s.len() as int)
    }
}

/// Trimming twice is trimming once.
pub proof fn trimmed_twice(s: Seq<char>)
    ensures
        trimmed(trimmed(s)) == trimmed(s),
{
    let _ = trimmed_is_core(s);
}

/// Trimming leaves nothing exactly of text that is white space throughout.
pub proof fn trimmed_empty_iff_blank(s: Seq<char>)
    ensures
        trimmed(s).len() == 0 <==> is_blank(s),
    decreases s.len(),
{
    if s.len() > 0 {
        if is_white_space(s.first()) {
            trimmed_empty_iff_blank(s.drop_first());
            assert forall|i: int| 0 <= i < s.len() && is_blank(s.drop_first()) implies is_white_space(
                #[trigger] s[i],
            ) by {
                if i > 0 {
                    assert(s.drop_first()[i - 1] == s[i]);
                }
            }
            if is_blank(s) {
                assert forall|i: int| 0 <= i < s.drop_first().len() implies is_white_space(
                    #[trigger] s.drop_first()[i],
                ) by {
                    assert(s[i + 1] == s.drop_first()[i]);
                }
            }
        } else if is_white_space(s.last()) {
            assert(!is_white_space(s[0]));
            trimmed_empty_iff_blank(s.drop_last());
            assert(s.drop_last()[0] == s[0]);
        } else {
            assert(!is_white_space(s[0]));
        }
    }
}

proof fn trimmed_within(s: Seq<char>, a: int, b: int)
    requires
        0 <= a <= b <= s.len(),
    ensures
        a < b && is_white_space(s[a]) ==> trimmed(s.subrange(a, b)) == trimmed(
            s.subrange(a + 1, b),
        ),
        a < b && !is_white_space(s[a]) && is_white_space(s[b - 1]) ==> trimmed(s.subrange(a, b))
            == trimmed(s.subrange(a, b - 1)),
        a < b && !is_white_space(s[a]) && !is_white_space(s[b - 1]) ==> trimmed(s.subrange(a, b))
            == s.subrange(a, b),
        a == b ==> trimmed(s.subrange(a, b)) == s.subrange(a, b),
{
    if a < b {
        assert(s.subrange(a, b).drop_first() == s.subrange(a + 1, b));
        assert(s.subrange(a, b).drop_last() == s.subrange(a, b - 1));
    }
}

/// Where the text between the white space at either end begins and stops.
fn trim_bounds(v: &Vec<char>) -> (r: (usize, usize))
    ensures
        r.0 <= r.1 <= v@.len(),
        v@.subrange(r.0 as int, r.1 as int) == trimmed(v@),
{
    let n: usize = v.len();
    let mut a: usize = 0;
    proof {
        assert(v@.subrange(0, n as int) == v@);
        trimmed_within(v@, 0, n as int);
    }
    while a < n && white_space(v[a])
        invariant
            n == v@.len(),
            a <= n,
            trimmed(v@.subrange(a as int, n as int)) == trimmed(v@),
        decreases n - a,
    {
        proof {
            trimmed_within(v@, a as int, n as int);
        }
        a = a + 1;
    }
    let mut b: usize = n;
    while a < b && white_space(v[b - 1])
        invariant
            n == v@.len(),
            a <= b <= n,
            a < n ==> !is_white_space(v@[a as int]),
            trimmed(v@.subrange(a as int, b as int)) == trimmed(v@),
        decreases b - a,
    {
        proof {
            trimmed_within(v@, a as int, b as int);
        }
        b = b - 1;
    }
    proof {
        trimmed_within(v@, a as int, b as int);
    }
    (a, b)
}

/// The text without the white space at either end.
pub fn trim(s: &str) -> (r: String)
    ensures
        r@ == trimmed(s@),
{
    let v = chars_of(s);
    let (a, b) = trim_bounds(&v);
    text_between(&v, a, b)
}

/// Whether trimming would leave nothing.
pub fn blank(s: &str) -> (r: bool)
    ensures
        r == (trimmed(s@).len() == 0),
{
    let v = chars_of(s);
    let (a, b) = trim_bounds(&v);
    a == b
}

/// The trimmed text of a value that has any.
pub fn trim_filled(o: Option<&str>) -> (r: Option<String>)
    ensures
        opt_text(r) == filled(opt_str(o)),
{
    match o {
        Some(s) => {
            let t = trim(s);
            if t.as_str().is_empty() {
                None
            } else {
                Some(t)
            }
        },
        None => None,
    }
}

/// Whether `c` occurs in the text.
pub fn contains_char(s: &str, c: char) -> (r: bool)
    ensures
        r == s@.contains(c),
{
    let v = chars_of(s);
    let mut i: usize = 0;
    while i < v.len()
        invariant
            i <= v@.len(),
            v@ == s@,
            forall|j: int| 0 <= j < i ==> v@[j] != c,
        decreases v@.len() - i,
    {
        if v[i] == c {
            assert(s@[i as int] == c);
            return true;
        }
        i = i + 1;
    }
    false
}

/// Whether `part` stands in `v` from position `at` on.
fn stands_at(v: &Vec<char>, part: &Vec<char>, at: usize) -> (r: bool)
    ensures
        r == occurs_at(v@, part@, at as int),
{
    let n: usize = v.len();
    if at > n || n - at < part.len() {
        return false;
    }
    let mut i: usize = 0;
    while i < part.len()
        invariant
            n == v@.len(),
            i <= part@.len(),
            at + part@.len() <= n,
            forall|j: int| 0 <= j < i ==> v@[at + j] == part@[j],
        decreases part@.len() - i,
    {
        if v[at + i] != part[i] {
            assert(v@.subrange(at as int, at + part@.len())[i as int] != part@[i as int]);
            return false;
        }
        i = i + 1;
    }
    assert(v@.subrange(at as int, at + part@.len()) == part@);
    true
}

/// The first position at or after `from` where `part` stands in `s`.
pub open spec fn find_at(s: Seq<char>, part: Seq<char>, from: int) -> Option<int>
    decreases s.len() - from + 1,
{
    if from < 0 || from > s.len() {
        None
    } else if occurs_at(s, part, from) {
        Some(from)
    } else {
        find_at(s, part, from + 1)
    }
}

/// A position that is found is one where the part stands, and the first such.
pub proof fn find_at_is_first(s: Seq<char>, part: Seq<char>, from: int)
    requires
        0 <= from,
    ensures
        match find_at(s, part, from) {
            Some(i) => from <= i && occurs_at(s, part, i) && forall|j: int|
                from <= j < i ==> !occurs_at(s, part, j),
            None => forall|j: int| from <= j ==> !occurs_at(s, part, j),
        },
    decreases s.len() - from + 1,
{
    if from <= s.len() && !occurs_at(s, part, from) {
        find_at_is_first(s, part, from + 1);
    }
}

/// Looking in what is left after `skip` characters is looking from there on.
pub proof fn find_at_after_skip(s: Seq<char>, part: Seq<char>, skip: int, from: int)
    requires
        0 <= skip <= s.len(),
        0 <= from,
    ensures
        find_at(s.skip(skip), part, from) == (match find_at(s, part, skip + from) {
            Some(i) => Some(i - skip),
            None => None,
        }),
    decreases s.len() - skip - from + 1,
{
    let t = s.skip(skip);
    if from <= t.len() {
        if from + part.len() <= t.len() {
            assert(t.subrange(from, from + part.len()) == s.subrange(
                skip + from,
                skip + from + part.len(),
            ));
        }
        assert(occurs_at(t, part, from) == occurs_at(s, part, skip + from));
        if !occurs_at(t, part, from) {
            find_at_after_skip(s, part, skip, from + 1);
        }
    }
}

/// The first position at or after `from` where `part` stands in `v`.
pub fn find_from(v: &Vec<char>, part: &Vec<char>, from: usize) -> (r: Option<usize>)
    ensures
        match r {
            Some(i) => find_at(v@, part@, from as int) == Some(i as int),
            None => find_at(v@, part@, from as int) is None,
        },
{
    let n: usize = v.len();
    if from > n {
        return None;
    }
    let mut i: usize = from;
    while i < n
        invariant
            n == v@.len(),
            from <= i <= n,
            find_at(v@, part@, from as int) == find_at(v@, part@, i as int),
        decreases n - i,
    {
        if stands_at(v, part, i) {
            return Some(i);
        }
        i = i + 1;
    }
    if stands_at(v, part, i) {
        return Some(i);
    }
    assert(find_at(v@, part@, n + 1) is None);
    None
}

/// Whether `part` occurs in the text.
pub fn contains(s: &str, part: &str) -> (r: bool)
    ensures
        r == has_text(s@, part@),
{
    let v = chars_of(s);
    let p = chars_of(part);
    proof {
        find_at_is_first(s@, part@, 0);
    }
    match find_from(&v, &p, 0) {
        Some(i) => {
            assert(occurs_at(s@, part@, i as int));
            true
        },
        None => false,
    }
}

pub fn begins(s: &str, part: &str) -> (r: bool)
    ensures
        r == starts_with(s@, part@),
{
    let v = chars_of(s);
    let p = chars_of(part);
    stands_at(&v, &p, 0)
}

pub fn ends(s: &str, part: &str) -> (r: bool)
    ensures
        r == ends_with(s@, part@),
{
    let v = chars_of(s);
    let p = chars_of(part);
    if p.len() > v.len() {
        return false;
    }
    stands_at(&v, &p, v.len() - p.len())
}

/// At most the first `n` characters.
pub fn clip(s: &str, n: usize) -> (r: String)
    ensures
        r@ == clipped(s@, n as nat),
{
    let v = chars_of(s);
    if v.len() <= n {
        s.to_owned()
    } else {
        let r = text_between(&v, 0, n);
        assert(v@.subrange(0, n as int) == v@.take(n as int));
        r
    }
}

/// Every `/`, `\\`, and where asked for also every `"` and every space, made `_`.
pub open spec fn underscored(s: Seq<char>, quotes: bool, spaces: bool) -> Seq<char> {
    s.map_values(
        |c: char|
            if c == '/' || c == '\\' || (quotes && c == '"') || (spaces && c == ' ') {
                '_'
            } else {
                c
            },
    )
}

pub fn underscore(s: &str, quotes: bool, spaces: bool) -> (r: String)
    ensures
        r@ == underscored(s@, quotes, spaces),
{
    let v = chars_of(s);
    let mut out = String::new();
    let mut i: usize = 0;
    while i < v.len()
        invariant
            i <= v@.len(),
            out@ == underscored(v@, quotes, spaces).take(i as int),
        decreases v@.len() - i,
    {
        let c: char = v[i];
        if c == '/' || c == '\\' || (quotes && c == '"') || (spaces && c == ' ') {
            out.push('_');
        } else {
            out.push(c);
        }
        i = i + 1;
        assert(underscored(v@, quotes, spaces).take(i as int).drop_last() == underscored(
            v@,
            quotes,
            spaces,
        ).take(i - 1));
    }
    assert(underscored(v@, quotes, spaces).take(v@.len() as int) == underscored(
        v@,
        quotes,
        spaces,
    ));
    out
}

/// Text with its ASCII capitals made small.
pub open spec fn lowered(s: Seq<char>) -> Seq<char> {
    s.map_values(|c: char| ascii_lower(c))
}

/// One ASCII capital made small.
pub fn lower_char(c: char) -> (r: char)
    ensures
        r == ascii_lower(c),
{
    if 'A' <= c && c <= 'Z' {
        ((c as u8) + 32) as char
    } else {
        c
    }
}

/// One ASCII small letter made capital.
pub fn upper_char(c: char) -> (r: char)
    ensures
        r == ascii_upper(c),
{
    if 'a' <= c && c <= 'z' {
        ((c as u8) - 32) as char
    } else {
        c
    }
}

/// The text with its ASCII capitals made small.
pub fn lower(s: &str) -> (r: String)
    ensures
        r@ == lowered(s@),
{
    let v = chars_of(s);
    let mut out = String::new();
    let mut i: usize = 0;
    while i < v.len()
        invariant
            i <= v@.len(),
            out@ == lowered(v@).take(i as int),
        decreases v@.len() - i,
    {
        out.push(lower_char(v[i]));
        i = i + 1;
        assert(lowered(v@).take(i as int).drop_last() == lowered(v@).take(i - 1));
    }
    assert(lowered(v@).take(v@.len() as int) == lowered(v@));
    out
}

/// The pieces between the occurrences of `c`.
pub fn split(s: &str, c: char) -> (r: Vec<String>)
    ensures
        texts(r@) == split_on(s@, c),
        r@.len() > 0,
{
    let v = chars_of(s);
    let mut done: Vec<String> = Vec::new();
    let mut part = String::new();
    let mut i: usize = 0;
    assert(v@.take(0) == Seq::<char>::empty());
    assert(texts(done@).push(part@) == split_on(v@.take(0), c));
    while i < v.len()
        invariant
            i <= v@.len(),
            texts(done@).push(part@) == split_on(v@.take(i as int), c),
        decreases v@.len() - i,
    {
        let x: char = v[i];
        let ghost before = texts(done@).push(part@);
        assert(v@.take(i as int + 1).drop_last() == v@.take(i as int));
        if x == c {
            done.push(part);
            part = String::new();
            assert(texts(done@) == before);
        } else {
            part.push(x);
            assert(before.drop_last() == texts(done@));
        }
        i = i + 1;
    }
    assert(v@.take(v@.len() as int) == v@);
    let ghost whole = texts(done@).push(part@);
    done.push(part);
    assert(texts(done@) == whole);
    done
}

/// What stands before and after the first `c`.
pub open spec fn cut_at(s: Seq<char>, c: char) -> Option<(Seq<char>, Seq<char>)> {
    match first_of(s, c) {
        Some(i) => Some((s.take(i), s.skip(i + 1))),
        None => None,
    }
}

proof fn first_of_step(s: Seq<char>, c: char, i: int)
    requires
        0 <= i < s.len(),
    ensures
        first_of(s.take(i + 1), c) == (match first_of(s.take(i), c) {
            Some(j) => Some(j),
            None => if s[i] == c {
                Some(i)
            } else {
                None
            },
        }),
{
    assert(s.take(i + 1).drop_last() == s.take(i));
}

proof fn first_of_prefix(s: Seq<char>, c: char, i: int)
    requires
        0 <= i <= s.len(),
        first_of(s.take(i), c) is Some,
    ensures
        first_of(s, c) == first_of(s.take(i), c),
    decreases s.len() - i,
{
    if i < s.len() {
        first_of_step(s, c, i);
        first_of_prefix(s, c, i + 1);
    } else {
        assert(s.take(i) == s);
    }
}

/// The first position of a character is one where it stands, and it stands
/// nowhere before that.
pub proof fn first_of_is_first(s: Seq<char>, c: char)
    ensures
        match first_of(s, c) {
            Some(i) => 0 <= i < s.len() && s[i] == c && forall|j: int| 0 <= j < i ==> s[j] != c,
            None => forall|j: int| 0 <= j < s.len() ==> s[j] != c,
        },
    decreases s.len(),
{
    if s.len() > 0 {
        first_of_is_first(s.drop_last(), c);
        assert forall|j: int| 0 <= j < s.len() - 1 implies s[j] == #[trigger] s.drop_last()[j] by {}
        match first_of(s.drop_last(), c) {
            Some(i) => {
                assert(s[i] == s.drop_last()[i]);
                assert forall|j: int| 0 <= j < i implies s[j] != c by {
                    assert(s.drop_last()[j] == s[j]);
                }
            },
            None => {
                assert forall|j: int| 0 <= j < s.len() - 1 implies s[j] != c by {
                    assert(s.drop_last()[j] == s[j]);
                }
            },
        }
    }
}

/// What stands before and after the first `c`, where there is one.
pub fn cut(s: &str, c: char) -> (r: Option<(String, String)>)
    ensures
        match r {
            Some(p) => cut_at(s@, c) == Some((p.0@, p.1@)),
            None => cut_at(s@, c) is None,
        },
{
    let v = chars_of(s);
    let mut i: usize = 0;
    assert(v@.take(0) == Seq::<char>::empty());
    while i < v.len()
        invariant
            i <= v@.len(),
            v@ == s@,
            first_of(v@.take(i as int), c) is None,
        decreases v@.len() - i,
    {
        proof {
            first_of_step(v@, c, i as int);
        }
        if v[i] == c {
            proof {
                first_of_prefix(v@, c, i as int + 1);
                assert(v@.subrange(0, i as int) == v@.take(i as int));
                assert(v@.subrange(i as int + 1, v@.len() as int) == v@.skip(i as int + 1));
            }
            return Some((text_between(&v, 0, i), text_between(&v, i + 1, v.len())));
        }
        i = i + 1;
    }
    assert(v@.take(v@.len() as int) == v@);
    None
}

/// A natural number in decimal.
pub fn number(n: u64) -> (r: String)
    ensures
        r@ == decimal(n as nat),
    decreases n,
{
    let d: u8 = (n % 10) as u8;
    let c: char = (48 + d) as char;
    assert(c == digit((n % 10) as nat));
    if n < 10 {
        let mut out = String::new();
        out.push(c);
        out
    } else {
        let mut out = number(n / 10);
        out.push(c);
        out
    }
}

/// An integer in decimal.
pub fn signed_number(n: i64) -> (r: String)
    ensures
        r@ == signed_decimal(n as int),
{
    if n < 0 {
        let m: u64 = if n == i64::MIN {
            9223372036854775808
        } else {
            (-n) as u64
        };
        let mut out = String::new();
        out.push('-');
        let body = number(m);
        out.append(body.as_str());
        out
    } else {
        number(n as u64)
    }
}

/// The two texts one after the other.
pub fn joined(a: &str, b: &str) -> (r: String)
    ensures
        r@ == a@ + b@,
{
    let mut out = a.to_owned();
    out.append(b);
    out
}

/// The three texts one after the other.
pub fn joined3(a: &str, b: &str, c: &str) -> (r: String)
    ensures
        r@ == a@ + b@ + c@,
{
    let mut out = a.to_owned();
    out.append(b);
    out.append(c);
    out
}

/// Whether one of the strings is `s`.
pub fn listed(v: &Vec<String>, s: &str) -> (r: bool)
    ensures
        r == texts(v@).contains(s@),
{
    let mut i: usize = 0;
    while i < v.len()
        invariant
            i <= v@.len(),
            forall|j: int| 0 <= j < i ==> texts(v@)[j] != s@,
        decreases v@.len() - i,
    {
        if same(v[i].as_str(), s) {
            assert(texts(v@)[i as int] == s@);
            return true;
        }
        i = i + 1;
    }
    false
}

/// The string behind a reference, or nothing.
pub fn as_text(o: &Option<String>) -> (r: Option<&str>)
    ensures
        opt_str(r) == opt_text(*o),
{
    match o {
        Some(s) => Some(s.as_str()),
        None => None,
    }
}

/// A text that has been put between two others occurs in the whole.
pub proof fn has_text_between(before: Seq<char>, part: Seq<char>, after: Seq<char>)
    ensures
        has_text(before + part + after, part),
{
    let s = before + part + after;
    assert(s.subrange(before.len() as int, (before.len() + part.len()) as int) == part);
    assert(occurs_at(s, part, before.len() as int));
}

/// What is left of a text that begins with `part`.
pub open spec fn after_prefix(s: Seq<char>, part: Seq<char>) -> Option<Seq<char>> {
    if starts_with(s, part) {
        Some(s.skip(part.len() as int))
    } else {
        None
    }
}

/// What is left of the text after `part`, where it begins with that.
pub fn strip_prefix(s: &str, part: &str) -> (r: Option<String>)
    ensures
        opt_text(r) == after_prefix(s@, part@),
{
    let v = chars_of(s);
    let p = chars_of(part);
    if stands_at(&v, &p, 0) {
        let r = text_between(&v, p.len(), v.len());
        assert(r@ == s@.skip(part@.len() as int));
        Some(r)
    } else {
        None
    }
}

/// Text without the `c`s that it ends with.
pub open spec fn without_trailing(s: Seq<char>, c: char) -> Seq<char>
    decreases s.len(),
{
    if s.len() > 0 && s.last() == c {
        without_trailing(s.drop_last(), c)
    } else {
        s
    }
}

/// The text without the `c`s that it ends with.
pub fn trim_end(s: &str, c: char) -> (r: String)
    ensures
        r@ == without_trailing(s@, c),
{
    let v = chars_of(s);
    let mut n: usize = v.len();
    assert(v@.take(v@.len() as int) == v@);
    while n > 0 && v[n - 1] == c
        invariant
            n <= v@.len(),
            without_trailing(v@.take(n as int), c) == without_trailing(v@, c),
        decreases n,
    {
        assert(v@.take(n as int).drop_last() == v@.take(n - 1));
        n = n - 1;
    }
    let r = text_between(&v, 0, n);
    assert(r@ == v@.take(n as int));
    r
}

/// The number of bytes that the text takes.
pub fn byte_len(s: &str) -> (r: usize)
    ensures
        r == vstd::utf8::encode_utf8(s@).len(),
{
    s.as_bytes().len()
}

/// The text after the last `c`, and the text before it.
pub open spec fn cut_at_last(s: Seq<char>, c: char) -> Option<(Seq<char>, Seq<char>)> {
    match last_of(s, c) {
        Some(i) => Some((s.take(i), s.skip(i + 1))),
        None => None,
    }
}

/// The last position of a character is one where it stands, and it stands nowhere
/// after that.
pub proof fn last_of_is_last(s: Seq<char>, c: char)
    ensures
        match last_of(s, c) {
            Some(i) => 0 <= i < s.len() && s[i] == c && forall|j: int| i < j < s.len() ==> s[j] != c,
            None => forall|j: int| 0 <= j < s.len() ==> s[j] != c,
        },
    decreases s.len(),
{
    if s.len() > 0 && s.last() != c {
        last_of_is_last(s.drop_last(), c);
        assert forall|j: int| 0 <= j < s.len() - 1 implies s[j] == #[trigger] s.drop_last()[j] by {}
        match last_of(s.drop_last(), c) {
            Some(i) => {
                assert(s[i] == s.drop_last()[i]);
                assert forall|j: int| i < j < s.len() implies s[j] != c by {
                    if j < s.len() - 1 {
                        assert(s.drop_last()[j] == s[j]);
                    }
                }
            },
            None => {
                assert forall|j: int| 0 <= j < s.len() implies s[j] != c by {
                    if j < s.len() - 1 {
                        assert(s.drop_last()[j] == s[j]);
                    }
                }
            },
        }
    }
}

/// What stands before and after the last `c`, where there is one.
pub fn cut_last(s: &str, c: char) -> (r: Option<(String, String)>)
    ensures
        match r {
            Some(p) => cut_at_last(s@, c) == Some((p.0@, p.1@)),
            None => cut_at_last(s@, c) is None,
        },
{
    let v = chars_of(s);
    let mut n: usize = v.len();
    assert(v@.take(v@.len() as int) == v@);
    while n > 0
        invariant
            n <= v@.len(),
            v@ == s@,
            last_of(v@.take(n as int), c) == last_of(v@, c),
        decreases n,
    {
        assert(v@.take(n as int).drop_last() == v@.take(n - 1));
        if v[n - 1] == c {
            let before = text_between(&v, 0, n - 1);
            let after = text_between(&v, n, v.len());
            proof {
                assert(before@ == v@.take(n - 1));
                assert(after@ == v@.skip(n as int));
            }
            return Some((before, after));
        }
        n = n - 1;
    }
    None
}

/// The text that bytes stand for, with a replacement character for each stretch
/// that stands for none.
pub uninterp spec fn lossy_text(bytes: Seq<u8>) -> Seq<char>;

/// `String::from_utf8_lossy`: bytes that are text are that text; of others, what
/// cannot be read is replaced.
#[verifier::external_body]
pub(crate) fn read_lossy(bytes: &[u8]) -> (r: String)
    ensures
        r@ == lossy_text(bytes@),
        vstd::utf8::valid_utf8(bytes@) ==> r@ == vstd::utf8::decode_utf8(bytes@),
{
    String::from_utf8_lossy(bytes).to_string()
}

/// The number that a run of decimal digits stands for.
pub open spec fn digits_value(s: Seq<char>) -> Option<nat>
    decreases s.len(),
{
    if s.len() == 0 {
        Some(0)
    } else {
        match digits_value(s.drop_last()) {
            Some(n) => if is_ascii_digit(s.last()) {
                Some(10 * n + (s.last() as nat - '0' as nat) as nat)
            } else {
                None
            },
            None => None,
        }
    }
}

/// The integer that a text stands for: digits, after a plus sign or, where it may be
/// negative, a minus sign.
pub open spec fn integer_value(s: Seq<char>, signed: bool) -> Option<int> {
    if s.len() == 0 {
        None
    } else if s.first() == '+' || (signed && s.first() == '-') {
        if s.len() == 1 {
            None
        } else {
            match digits_value(s.drop_first()) {
                Some(n) => if s.first() == '-' {
                    Some(-(n as int))
                } else {
                    Some(n as int)
                },
                None => None,
            }
        }
    } else {
        match digits_value(s) {
            Some(n) => Some(n as int),
            None => None,
        }
    }
}

/// The integer that a text stands for, where it lies between two bounds.
pub open spec fn integer_within(s: Seq<char>, signed: bool, least: int, most: int) -> Option<int> {
    match integer_value(s, signed) {
        Some(n) => if least <= n <= most {
            Some(n)
        } else {
            None
        },
        None => None,
    }
}

proof fn digits_value_grows(s: Seq<char>, i: int)
    requires
        0 <= i <= s.len(),
        digits_value(s) is Some,
    ensures
        digits_value(s.take(i)) is Some,
        digits_value(s.take(i))->0 <= digits_value(s)->0,
    decreases s.len() - i,
{
    if i < s.len() {
        digits_value_grows(s, i + 1);
        assert(s.take(i + 1).drop_last() == s.take(i));
    } else {
        assert(s.take(i) == s);
    }
}

proof fn digits_value_needs_digits(s: Seq<char>, i: int)
    requires
        0 <= i < s.len(),
        !is_ascii_digit(s[i]),
    ensures
        digits_value(s) is None,
    decreases s.len(),
{
    if i < s.len() - 1 {
        assert(s.drop_last()[i] == s[i]);
        digits_value_needs_digits(s.drop_last(), i);
    }
}

/// The number that the digits from `from` on stand for, where it is no more than the
/// largest 64-bit one.
fn read_digits(v: &Vec<char>, from: usize) -> (r: Option<u64>)
    requires
        from <= v@.len(),
    ensures
        match r {
            Some(n) => digits_value(v@.skip(from as int)) == Some(n as nat),
            None => match digits_value(v@.skip(from as int)) {
                Some(n) => n > u64::MAX,
                None => true,
            },
        },
{
    let ghost d = v@.skip(from as int);
    let len: usize = v.len();
    let mut n: u64 = 0;
    let mut i: usize = from;
    assert(d.take(0) == Seq::<char>::empty());
    while i < len
        invariant
            len == v@.len(),
            from <= i <= len,
            d == v@.skip(from as int),
            digits_value(d.take(i - from)) == Some(n as nat),
        decreases len - i,
    {
        let c: char = v[i];
        assert(d[i - from] == c);
        assert(d.take(i - from + 1).drop_last() == d.take(i - from));
        if !('0' <= c && c <= '9') {
            proof {
                digits_value_needs_digits(d, i - from);
            }
            return None;
        }
        let x: u64 = (c as u64) - 48;
        if n > (u64::MAX - x) / 10 {
            proof {
                if digits_value(d) is Some {
                    digits_value_grows(d, i - from + 1);
                }
            }
            return None;
        }
        n = n * 10 + x;
        i = i + 1;
    }
    assert(d.take(len - from) == d);
    Some(n)
}

/// Reads an integer between two bounds, with or without a sign.
pub fn read_integer(s: &str, signed: bool, least: i64, most: i64) -> (r: Option<i64>)
    ensures
        match r {
            Some(n) => integer_within(s@, signed, least as int, most as int) == Some(n as int),
            None => integer_within(s@, signed, least as int, most as int) is None,
        },
{
    let v = chars_of(s);
    if v.len() == 0 {
        return None;
    }
    let first: char = v[0];
    let negative = signed && first == '-';
    let from: usize = if first == '+' || negative {
        1
    } else {
        0
    };
    proof {
        assert(v@.skip(1) == v@.drop_first());
        assert(v@.skip(0) == v@);
    }
    if from == 1 && v.len() == 1 {
        return None;
    }
    let n: u64 = match read_digits(&v, from) {
        Some(n) => n,
        None => {
            return None;
        },
    };
    if negative {
        if n > 9223372036854775808 {
            return None;
        }
        let m: i64 = if n == 9223372036854775808 {
            i64::MIN
        } else {
            -(n as i64)
        };
        if least <= m && m <= most {
            Some(m)
        } else {
            None
        }
    } else {
        if n > 9223372036854775807 {
            return None;
        }
        let m: i64 = n as i64;
        if least <= m && m <= most {
            Some(m)
        } else {
            None
        }
    }
}

/// How a text is written between quotation marks, with what needs it escaped.
pub uninterp spec fn debug_text(s: Seq<char>) -> Seq<char>;

/// A character that stands for itself between quotation marks.
pub open spec fn is_unescaped(c: char) -> bool {
    ' ' <= c <= '~' && c != '"' && c != '\\'
}

/// `Debug` of a text: the text between quotation marks, with what needs it escaped.
/// Printable ASCII without quotation marks and backslashes needs none.
#[verifier::external_body]
pub(crate) fn quoted(s: &str) -> (r: String)
    ensures
        r@ == debug_text(s@),
        (forall|i: int| 0 <= i < s@.len() ==> is_unescaped(#[trigger] s@[i])) ==> r@ == seq!['"']
            + s@ + seq!['"'],
{
    format!("{s:?}")
}

pub open spec fn all_digits(s: Seq<char>) -> bool {
    forall|i: int| 0 <= i < s.len() ==> is_ascii_digit(#[trigger] s[i])
}

/// A number in decimal is made of digits, and they stand for that number.
pub proof fn decimal_reads_back(n: nat)
    ensures
        decimal(n).len() >= 1,
        all_digits(decimal(n)),
        digits_value(decimal(n)) == Some(n),
        n < 100 ==> decimal(n).len() <= 2,
        n < 10000 ==> decimal(n).len() <= 4,
    decreases n,
{
    reveal_with_fuel(decimal, 5);
    if n < 10 {
        let s = seq![digit(n)];
        assert(s.drop_last() == Seq::<char>::empty());
        assert(digits_value(s.drop_last()) == Some(0nat));
    } else {
        decimal_reads_back(n / 10);
        assert(decimal(n).drop_last() == decimal(n / 10));
        assert forall|i: int| 0 <= i < decimal(n).len() implies is_ascii_digit(
            #[trigger] decimal(n)[i],
        ) by {
            if i < decimal(n).len() - 1 {
                assert(decimal(n / 10)[i] == decimal(n)[i]);
            }
        }
    }
}

/// Zeros before a number do not change it.
pub proof fn leading_zeros(zeros: Seq<char>, s: Seq<char>)
    requires
        forall|i: int| 0 <= i < zeros.len() ==> #[trigger] zeros[i] == '0',
    ensures
        digits_value(zeros + s) == digits_value(s),
    decreases zeros.len() + s.len(),
{
    if s.len() == 0 {
        assert(zeros + s == zeros);
        if zeros.len() > 0 {
            let fewer = zeros.drop_last();
            assert forall|i: int| 0 <= i < fewer.len() implies #[trigger] fewer[i] == '0' by {
                assert(zeros[i] == fewer[i]);
            }
            leading_zeros(fewer, s);
            assert(fewer + s == fewer);
            assert(zeros[zeros.len() - 1] == '0');
        }
    } else {
        leading_zeros(zeros, s.drop_last());
        assert((zeros + s).drop_last() == zeros + s.drop_last());
    }
}

/// Text that starts and ends with something else than white space is trimmed.
pub proof fn already_trimmed(s: Seq<char>)
    requires
        s.len() > 0,
        !is_white_space(s.first()),
        !is_white_space(s.last()),
    ensures
        trimmed(s) == s,
{
}

/// The first `c` of a text that has none before position `i` and one there.
pub proof fn first_of_at(s: Seq<char>, c: char, i: int)
    requires
        0 <= i < s.len(),
        s[i] == c,
        forall|j: int| 0 <= j < i ==> s[j] != c,
    ensures
        first_of(s, c) == Some(i),
{
    first_of_is_first(s, c);
}

/// A copy of some strings.
pub fn copy_texts(v: &Vec<String>) -> (r: Vec<String>)
    ensures
        texts(r@) == texts(v@),
{
    let mut out: Vec<String> = Vec::new();
    let mut i: usize = 0;
    while i < v.len()
        invariant
            i <= v@.len(),
            texts(out@) == texts(v@).take(i as int),
        decreases v@.len() - i,
    {
        let ghost had = out@;
        let x = v[i].clone();
        out.push(x);
        proof {
            assert(texts(out@) =~= texts(had).push(x@));
            assert(texts(v@).take(i as int + 1) =~= texts(v@).take(i as int).push(x@));
        }
        i = i + 1;
    }
    assert(texts(v@).take(v@.len() as int) =~= texts(v@));
    out
}

/// Text that is not ASCII with its letters made small.
pub uninterp spec fn small_letters(s: Seq<char>) -> Seq<char>;

/// Text with its letters made small.
pub open spec fn lowercase(s: Seq<char>) -> Seq<char> {
    if vstd::utf8::is_ascii_chars(s) {
        lowered(s)
    } else {
        small_letters(s)
    }
}

/// `str::to_lowercase`: of ASCII text, its capitals made small.
pub assume_specification[ str::to_lowercase ](s: &str) -> (r: String)
    ensures
        r@ == lowercase(s@),
        !vstd::utf8::is_ascii_chars(s@) ==> r@ == small_letters(s@),
;

/// Text in one piece has nothing to be split at.
pub proof fn split_of_one(s: Seq<char>, c: char)
    requires
        !s.contains(c),
    ensures
        split_on(s, c) == seq![s],
    decreases s.len(),
{
    if s.len() > 0 {
        assert forall|i: int| 0 <= i < s.drop_last().len() implies s.drop_last()[i] != c by {
            assert(s[i] == s.drop_last()[i]);
        }
        split_of_one(s.drop_last(), c);
        assert(s[s.len() - 1] != c);
        assert(split_on(s, c) =~= seq![s.drop_last().push(s.last())]);
        assert(s.drop_last().push(s.last()) =~= s);
    } else {
        assert(s =~= Seq::<char>::empty());
    }
}

/// Texts in the order of their characters, as in a dictionary: `a` comes before `b`.
pub open spec fn sorts_before(a: Seq<char>, b: Seq<char>) -> bool
    decreases a.len(),
{
    if b.len() == 0 {
        false
    } else if a.len() == 0 {
        true
    } else if a[0] != b[0] {
        a[0] < b[0]
    } else {
        sorts_before(a.skip(1), b.skip(1))
    }
}

/// Of two texts at most one comes before the other.
pub proof fn sorts_one_way(a: Seq<char>, b: Seq<char>)
    ensures
        !(sorts_before(a, b) && sorts_before(b, a)),
    decreases a.len(),
{
    if a.len() > 0 && b.len() > 0 && a[0] == b[0] {
        sorts_one_way(a.skip(1), b.skip(1));
    }
}

/// What comes before `b` comes before every text that `b` does not come after.
pub proof fn sorts_through(a: Seq<char>, b: Seq<char>, c: Seq<char>)
    requires
        sorts_before(a, b),
        !sorts_before(c, b),
    ensures
        sorts_before(a, c),
    decreases a.len(),
{
    if a.len() > 0 && b.len() > 0 && c.len() > 0 {
        if a[0] == b[0] && b[0] == c[0] {
            sorts_through(a.skip(1), b.skip(1), c.skip(1));
        }
    }
}

/// Whether one text comes before another.
pub fn comes_before(a: &str, b: &str) -> (r: bool)
    ensures
        r == sorts_before(a@, b@),
{
    let x = chars_of(a);
    let y = chars_of(b);
    let mut i: usize = 0;
    assert(a@.skip(0) =~= a@ && b@.skip(0) =~= b@);
    while i < x.len() && i < y.len()
        invariant
            x@ == a@,
            y@ == b@,
            i <= x@.len(),
            i <= y@.len(),
            sorts_before(a@, b@) == sorts_before(a@.skip(i as int), b@.skip(i as int)),
        decreases x@.len() - i,
    {
        let c: char = x[i];
        let d: char = y[i];
        assert(a@.skip(i as int)[0] == c && b@.skip(i as int)[0] == d);
        if c != d {
            return c < d;
        }
        assert(a@.skip(i as int).skip(1) =~= a@.skip(i as int + 1));
        assert(b@.skip(i as int).skip(1) =~= b@.skip(i as int + 1));
        i = i + 1;
    }
    i < y.len()
}

/// Text with every `from` made `to`.
pub open spec fn swapped(s: Seq<char>, from: char, to: char) -> Seq<char> {
    s.map_values(
        |c: char|
            if c == from {
                to
            } else {
                c
            },
    )
}

pub fn swap(s: &str, from: char, to: char) -> (r: String)
    ensures
        r@ == swapped(s@, from, to),
{
    let v = chars_of(s);
    let mut out = String::new();
    let mut i: usize = 0;
    while i < v.len()
        invariant
            i <= v@.len(),
            v@ == s@,
            out@ == swapped(v@, from, to).take(i as int),
        decreases v@.len() - i,
    {
        let ghost whole = swapped(v@, from, to);
        if v[i] == from {
            out.push(to);
        } else {
            out.push(v[i]);
        }
        assert(whole.take(i as int + 1) =~= whole.take(i as int).push(whole[i as int]));
        i = i + 1;
    }
    assert(swapped(v@, from, to).take(v@.len() as int) =~= swapped(v@, from, to));
    out
}

/// A text begins with another where that is as long or shorter and stands at its front, and ends
/// with it where it stands at its end.
pub proof fn beginnings_and_ends(s: Seq<char>, part: Seq<char>)
    ensures
        starts_with(s, part) <==> part.len() <= s.len() && s.take(part.len() as int) == part,
        ends_with(s, part) <==> part.len() <= s.len() && s.skip(s.len() - part.len()) == part,
        starts_with(part + s, part),
        ends_with(s + part, part),
        after_prefix(part + s, part) == Some(s),
        after_prefix(s, part) matches Some(rest) ==> s == part + rest,
        after_prefix(s, part) is None <==> !starts_with(s, part),
{
    if part.len() <= s.len() {
        let n = part.len() as int;
        assert(s.subrange(0, n) =~= s.take(n));
        assert(s.subrange(s.len() - n, s.len() as int) =~= s.skip(s.len() - n));
        assert(s =~= s.take(n) + s.skip(n));
    }
    assert((part + s).subrange(0, part.len() as int) =~= part);
    assert((s + part).subrange(s.len() as int, (s + part).len() as int) =~= part);
    assert((part + s).skip(part.len() as int) =~= s);
}

/// Clipping leaves a short text as it is, and of a long one the beginning.
pub proof fn clipping_keeps_the_beginning(s: Seq<char>, n: nat)
    ensures
        clipped(s, n).len() == (if s.len() < n {
            s.len()
        } else {
            n
        }),
        forall|i: int| 0 <= i < clipped(s, n).len() ==> #[trigger] clipped(s, n)[i] == s[i],
{
}

/// A text is cut at the first mark: what is before it has none, and with the mark and what is
/// behind it makes the text. It is not cut where there is no mark.
pub proof fn cuts_are_at_the_first_mark(s: Seq<char>, c: char)
    ensures
        cut_at(s, c) is None <==> !s.contains(c),
        cut_at(s, c) matches Some(p) ==> s == p.0.push(c) + p.1 && !p.0.contains(c),
{
    first_of_is_first(s, c);
    if let Some(i) = first_of(s, c) {
        assert(s =~= s.take(i).push(c) + s.skip(i + 1));
        assert(!s.take(i).contains(c));
        assert(s.contains(c));
    } else {
        assert(!s.contains(c));
    }
}

/// A text is cut at the last mark: what is behind it has none.
pub proof fn cuts_are_at_the_last_mark(s: Seq<char>, c: char)
    ensures
        cut_at_last(s, c) is None <==> !s.contains(c),
        cut_at_last(s, c) matches Some(p) ==> s == p.0.push(c) + p.1 && !p.1.contains(c),
{
    last_of_is_last(s, c);
    if let Some(i) = last_of(s, c) {
        assert(s =~= s.take(i).push(c) + s.skip(i + 1));
        let rest = s.skip(i + 1);
        assert forall|k: int| 0 <= k < rest.len() implies #[trigger] rest[k] != c by {
            assert(rest[k] == s[i + 1 + k]);
        }
        assert(s.contains(c));
    } else {
        assert(!s.contains(c));
    }
}

/// What is left of a text without the marks at its end is its beginning, does not end in such a
/// mark, and had nothing but those behind it.
pub proof fn trailing_marks_are_dropped(s: Seq<char>, c: char)
    ensures
        without_trailing(s, c).len() <= s.len(),
        without_trailing(s, c) == s.take(without_trailing(s, c).len() as int),
        without_trailing(s, c).len() > 0 ==> without_trailing(s, c).last() != c,
        forall|k: int| without_trailing(s, c).len() <= k < s.len() ==> #[trigger] s[k] == c,
    decreases s.len(),
{
    if s.len() > 0 && s.last() == c {
        let front = s.drop_last();
        trailing_marks_are_dropped(front, c);
        let n = without_trailing(front, c).len() as int;
        assert(front.take(n) =~= s.take(n));
        assert forall|k: int| n <= k < s.len() implies #[trigger] s[k] == c by {
            if k < front.len() {
                assert(front[k] == c);
            }
        }
    } else {
        assert(s.take(s.len() as int) =~= s);
    }
}

/// Lowering a text changes its capitals, from A to Z, and nothing else.
pub proof fn lowering_changes_capitals(s: Seq<char>)
    ensures
        lowered(s).len() == s.len(),
        forall|i: int|
            0 <= i < s.len() ==> #[trigger] lowered(s)[i] == (if 'A' <= s[i] <= 'Z' {
                (s[i] as u32 + 32) as char
            } else {
                s[i]
            }),
        vstd::utf8::is_ascii_chars(s) ==> lowercase(s) == lowered(s),
        !vstd::utf8::is_ascii_chars(s) ==> lowercase(s) == small_letters(s),
{
}

/// Swapping one mark for another changes every such mark, and nothing else.
pub proof fn marks_are_swapped(s: Seq<char>, from: char, to: char)
    ensures
        swapped(s, from, to).len() == s.len(),
        forall|i: int|
            0 <= i < s.len() && s[i] == from ==> #[trigger] swapped(s, from, to)[i] == to,
        forall|i: int|
            0 <= i < s.len() && s[i] != from ==> #[trigger] swapped(s, from, to)[i] == s[i],
        from != to ==> !swapped(s, from, to).contains(from),
{
    if from != to && swapped(s, from, to).contains(from) {
        let i = choose|i: int| 0 <= i < s.len() && swapped(s, from, to)[i] == from;
        assert(s[i] == from || s[i] != from);
    }
}

/// A name for a file has an underscore for each stroke, and for each quote and blank where those
/// are asked for; what is none of them stays.
pub proof fn names_have_no_strokes(s: Seq<char>, quotes: bool, spaces: bool)
    ensures
        underscored(s, quotes, spaces).len() == s.len(),
        !underscored(s, quotes, spaces).contains('/'),
        !underscored(s, quotes, spaces).contains('\\'),
        quotes ==> !underscored(s, quotes, spaces).contains('"'),
        spaces ==> !underscored(s, quotes, spaces).contains(' '),
        forall|i: int|
            #![trigger underscored(s, quotes, spaces)[i]]
            0 <= i < s.len() ==> underscored(s, quotes, spaces)[i] == s[i] || (
            underscored(s, quotes, spaces)[i] == '_' && (s[i] == '/' || s[i] == '\\' || (quotes
                && s[i] == '"') || (spaces && s[i] == ' '))),
{
    let r = underscored(s, quotes, spaces);
    assert forall|i: int| 0 <= i < s.len() implies #[trigger] r[i] != '/' && r[i] != '\\' && (quotes
        ==> r[i] != '"') && (spaces ==> r[i] != ' ') by {
        assert(r[i] == s[i] || r[i] == '_');
    }
}

/// What was filled in is what is not blank, without the blanks around it.
pub proof fn blanks_are_not_filled_in(o: Option<Seq<char>>)
    ensures
        filled(o) is None <==> (o matches Some(s) ==> is_blank(s)),
        filled(o) matches Some(t) ==> (o matches Some(s) && t == trimmed(s)),
{
    if let Some(s) = o {
        trimmed_empty_iff_blank(s);
    }
}

/// A number with a sign is its size in digits, behind a minus where it is below nought.
pub proof fn signs_stand_in_front(n: int)
    ensures
        integer_value(signed_decimal(n), true) == Some(n),
        n >= 0 ==> signed_decimal(n) == decimal(n as nat),
{
    let size = (if n < 0 {
        -n
    } else {
        n
    }) as nat;
    decimal_reads_back(size);
    let d = decimal(size);
    assert(is_ascii_digit(d[0]));
    if n < 0 {
        assert((seq!['-'] + d).drop_first() =~= d);
    }
}

/// A number is read where it lies within its bounds, and then as it is.
pub proof fn numbers_are_read_within_bounds(s: Seq<char>, signed: bool, least: int, most: int)
    ensures
        integer_within(s, signed, least, most) matches Some(n) ==> integer_value(s, signed) == Some(
            n,
        ) && least <= n <= most,
        integer_within(s, signed, least, most) is None <==> (integer_value(s, signed) matches Some(
            n,
        ) ==> n < least || n > most),
{
}

/// The parts of a text between its marks: one more than there are marks, none with a mark in it.
pub proof fn parts_have_no_marks(s: Seq<char>, c: char)
    ensures
        split_on(s, c).len() == s.filter(|x: char| x == c).len() + 1,
        forall|i: int| 0 <= i < split_on(s, c).len() ==> !(#[trigger] split_on(s, c)[i]).contains(c),
    decreases s.len(),
{
    selects_last(s, |x: char| x == c);
    let all = split_on(s, c);
    if s.len() > 0 {
        let front = s.drop_last();
        let before = split_on(front, c);
        parts_have_no_marks(front, c);
        assert forall|i: int| 0 <= i < all.len() implies !(#[trigger] all[i]).contains(c) by {
            if i < before.len() - 1 {
                assert(all[i] == before[i]);
            } else if s.last() == c {
                if i < before.len() {
                    assert(all[i] == before[i]);
                }
            } else {
                let x = before.last();
                assert(!before[before.len() - 1].contains(c));
                let more = x.push(s.last());
                assert forall|k: int| 0 <= k < more.len() implies #[trigger] more[k] != c by {
                    if k < x.len() {
                        assert(x.contains(x[k]));
                    }
                }
            }
        }
    } else {
        assert(all[0] =~= Seq::<char>::empty());
    }
}

/// A text is its parts with a mark between each two: cut at its last mark, it has the parts of
/// what is before it and then what is behind it.
pub proof fn parts_make_the_text(a: Seq<char>, b: Seq<char>, c: char)
    requires
        !b.contains(c),
    ensures
        split_on(b, c) == seq![b],
        split_on(a.push(c) + b, c) == split_on(a, c).push(b),
    decreases b.len(),
{
    split_of_one(b, c);
    let s = a.push(c) + b;
    if b.len() == 0 {
        assert(s.drop_last() =~= a);
        assert(s.last() == c);
        assert(b =~= Seq::<char>::empty());
    } else {
        let front = b.drop_last();
        assert forall|k: int| 0 <= k < front.len() implies front[k] != c by {
            assert(b.contains(b[k]));
        }
        assert(!front.contains(c));
        parts_make_the_text(a, front, c);
        assert(s.drop_last() =~= a.push(c) + front);
        assert(s.last() == b.last());
        assert(b.contains(b.last()));
        assert(front.push(b.last()) =~= b);
        assert(split_on(a, c).push(front).drop_last() =~= split_on(a, c));
        assert(split_on(s, c) =~= split_on(a, c).push(b));
    }
}

/// The marks that are told apart: control characters, small letters, capitals, digits, and what a
/// quoted text holds as it is.
pub proof fn classes_of_marks(c: char)
    ensures
        is_control(c) <==> (c as u32) < 32 || 127 <= (c as u32) < 160,
        is_ascii_lower(c) <==> 97 <= (c as u32) <= 122,
        is_ascii_upper(c) <==> 65 <= (c as u32) <= 90,
        is_ascii_alphanumeric(c) <==> 97 <= (c as u32) <= 122 || 65 <= (c as u32) <= 90 || 48 <= (
        c as u32) <= 57,
        is_unescaped(c) <==> 32 <= (c as u32) <= 126 && c != '"' && c != '\\',
{
}

/// A text without a mark is not cut at it; with one put behind it, it is cut there.
pub proof fn cuts_where_marked(a: Seq<char>, b: Seq<char>, c: char)
    ensures
        !a.contains(c) ==> cut_at(a, c) is None,
        !a.contains(c) ==> cut_at(a.push(c) + b, c) == Some((a, b)),
{
    if !a.contains(c) {
        first_of_is_first(a, c);
        let s = a.push(c) + b;
        assert forall|j: int| 0 <= j < a.len() implies s[j] != c by {
            assert(a.contains(a[j]));
        }
        first_of_at(s, c, a.len() as int);
        assert(s.take(a.len() as int) =~= a);
        assert(s.skip(a.len() as int + 1) =~= b);
    }
}

/// A text without a mark is not cut at it; with one put before it, it is cut there.
pub proof fn cuts_at_last_where_marked(a: Seq<char>, b: Seq<char>, c: char)
    ensures
        !b.contains(c) ==> cut_at_last(b, c) is None,
        !b.contains(c) ==> cut_at_last(a.push(c) + b, c) == Some((a, b)),
{
    if !b.contains(c) {
        last_of_is_last(b, c);
        let s = a.push(c) + b;
        last_of_is_last(s, c);
        assert(s[a.len() as int] == c);
        assert forall|j: int| a.len() < j < s.len() implies s[j] != c by {
            assert(b.contains(b[j - a.len() - 1]));
        }
        assert(last_of(s, c) == Some(a.len() as int));
        assert(s.take(a.len() as int) =~= a);
        assert(s.skip(a.len() as int + 1) =~= b);
    }
}

/// Texts are seen as they are, each in its place.
pub proof fn texts_are_seen_as_they_are(v: Seq<String>, s: String)
    ensures
        texts(v).len() == v.len(),
        forall|i: int| 0 <= i < v.len() ==> #[trigger] texts(v)[i] == v[i]@,
        opt_text(Some(s)) == Some(s@),
        opt_text(None) is None,
        opt_str(None) is None,
{
}

/// Capitals and small letters stand for each other, and nothing else changes.
pub proof fn letters_come_in_pairs(c: char)
    ensures
        'a' <= c <= 'z' ==> ascii_upper(c) as u32 == c as u32 - 32 && ascii_lower(ascii_upper(c))
            == c,
        'A' <= c <= 'Z' ==> ascii_lower(c) as u32 == c as u32 + 32 && ascii_upper(ascii_lower(c))
            == c,
        !('a' <= c <= 'z') ==> ascii_upper(c) == c,
        !('A' <= c <= 'Z') ==> ascii_lower(c) == c,
{
}

/// What is blank is made of white space alone, and these are the marks of white space.
pub proof fn which_marks_are_blank(c: char)
    ensures
        is_white_space(c)
            <==> (9 <= c as u32 <= 13) || c as u32 == 32 || c as u32 == 0x85 || c as u32
            == 0xa0 || c as u32 == 0x1680 || (0x2000 <= c as u32 <= 0x200a) || c as u32 == 0x2028
            || c as u32 == 0x2029 || c as u32 == 0x202f || c as u32 == 0x205f || c as u32 == 0x3000,
        is_ascii_digit(c) <==> 48 <= c as u32 <= 57,
{
}

/// The value of digits grows tenfold with each digit, by the digit's own.
pub proof fn digits_count_tenfold(s: Seq<char>, c: char, n: nat)
    ensures
        digits_value(Seq::<char>::empty()) == Some(0nat),
        digits_value(s) == Some(n) && '0' <= c <= '9' ==> digits_value(s.push(c)) == Some(
            (10 * n + (c as u32 - 48)) as nat,
        ),
        digits_value(s) is None || !('0' <= c <= '9') ==> digits_value(s.push(c)) is None,
        n < 10 ==> digit(n) as u32 == 48 + n,
{
    assert(s.push(c).drop_last() =~= s);
}

} // verus!
