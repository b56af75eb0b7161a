//! Taking texts apart: splitting, searching, addresses.
use vstd::prelude::*;

use crate::text::{
    all_digits, chars_of, decimal, digit_value, digits_value, dotted, lemma_digit, number, octet,
    parse_number,
};

verus! {

/// The pieces of `s` between the occurrences of `sep`.
pub open spec fn split(s: Seq<char>, sep: char) -> Seq<Seq<char>>
    decreases s.len(),
{
    if s.len() == 0 {
        seq![Seq::empty()]
    } else {
        let head = split(s.drop_last(), sep);
        if s.last() == sep {
            head.push(Seq::empty())
        } else {
            head.drop_last().push(head.last().push(s.last()))
        }
    }
}

/// Texts as characters.
pub open spec fn texts(v: Seq<&str>) -> Seq<Seq<char>> {
    v.map_values(|p: &str| p@)
}

/// The pieces of a text between the occurrences of a character.
pub fn split_text<'a>(s: &'a str, sep: char) -> (r: Vec<&'a str>)
    ensures
        texts(r@) == split(s@, sep),
{
    let n: usize = s.unicode_len();
    let mut r: Vec<&'a str> = Vec::new();
    let mut start: usize = 0;
    let mut i: usize = 0;
    proof {
        assert(s@.take(0) =~= Seq::empty());
        assert(s@.subrange(0, 0) =~= Seq::empty());
        assert(split(s@.take(0), sep) =~= texts(r@).push(s@.subrange(0, 0)));
    }
    while i < n
        invariant
            n == s@.len(),
            start <= i <= n,
            split(s@.take(i as int), sep) == texts(r@).push(s@.subrange(start as int, i as int)),
        decreases n - i,
    {
        let ghost head = texts(r@).push(s@.subrange(start as int, i as int));
        proof {
            assert(s@.take(i + 1).drop_last() =~= s@.take(i as int));
            assert(s@.take(i + 1).last() == s@[i as int]);
        }
        if s.get_char(i) == sep {
            let piece: &'a str = s.substring_char(start, i);
            let ghost before = r@;
            r.push(piece);
            start = i + 1;
            proof {
                assert(texts(r@) =~= texts(before).push(piece@));
                assert(s@.subrange(start as int, i + 1) =~= Seq::empty());
            }
        } else {
            proof {
                assert(s@.subrange(start as int, i + 1) =~= s@.subrange(
                    start as int,
                    i as int,
                ).push(s@[i as int]));
                assert(head.drop_last() =~= texts(r@));
            }
        }
        i = i + 1;
    }
    let piece: &'a str = s.substring_char(start, n);
    let ghost before = r@;
    r.push(piece);
    proof {
        assert(s@.take(n as int) =~= s@);
        assert(texts(r@) =~= texts(before).push(piece@));
    }
    r
}

/// What stands before and after the first `sep`.
pub open spec fn split_once(s: Seq<char>, sep: char) -> Option<(Seq<char>, Seq<char>)> {
    match s.index_of_first(sep) {
        Some(i) => Some((s.take(i), s.skip(i + 1))),
        None => None,
    }
}

/// What stands before and after the first occurrence of a character.
pub fn split_text_once<'a>(s: &'a str, sep: char) -> (r: Option<(&'a str, &'a str)>)
    ensures
        match r {
            Some((a, b)) => split_once(s@, sep) == Some((a@, b@)),
            None => split_once(s@, sep) is None,
        },
{
    let n: usize = s.unicode_len();
    let mut i: usize = 0;
    while i < n
        invariant
            n == s@.len(),
            i <= n,
            forall|j: int| 0 <= j < i ==> s@[j] != sep,
        decreases n - i,
    {
        if s.get_char(i) == sep {
            proof {
                s@.index_of_first_ensures(sep);
                assert(s@.contains(sep));
                assert(s@.index_of_first(sep) == Some(i as int));
                assert(s@.subrange(0, i as int) =~= s@.take(i as int));
                assert(s@.subrange(i + 1, n as int) =~= s@.skip(i + 1));
            }
            return Some((s.substring_char(0, i), s.substring_char(i + 1, n)));
        }
        i = i + 1;
    }
    proof {
        s@.index_of_first_ensures(sep);
        assert(!s@.contains(sep));
    }
    None
}

/// `part` stands somewhere in `s`.
pub open spec fn occurs(part: Seq<char>, s: Seq<char>) -> bool {
    exists|i: int| 0 <= i <= s.len() - part.len() && #[trigger] s.subrange(i, i + part.len()) == part
}

fn stands_at(part: &Vec<char>, s: &Vec<char>, at: usize) -> (r: bool)
    requires
        at + part.len() <= s.len(),
    ensures
        r == (s@.subrange(at as int, at + part.len()) == part@),
{
    let mut i: usize = 0;
    while i < part.len()
        invariant
            at + part.len() <= s.len(),
            i <= part.len(),
            forall|j: int| 0 <= j < i ==> s@[at + j] == part@[j],
        decreases part.len() - i,
    {
        if s[at + i] != part[i] {
            proof {
                assert(s@.subrange(at as int, at + part.len())[i as int] == s@[at + i]);
            }
            return false;
        }
        i = i + 1;
    }
    proof {
        assert(s@.subrange(at as int, at + part.len()) =~= part@);
    }
    true
}

/// Whether `part` stands somewhere in `s`.
pub fn contains(s: &str, part: &str) -> (r: bool)
    ensures
        r == occurs(part@, s@),
{
    let text: Vec<char> = chars_of(s);
    let wanted: Vec<char> = chars_of(part);
    if wanted.len() > text.len() {
        return false;
    }
    let last: usize = text.len() - wanted.len();
    let mut i: usize = 0;
    loop
        invariant
            text@ == s@,
            wanted@ == part@,
            last == text.len() - wanted.len(),
            i <= last,
            forall|j: int| 0 <= j < i ==> #[trigger] s@.subrange(j, j + part@.len()) != part@,
        decreases last - i,
    {
        if stands_at(&wanted, &text, i) {
            return true;
        }
        if i == last {
            return false;
        }
        i = i + 1;
    }
}

/// The rest of `s` after `prefix`, where `s` starts with it.
pub open spec fn after_prefix(s: Seq<char>, prefix: Seq<char>) -> Option<Seq<char>> {
    if prefix.len() <= s.len() && s.take(prefix.len() as int) == prefix {
        Some(s.skip(prefix.len() as int))
    } else {
        None
    }
}

/// The rest of a text after a prefix, where the text starts with it.
pub fn strip_prefix<'a>(s: &'a str, prefix: &str) -> (r: Option<&'a str>)
    ensures
        match r {
            Some(rest) => after_prefix(s@, prefix@) == Some(rest@),
            None => after_prefix(s@, prefix@) is None,
        },
{
    let text: Vec<char> = chars_of(s);
    let wanted: Vec<char> = chars_of(prefix);
    if wanted.len() > text.len() {
        return None;
    }
    proof {
        assert(s@.subrange(0, prefix@.len() as int) =~= s@.take(prefix@.len() as int));
        assert(s@.subrange(prefix@.len() as int, s@.len() as int) =~= s@.skip(prefix@.len() as int));
    }
    if stands_at(&wanted, &text, 0) {
        Some(s.substring_char(wanted.len(), text.len()))
    } else {
        None
    }
}

/// Compares two texts of one length without stopping at the first difference.
pub fn constant_time_eq(a: &str, b: &str) -> (r: bool)
    ensures
        r == (a@ == b@),
{
    let left: Vec<char> = chars_of(a);
    let right: Vec<char> = chars_of(b);
    if left.len() != right.len() {
        return false;
    }
    let mut alike: bool = true;
    let mut i: usize = 0;
    while i < left.len()
        invariant
            left@ == a@,
            right@ == b@,
            left.len() == right.len(),
            i <= left.len(),
            alike == (forall|j: int| 0 <= j < i ==> a@[j] == b@[j]),
        decreases left.len() - i,
    {
        let here: bool = left[i] == right[i];
        alike = if here {
            alike
        } else {
            false
        };
        i = i + 1;
    }
    proof {
        if alike {
            assert(a@ =~= b@);
        }
    }
    alike
}

// ---- addresses --------------------------------------------------------------------------------

/// The address that `s` writes in dotted decimal notation.
pub open spec fn address(s: Seq<char>) -> Option<u32> {
    let p = split(s, '.');
    if p.len() == 4 && octet(p[0]) is Some && octet(p[1]) is Some && octet(p[2]) is Some && octet(
        p[3],
    ) is Some {
        Some(
            (octet(p[0]).unwrap() * 0x100_0000 + octet(p[1]).unwrap() * 0x1_0000 + octet(
                p[2],
            ).unwrap() * 0x100 + octet(p[3]).unwrap()) as u32,
        )
    } else {
        None
    }
}

fn parse_octet(s: &str) -> (r: Option<u32>)
    ensures
        match r {
            Some(v) => octet(s@) == Some(v as nat) && v <= 255,
            None => octet(s@) is None,
        },
{
    let text: Vec<char> = chars_of(s);
    if text.len() == 0 || text.len() > 3 {
        return None;
    }
    if text[0] == '+' || (text.len() > 1 && text[0] == '0') {
        return None;
    }
    proof {
        assert(text@.subrange(0, text.len() as int) =~= s@);
    }
    match parse_number(&text, 0, text.len(), 10, 255) {
        Some(v) => Some(v as u32),
        None => None,
    }
}

/// Reads an address in dotted decimal notation: four numbers below 256 without leading zeros.
pub fn parse_ipv4(s: &str) -> (r: Option<u32>)
    ensures
        r == address(s@),
{
    let p: Vec<&str> = split_text(s, '.');
    proof {
        assert(texts(p@).len() == p@.len());
        assert forall|i: int| 0 <= i < p@.len() implies texts(p@)[i] == #[trigger] p@[i]@ by {}
    }
    if p.len() != 4 {
        return None;
    }
    match (parse_octet(p[0]), parse_octet(p[1]), parse_octet(p[2]), parse_octet(p[3])) {
        (Some(a), Some(b), Some(c), Some(d)) => Some(a * 0x100_0000 + b * 0x1_0000 + c * 0x100 + d),
        _ => None,
    }
}

// ---- what is written is read back --------------------------------------------------------------

pub(crate) proof fn lemma_split_plain(s: Seq<char>, sep: char)
    requires
        !s.contains(sep),
    ensures
        split(s, sep) =~= seq![s],
    decreases s.len(),
{
    if s.len() > 0 {
        assert(s[s.len() - 1] == s.last());
        assert forall|c: char| s.drop_last().contains(c) implies s.contains(c) by {
            let i = choose|i: int| 0 <= i < s.drop_last().len() && s.drop_last()[i] == c;
            assert(s[i] == c);
        }
        lemma_split_plain(s.drop_last(), sep);
        assert(s.drop_last().push(s.last()) =~= s);
    } else {
        assert(s =~= Seq::empty());
    }
}

pub(crate) proof fn lemma_split_joined(a: Seq<char>, b: Seq<char>, sep: char)
    ensures
        split(a.push(sep) + b, sep) =~= split(a, sep) + split(b, sep),
        split(b, sep).len() > 0,
    decreases b.len(),
{
    let s = a.push(sep) + b;
    if b.len() == 0 {
        assert(s.drop_last() =~= a);
    } else {
        lemma_split_joined(a, b.drop_last(), sep);
        assert(s.drop_last() =~= a.push(sep) + b.drop_last());
        let (h, t) = (split(a, sep), split(b.drop_last(), sep));
        assert((h + t).last() == t.last());
        assert((h + t).drop_last() =~= h + t.drop_last());
    }
}

pub(crate) proof fn lemma_decimal_reads_back(n: nat)
    ensures
        decimal(n).len() >= 1,
        all_digits(decimal(n), 10),
        digits_value(decimal(n), 10) == n,
        n > 0 ==> decimal(n)[0] != '0',
        n < 10 ==> decimal(n).len() == 1,
        n < 100 ==> decimal(n).len() <= 2,
        n < 1000 ==> decimal(n).len() <= 3,
        !decimal(n).contains('.'),
    decreases n,
{
    let s = decimal(n);
    lemma_digit(n % 10);
    if n < 10 {
        lemma_digit(n);
        assert(s.drop_last() =~= Seq::empty());
        assert(digits_value(s.drop_last(), 10) == 0);
    } else {
        lemma_decimal_reads_back(n / 10);
        assert(s.drop_last() =~= decimal(n / 10));
    }
    assert(digit_value(s.last(), 10) == Some(n % 10));
    assert forall|i: int| 0 <= i < s.len() implies digit_value(#[trigger] s[i], 10) is Some by {
        if i < s.len() - 1 {
            assert(s[i] == decimal(n / 10)[i]);
        }
    }
    if s.contains('.') {
        let i = choose|i: int| 0 <= i < s.len() && s[i] == '.';
        assert(digit_value(s[i], 10) is Some);
    }
}

proof fn lemma_octet_reads_back(n: nat)
    requires
        n < 256,
    ensures
        octet(decimal(n)) == Some(n),
        !decimal(n).contains('.'),
{
    lemma_decimal_reads_back(n);
}

proof fn lemma_split_four(a: Seq<char>, b: Seq<char>, c: Seq<char>, d: Seq<char>)
    requires
        !a.contains('.'),
        !b.contains('.'),
        !c.contains('.'),
        !d.contains('.'),
    ensures
        split(a + "."@ + b + "."@ + c + "."@ + d, '.') == seq![a, b, c, d],
{
    lemma_split_plain(a, '.');
    lemma_split_plain(b, '.');
    lemma_split_plain(c, '.');
    lemma_split_plain(d, '.');
    let ab = a.push('.') + b;
    let abc = ab.push('.') + c;
    lemma_split_joined(a, b, '.');
    lemma_split_joined(ab, c, '.');
    lemma_split_joined(abc, d, '.');
    assert("."@ =~= seq!['.']) by {
        reveal_strlit(".");
    }
    assert(a + "."@ + b + "."@ + c + "."@ + d =~= abc.push('.') + d);
    assert(split(abc.push('.') + d, '.') =~= seq![a, b, c, d]);
}

proof fn lemma_bytes(n: nat)
    requires
        n < 0x1_0000_0000,
    ensures
        n / 0x100_0000 < 256,
        (n / 0x100_0000) * 0x100_0000 + (n / 0x1_0000 % 0x100) * 0x1_0000 + (n / 0x100 % 0x100)
            * 0x100 + n % 0x100 == n,
{
}

/// An address that is written in dotted notation is read back as it was.
pub proof fn law_address_reads_back(ip: u32)
    ensures
        address(dotted(ip)) == Some(ip),
{
    let n = ip as nat;
    let (a, b, c, d) = (n / 0x100_0000, n / 0x1_0000 % 0x100, n / 0x100 % 0x100, n % 0x100);
    lemma_bytes(n);
    lemma_read_four(a, b, c, d);
    assert((a * 0x100_0000 + b * 0x1_0000 + c * 0x100 + d) as u32 == ip);
}

proof fn lemma_read_four(a: nat, b: nat, c: nat, d: nat)
    requires
        a < 256,
        b < 256,
        c < 256,
        d < 256,
    ensures
        address(decimal(a) + "."@ + decimal(b) + "."@ + decimal(c) + "."@ + decimal(d)) == Some(
            (a * 0x100_0000 + b * 0x1_0000 + c * 0x100 + d) as u32,
        ),
{
    lemma_octet_reads_back(a);
    lemma_octet_reads_back(b);
    lemma_octet_reads_back(c);
    lemma_octet_reads_back(d);
    lemma_split_four(decimal(a), decimal(b), decimal(c), decimal(d));
}

/// A number that is written in decimal is read back as it was.
pub proof fn law_number_reads_back(n: nat, max: nat)
    requires
        n <= max,
    ensures
        number(decimal(n), 10, max) == Some(n),
{
    lemma_decimal_reads_back(n);
    let s = decimal(n);
    assert(digit_value(s[0], 10) is Some);
    assert(s[0] != '+');
}

} // verus!
