//! Text: the order of names, decimal numbers, dotted addresses.
use vstd::arithmetic::power2::{
    lemma2_to64, lemma_pow2_pos, lemma_pow2_strictly_increases, lemma_pow2_unfold, pow2,
};
use vstd::prelude::*;

use crate::sorted_map::Key;

verus! {

/// The order of two texts: the first character that differs decides, a prefix comes first.
pub open spec fn lex_before(a: Seq<char>, b: Seq<char>) -> bool
    decreases a.len(),
{
    if b.len() == 0 {
        false
    } else if a.len() == 0 {
        true
    } else if a[0] == b[0] {
        lex_before(a.drop_first(), b.drop_first())
    } else {
        a[0] < b[0]
    }
}

pub proof fn lemma_lex_irreflexive(a: Seq<char>)
    ensures
        !lex_before(a, a),
    decreases a.len(),
{
    if a.len() > 0 {
        lemma_lex_irreflexive(a.drop_first());
    }
}

pub proof fn lemma_lex_transitive(a: Seq<char>, b: Seq<char>, c: Seq<char>)
    requires
        lex_before(a, b),
        lex_before(b, c),
    ensures
        lex_before(a, c),
    decreases a.len(),
{
    if a.len() > 0 && a[0] == b[0] && b[0] == c[0] {
        lemma_lex_transitive(a.drop_first(), b.drop_first(), c.drop_first());
    }
}

pub proof fn lemma_lex_total(a: Seq<char>, b: Seq<char>)
    ensures
        lex_before(a, b) || lex_before(b, a) || a == b,
    decreases a.len(),
{
    if a.len() == 0 && b.len() == 0 {
        assert(a =~= b);
    } else if a.len() > 0 && b.len() > 0 && a[0] == b[0] {
        lemma_lex_total(a.drop_first(), b.drop_first());
        if a.drop_first() == b.drop_first() {
            assert(a =~= seq![a[0]] + a.drop_first());
            assert(b =~= seq![b[0]] + b.drop_first());
        }
    }
}

/// Whether `a` comes before `b`.
pub fn text_before(a: &str, b: &str) -> (r: bool)
    ensures
        r == lex_before(a@, b@),
{
    let n: usize = a.unicode_len();
    let m: usize = b.unicode_len();
    let mut i: usize = 0;
    proof {
        assert(a@.skip(0) =~= a@);
        assert(b@.skip(0) =~= b@);
    }
    while i < n && i < m && a.get_char(i) == b.get_char(i)
        invariant
            n == a@.len(),
            m == b@.len(),
            i <= n,
            i <= m,
            lex_before(a@, b@) == lex_before(a@.skip(i as int), b@.skip(i as int)),
        decreases n - i,
    {
        proof {
            assert(a@.skip(i as int).drop_first() =~= a@.skip(i + 1));
            assert(b@.skip(i as int).drop_first() =~= b@.skip(i + 1));
        }
        i = i + 1;
    }
    if i == m {
        false
    } else if i == n {
        true
    } else {
        a.get_char(i) < b.get_char(i)
    }
}

impl Key for String {
    type Id = Seq<char>;

    open spec fn id(&self) -> Seq<char> {
        self@
    }

    open spec fn before(a: Seq<char>, b: Seq<char>) -> bool {
        lex_before(a, b)
    }

    proof fn before_irreflexive(a: Seq<char>) {
        lemma_lex_irreflexive(a);
    }

    proof fn before_transitive(a: Seq<char>, b: Seq<char>, c: Seq<char>) {
        lemma_lex_transitive(a, b, c);
    }

    proof fn before_total(a: Seq<char>, b: Seq<char>) {
        lemma_lex_total(a, b);
    }

    fn same(&self, other: &Self) -> (r: bool) {
        *self == *other
    }

    fn precedes(&self, other: &Self) -> (r: bool) {
        text_before(self.as_str(), other.as_str())
    }

    fn duplicate(&self) -> (r: Self) {
        self.clone()
    }
}

/// The digit of value `d`.
pub open spec fn digit(d: nat) -> Seq<char> {
    if d == 0 {
        "0"@
    } else if d == 1 {
        "1"@
    } else if d == 2 {
        "2"@
    } else if d == 3 {
        "3"@
    } else if d == 4 {
        "4"@
    } else if d == 5 {
        "5"@
    } else if d == 6 {
        "6"@
    } else if d == 7 {
        "7"@
    } else if d == 8 {
        "8"@
    } else {
        "9"@
    }
}

/// `n` in decimal, without leading zeros.
pub open spec fn decimal(n: nat) -> Seq<char>
    decreases n,
{
    if n < 10 {
        digit(n)
    } else {
        decimal(n / 10) + digit(n % 10)
    }
}

fn digit_text(d: u64) -> (r: &'static str)
    requires
        d < 10,
    ensures
        r@ == digit(d as nat),
{
    if d == 0 {
        "0"
    } else if d == 1 {
        "1"
    } else if d == 2 {
        "2"
    } else if d == 3 {
        "3"
    } else if d == 4 {
        "4"
    } else if d == 5 {
        "5"
    } else if d == 6 {
        "6"
    } else if d == 7 {
        "7"
    } else if d == 8 {
        "8"
    } else {
        "9"
    }
}

/// Appends `n` in decimal.
pub fn push_decimal(text: &mut String, n: u64)
    ensures
        final(text)@ == old(text)@ + decimal(n as nat),
    decreases n,
{
    if n < 10 {
        text.append(digit_text(n));
    } else {
        push_decimal(text, n / 10);
        text.append(digit_text(n % 10));
        proof {
            assert(text@ =~= old(text)@ + (decimal(n as nat / 10) + digit(n as nat % 10)));
        }
    }
}

/// `n` in decimal.
pub fn decimal_text(n: u64) -> (r: String)
    ensures
        r@ == decimal(n as nat),
{
    let mut r: String = String::new();
    push_decimal(&mut r, n);
    proof {
        assert(r@ =~= decimal(n as nat));
    }
    r
}

/// An address in dotted decimal notation.
pub open spec fn dotted(ip: u32) -> Seq<char> {
    decimal(ip as nat / 0x100_0000) + "."@ + decimal(ip as nat / 0x1_0000 % 0x100) + "."@ + decimal(
        ip as nat / 0x100 % 0x100,
    ) + "."@ + decimal(ip as nat % 0x100)
}

/// An address in dotted decimal notation.
pub fn dotted_text(ip: u32) -> (r: String)
    ensures
        r@ == dotted(ip),
{
    let mut r: String = decimal_text((ip / 0x100_0000) as u64);
    r.append(".");
    push_decimal(&mut r, (ip / 0x1_0000 % 0x100) as u64);
    r.append(".");
    push_decimal(&mut r, (ip / 0x100 % 0x100) as u64);
    r.append(".");
    push_decimal(&mut r, (ip % 0x100) as u64);
    r
}

/// The mask whose first `prefix_len` bits are set.
pub open spec fn mask_of(prefix_len: u8) -> u32 {
    (0x1_0000_0000 - pow2((32 - prefix_len) as nat)) as u32
}

/// The netmask of a prefix length in dotted notation: 24 gives "255.255.255.0".
pub fn prefix_len_to_netmask(prefix_len: u8) -> (r: String)
    requires
        prefix_len <= 32,
    ensures
        r@ == dotted(mask_of(prefix_len)),
{
    let bits: u8 = 32 - prefix_len;
    let mut hosts: u64 = 1;
    let mut i: u8 = 0;
    proof {
        lemma2_to64();
    }
    while i < bits
        invariant
            i <= bits <= 32,
            hosts == pow2(i as nat),
        decreases bits - i,
    {
        proof {
            lemma2_to64();
            lemma_pow2_unfold((i + 1) as nat);
            lemma_pow2_strictly_increases(i as nat, 32);
        }
        hosts = hosts * 2;
        i = i + 1;
    }
    proof {
        lemma2_to64();
        if bits < 32 {
            lemma_pow2_strictly_increases(bits as nat, 32);
        }
    }
    let mask: u64 = 0x1_0000_0000u64 - hosts;
    dotted_text(mask as u32)
}

/// The value of a digit character in the given base.
pub open spec fn digit_value(c: char, radix: nat) -> Option<nat> {
    let d: int = if '0' <= c <= '9' {
        c as u32 - '0' as u32
    } else if 'a' <= c <= 'f' {
        10 + (c as u32 - 'a' as u32)
    } else if 'A' <= c <= 'F' {
        10 + (c as u32 - 'A' as u32)
    } else {
        16
    };
    if d < radix {
        Some(d as nat)
    } else {
        None
    }
}

/// Every character of `s` is a digit.
pub open spec fn all_digits(s: Seq<char>, radix: nat) -> bool {
    forall|i: int| 0 <= i < s.len() ==> digit_value(#[trigger] s[i], radix) is Some
}

/// What a run of digits stands for.
pub open spec fn digits_value(s: Seq<char>, radix: nat) -> nat
    decreases s.len(),
{
    if s.len() == 0 {
        0
    } else {
        digits_value(s.drop_last(), radix) * radix + digit_value(s.last(), radix).unwrap_or(0)
    }
}

/// The number that `s` writes in base `radix`: digits after an optional plus sign, of at most
/// `max`.
pub open spec fn number(s: Seq<char>, radix: nat, max: nat) -> Option<nat> {
    let digits = if s.len() > 0 && s[0] == '+' {
        s.drop_first()
    } else {
        s
    };
    if digits.len() > 0 && all_digits(digits, radix) && digits_value(digits, radix) <= max {
        Some(digits_value(digits, radix))
    } else {
        None
    }
}

proof fn lemma_prefix_value(s: Seq<char>, n: int, radix: nat)
    requires
        0 <= n <= s.len(),
        radix >= 1,
    ensures
        digits_value(s.take(n), radix) <= digits_value(s, radix),
    decreases s.len() - n,
{
    if n == s.len() {
        assert(s.take(n) =~= s);
    } else {
        lemma_prefix_value(s, n + 1, radix);
        assert(s.take(n + 1).drop_last() =~= s.take(n));
        let v = digits_value(s.take(n), radix);
        assert(v * radix >= v) by (nonlinear_arith)
            requires
                radix >= 1,
        ;
    }
}

/// The characters of a text.
pub fn chars_of(s: &str) -> (r: Vec<char>)
    ensures
        r@ == s@,
{
    let n: usize = s.unicode_len();
    let mut r: Vec<char> = Vec::new();
    let mut i: usize = 0;
    while i < n
        invariant
            n == s@.len(),
            i <= n,
            r@ == s@.take(i as int),
        decreases n - i,
    {
        r.push(s.get_char(i));
        proof {
            assert(s@.take(i + 1) =~= s@.take(i as int).push(s@[i as int]));
        }
        i = i + 1;
    }
    proof {
        assert(s@.take(n as int) =~= s@);
    }
    r
}

fn digit_of(c: char, radix: u64) -> (r: Option<u64>)
    requires
        radix <= 16,
    ensures
        r matches Some(d) ==> digit_value(c, radix as nat) == Some(d as nat) && d < radix,
        r is None ==> digit_value(c, radix as nat) is None,
{
    let d: u64 = if '0' <= c && c <= '9' {
        (c as u32 - '0' as u32) as u64
    } else if 'a' <= c && c <= 'f' {
        10 + (c as u32 - 'a' as u32) as u64
    } else if 'A' <= c && c <= 'F' {
        10 + (c as u32 - 'A' as u32) as u64
    } else {
        16
    };
    if d < radix {
        Some(d)
    } else {
        None
    }
}

/// Reads the number that `text[from..to]` writes in base `radix`.
pub fn parse_number(text: &Vec<char>, from: usize, to: usize, radix: u64, max: u64) -> (r: Option<u64>)
    requires
        from <= to <= text.len(),
        2 <= radix <= 16,
    ensures
        r matches Some(v) ==> number(
            text@.subrange(from as int, to as int),
            radix as nat,
            max as nat,
        ) == Some(v as nat) && v <= max,
        r is None ==> number(
            text@.subrange(from as int, to as int),
            radix as nat,
            max as nat,
        ) is None,
{
    let ghost s = text@.subrange(from as int, to as int);
    let start: usize = if from < to && text[from] == '+' {
        from + 1
    } else {
        from
    };
    let ghost digits = text@.subrange(start as int, to as int);
    proof {
        if start != from {
            assert(s.drop_first() =~= digits);
        } else {
            assert(s =~= digits);
        }
    }
    if start == to {
        return None;
    }
    let mut value: u64 = 0;
    let mut i: usize = start;
    proof {
        assert(digits.take(0) =~= Seq::<char>::empty());
    }
    while i < to
        invariant
            from <= start <= i <= to <= text.len(),
            start < to,
            2 <= radix <= 16,
            digits == text@.subrange(start as int, to as int),
            s == text@.subrange(from as int, to as int),
            digits == (if s.len() > 0 && s[0] == '+' { s.drop_first() } else { s }),
            value == digits_value(digits.take(i - start), radix as nat),
            value <= max,
            forall|j: int| 0 <= j < i - start ==> digit_value(#[trigger] digits[j], radix as nat) is Some,
        decreases to - i,
    {
        let ghost k = i - start;
        proof {
            assert(digits.take(k + 1).drop_last() =~= digits.take(k));
            assert(digits.take(k + 1).last() == digits[k]);
            assert(digits[k] == text@[i as int]);
            lemma_prefix_value(digits, k + 1, radix as nat);
            assert(value * radix <= 0xffff_ffff_ffff_ffff * 16) by (nonlinear_arith)
                requires
                    value <= 0xffff_ffff_ffff_ffff,
                    radix <= 16,
            ;
        }
        match digit_of(text[i], radix) {
            None => {
                return None;
            },
            Some(d) => {
                let next: u128 = value as u128 * radix as u128 + d as u128;
                if next > max as u128 {
                    return None;
                }
                value = next as u64;
            },
        }
        i = i + 1;
    }
    proof {
        assert(digits.take(to - start) =~= digits);
    }
    Some(value)
}

/// A decimal number below 256 without leading zeros.
pub open spec fn octet(s: Seq<char>) -> Option<nat> {
    if 1 <= s.len() <= 3 && all_digits(s, 10) && (s.len() > 1 ==> s[0] != '0') && digits_value(s, 10)
        <= 255 {
        Some(digits_value(s, 10))
    } else {
        None
    }
}

// ---- quoting ----------------------------------------------------------------------------------

/// A text as `Debug` shows it: in double quotes, with the characters escaped that need it.
pub uninterp spec fn debug_text(text: Seq<char>) -> Seq<char>;

/// `std::fmt::Debug` for `str`: the text in double quotes with its special characters escaped. Which
/// characters are escaped, and how, is left to the name `debug_text`.
#[verifier::external_body]
pub(crate) fn quoted(text: &str) -> (r: String)
    ensures
        r@ == debug_text(text@),
{
    format!("{:?}", text)
}

// ---- numbers have one spelling ----------------------------------------------------------------

pub proof fn lemma_digit(d: nat)
    requires
        d < 10,
    ensures
        digit(d).len() == 1,
        digit(d)[0] as int == '0' as int + d,
{
    reveal_strlit("0");
    reveal_strlit("1");
    reveal_strlit("2");
    reveal_strlit("3");
    reveal_strlit("4");
    reveal_strlit("5");
    reveal_strlit("6");
    reveal_strlit("7");
    reveal_strlit("8");
    reveal_strlit("9");
}

/// Two numbers that are written alike are equal.
pub proof fn law_decimal_injective(a: nat, b: nat)
    requires
        decimal(a) == decimal(b),
    ensures
        a == b,
    decreases a,
{
    lemma_decimal_len(a);
    lemma_decimal_len(b);
    lemma_digit(a % 10);
    lemma_digit(b % 10);
    let (s, t) = (decimal(a), decimal(b));
    assert(s.last() == digit(a % 10)[0]);
    assert(t.last() == digit(b % 10)[0]);
    assert(a % 10 == b % 10);
    if a < 10 || b < 10 {
        if a >= 10 {
            lemma_decimal_len(a / 10);
        }
        if b >= 10 {
            lemma_decimal_len(b / 10);
        }
    } else {
        assert(decimal(a / 10) =~= s.drop_last());
        assert(decimal(b / 10) =~= t.drop_last());
        law_decimal_injective(a / 10, b / 10);
    }
}

proof fn lemma_decimal_len(n: nat)
    ensures
        decimal(n).len() >= 1,
    decreases n,
{
    lemma_digit(n % 10);
    if n >= 10 {
        lemma_decimal_len(n / 10);
    } else {
        lemma_digit(n);
    }
}

/// Texts are ordered as in a dictionary: a text comes before its extensions, and where two texts
/// first differ, the lower character comes first.
pub proof fn law_dictionary_order(s: Seq<char>, a: char, b: char, t: Seq<char>, u: Seq<char>)
    ensures
        lex_before(s, s.push(a)),
        a < b ==> lex_before(s.push(a) + t, s.push(b) + u),
    decreases s.len(),
{
    if s.len() > 0 {
        let r = s.drop_first();
        law_dictionary_order(r, a, b, t, u);
        assert(s.push(a).drop_first() =~= r.push(a));
        assert((s.push(a) + t).drop_first() =~= r.push(a) + t);
        assert((s.push(b) + u).drop_first() =~= r.push(b) + u);
        assert((s.push(a) + t)[0] == s[0]);
        assert((s.push(b) + u)[0] == s[0]);
    } else {
        assert((s.push(a) + t)[0] == a);
        assert((s.push(b) + u)[0] == b);
    }
}

/// The mask of 32 bits covers everything, and with each bit less a mask leaves twice as many
/// addresses open.
pub proof fn law_masks_halve(bits: u8)
    requires
        1 <= bits < 32,
    ensures
        mask_of(32) == 0xffff_ffffu32,
        0x1_0000_0000 - mask_of(bits) == 2 * (0x1_0000_0000 - mask_of((bits + 1) as u8)),
{
    lemma2_to64();
    let n = (32 - bits) as nat;
    lemma_pow2_unfold(n);
    lemma_pow2_strictly_increases(n, 32);
    lemma_pow2_pos((n - 1) as nat);
    assert(((32 - (bits + 1) as u8) as nat) == (n - 1) as nat);
}

} // verus!
