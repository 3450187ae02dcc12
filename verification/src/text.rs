//! Decimal and hexadecimal rendering of numbers and the port-field parser.

use vstd::prelude::*;

verus! {

/// The character for a digit value below sixteen, lower-case for letters.
pub open spec fn hex_char(d: nat) -> char {
    if d < 10 {
        (('0' as nat) + d) as char
    } else {
        (('a' as nat) + (d - 10)) as char
    }
}

/// The hexadecimal digits of `n`, most significant first, without leading zeros
/// ("0" for zero).
pub open spec fn hex_digits(n: nat) -> Seq<char>
    decreases n,
{
    if n < 16 {
        seq![hex_char(n)]
    } else {
        hex_digits(n / 16).push(hex_char(n % 16))
    }
}

/// `count` copies of `c`.
pub open spec fn repeat_char(c: char, count: nat) -> Seq<char>
    decreases count,
{
    if count == 0 {
        Seq::empty()
    } else {
        repeat_char(c, (count - 1) as nat).push(c)
    }
}

/// What `format!("{:016x}", n)` renders: the hexadecimal digits, padded on the
/// left with zeros to at least sixteen characters.
pub open spec fn hex_padded16(n: nat) -> Seq<char> {
    let digits = hex_digits(n);
    if digits.len() < 16 {
        repeat_char('0', (16 - digits.len()) as nat) + digits
    } else {
        digits
    }
}

/// The character for a decimal digit.
pub open spec fn dec_char(d: nat) -> char {
    (('0' as nat) + d) as char
}

/// The decimal digits of `n`, most significant first, without leading zeros
/// ("0" for zero).
pub open spec fn dec_digits(n: nat) -> Seq<char>
    decreases n,
{
    if n < 10 {
        seq![dec_char(n)]
    } else {
        dec_digits(n / 10).push(dec_char(n % 10))
    }
}

/// Appends one character to a string.
#[verifier::external_body]
pub(crate) fn push_char(s: &mut String, c: char)
    ensures
        final(s)@ == old(s)@.push(c),
{
    s.push(c);
}

fn push_hex_digits(s: &mut String, n: u128)
    ensures
        final(s)@ == old(s)@ + hex_digits(n as nat),
    decreases n,
{
    if n >= 16 {
        push_hex_digits(s, n / 16);
    }
    let d: u128 = n % 16;
    let c: char = if d < 10 {
        ((d as u8) + 48u8) as char
    } else {
        ((d as u8) + 87u8) as char
    };
    push_char(s, c);
}


/// Renders `n` as `format!("{:016x}", n)` does.
pub fn hex16(n: u128) -> (s: String)
    ensures
        s@ == hex_padded16(n as nat),
{
    let mut digits = String::new();
    push_hex_digits(&mut digits, n);
    let len: usize = digits.as_str().unicode_len();
    let mut s = String::new();
    if len < 16 {
        let pad: usize = 16 - len;
        let mut i: usize = 0;
        while i < pad
            invariant
                i <= pad,
                s@ == repeat_char('0', i as nat),
            decreases pad - i,
        {
            push_char(&mut s, '0');
            i = i + 1;
        }
    }
    s.append(digits.as_str());
    s
}

fn push_dec_digits(s: &mut String, n: u64)
    ensures
        final(s)@ == old(s)@ + dec_digits(n as nat),
    decreases n,
{
    if n >= 10 {
        push_dec_digits(s, n / 10);
    }
    let d: u64 = n % 10;
    push_char(s, ((d as u8) + 48u8) as char);
}

/// Renders a port number in decimal, as `format!("{}", n)` does.
pub fn port_text(n: u16) -> (s: String)
    ensures
        s@ == dec_digits(n as nat),
{
    let mut s = String::new();
    push_dec_digits(&mut s, n as u64);
    s
}

/// Renders an index in decimal, as `format!("{}", n)` does.
pub fn index_text(n: usize) -> (s: String)
    ensures
        s@ == dec_digits(n as nat),
{
    let mut s = String::new();
    push_dec_digits(&mut s, n as u64);
    s
}

/// Whether `c` is one of the ASCII digits `0` to `9`.
pub open spec fn is_dec_digit(c: char) -> bool {
    '0' <= c && c <= '9'
}

/// The value of a decimal digit character.
pub open spec fn digit_value(c: char) -> nat {
    (c as nat - '0' as nat) as nat
}

/// The value of a string of decimal digits, most significant first.
pub open spec fn digits_value(s: Seq<char>) -> nat
    decreases s.len(),
{
    if s.len() == 0 {
        0
    } else {
        digits_value(s.drop_last()) * 10 + digit_value(s.last())
    }
}

/// Every character of `s` is a decimal digit.
pub open spec fn all_dec_digits(s: Seq<char>) -> bool {
    forall|i: int| 0 <= i < s.len() ==> is_dec_digit(#[trigger] s[i])
}

/// The digits that an unsigned integer parse reads: one leading `+` is skipped.
pub open spec fn unsigned_digits(s: Seq<char>) -> Seq<char> {
    if s.len() > 0 && s[0] == '+' {
        s.drop_first()
    } else {
        s
    }
}

/// What `str::parse::<u16>` gives: the value of an optional `+` followed by at
/// least one decimal digit, when it fits in sixteen bits; nothing otherwise.
pub open spec fn parse_u16(s: Seq<char>) -> Option<u16> {
    let d = unsigned_digits(s);
    if d.len() > 0 && all_dec_digits(d) && digits_value(d) <= 65535 {
        Some(digits_value(d) as u16)
    } else {
        None
    }
}

/// A longer digit string never has a smaller value than its prefixes.
proof fn lemma_digits_value_prefix(d: Seq<char>, k: int)
    requires
        all_dec_digits(d),
        0 <= k <= d.len(),
    ensures
        digits_value(d.take(k)) <= digits_value(d),
    decreases d.len(),
{
    if k < d.len() {
        let p = d.drop_last();
        assert(all_dec_digits(p));
        lemma_digits_value_prefix(p, k);
        assert(p.take(k) =~= d.take(k));
    } else {
        assert(d.take(k) =~= d);
    }
}

/// Parses a decimal `u16` the way `str::parse::<u16>` does.
pub fn parse_u16_text(s: &str) -> (r: Option<u16>)
    ensures
        r == parse_u16(s@),
{
    let n: usize = s.unicode_len();
    let mut start: usize = 0;
    if n > 0 && s.get_char(0) == '+' {
        start = 1;
    }
    if start == n {
        return None;
    }
    let ghost d = unsigned_digits(s@);
    assert(d =~= s@.subrange(start as int, n as int));
    let mut acc: u32 = 0;
    let mut i: usize = start;
    while i < n
        invariant
            start <= i <= n,
            n == s@.len(),
            start < n,
            d =~= s@.subrange(start as int, n as int),
            d == unsigned_digits(s@),
            all_dec_digits(d.take(i - start)),
            acc as nat == digits_value(d.take(i - start)),
            acc <= 65535,
        decreases n - i,
    {
        let c: char = s.get_char(i);
        let ghost k = i - start;
        if !('0' <= c && c <= '9') {
            assert(d[k] == c);
            return None;
        }
        assert(d.take(k + 1).drop_last() =~= d.take(k));
        assert(d.take(k + 1).last() == c);
        acc = acc * 10 + ((c as u32) - 48u32);
        assert(all_dec_digits(d.take(k + 1)));
        if acc > 65535 {
            proof {
                if all_dec_digits(d) {
                    lemma_digits_value_prefix(d, k + 1);
                }
            }
            return None;
        }
        i = i + 1;
    }
    assert(d.take(n - start) =~= d);
    Some(acc as u16)
}


/// Whether `c` is a lower-case hexadecimal digit.
pub open spec fn is_hex_digit(c: char) -> bool {
    ('0' <= c && c <= '9') || ('a' <= c && c <= 'f')
}

/// The value of a hexadecimal digit character.
pub open spec fn hex_digit_value(c: char) -> nat {
    if '0' <= c && c <= '9' {
        (c as nat - '0' as nat) as nat
    } else {
        (c as nat - 'a' as nat + 10) as nat
    }
}

/// The value of a string of hexadecimal digits, most significant first, as
/// `u128::from_str_radix(s, 16)` reads it.
pub open spec fn hex_value(s: Seq<char>) -> nat
    decreases s.len(),
{
    if s.len() == 0 {
        0
    } else {
        hex_value(s.drop_last()) * 16 + hex_digit_value(s.last())
    }
}

proof fn lemma_hex_char(d: nat)
    requires
        d < 16,
    ensures
        is_hex_digit(hex_char(d)),
        hex_digit_value(hex_char(d)) == d,
{
}

/// Sixteen to the power `k`.
pub open spec fn pow16(k: nat) -> nat
    decreases k,
{
    if k == 0 {
        1
    } else {
        16 * pow16((k - 1) as nat)
    }
}

proof fn lemma_hex_digits_len(n: nat, k: nat)
    requires
        k >= 1,
        n < pow16(k),
    ensures
        hex_digits(n).len() <= k,
    decreases n,
{
    if n >= 16 {
        if k == 1 {
            assert(pow16(1) == 16) by { assert(pow16(0) == 1); }
        } else {
            assert(n / 16 < pow16((k - 1) as nat));
            lemma_hex_digits_len(n / 16, (k - 1) as nat);
        }
    }
}

proof fn lemma_hex_digits(n: nat)
    ensures
        hex_value(hex_digits(n)) == n,
        forall|i: int| 0 <= i < hex_digits(n).len() ==> is_hex_digit(#[trigger] hex_digits(n)[i]),
        hex_digits(n).len() >= 1,
    decreases n,
{
    if n < 16 {
        lemma_hex_char(n);
        let d = hex_digits(n);
        assert(d.drop_last() =~= Seq::<char>::empty());
        assert(d.last() == hex_char(n));
        assert(hex_value(d.drop_last()) == 0);
        assert(hex_value(d) == hex_value(d.drop_last()) * 16 + hex_digit_value(d.last()));
    } else {
        lemma_hex_digits(n / 16);
        lemma_hex_char(n % 16);
        let d = hex_digits(n);
        assert(d.drop_last() =~= hex_digits(n / 16));
        assert(d.last() == hex_char(n % 16));
        assert(n == (n / 16) * 16 + n % 16);
        assert(hex_value(d.drop_last()) == n / 16);
        assert(hex_value(d) == hex_value(d.drop_last()) * 16 + hex_digit_value(d.last()));
        assert forall|i: int| 0 <= i < d.len() implies is_hex_digit(#[trigger] d[i]) by {
            if i < d.len() - 1 {
                assert(d[i] == hex_digits(n / 16)[i]);
            }
        }
    }
}

proof fn lemma_repeat_zero(k: nat)
    ensures
        repeat_char('0', k).len() == k,
        hex_value(repeat_char('0', k)) == 0,
        forall|i: int| 0 <= i < k ==> #[trigger] repeat_char('0', k)[i] == '0',
    decreases k,
{
    if k > 0 {
        lemma_repeat_zero((k - 1) as nat);
        assert(repeat_char('0', k).drop_last() =~= repeat_char('0', (k - 1) as nat));
        assert forall|i: int| 0 <= i < k implies #[trigger] repeat_char('0', k)[i] == '0' by {
            if i < k - 1 {
                assert(repeat_char('0', k)[i] == repeat_char('0', (k - 1) as nat)[i]);
            }
        }
    }
}

proof fn lemma_leading_zeros(z: Seq<char>, s: Seq<char>)
    requires
        hex_value(z) == 0,
    ensures
        hex_value(z + s) == hex_value(s),
    decreases s.len(),
{
    if s.len() == 0 {
        assert(z + s =~= z);
    } else {
        lemma_leading_zeros(z, s.drop_last());
        assert((z + s).drop_last() =~= z + s.drop_last());
    }
}

/// The text of a clock reading reads back as that reading: it is made of
/// lower-case hex digits, at least sixteen of them, and its value is the
/// number. So two different readings never give the same text.
pub proof fn law_hex_round_trip(n: nat)
    ensures
        hex_value(hex_padded16(n)) == n,
        hex_padded16(n).len() >= 16,
        forall|i: int| 0 <= i < hex_padded16(n).len() ==> is_hex_digit(#[trigger] hex_padded16(n)[i]),
        n < 0x1_0000_0000_0000_0000 ==> hex_padded16(n).len() == 16,
{
    lemma_hex_digits(n);
    let d = hex_digits(n);
    if n < 0x1_0000_0000_0000_0000 {
        assert(pow16(16) == 0x1_0000_0000_0000_0000) by {
            reveal_with_fuel(pow16, 17);
        }
        lemma_hex_digits_len(n, 16);
    }
    if d.len() < 16 {
        let k = (16 - d.len()) as nat;
        lemma_repeat_zero(k);
        lemma_leading_zeros(repeat_char('0', k), d);
        let p = repeat_char('0', k) + d;
        assert forall|i: int| 0 <= i < p.len() implies is_hex_digit(#[trigger] p[i]) by {
            if i < k {
                assert(p[i] == repeat_char('0', k)[i]);
            } else {
                assert(p[i] == d[i - k]);
            }
        }
    }
}

/// Different clock readings give different texts.
pub proof fn law_hex_injective(a: nat, b: nat)
    ensures
        hex_padded16(a) == hex_padded16(b) ==> a == b,
{
    law_hex_round_trip(a);
    law_hex_round_trip(b);
}


/// `a` comes before `b` in lexicographic order of characters.
pub open spec fn lex_less(a: Seq<char>, b: Seq<char>) -> bool {
    exists|i: int| 0 <= i < a.len() && i < b.len() && a.take(i) == b.take(i) && #[trigger] a[i] < b[i]
}

/// Every character of `s` is a lower-case hexadecimal digit.
pub open spec fn all_hex_digits(s: Seq<char>) -> bool {
    forall|i: int| 0 <= i < s.len() ==> is_hex_digit(#[trigger] s[i])
}

proof fn lemma_hex_digit_order(x: char, y: char)
    requires
        is_hex_digit(x),
        is_hex_digit(y),
    ensures
        hex_digit_value(x) < 16,
        (x < y) <==> (hex_digit_value(x) < hex_digit_value(y)),
        (x == y) <==> (hex_digit_value(x) == hex_digit_value(y)),
{
}

proof fn lemma_hex_compare(a: Seq<char>, b: Seq<char>)
    requires
        a.len() == b.len(),
        all_hex_digits(a),
        all_hex_digits(b),
    ensures
        (hex_value(a) < hex_value(b)) <==> lex_less(a, b),
        (hex_value(a) == hex_value(b)) <==> a == b,
    decreases a.len(),
{
    if a.len() == 0 {
        assert(a =~= b);
    } else {
        let n = a.len() - 1;
        let pa = a.drop_last();
        let pb = b.drop_last();
        assert(all_hex_digits(pa)) by {
            assert forall|i: int| 0 <= i < pa.len() implies is_hex_digit(#[trigger] pa[i]) by {
                assert(pa[i] == a[i]);
            }
        }
        assert(all_hex_digits(pb)) by {
            assert forall|i: int| 0 <= i < pb.len() implies is_hex_digit(#[trigger] pb[i]) by {
                assert(pb[i] == b[i]);
            }
        }
        lemma_hex_compare(pa, pb);
        lemma_hex_compare(pb, pa);
        let x = a.last();
        let y = b.last();
        lemma_hex_digit_order(x, y);
        lemma_hex_digit_order(y, x);
        let va = hex_value(a);
        let vb = hex_value(b);
        assert(va == hex_value(pa) * 16 + hex_digit_value(x));
        assert(vb == hex_value(pb) * 16 + hex_digit_value(y));
        assert forall|i: int| 0 <= i <= n implies #[trigger] a.take(i) == pa.take(i) && b.take(i) == pb.take(i) by {
            assert(a.take(i) =~= pa.take(i));
            assert(b.take(i) =~= pb.take(i));
        }
        assert(a.take(n) =~= pa);
        assert(b.take(n) =~= pb);
        if hex_value(pa) < hex_value(pb) {
            let i = choose|i: int| 0 <= i < pa.len() && i < pb.len() && pa.take(i) == pb.take(i) && #[trigger] pa[i] < pb[i];
            assert(a.take(i) == b.take(i) && a[i] < b[i]);
            assert(lex_less(a, b));
            assert(va < vb);
            assert(a != b) by { assert(a[i] != b[i]); }
        } else if hex_value(pb) < hex_value(pa) {
            assert(vb < va);
            if lex_less(a, b) {
                let i = choose|i: int| 0 <= i < a.len() && i < b.len() && a.take(i) == b.take(i) && #[trigger] a[i] < b[i];
                if i < n {
                    assert(pa.take(i) == pb.take(i) && pa[i] < pb[i]);
                    assert(lex_less(pa, pb));
                } else {
                    assert(pa == pb);
                }
            }
            let j = choose|j: int| 0 <= j < pb.len() && j < pa.len() && pb.take(j) == pa.take(j) && #[trigger] pb[j] < pa[j];
            assert(a[j] != b[j]);
        } else {
            assert(pa == pb);
            if lex_less(a, b) {
                let i = choose|i: int| 0 <= i < a.len() && i < b.len() && a.take(i) == b.take(i) && #[trigger] a[i] < b[i];
                if i < n {
                    assert(pa[i] == pb[i]);
                    assert(a[i] == pa[i] && b[i] == pb[i]);
                }
            }
            if x < y {
                assert(a.take(n) == b.take(n) && a[n] < b[n]);
            }
            if x == y {
                assert(a =~= b) by {
                    assert forall|i: int| 0 <= i < a.len() implies a[i] == b[i] by {
                        if i < n {
                            assert(a[i] == pa[i] && b[i] == pb[i]);
                        }
                    }
                }
            } else {
                assert(a[n] != b[n]);
            }
        }
    }
}

/// For readings below 2^64 the text has exactly sixteen digits, and the
/// texts of two readings compare in lexicographic order as the readings do.
pub proof fn law_hex_order(a: nat, b: nat)
    requires
        a < 0x1_0000_0000_0000_0000,
        b < 0x1_0000_0000_0000_0000,
    ensures
        (a < b) <==> lex_less(hex_padded16(a), hex_padded16(b)),
{
    law_hex_round_trip(a);
    law_hex_round_trip(b);
    lemma_hex_compare(hex_padded16(a), hex_padded16(b));
}

} // verus!
