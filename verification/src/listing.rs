//! Reading addresses back out of the assembler listing, so the listing
//! panel can mark the line of the current and the previous instruction.
//! A code line reads `<line> <addr> ...` with a four-digit hexadecimal
//! address; a symbol-table line reads `<name> 0x<value>`.

use vstd::prelude::*;
use crate::text::{hex_digit, spec_hex4};

verus! {

/// Unicode white space, as `char::is_whitespace` has it.
pub open spec fn is_ws(c: char) -> bool {
    let n = c as int;
    ||| 0x09 <= n <= 0x0D
    ||| n == 0x20
    ||| n == 0x85
    ||| n == 0xA0
    ||| n == 0x1680
    ||| 0x2000 <= n <= 0x200A
    ||| n == 0x2028
    ||| n == 0x2029
    ||| n == 0x202F
    ||| n == 0x205F
    ||| n == 0x3000
}

/// Length of the run of non-space characters that `s` starts with.
pub open spec fn word_len(s: Seq<char>) -> nat
    decreases s.len(),
{
    if s.len() == 0 || is_ws(s[0]) {
        0
    } else {
        1 + word_len(s.drop_first())
    }
}

pub proof fn lemma_word_len_bounds(s: Seq<char>)
    ensures
        word_len(s) <= s.len(),
        s.len() > 0 && !is_ws(s[0]) ==> word_len(s) > 0,
    decreases s.len(),
{
    if s.len() > 0 && !is_ws(s[0]) {
        lemma_word_len_bounds(s.drop_first());
    }
}

/// The words of `s`: the maximal runs of non-space characters, in order.
pub open spec fn tokens(s: Seq<char>) -> Seq<Seq<char>>
    decreases s.len(),
{
    if s.len() == 0 {
        Seq::empty()
    } else if is_ws(s[0]) {
        tokens(s.drop_first())
    } else {
        proof {
            lemma_word_len_bounds(s);
        }
        seq![s.take(word_len(s) as int)] + tokens(s.skip(word_len(s) as int))
    }
}

pub open spec fn is_hex(c: char) -> bool {
    ||| '0' <= c <= '9'
    ||| 'a' <= c <= 'f'
    ||| 'A' <= c <= 'F'
}

pub open spec fn hex_value_of(c: char) -> int {
    if '0' <= c <= '9' {
        c as int - '0' as int
    } else if 'a' <= c <= 'f' {
        c as int - 'a' as int + 10
    } else {
        c as int - 'A' as int + 10
    }
}

pub open spec fn all_hex(s: Seq<char>) -> bool {
    forall|i: int| 0 <= i < s.len() ==> is_hex(#[trigger] s[i])
}

/// The number that the hexadecimal digits `s` spell.
pub open spec fn hex_number(s: Seq<char>) -> int
    decreases s.len(),
{
    if s.len() == 0 {
        0
    } else {
        hex_number(s.drop_last()) * 16 + hex_value_of(s.last())
    }
}

/// `s` as `u16::from_str_radix(s, 16)` reads it: an optional `+`, then
/// at least one hexadecimal digit, the number fitting in 16 bits.
pub open spec fn spec_parse_hex_u16(s: Seq<char>) -> Option<u16> {
    let digits = if s.len() > 0 && s[0] == '+' {
        s.drop_first()
    } else {
        s
    };
    if digits.len() > 0 && all_hex(digits) && hex_number(digits) <= 0xffff {
        Some(hex_number(digits) as u16)
    } else {
        None
    }
}

/// The address of a code line: its second word, when that is exactly
/// four hexadecimal digits.
pub open spec fn spec_listing_addr(line: Seq<char>) -> Option<u16> {
    let t = tokens(line);
    if t.len() >= 2 && t[1].len() == 4 && all_hex(t[1]) {
        Some(hex_number(t[1]) as u16)
    } else {
        None
    }
}

/// The value of a symbol-table line: its second word, when that is `0x`
/// followed by a hexadecimal number that fits in 16 bits.
pub open spec fn spec_symbol_addr(line: Seq<char>) -> Option<u16> {
    let t = tokens(line);
    if t.len() >= 2 && t[1].len() >= 2 && t[1][0] == '0' && t[1][1] == 'x' {
        spec_parse_hex_u16(t[1].skip(2))
    } else {
        None
    }
}

fn is_ws_char(c: char) -> (r: bool)
    ensures
        r == is_ws(c),
{
    let n = c as u32;
    (0x09 <= n && n <= 0x0D) || n == 0x20 || n == 0x85 || n == 0xA0 || n == 0x1680 || (0x2000 <= n
        && n <= 0x200A) || n == 0x2028 || n == 0x2029 || n == 0x202F || n == 0x205F || n == 0x3000
}

fn hex_char_value(c: char) -> (r: Option<u32>)
    ensures
        r is Some <==> is_hex(c),
        r matches Some(v) ==> v == hex_value_of(c) && v < 16,
{
    if '0' <= c && c <= '9' {
        Some(c as u32 - '0' as u32)
    } else if 'a' <= c && c <= 'f' {
        Some(c as u32 - 'a' as u32 + 10)
    } else if 'A' <= c && c <= 'F' {
        Some(c as u32 - 'A' as u32 + 10)
    } else {
        None
    }
}

proof fn lemma_tokens_skip_space(s: Seq<char>, i: int)
    requires
        0 <= i < s.len(),
        is_ws(s[i]),
    ensures
        tokens(s.skip(i)) == tokens(s.skip(i + 1)),
{
    assert(s.skip(i).drop_first() =~= s.skip(i + 1));
}

proof fn lemma_word_len_step(s: Seq<char>, i: int)
    requires
        0 <= i < s.len(),
        !is_ws(s[i]),
    ensures
        word_len(s.skip(i)) == 1 + word_len(s.skip(i + 1)),
{
    assert(s.skip(i).drop_first() =~= s.skip(i + 1));
}

/// The first word of `line` at or after character `from`, as the
/// positions it spans.
fn next_word(line: &str, n: usize, from: usize) -> (r: Option<(usize, usize)>)
    requires
        n == line@.len(),
        from <= n,
    ensures
        r is None ==> tokens(line@.skip(from as int)).len() == 0,
        r matches Some((a, e)) ==> {
            &&& from <= a < e <= n
            &&& tokens(line@.skip(from as int)) == seq![line@.subrange(a as int, e as int)] + tokens(
                line@.skip(e as int),
            )
        },
{
    let s = line;
    let mut a = from;
    while a < n && is_ws_char(s.get_char(a))
        invariant
            from <= a <= n,
            n == s@.len(),
            tokens(s@.skip(from as int)) == tokens(s@.skip(a as int)),
        decreases n - a,
    {
        proof {
            lemma_tokens_skip_space(s@, a as int);
        }
        a = a + 1;
    }
    if a == n {
        assert(s@.skip(n as int).len() == 0);
        return None;
    }
    let mut e = a + 1;
    proof {
        lemma_word_len_step(s@, a as int);
    }
    while e < n && !is_ws_char(s.get_char(e))
        invariant
            a < e <= n,
            n == s@.len(),
            !is_ws(s@[a as int]),
            word_len(s@.skip(a as int)) == (e - a) + word_len(s@.skip(e as int)),
        decreases n - e,
    {
        proof {
            lemma_word_len_step(s@, e as int);
        }
        e = e + 1;
    }
    assert(word_len(s@.skip(e as int)) == 0);
    let ghost t = s@.skip(a as int);
    assert(t.take(word_len(t) as int) =~= s@.subrange(a as int, e as int));
    assert(t.skip(word_len(t) as int) =~= s@.skip(e as int));
    Some((a, e))
}

/// The first two words of `line`, as the positions they span.
fn two_words(line: &str) -> (r: Option<((usize, usize), (usize, usize))>)
    ensures
        r is None ==> tokens(line@).len() < 2,
        r matches Some((w0, w1)) ==> {
            &&& w0.0 < w0.1 <= w1.0 < w1.1 <= line@.len()
            &&& tokens(line@).len() >= 2
            &&& tokens(line@)[0] == line@.subrange(w0.0 as int, w0.1 as int)
            &&& tokens(line@)[1] == line@.subrange(w1.0 as int, w1.1 as int)
        },
{
    let n = line.unicode_len();
    assert(line@.skip(0) =~= line@);
    match next_word(line, n, 0) {
        None => None,
        Some((a0, e0)) => match next_word(line, n, e0) {
            None => {
                assert(tokens(line@) =~= seq![line@.subrange(a0 as int, e0 as int)]);
                None
            },
            Some((a1, e1)) => {
                let ghost rest = tokens(line@.skip(e1 as int));
                assert(tokens(line@) == seq![line@.subrange(a0 as int, e0 as int)] + (seq![
                    line@.subrange(a1 as int, e1 as int),
                ] + rest));
                Some(((a0, e0), (a1, e1)))
            },
        },
    }
}

proof fn lemma_hex_number_grows(s: Seq<char>, i: int)
    requires
        0 <= i <= s.len(),
        all_hex(s),
    ensures
        hex_number(s) >= hex_number(s.take(i)),
        hex_number(s.take(i)) >= 0,
    decreases s.len() - i,
{
    if i < s.len() {
        lemma_hex_number_grows(s, i + 1);
        assert(s.take(i + 1).drop_last() =~= s.take(i));
        assert(s.take(i + 1).last() == s[i]);
        assert(is_hex(s[i]));
    } else {
        assert(s.take(i) =~= s);
        lemma_hex_number_nonneg(s);
    }
}

proof fn lemma_hex_number_nonneg(s: Seq<char>)
    requires
        all_hex(s),
    ensures
        hex_number(s) >= 0,
    decreases s.len(),
{
    if s.len() > 0 {
        assert(all_hex(s.drop_last()));
        lemma_hex_number_nonneg(s.drop_last());
        assert(is_hex(s.last()));
    }
}

/// Sixteen to the power `n`.
pub open spec fn pow16(n: nat) -> int
    decreases n,
{
    if n == 0 {
        1
    } else {
        16 * pow16((n - 1) as nat)
    }
}

proof fn lemma_hex_number_below(s: Seq<char>)
    requires
        all_hex(s),
    ensures
        0 <= hex_number(s) < pow16(s.len()),
    decreases s.len(),
{
    if s.len() > 0 {
        assert(all_hex(s.drop_last()));
        lemma_hex_number_below(s.drop_last());
        assert(is_hex(s.last()));
    }
}

/// The number spelled by the hexadecimal digits at positions `a..e` of
/// `line`, when every one is a digit and the number fits in 16 bits.
fn hex_in(line: &str, a: usize, e: usize) -> (r: Option<u16>)
    requires
        a <= e <= line@.len(),
    ensures
        ({
            let d = line@.subrange(a as int, e as int);
            r == (if all_hex(d) && hex_number(d) <= 0xffff {
                Some(hex_number(d) as u16)
            } else {
                None::<u16>
            })
        }),
{
    let ghost d = line@.subrange(a as int, e as int);
    let mut value: u32 = 0;
    let mut i = a;
    while i < e
        invariant
            a <= i <= e,
            e <= line@.len(),
            d == line@.subrange(a as int, e as int),
            all_hex(d.take(i - a)),
            value == hex_number(d.take(i - a)),
            value <= 0xffff,
        decreases e - i,
    {
        let c = line.get_char(i);
        assert(c == d[i - a]);
        assert(d.take(i - a + 1).drop_last() =~= d.take(i - a));
        assert(d.take(i - a + 1).last() == c);
        match hex_char_value(c) {
            None => {
                assert(!all_hex(d));
                return None;
            },
            Some(v) => {
                let next = value * 16 + v;
                assert(all_hex(d.take(i - a + 1)));
                if next > 0xffff {
                    proof {
                        if all_hex(d) {
                            lemma_hex_number_grows(d, i - a + 1);
                        }
                    }
                    return None;
                }
                value = next;
            },
        }
        i = i + 1;
    }
    assert(d.take(e - a) =~= d);
    Some(value as u16)
}

proof fn lemma_hex_digit_reads_back(n: int)
    requires
        0 <= n < 16,
    ensures
        is_hex(hex_digit(n)),
        hex_value_of(hex_digit(n)) == n,
        !('A' <= hex_digit(n) <= 'Z'),
{
}

/// The four digits that the fault messages give for an address read back
/// as that address: as a listing address, and as a hexadecimal number.
pub proof fn lemma_hex4_reads_back(v: u16)
    ensures
        spec_hex4(v).len() == 4,
        all_hex(spec_hex4(v)),
        hex_number(spec_hex4(v)) == v,
        spec_parse_hex_u16(spec_hex4(v)) == Some(v),
{
    let h = spec_hex4(v);
    let a = (v as int / 4096) % 16;
    let b = (v as int / 256) % 16;
    let c = (v as int / 16) % 16;
    let d = v as int % 16;
    lemma_hex_digit_reads_back(a);
    lemma_hex_digit_reads_back(b);
    lemma_hex_digit_reads_back(c);
    lemma_hex_digit_reads_back(d);
    let s0 = Seq::<char>::empty();
    let s1 = seq![hex_digit(a)];
    let s2 = seq![hex_digit(a), hex_digit(b)];
    let s3 = seq![hex_digit(a), hex_digit(b), hex_digit(c)];
    assert(s1.drop_last() =~= s0);
    assert(s2.drop_last() =~= s1);
    assert(s3.drop_last() =~= s2);
    assert(h.drop_last() =~= s3);
    assert(hex_number(s0) == 0);
    assert(hex_number(s1) == a);
    assert(hex_number(s2) == a * 16 + b);
    assert(hex_number(s3) == (a * 16 + b) * 16 + c);
    assert(hex_number(h) == ((a * 16 + b) * 16 + c) * 16 + d);
    assert(((a * 16 + b) * 16 + c) * 16 + d == v as int);
    assert(h[0] != '+');
}

/// The address of a listing code line, if it is one.
pub fn listing_addr(line: &str) -> (r: Option<u16>)
    ensures
        r == spec_listing_addr(line@),
{
    match two_words(line) {
        None => None,
        Some((_, (a, e))) => {
            if e - a == 4 {
                proof {
                    let w = line@.subrange(a as int, e as int);
                    if all_hex(w) {
                        lemma_hex_number_below(w);
                        assert(pow16(0) == 1);
                        assert(pow16(1) == 16);
                        assert(pow16(2) == 256);
                        assert(pow16(3) == 4096);
                        assert(pow16(4) == 65536);
                    }
                }
                hex_in(line, a, e)
            } else {
                None
            }
        },
    }
}

/// The value of a listing symbol-table line, if it is one.
pub fn symbol_addr(line: &str) -> (r: Option<u16>)
    ensures
        r == spec_symbol_addr(line@),
{
    match two_words(line) {
        None => None,
        Some((_, (a, e))) => {
            let ghost w = line@.subrange(a as int, e as int);
            if e - a < 2 || line.get_char(a) != '0' || line.get_char(a + 1) != 'x' {
                return None;
            }
            let ghost v = w.skip(2);
            let mut start = a + 2;
            if start < e && line.get_char(start) == '+' {
                start = start + 1;
                assert(v.drop_first() =~= line@.subrange(start as int, e as int));
            } else {
                assert(v =~= line@.subrange(start as int, e as int));
            }
            if start == e {
                return None;
            }
            hex_in(line, start, e)
        },
    }
}

} // verus!
