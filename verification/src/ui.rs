//! The small rules of the user interface: picker values, CSS classes of
//! change ages, and the joystick's coarse position.

use vstd::prelude::*;
use crate::kinds::{DemoKind, spec_label};
use crate::machine::ChangeAge;

verus! {

/// The value of a demo in the picker and in the `demo=` query parameter.
pub open spec fn spec_demo_value(kind: DemoKind) -> Seq<char> {
    match kind {
        DemoKind::Add => "add"@,
        DemoKind::Cassette => "cassette"@,
        DemoKind::Joystick => "joystick"@,
        DemoKind::Logo => "logo"@,
        DemoKind::Pattern => "pattern"@,
    }
}

/// The demo a picker value names, if any.
pub open spec fn spec_demo_from_value(value: Seq<char>) -> Option<DemoKind> {
    if value == "add"@ {
        Some(DemoKind::Add)
    } else if value == "cassette"@ {
        Some(DemoKind::Cassette)
    } else if value == "joystick"@ {
        Some(DemoKind::Joystick)
    } else if value == "logo"@ {
        Some(DemoKind::Logo)
    } else if value == "pattern"@ {
        Some(DemoKind::Pattern)
    } else {
        None
    }
}

pub fn demo_value(kind: DemoKind) -> (r: &'static str)
    ensures
        r@ == spec_demo_value(kind),
{
    match kind {
        DemoKind::Add => "add",
        DemoKind::Cassette => "cassette",
        DemoKind::Joystick => "joystick",
        DemoKind::Logo => "logo",
        DemoKind::Pattern => "pattern",
    }
}

/// Whether two texts hold the same characters.
pub fn same_text(a: &str, b: &str) -> (r: bool)
    ensures
        r == (a@ == b@),
{
    let n = a.unicode_len();
    if n != b.unicode_len() {
        return false;
    }
    let mut i: usize = 0;
    while i < n
        invariant
            i <= n,
            n == a@.len(),
            n == b@.len(),
            a@.take(i as int) == b@.take(i as int),
        decreases n - i,
    {
        if a.get_char(i) != b.get_char(i) {
            assert(a@[i as int] != b@[i as int]);
            return false;
        }
        i = i + 1;
        assert(a@.take(i as int) =~= a@.take(i - 1).push(a@[i - 1]));
        assert(b@.take(i as int) =~= b@.take(i - 1).push(b@[i - 1]));
    }
    assert(a@ =~= a@.take(n as int));
    assert(b@ =~= b@.take(n as int));
    true
}

pub fn demo_from_value(value: &str) -> (r: Option<DemoKind>)
    ensures
        r == spec_demo_from_value(value@),
{
    if same_text(value, "add") {
        Some(DemoKind::Add)
    } else if same_text(value, "cassette") {
        Some(DemoKind::Cassette)
    } else if same_text(value, "joystick") {
        Some(DemoKind::Joystick)
    } else if same_text(value, "logo") {
        Some(DemoKind::Logo)
    } else if same_text(value, "pattern") {
        Some(DemoKind::Pattern)
    } else {
        None
    }
}

/// Reading a demo's picker value back gives the demo.
pub proof fn lemma_demo_value_round_trip(kind: DemoKind)
    ensures
        spec_demo_from_value(spec_demo_value(kind)) == Some(kind),
{
    reveal_strlit("add");
    reveal_strlit("cassette");
    reveal_strlit("joystick");
    reveal_strlit("logo");
    reveal_strlit("pattern");
    assert("add"@.len() == 3 && "logo"@.len() == 4 && "pattern"@.len() == 7);
    assert("cassette"@.len() == 8 && "joystick"@.len() == 8);
    assert("cassette"@[0] != "joystick"@[0]);
}

/// `c` in lower case, for ASCII letters.
pub open spec fn ascii_lower(c: char) -> char {
    if 'A' <= c <= 'Z' {
        ((c as int) + 32) as char
    } else {
        c
    }
}

/// A demo's picker value is its label in lower case.
pub proof fn lemma_demo_value_is_lower_label(kind: DemoKind)
    ensures
        spec_demo_value(kind) == Seq::new(
            spec_label(kind).len(),
            |i: int| ascii_lower(spec_label(kind)[i]),
        ),
{
    reveal_strlit("add");
    reveal_strlit("cassette");
    reveal_strlit("joystick");
    reveal_strlit("logo");
    reveal_strlit("pattern");
    reveal_strlit("Add");
    reveal_strlit("Cassette");
    reveal_strlit("Joystick");
    reveal_strlit("Logo");
    reveal_strlit("Pattern");
    assert(spec_demo_value(kind) =~= Seq::new(
        spec_label(kind).len(),
        |i: int| ascii_lower(spec_label(kind)[i]),
    ));
}

/// The joystick's travel along an axis splits into four equal quarters of
/// 64 positions each.
pub proof fn lemma_axis_bucket_quarters(value: u8)
    ensures
        spec_axis_bucket(value) == value / 64,
        spec_axis_bucket(value) < 4,
        64 * spec_axis_bucket(value) <= value < 64 * spec_axis_bucket(value) + 64,
{
}

/// The quarter of its travel the joystick is in along one axis, 0..3.
pub open spec fn spec_axis_bucket(value: u8) -> u8 {
    (value as int * 4 / 256) as u8
}

pub fn axis_bucket(value: u8) -> (r: u8)
    ensures
        r == spec_axis_bucket(value),
        r < 4,
{
    ((value as u16 * 4) / 256) as u8
}

/// The CSS class that shows a change age.
pub open spec fn spec_change_class(age: ChangeAge) -> Seq<char> {
    match age {
        ChangeAge::Recent => "changed-recent"@,
        ChangeAge::Older => "changed-older"@,
        ChangeAge::Stable => "changed-stable"@,
    }
}

pub fn change_class(age: ChangeAge) -> (r: &'static str)
    ensures
        r@ == spec_change_class(age),
{
    match age {
        ChangeAge::Recent => "changed-recent",
        ChangeAge::Older => "changed-older",
        ChangeAge::Stable => "changed-stable",
    }
}

/// Position of the first `c` in `s`, or the length of `s` if there is none.
pub open spec fn find_char(s: Seq<char>, c: char) -> int
    decreases s.len(),
{
    if s.len() == 0 {
        0
    } else if s[0] == c {
        0
    } else {
        1 + find_char(s.drop_first(), c)
    }
}

/// `s` without its leading question marks.
pub open spec fn strip_question_marks(s: Seq<char>) -> Seq<char>
    decreases s.len(),
{
    if s.len() > 0 && s[0] == '?' {
        strip_question_marks(s.drop_first())
    } else {
        s
    }
}

/// The demo a `key=value` query pair selects: the key must be `demo` and
/// the value a picker value.
pub open spec fn pair_kind(pair: Seq<char>) -> Option<DemoKind> {
    let eq = find_char(pair, '=');
    if eq < pair.len() && pair.take(eq) == "demo"@ {
        spec_demo_from_value(pair.skip(eq + 1))
    } else {
        None
    }
}

/// The demo selected by the first `&`-separated pair of `query` that
/// selects one.
pub open spec fn pairs_kind(query: Seq<char>) -> Option<DemoKind>
    decreases query.len(),
{
    let amp = find_char(query, '&');
    let here = pair_kind(query.take(amp));
    if here is Some || amp >= query.len() {
        here
    } else {
        proof {
            lemma_find_char_bounds(query, '&');
        }
        pairs_kind(query.skip(amp + 1))
    }
}

/// The demo a page's query string (`?demo=logo`, say) asks for.
pub open spec fn spec_demo_from_query(search: Seq<char>) -> Option<DemoKind> {
    pairs_kind(strip_question_marks(search))
}

pub proof fn lemma_find_char_bounds(s: Seq<char>, c: char)
    ensures
        0 <= find_char(s, c) <= s.len(),
        find_char(s, c) < s.len() ==> s[find_char(s, c)] == c,
        forall|i: int| 0 <= i < find_char(s, c) ==> s[i] != c,
    decreases s.len(),
{
    if s.len() > 0 && s[0] != c {
        lemma_find_char_bounds(s.drop_first(), c);
        assert forall|i: int| 0 <= i < find_char(s, c) implies s[i] != c by {
            if i > 0 {
                assert(s[i] == s.drop_first()[i - 1]);
            }
        }
    }
}

proof fn lemma_find_char_at(s: Seq<char>, c: char, j: int)
    requires
        0 <= j <= s.len(),
        forall|i: int| 0 <= i < j ==> s[i] != c,
        j == s.len() || s[j] == c,
    ensures
        find_char(s, c) == j,
    decreases j,
{
    if j > 0 {
        lemma_find_char_at(s.drop_first(), c, j - 1);
    }
}

/// Position of the first `c` at or after `from` and before `to`, or `to`.
fn find_in(s: &str, from: usize, to: usize, c: char) -> (r: usize)
    requires
        from <= to <= s@.len(),
    ensures
        r == from + find_char(s@.subrange(from as int, to as int), c),
        from <= r <= to,
{
    let mut j = from;
    while j < to && s.get_char(j) != c
        invariant
            from <= j <= to,
            to <= s@.len(),
            forall|i: int| from <= i < j ==> s@[i] != c,
        decreases to - j,
    {
        j = j + 1;
    }
    proof {
        let sub = s@.subrange(from as int, to as int);
        lemma_find_char_at(sub, c, j - from);
    }
    j
}

proof fn lemma_strip_skip(s: Seq<char>, i: int)
    requires
        0 <= i <= s.len(),
        forall|k: int| 0 <= k < i ==> s[k] == '?',
    ensures
        strip_question_marks(s) == strip_question_marks(s.skip(i)),
    decreases i,
{
    if i > 0 {
        assert(s.skip(1) =~= s.drop_first());
        lemma_strip_skip(s.drop_first(), i - 1);
        assert(s.drop_first().skip(i - 1) =~= s.skip(i));
    } else {
        assert(s.skip(0) =~= s);
    }
}

/// A link to the page with `?demo=` and a demo's picker value opens that
/// demo.
pub proof fn lemma_query_link_opens_demo(kind: DemoKind)
    ensures
        spec_demo_from_query("?demo="@ + spec_demo_value(kind)) == Some(kind),
{
    reveal_strlit("?demo=");
    reveal_strlit("demo");
    reveal_strlit("demo=");
    reveal_strlit("add");
    reveal_strlit("cassette");
    reveal_strlit("joystick");
    reveal_strlit("logo");
    reveal_strlit("pattern");
    let value = spec_demo_value(kind);
    let s = "?demo="@ + value;
    let q = s.drop_first();
    assert(q =~= "demo="@ + value);
    assert(strip_question_marks(q) == q);
    assert(strip_question_marks(s) == q);
    assert forall|i: int| 0 <= i < q.len() implies q[i] != '&' by {
        if i >= 5 {
            assert(q[i] == value[i - 5]);
        }
    }
    lemma_find_char_at(q, '&', q.len() as int);
    assert(q.take(q.len() as int) =~= q);
    assert forall|i: int| 0 <= i < 4 implies q[i] != '=' by {}
    lemma_find_char_at(q, '=', 4);
    assert(q.take(4) =~= "demo"@);
    assert(q.skip(5) =~= value);
    lemma_demo_value_round_trip(kind);
}

/// The demo a page's query string asks for, if any.
pub fn demo_from_query(search: &str) -> (r: Option<DemoKind>)
    ensures
        r == spec_demo_from_query(search@),
{
    let n = search.unicode_len();
    let mut start: usize = 0;
    while start < n && search.get_char(start) == '?'
        invariant
            start <= n,
            n == search@.len(),
            forall|k: int| 0 <= k < start ==> search@[k] == '?',
        decreases n - start,
    {
        start = start + 1;
    }
    proof {
        lemma_strip_skip(search@, start as int);
        assert(strip_question_marks(search@.skip(start as int)) == search@.skip(start as int));
    }
    loop
        invariant
            start <= n,
            n == search@.len(),
            spec_demo_from_query(search@) == pairs_kind(search@.skip(start as int)),
        decreases n + 1 - start,
    {
        let ghost q = search@.skip(start as int);
        let amp = find_in(search, start, n, '&');
        assert(search@.subrange(start as int, n as int) =~= q);
        proof {
            lemma_find_char_bounds(q, '&');
        }
        let ghost pair = q.take(amp - start);
        assert(pair =~= search@.subrange(start as int, amp as int));
        let eq = find_in(search, start, amp, '=');
        let mut here: Option<DemoKind> = None;
        if eq < amp {
            let key = search.substring_char(start, eq);
            if same_text(key, "demo") {
                let value = search.substring_char(eq + 1, amp);
                assert(pair.take(eq - start) =~= key@);
                assert(pair.skip(eq - start + 1) =~= value@);
                here = demo_from_value(value);
            } else {
                assert(pair.take(eq - start) =~= key@);
            }
        }
        assert(here == pair_kind(pair));
        if here.is_some() {
            return here;
        }
        if amp >= n {
            return None;
        }
        assert(q.skip(amp - start + 1) =~= search@.skip(amp + 1));
        start = amp + 1;
    }
}

} // verus!
