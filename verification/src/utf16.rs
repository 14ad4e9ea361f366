//! UTF-16, as the Windows clipboard holds text.

use vstd::prelude::*;

verus! {

/// `char::from_u32` gives the character with a code point, and nothing for a
/// number that is a surrogate or too large.
pub assume_specification[ char::from_u32 ](i: u32) -> (r: Option<char>)
    ensures
        r is Some == (i < 0xD800 || 0xE000 <= i <= 0x10FFFF),
        r matches Some(c) ==> c as u32 == i,
;

/// What stands for data that is no character.
pub const REPLACEMENT: char = '\u{FFFD}';

pub open spec fn is_high(u: u16) -> bool {
    0xD800 <= u < 0xDC00
}

pub open spec fn is_low(u: u16) -> bool {
    0xDC00 <= u < 0xE000
}

/// The code point of a pair of surrogates.
pub open spec fn pair_value(high: u16, low: u16) -> int {
    0x1_0000 + (high - 0xD800) * 0x400 + (low - 0xDC00)
}

/// A character in UTF-16.
pub open spec fn units(c: char) -> Seq<u16> {
    let n = c as int;
    if n < 0x1_0000 {
        seq![n as u16]
    } else {
        seq![
            (0xD800 + (n - 0x1_0000) / 0x400) as u16,
            (0xDC00 + (n - 0x1_0000) % 0x400) as u16,
        ]
    }
}

/// A text in UTF-16.
pub open spec fn utf16(s: Seq<char>) -> Seq<u16>
    decreases s.len(),
{
    if s.len() == 0 {
        Seq::empty()
    } else {
        units(s[0]) + utf16(s.skip(1))
    }
}

/// The text that UTF-16 stands for, with `REPLACEMENT` for every surrogate that is
/// not part of a pair.
pub open spec fn lossy(v: Seq<u16>) -> Seq<char>
    decreases v.len(),
{
    if v.len() == 0 {
        Seq::empty()
    } else if is_high(v[0]) && v.len() > 1 && is_low(v[1]) {
        seq![pair_value(v[0], v[1]) as char] + lossy(v.skip(2))
    } else if is_high(v[0]) || is_low(v[0]) {
        seq![REPLACEMENT] + lossy(v.skip(1))
    } else {
        seq![v[0] as char] + lossy(v.skip(1))
    }
}

/// What comes before the first zero.
pub open spec fn up_to_nul(v: Seq<u16>) -> Seq<u16>
    decreases v.len(),
{
    if v.len() == 0 || v[0] == 0 {
        Seq::empty()
    } else {
        seq![v[0]] + up_to_nul(v.skip(1))
    }
}

proof fn lemma_code_point(c: char)
    ensures
        0 <= c as int <= 0x10FFFF,
        !(0xD800 <= c as int <= 0xDFFF),
{
}

/// Appends a text in UTF-16.
pub fn push_utf16(out: &mut Vec<u16>, s: &str)
    ensures
        final(out)@ == old(out)@ + utf16(s@),
{
    let ghost start = out@;
    let ghost whole = s@;
    assert(whole.skip(0) =~= whole);
    for c in it: s.chars()
        invariant
            it.seq() == whole,
            out@ + utf16(whole.skip(it.index())) == start + utf16(whole),
    {
        let ghost before = out@;
        let n: u32 = c as u32;
        proof {
            lemma_code_point(c);
            let rest = whole.skip(it.index());
            assert(rest[0] == c);
            assert(rest.skip(1) =~= whole.skip(it.index() + 1));
        }
        if n < 0x1_0000 {
            out.push(n as u16);
            assert(out@ =~= before + units(c));
        } else {
            let m: u32 = n - 0x1_0000;
            out.push((0xD800 + m / 0x400) as u16);
            out.push((0xDC00 + m % 0x400) as u16);
            assert(out@ =~= before + units(c));
        }
        proof {
            let rest = utf16(whole.skip(it.index() + 1));
            assert(out@ + rest =~= before + (units(c) + rest));
        }
    }
    assert(whole.skip(whole.len() as int) =~= Seq::<char>::empty());
    assert(out@ + Seq::<u16>::empty() =~= out@);
}

fn char_at(n: u32) -> (c: char)
    requires
        n < 0xD800 || 0xE000 <= n <= 0x10FFFF,
    ensures
        c as u32 == n,
{
    match char::from_u32(n) {
        Some(c) => c,
        None => REPLACEMENT,
    }
}

/// Reads UTF-16, with `REPLACEMENT` for what is no character.
pub fn text_from_utf16_lossy(v: &[u16]) -> (s: String)
    ensures
        s@ == lossy(v@),
{
    let n: usize = v.len();
    let mut out = String::new();
    let mut i: usize = 0;
    assert(v@.skip(0) =~= v@);
    assert(out@ + lossy(v@) =~= lossy(v@));
    while i < n
        invariant
            n == v@.len(),
            i <= n,
            out@ + lossy(v@.skip(i as int)) == lossy(v@),
        decreases n - i,
    {
        let ghost before = out@;
        let ghost rest = v@.skip(i as int);
        let u: u16 = v[i];
        assert(rest[0] == u);
        if u >= 0xD800 && u < 0xDC00 && i + 1 < n && v[i + 1] >= 0xDC00 && v[i + 1] < 0xE000 {
            assert(rest[1] == v@[i + 1]);
            let high: u32 = u as u32 - 0xD800;
            let low: u32 = v[i + 1] as u32 - 0xDC00;
            let c = char_at(0x1_0000 + high * 0x400 + low);
            out.push(c);
            proof {
                assert(c == pair_value(rest[0], rest[1]) as char);
                assert(rest.skip(2) =~= v@.skip(i + 2));
                let after = lossy(rest.skip(2));
                assert(out@ + after =~= before + (seq![c] + after));
            }
            i += 2;
        } else if u >= 0xD800 && u < 0xE000 {
            out.push(REPLACEMENT);
            proof {
                assert(rest.skip(1) =~= v@.skip(i + 1));
                let after = lossy(rest.skip(1));
                assert(i + 1 < n ==> rest[1] == v@[i + 1]);
                assert(out@ + after =~= before + (seq![REPLACEMENT] + after));
            }
            i += 1;
        } else {
            let c = char_at(u as u32);
            out.push(c);
            proof {
                assert(c == rest[0] as char);
                assert(rest.skip(1) =~= v@.skip(i + 1));
                let after = lossy(rest.skip(1));
                assert(out@ + after =~= before + (seq![c] + after));
            }
            i += 1;
        }
    }
    assert(v@.skip(n as int) =~= Seq::<u16>::empty());
    assert(out@ + Seq::<char>::empty() =~= out@);
    out
}

proof fn lemma_up_to_nul(v: Seq<u16>, n: int)
    requires
        0 <= n <= v.len(),
        forall|j: int| 0 <= j < n ==> v[j] != 0,
        n < v.len() ==> v[n] == 0,
    ensures
        up_to_nul(v) == v.take(n),
    decreases n,
{
    if n > 0 {
        lemma_up_to_nul(v.skip(1), n - 1);
        assert(v.take(n) =~= seq![v[0]] + v.skip(1).take(n - 1));
    } else {
        assert(v.take(0) =~= Seq::<u16>::empty());
    }
}

/// Reads UTF-16 up to the first zero.
pub fn text_up_to_nul(v: &[u16]) -> (s: String)
    ensures
        s@ == lossy(up_to_nul(v@)),
{
    let n: usize = v.len();
    let mut end: usize = 0;
    while end < n && v[end] != 0
        invariant
            n == v@.len(),
            end <= n,
            forall|j: int| 0 <= j < end ==> v@[j] != 0,
        decreases n - end,
    {
        end += 1;
    }
    proof {
        lemma_up_to_nul(v@, end as int);
    }
    text_from_utf16_lossy(vstd::slice::slice_subrange(v, 0, end))
}

proof fn lemma_lossy_step(c: char, rest: Seq<u16>)
    ensures
        lossy(units(c) + rest) == seq![c] + lossy(rest),
{
    let v = units(c) + rest;
    let n = c as int;
    lemma_code_point(c);
    if n < 0x1_0000 {
        assert(v[0] == n as u16);
        assert(v.skip(1) =~= rest);
        assert(v[0] as char == c);
    } else {
        let m = n - 0x1_0000;
        assert(v[0] == (0xD800 + m / 0x400) as u16);
        assert(v[1] == (0xDC00 + m % 0x400) as u16);
        assert(v.skip(2) =~= rest);
        assert(pair_value(v[0], v[1]) == n);
    }
}

/// A text that is written in UTF-16 is read back as it was.
pub proof fn law_utf16_round_trip(s: Seq<char>)
    ensures
        lossy(utf16(s)) == s,
    decreases s.len(),
{
    if s.len() > 0 {
        law_utf16_round_trip(s.skip(1));
        lemma_lossy_step(s[0], utf16(s.skip(1)));
        assert(seq![s[0]] + s.skip(1) =~= s);
    }
}

proof fn lemma_no_zero(s: Seq<char>)
    requires
        forall|i: int| 0 <= i < s.len() ==> #[trigger] s[i] != '\0',
    ensures
        forall|j: int| 0 <= j < utf16(s).len() ==> #[trigger] utf16(s)[j] != 0,
    decreases s.len(),
{
    if s.len() > 0 {
        let rest = s.skip(1);
        assert forall|i: int| 0 <= i < rest.len() implies #[trigger] rest[i] != '\0' by {
            assert(rest[i] == s[i + 1]);
        }
        lemma_no_zero(rest);
        let u = units(s[0]);
        assert(s[0] != '\0');
        lemma_code_point(s[0]);
        assert(forall|j: int| 0 <= j < u.len() ==> #[trigger] u[j] != 0);
        assert forall|j: int| 0 <= j < utf16(s).len() implies #[trigger] utf16(s)[j] != 0 by {
            if j < u.len() {
                assert(utf16(s)[j] == u[j]);
            } else {
                assert(utf16(s)[j] == utf16(rest)[j - u.len()]);
            }
        }
    }
}

/// A text without a zero is read back from UTF-16 with a zero behind it, whatever
/// follows.
pub proof fn law_terminated_text_round_trip(s: Seq<char>, more: Seq<u16>)
    requires
        forall|i: int| 0 <= i < s.len() ==> #[trigger] s[i] != '\0',
    ensures
        lossy(up_to_nul(utf16(s).push(0) + more)) == s,
{
    lemma_no_zero(s);
    law_utf16_round_trip(s);
    let v = utf16(s).push(0) + more;
    let n = utf16(s).len() as int;
    assert forall|j: int| 0 <= j < n implies v[j] != 0 by {
        assert(v[j] == utf16(s)[j]);
    }
    lemma_up_to_nul(v, n);
    assert(v.take(n) =~= utf16(s));
}

/// A character up to 0xFFFF is one unit with its number; any other is a pair, of which the
/// first carries the upper ten bits of what exceeds 0xFFFF and the second the lower ten.
pub proof fn law_units_of_a_character(c: char)
    ensures
        c as int <= 0xFFFF ==> units(c).len() == 1 && units(c)[0] as int == c as int,
        c as int > 0xFFFF ==> {
            &&& units(c).len() == 2
            &&& 0xD800 <= units(c)[0] <= 0xDBFF
            &&& 0xDC00 <= units(c)[1] <= 0xDFFF
            &&& 1024 * (units(c)[0] - 0xD800) + (units(c)[1] - 0xDC00) == c as int - 0x1_0000
        },
{
}

/// A text is written character by character, in its order.
pub proof fn law_texts_are_written_in_order(a: Seq<char>, b: Seq<char>)
    ensures
        utf16(a + b) == utf16(a) + utf16(b),
    decreases a.len(),
{
    if a.len() == 0 {
        assert(a + b =~= b);
        assert(utf16(a) + utf16(b) =~= utf16(b));
    } else {
        law_texts_are_written_in_order(a.skip(1), b);
        assert((a + b).skip(1) =~= a.skip(1) + b);
        assert((a + b)[0] == a[0]);
        assert(units(a[0]) + (utf16(a.skip(1)) + utf16(b)) =~= (units(a[0]) + utf16(a.skip(1)))
            + utf16(b));
    }
}

/// A surrogate that is not part of a pair is read as the replacement character, and
/// reading goes on behind it.
pub proof fn law_lone_surrogates_are_replaced(v: Seq<u16>)
    requires
        v.len() > 0,
        0xD800 <= v[0] <= 0xDFFF,
        v.len() == 1 || v[0] >= 0xDC00 || v[1] < 0xDC00 || v[1] > 0xDFFF,
    ensures
        lossy(v) == seq!['\u{FFFD}'] + lossy(v.skip(1)),
{
}

/// What is read up to a zero holds none, and is followed by one or by the end.
pub proof fn law_text_ends_at_the_first_zero(v: Seq<u16>)
    ensures
        up_to_nul(v).len() <= v.len(),
        up_to_nul(v) == v.take(up_to_nul(v).len() as int),
        forall|i: int| 0 <= i < up_to_nul(v).len() ==> #[trigger] up_to_nul(v)[i] != 0,
        up_to_nul(v).len() < v.len() ==> v[up_to_nul(v).len() as int] == 0,
    decreases v.len(),
{
    if v.len() > 0 && v[0] != 0 {
        let rest = v.skip(1);
        law_text_ends_at_the_first_zero(rest);
        let n = up_to_nul(rest).len() as int;
        assert(seq![v[0]] + rest.take(n) =~= v.take(n + 1));
        assert forall|i: int| 0 <= i < up_to_nul(v).len() implies #[trigger] up_to_nul(v)[i] != 0 by {
            if i > 0 {
                assert(up_to_nul(v)[i] == up_to_nul(rest)[i - 1]);
            }
        }
    } else {
        assert(v.take(0) =~= Seq::<u16>::empty());
    }
}

} // verus!
