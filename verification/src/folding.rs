//! Line unfolding of raw header values.
//!
//! A header value may continue on further physical lines: a line break followed by
//! spaces or tabs. Unfolding turns such a value into its single-line form.

use vstd::prelude::*;
use vstd::utf8::*;

verus! {

/// A space or a horizontal tab: the bytes that may open a continuation line.
pub open spec fn is_blank(b: u8) -> bool {
    b == 0x20 || b == 0x09
}

/// Whether `s` begins with a carriage return and a line feed.
pub open spec fn starts_with_crlf(s: Seq<u8>) -> bool {
    s.len() >= 2 && s[0] == 0x0d && s[1] == 0x0a
}

/// The number of blanks that `s` begins with.
pub open spec fn blank_run(s: Seq<u8>) -> nat
    decreases s.len(),
{
    if s.len() > 0 && is_blank(s[0]) {
        1 + blank_run(s.skip(1))
    } else {
        0
    }
}

/// The single-line form of a raw value.
///
/// Read from the left, a line break together with all the blanks that follow it
/// becomes one space, or nothing at all where the input ends with it; every other
/// byte stands for itself.
pub open spec fn unfolded(raw: Seq<u8>) -> Seq<u8>
    decreases raw.len(),
{
    if raw.len() == 0 {
        Seq::empty()
    } else if starts_with_crlf(raw) {
        let rest = raw.skip(2);
        let blanks = blank_run(rest);
        if blanks >= rest.len() {
            Seq::empty()
        } else {
            seq![0x20u8] + unfolded(rest.skip(blanks as int))
        }
    } else {
        seq![raw[0]] + unfolded(raw.skip(1))
    }
}

/// Whether a carriage return stands directly before a line feed somewhere in `s`.
pub open spec fn has_crlf(s: Seq<u8>) -> bool {
    exists|i: int| 0 <= i && i + 1 < s.len() && #[trigger] s[i] == 0x0d && s[i + 1] == 0x0a
}

/// An unfolded value begins with a line feed only where the raw value does.
proof fn lemma_unfolded_first(raw: Seq<u8>)
    ensures
        unfolded(raw).len() > 0 && unfolded(raw)[0] == 0x0a ==> raw.len() > 0 && raw[0] == 0x0a,
{
}

/// An unfolded value holds no line break: every fold is gone from it.
pub proof fn lemma_unfolded_has_no_crlf(raw: Seq<u8>)
    ensures
        !has_crlf(unfolded(raw)),
    decreases raw.len(),
{
    let out = unfolded(raw);
    if raw.len() == 0 {
    } else if starts_with_crlf(raw) {
        let rest = raw.skip(2);
        let blanks = blank_run(rest);
        if blanks < rest.len() {
            let tail = unfolded(rest.skip(blanks as int));
            lemma_unfolded_has_no_crlf(rest.skip(blanks as int));
            assert forall|i: int| 0 <= i && i + 1 < out.len() implies !(#[trigger] out[i] == 0x0d
                && out[i + 1] == 0x0a) by {
                if i > 0 {
                    assert(out[i] == tail[i - 1] && out[i + 1] == tail[i]);
                }
            }
        }
    } else {
        let tail = unfolded(raw.skip(1));
        lemma_unfolded_has_no_crlf(raw.skip(1));
        lemma_unfolded_first(raw.skip(1));
        assert forall|i: int| 0 <= i && i + 1 < out.len() implies !(#[trigger] out[i] == 0x0d
            && out[i + 1] == 0x0a) by {
            if i > 0 {
                assert(out[i] == tail[i - 1] && out[i + 1] == tail[i]);
            }
        }
    }
}

/// A raw value without a line break is its own unfolded form.
pub proof fn lemma_unfolded_plain(raw: Seq<u8>)
    requires
        !has_crlf(raw),
    ensures
        unfolded(raw) == raw,
    decreases raw.len(),
{
    if raw.len() > 0 {
        assert(!starts_with_crlf(raw)) by {
            if starts_with_crlf(raw) {
                let i: int = 0;
                assert(raw[i] == 0x0d && raw[i + 1] == 0x0a);
            }
        }
        let rest = raw.skip(1);
        assert(!has_crlf(rest)) by {
            if has_crlf(rest) {
                let i = choose|i: int| 0 <= i && i + 1 < rest.len() && #[trigger] rest[i] == 0x0d
                    && rest[i + 1] == 0x0a;
                assert(raw[i + 1] == 0x0d && raw[i + 1 + 1] == 0x0a);
            }
        }
        lemma_unfolded_plain(rest);
        assert(seq![raw[0]] + rest =~= raw);
    }
}

/// Bytes among which no carriage return stands are copied as they are.
proof fn lemma_unfolded_copies(raw: Seq<u8>, n: int)
    requires
        0 <= n <= raw.len(),
        forall|i: int| 0 <= i < n ==> raw[i] != 0x0d,
    ensures
        unfolded(raw) == raw.take(n) + unfolded(raw.skip(n)),
    decreases n,
{
    if n == 0 {
        assert(raw.skip(0) =~= raw);
        assert(raw.take(0) + unfolded(raw) =~= unfolded(raw));
    } else {
        let rest = raw.skip(1);
        assert forall|i: int| 0 <= i < n - 1 implies rest[i] != 0x0d by {
            assert(rest[i] == raw[i + 1]);
        }
        lemma_unfolded_copies(rest, n - 1);
        assert(rest.skip(n - 1) =~= raw.skip(n));
        assert(seq![raw[0]] + (rest.take(n - 1) + unfolded(raw.skip(n))) =~= raw.take(n) + unfolded(
            raw.skip(n),
        ));
    }
}

/// What is left of valid UTF-8 once its first byte, an ASCII byte, is gone is
/// valid UTF-8.
proof fn lemma_utf8_after_ascii(s: Seq<u8>)
    requires
        valid_utf8(s),
        s.len() > 0,
        s[0] < 0x80,
    ensures
        valid_utf8(s.skip(1)),
{
    assert(pop_first_scalar(s) =~= s.skip(1));
}

/// What is left of valid UTF-8 once the blanks that it begins with are gone is
/// valid UTF-8.
proof fn lemma_utf8_after_blanks(s: Seq<u8>)
    requires
        valid_utf8(s),
    ensures
        blank_run(s) <= s.len(),
        valid_utf8(s.skip(blank_run(s) as int)),
    decreases s.len(),
{
    if s.len() > 0 && is_blank(s[0]) {
        lemma_utf8_after_ascii(s);
        lemma_utf8_after_blanks(s.skip(1));
        assert(s.skip(1).skip(blank_run(s.skip(1)) as int) =~= s.skip(blank_run(s) as int));
    } else {
        assert(s.skip(0) =~= s);
    }
}

/// Unfolding keeps valid UTF-8 valid: a fold is made of ASCII bytes, so none
/// stands inside a character.
pub proof fn lemma_unfolded_keeps_utf8(raw: Seq<u8>)
    requires
        valid_utf8(raw),
    ensures
        valid_utf8(unfolded(raw)),
    decreases raw.len(),
{
    if raw.len() == 0 {
    } else if starts_with_crlf(raw) {
        let rest = raw.skip(2);
        lemma_utf8_after_ascii(raw);
        lemma_utf8_after_ascii(raw.skip(1));
        assert(raw.skip(1).skip(1) =~= rest);
        lemma_utf8_after_blanks(rest);
        let blanks = blank_run(rest);
        if blanks < rest.len() {
            lemma_unfolded_keeps_utf8(rest.skip(blanks as int));
            let space = seq![0x20u8];
            assert(valid_utf8(space)) by {
                reveal_with_fuel(valid_utf8, 2);
                assert(pop_first_scalar(space) =~= Seq::<u8>::empty());
            }
            valid_utf8_concat(space, unfolded(rest.skip(blanks as int)));
        }
    } else {
        let width = length_of_first_scalar(raw);
        let head = raw.subrange(0, width);
        let tail = raw.subrange(width, raw.len() as int);
        assert(pop_first_scalar(raw) == tail);
        assert(is_char_boundary(raw, width)) by {
            reveal_with_fuel(is_char_boundary, 2);
        }
        valid_utf8_split(raw, width);
        lemma_unfolded_keeps_utf8(tail);
        assert(raw.take(width) =~= head);
        assert(raw.skip(width) =~= tail);
        if width == 1 {
            assert(seq![raw[0]] =~= head);
            assert(raw.skip(1) =~= tail);
        } else {
            lemma_unfolded_copies(raw, width);
        }
        valid_utf8_concat(head, unfolded(tail));
    }
}

/// Tests for a space or a tab.
pub fn is_blank_byte(b: u8) -> (r: bool)
    ensures
        r == is_blank(b),
{
    b == 0x20 || b == 0x09
}

/// Unfolds a raw header value into its single-line form.
pub fn unfold_value(raw: &[u8]) -> (out: Vec<u8>)
    ensures
        out@ == unfolded(raw@),
{
    let mut out: Vec<u8> = Vec::with_capacity(raw.len());
    let mut i: usize = 0;
    assert(raw@.skip(0) =~= raw@);
    while i < raw.len()
        invariant
            i <= raw.len(),
            out@ + unfolded(raw@.skip(i as int)) == unfolded(raw@),
        decreases raw.len() - i,
    {
        let ghost tail = raw@.skip(i as int);
        if raw[i] == 0x0d && i + 1 < raw.len() && raw[i + 1] == 0x0a {
            let start: usize = i + 2;
            let ghost rest = raw@.skip(start as int);
            assert(tail.skip(2) =~= rest);
            let mut j: usize = start;
            while j < raw.len() && is_blank_byte(raw[j])
                invariant
                    start <= j <= raw.len(),
                    rest == raw@.skip(start as int),
                    blank_run(rest) == (j - start) + blank_run(raw@.skip(j as int)),
                decreases raw.len() - j,
            {
                assert(raw@.skip(j as int).skip(1) =~= raw@.skip(j + 1));
                j += 1;
            }
            if j < raw.len() {
                assert(rest.skip(blank_run(rest) as int) =~= raw@.skip(j as int));
                out.push(0x20);
            }
            i = j;
        } else {
            assert(tail.skip(1) =~= raw@.skip(i + 1));
            assert(!starts_with_crlf(tail));
            out.push(raw[i]);
            i += 1;
        }
    }
    out
}

} // verus!
