//! What a terminal shows of a string: escape sequences (from `ESC` through the
//! next `m`) are dropped, every other character is shown.

use vstd::prelude::*;

verus! {

/// The shown characters of `s`, read from inside an escape sequence when
/// `in_esc` holds.
pub open spec fn shown_from(s: Seq<char>, in_esc: bool) -> Seq<char>
    decreases s.len(),
{
    if s.len() == 0 {
        Seq::empty()
    } else if in_esc {
        shown_from(s.skip(1), s[0] != 'm')
    } else if s[0] == '\x1b' {
        shown_from(s.skip(1), true)
    } else {
        seq![s[0]] + shown_from(s.skip(1), false)
    }
}

/// Whether reading `s` from state `in_esc` ends inside an escape sequence.
pub open spec fn ends_in_escape(s: Seq<char>, in_esc: bool) -> bool
    decreases s.len(),
{
    if s.len() == 0 {
        in_esc
    } else if in_esc {
        ends_in_escape(s.skip(1), s[0] != 'm')
    } else if s[0] == '\x1b' {
        ends_in_escape(s.skip(1), true)
    } else {
        ends_in_escape(s.skip(1), false)
    }
}

/// The characters a terminal shows of `s`.
pub open spec fn shown(s: Seq<char>) -> Seq<char> {
    shown_from(s, false)
}

/// `s` does not hold `c`.
pub open spec fn free_of(s: Seq<char>, c: char) -> bool {
    forall|i: int| 0 <= i < s.len() ==> s[i] != c
}

/// A select-graphic-rendition sequence: `ESC`, then anything but `m`, then `m`.
pub open spec fn is_sgr(s: Seq<char>) -> bool {
    &&& s.len() >= 2
    &&& s[0] == '\x1b'
    &&& s.last() == 'm'
    &&& forall|i: int| 1 <= i < s.len() - 1 ==> s[i] != 'm'
}

/// Nothing, or one select-graphic-rendition sequence.
pub open spec fn is_style(s: Seq<char>) -> bool {
    s.len() == 0 || is_sgr(s)
}

/// What is shown of a concatenation is what is shown of each part, the second
/// read in the state the first ends in.
pub proof fn lemma_shown_concat(a: Seq<char>, b: Seq<char>, st: bool)
    ensures
        shown_from(a + b, st) == shown_from(a, st) + shown_from(b, ends_in_escape(a, st)),
        ends_in_escape(a + b, st) == ends_in_escape(b, ends_in_escape(a, st)),
    decreases a.len(),
{
    if a.len() == 0 {
        assert(a + b == b);
    } else {
        assert((a + b).skip(1) == a.skip(1) + b);
        let next = if st {
            a[0] != 'm'
        } else {
            a[0] == '\x1b'
        };
        lemma_shown_concat(a.skip(1), b, next);
    }
}

/// A text without escape characters is shown as it is.
pub proof fn lemma_plain_text_shown(t: Seq<char>)
    requires
        free_of(t, '\x1b'),
    ensures
        shown(t) == t,
        !ends_in_escape(t, false),
    decreases t.len(),
{
    if t.len() > 0 {
        lemma_plain_text_shown(t.skip(1));
        assert(t == seq![t[0]] + t.skip(1));
    }
}

proof fn lemma_escape_tail(u: Seq<char>)
    requires
        u.len() >= 1,
        u.last() == 'm',
        forall|i: int| 0 <= i < u.len() - 1 ==> u[i] != 'm',
    ensures
        shown_from(u, true) == Seq::<char>::empty(),
        !ends_in_escape(u, true),
    decreases u.len(),
{
    if u.len() > 1 {
        assert(u[0] != 'm');
        let v = u.skip(1);
        assert(v.last() == 'm');
        assert forall|i: int| 0 <= i < v.len() - 1 implies v[i] != 'm' by {
            assert(v[i] == u[i + 1]);
        }
        lemma_escape_tail(v);
        assert(shown_from(u, true) == shown_from(v, true));
        assert(ends_in_escape(u, true) == ends_in_escape(v, true));
    } else {
        assert(u[0] == 'm');
        assert(u.skip(1).len() == 0);
        assert(shown_from(u.skip(1), false) == Seq::<char>::empty());
        assert(!ends_in_escape(u.skip(1), false));
        assert(shown_from(u, true) == shown_from(u.skip(1), false));
    }
}

/// A style sequence shows nothing and leaves the reading outside an escape.
pub proof fn lemma_style_shows_nothing(s: Seq<char>)
    requires
        is_style(s),
    ensures
        shown(s) == Seq::<char>::empty(),
        !ends_in_escape(s, false),
{
    if s.len() > 0 {
        let u = s.skip(1);
        assert forall|i: int| 0 <= i < u.len() - 1 implies u[i] != 'm' by {
            assert(u[i] == s[i + 1]);
        }
        lemma_escape_tail(u);
    }
}

/// A text wrapped in a style and a reset shows just the text.
pub proof fn lemma_wrapped_shown(style: Seq<char>, t: Seq<char>, reset: Seq<char>)
    requires
        is_style(style),
        is_style(reset),
        free_of(t, '\x1b'),
    ensures
        shown(style + t + reset) == t,
        !ends_in_escape(style + t + reset, false),
{
    lemma_style_shows_nothing(style);
    lemma_style_shows_nothing(reset);
    lemma_plain_text_shown(t);
    lemma_shown_concat(style, t, false);
    lemma_shown_concat(style + t, reset, false);
}

/// Two parts that each end outside an escape show their shown parts, in turn.
pub proof fn lemma_shown_parts(a: Seq<char>, b: Seq<char>)
    requires
        !ends_in_escape(a, false),
        !ends_in_escape(b, false),
    ensures
        shown(a + b) == shown(a) + shown(b),
        !ends_in_escape(a + b, false),
{
    lemma_shown_concat(a, b, false);
}

pub proof fn lemma_free_of_concat(a: Seq<char>, b: Seq<char>, c: char)
    ensures
        free_of(a + b, c) == (free_of(a, c) && free_of(b, c)),
{
    if free_of(a + b, c) {
        assert forall|i: int| 0 <= i < a.len() implies a[i] != c by {
            assert((a + b)[i] == a[i]);
        }
        assert forall|i: int| 0 <= i < b.len() implies b[i] != c by {
            assert((a + b)[a.len() + i] == b[i]);
        }
    }
}

} // verus!
