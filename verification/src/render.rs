//! The progress line and the final line, and the escape sequence that clears a
//! line that may have wrapped on the terminal.

use vstd::prelude::*;
use crate::duration::{Duration, whole_secs, lemma_whole_secs_of};
use crate::style::{BarChars, Theme, is_plain_theme, is_color_theme};
use crate::escape::{
    shown,
    ends_in_escape,
    free_of,
    is_style,
    lemma_wrapped_shown,
    lemma_shown_parts,
    lemma_plain_text_shown,
    lemma_free_of_concat,
};
use crate::text::{
    repeat_seq,
    decimal,
    repeat_str,
    decimal_string,
    lemma_repeat_single_len,
};
use crate::timefmt::{
    display_width_of,
    fixed_text,
    format_duration_fixed,
    duration_display_width,
    lemma_fixed_text_width,
    lemma_fixed_text_chars,
    is_time_char,
};

verus! {

/// The terminal width that lines are laid out for: one column less than the
/// terminal has, or 79 when the terminal size is unknown.
pub open spec fn layout_width(cols: Option<u16>) -> nat {
    match cols {
        Some(w) => if w >= 1 { (w - 1) as nat } else { 0 },
        None => 79,
    }
}

/// A known terminal of `c` columns is laid out for `c - 1` columns, whatever its
/// size; 79 columns stand only for an unknown size.
pub proof fn lemma_layout_width(cols: Option<u16>)
    ensures
        cols matches Some(c) ==> (c >= 1 ==> layout_width(cols) == c - 1),
        cols matches Some(c) ==> (c == 0 ==> layout_width(cols) == 0),
        cols is None ==> layout_width(cols) == 79,
        cols matches Some(c) ==> layout_width(cols) < c || c == 0,
{
}

/// The width to lay lines out for, from the terminal's columns if known.
pub fn width_from_terminal_size(cols: Option<u16>) -> (w: usize)
    ensures
        w == layout_width(cols),
        cols matches Some(c) ==> (c >= 1 ==> w == c - 1),
        cols matches Some(c) ==> (c == 0 ==> w == 0),
        cols is None ==> w == 79,
{
    match cols {
        Some(w) => (w as usize).saturating_sub(1),
        None => 79,
    }
}

/// The number of terminal rows that `len` characters take at `width` columns.
pub open spec fn rows_taken(len: nat, width: nat) -> nat {
    ((len + width - 1) as nat) / width
}

/// Moves the cursor up to the first row a line of `prev_len` characters took,
/// if it wrapped, then to the first column, and clears to the end of the screen.
pub open spec fn clear_text(prev_len: nat, width: nat) -> Seq<char> {
    let up = if prev_len > 0 && width > 0 && rows_taken(prev_len, width) > 1 {
        "\x1b["@ + decimal((rows_taken(prev_len, width) - 1) as nat) + "A"@
    } else {
        Seq::empty()
    };
    up + "\r\x1b[J"@
}

/// The escape sequence that clears the previous output, `prev_output_len`
/// characters long, which may have wrapped at `term_width` columns.
pub fn clear_wrapped_lines(prev_output_len: usize, term_width: usize) -> (r: String)
    requires
        prev_output_len + term_width <= usize::MAX,
    ensures
        r@ == clear_text(prev_output_len as nat, term_width as nat),
{
    let mut out = String::new();
    if prev_output_len > 0 && term_width > 0 {
        let lines = (prev_output_len + term_width - 1) / term_width;
        if lines > 1 {
            out.append("\x1b[");
            out.append(decimal_string((lines - 1) as u64).as_str());
            out.append("A");
        }
    }
    out.append("\r\x1b[J");
    out
}

/// The whole seconds shown as remaining: the total less the elapsed time, and
/// none once the elapsed time reaches the total.
pub open spec fn shown_remaining(elapsed_secs: nat, total_secs: nat) -> nat {
    if elapsed_secs < total_secs {
        (total_secs - elapsed_secs) as nat
    } else {
        0
    }
}

/// The columns that the progress line takes besides the bar's cells: the
/// brackets, a space, the remaining time, " remaining (", a four-column
/// percentage and ")".
pub open spec fn progress_overhead(total_secs: nat, chars: BarChars) -> nat {
    chars.bar_left@.len() + chars.bar_right@.len() + 1 + display_width_of(total_secs) + 12 + 4 + 1
}

/// The cells of a bar: what the terminal leaves after `overhead`, at least ten.
pub open spec fn bar_cells(term_width: nat, overhead: nat) -> nat {
    if term_width >= overhead + 10 {
        (term_width - overhead) as nat
    } else {
        10
    }
}

/// The done cells and the cells still to go, out of `cells`.
pub open spec fn split_cells(cells: nat, filled: nat) -> nat {
    if cells >= filled {
        (cells - filled) as nat
    } else {
        0
    }
}

/// `t` between a style and a reset.
pub open spec fn styled(style: Seq<char>, t: Seq<char>, reset: Seq<char>) -> Seq<char> {
    style + t + reset
}

/// The done part of the bar: `filled` fill characters, the last replaced by the
/// tip where the style has one and the bar is neither empty nor full.
pub open spec fn done_cells(chars: BarChars, filled: nat, empty: nat) -> Seq<char> {
    if chars.tip is Some && filled > 0 && empty > 0 {
        repeat_seq(chars.fill@, (filled - 1) as nat) + chars.tip->0@
    } else {
        repeat_seq(chars.fill@, filled)
    }
}

/// The bar: the done part in the fill color, then `empty` empty characters in
/// the empty color.
pub open spec fn bar_body(theme: Theme, chars: BarChars, filled: nat, empty: nat) -> Seq<char> {
    styled(theme.bar_fill@, done_cells(chars, filled, empty), theme.reset@) + styled(
        theme.bar_empty@,
        repeat_seq(chars.empty@, empty),
        theme.reset@,
    )
}

/// The bar between its brackets, then a space.
pub open spec fn bracketed(theme: Theme, chars: BarChars, body: Seq<char>) -> Seq<char> {
    styled(theme.bracket@, chars.bar_left@, theme.reset@) + body + styled(
        theme.bracket@,
        chars.bar_right@,
        theme.reset@,
    ) + " "@
}

/// "{remaining} remaining ({percentage})".
pub open spec fn remaining_part(
    elapsed_secs: nat,
    total_secs: nat,
    theme: Theme,
    pct_text: Seq<char>,
) -> Seq<char> {
    styled(
        theme.remaining@,
        fixed_text(shown_remaining(elapsed_secs, total_secs), total_secs),
        theme.reset@,
    ) + " remaining ("@ + styled(theme.pct@, pct_text, theme.reset@) + ")"@
}

/// The progress line: unless the bar is hidden, the bracketed bar; then the
/// remaining time and, in brackets, the percentage done.
pub open spec fn progress_line(
    elapsed_secs: nat,
    total_secs: nat,
    chars: BarChars,
    no_bar: bool,
    theme: Theme,
    term_width: nat,
    pct_text: Seq<char>,
    filled: nat,
) -> Seq<char> {
    let tail = remaining_part(elapsed_secs, total_secs, theme, pct_text);
    if no_bar {
        tail
    } else {
        let cells = bar_cells(term_width, progress_overhead(total_secs, chars));
        bracketed(theme, chars, bar_body(theme, chars, filled, split_cells(cells, filled))) + tail
    }
}

/// The final line: unless the bar is hidden, the bar of the progress line with
/// every cell done; then "Done!".
pub open spec fn done_line(
    total_secs: nat,
    chars: BarChars,
    no_bar: bool,
    theme: Theme,
    term_width: nat,
) -> Seq<char> {
    let label = styled(theme.done@, "Done!"@, theme.reset@);
    if no_bar {
        label
    } else {
        let cells = bar_cells(term_width, progress_overhead(total_secs, chars));
        bracketed(theme, chars, styled(theme.bar_fill@, repeat_seq(chars.fill@, cells), theme.reset@))
            + label
    }
}

/// Bracket characters short enough that the line's column count fits a `usize`.
pub open spec fn brackets_fit(chars: BarChars) -> bool {
    chars.bar_left@.len() + chars.bar_right@.len() + 100 <= usize::MAX
}

/// Without colors, a bar of single characters takes exactly its cells, however
/// many of them are done.
pub proof fn lemma_bar_takes_its_cells(theme: Theme, chars: BarChars, cells: nat, filled: nat)
    requires
        is_plain_theme(theme),
        chars.wf(),
        filled <= cells,
    ensures
        bar_body(theme, chars, filled, split_cells(cells, filled)).len() == cells,
{
    let empty = split_cells(cells, filled);
    lemma_repeat_single_len(chars.fill@, filled);
    lemma_repeat_single_len(chars.empty@, empty);
    if filled > 0 {
        lemma_repeat_single_len(chars.fill@, (filled - 1) as nat);
    }
}

proof fn lemma_remaining_part_width(
    elapsed_secs: nat,
    total_secs: nat,
    theme: Theme,
    pct_text: Seq<char>,
)
    requires
        is_plain_theme(theme),
    ensures
        remaining_part(elapsed_secs, total_secs, theme, pct_text).len() == display_width_of(
            total_secs,
        ) + 12 + pct_text.len() + 1,
{
    reveal_strlit(" remaining (");
    reveal_strlit(")");
    lemma_fixed_text_width(shown_remaining(elapsed_secs, total_secs), total_secs);
}

/// Without colors, the progress line with its bar is exactly as wide as the
/// terminal width it is laid out for, unless that would leave fewer than ten
/// bar cells; then it is just wide enough for ten.
pub proof fn lemma_progress_line_fills_width(
    elapsed_secs: nat,
    total_secs: nat,
    chars: BarChars,
    theme: Theme,
    term_width: nat,
    pct_text: Seq<char>,
    filled: nat,
)
    requires
        is_plain_theme(theme),
        chars.wf(),
        pct_text.len() == 4,
        filled <= bar_cells(term_width, progress_overhead(total_secs, chars)),
    ensures
        ({
            let line = progress_line(
                elapsed_secs,
                total_secs,
                chars,
                false,
                theme,
                term_width,
                pct_text,
                filled,
            );
            let least = progress_overhead(total_secs, chars) + 10;
            line.len() == if term_width >= least { term_width } else { least }
        }),
{
    let cells = bar_cells(term_width, progress_overhead(total_secs, chars));
    reveal_strlit(" ");
    lemma_remaining_part_width(elapsed_secs, total_secs, theme, pct_text);
    lemma_bar_takes_its_cells(theme, chars, cells, filled);
}

/// Without colors, the final line's bar has the cells of the progress bar, all
/// done, and the line is that bar in its brackets, a space and "Done!".
pub proof fn lemma_done_line_width(total_secs: nat, chars: BarChars, theme: Theme, term_width: nat)
    requires
        is_plain_theme(theme),
        chars.wf(),
    ensures
        done_line(total_secs, chars, false, theme, term_width).len() == bar_cells(
            term_width,
            progress_overhead(total_secs, chars),
        ) + 8,
{
    let cells = bar_cells(term_width, progress_overhead(total_secs, chars));
    reveal_strlit(" ");
    reveal_strlit("Done!");
    lemma_repeat_single_len(chars.fill@, cells);
}

/// Every part of a theme is either empty or one style sequence.
pub open spec fn styles_only(theme: Theme) -> bool {
    &&& is_style(theme.bar_fill@)
    &&& is_style(theme.bar_empty@)
    &&& is_style(theme.bracket@)
    &&& is_style(theme.remaining@)
    &&& is_style(theme.elapsed@)
    &&& is_style(theme.pct@)
    &&& is_style(theme.done@)
    &&& is_style(theme.reset@)
}

/// No bar character holds `c`.
pub open spec fn chars_free_of(chars: BarChars, c: char) -> bool {
    &&& free_of(chars.fill@, c)
    &&& free_of(chars.empty@, c)
    &&& free_of(chars.bar_left@, c)
    &&& free_of(chars.bar_right@, c)
    &&& (chars.tip matches Some(t) ==> free_of(t@, c))
}

proof fn lemma_repeat_free_of(s: Seq<char>, n: nat, c: char)
    requires
        free_of(s, c),
    ensures
        free_of(repeat_seq(s, n), c),
    decreases n,
{
    if n > 0 {
        lemma_repeat_free_of(s, (n - 1) as nat, c);
        lemma_free_of_concat(repeat_seq(s, (n - 1) as nat), s, c);
    }
}

proof fn lemma_done_cells_free_of(chars: BarChars, filled: nat, empty: nat, c: char)
    requires
        chars_free_of(chars, c),
    ensures
        free_of(done_cells(chars, filled, empty), c),
        free_of(repeat_seq(chars.empty@, empty), c),
{
    lemma_repeat_free_of(chars.fill@, filled, c);
    lemma_repeat_free_of(chars.empty@, empty, c);
    if filled > 0 {
        lemma_repeat_free_of(chars.fill@, (filled - 1) as nat, c);
        lemma_free_of_concat(
            repeat_seq(chars.fill@, (filled - 1) as nat),
            chars.tip->0@,
            c,
        );
    }
}

proof fn lemma_bar_body_shown(
    theme: Theme,
    plain: Theme,
    chars: BarChars,
    filled: nat,
    empty: nat,
)
    requires
        styles_only(theme),
        is_plain_theme(plain),
        chars_free_of(chars, '\x1b'),
    ensures
        shown(bar_body(theme, chars, filled, empty)) == bar_body(plain, chars, filled, empty),
        !ends_in_escape(bar_body(theme, chars, filled, empty), false),
{
    lemma_done_cells_free_of(chars, filled, empty, '\x1b');
    let d = done_cells(chars, filled, empty);
    let e = repeat_seq(chars.empty@, empty);
    lemma_wrapped_shown(theme.bar_fill@, d, theme.reset@);
    lemma_wrapped_shown(theme.bar_empty@, e, theme.reset@);
    lemma_shown_parts(
        styled(theme.bar_fill@, d, theme.reset@),
        styled(theme.bar_empty@, e, theme.reset@),
    );
    assert(styled(plain.bar_fill@, d, plain.reset@) == d);
    assert(styled(plain.bar_empty@, e, plain.reset@) == e);
}

proof fn lemma_bracketed_shown(theme: Theme, plain: Theme, chars: BarChars, body: Seq<char>)
    requires
        styles_only(theme),
        is_plain_theme(plain),
        chars_free_of(chars, '\x1b'),
        !ends_in_escape(body, false),
    ensures
        shown(bracketed(theme, chars, body)) == bracketed(plain, chars, shown(body)),
        !ends_in_escape(bracketed(theme, chars, body), false),
{
    reveal_strlit(" ");
    let l = styled(theme.bracket@, chars.bar_left@, theme.reset@);
    let r = styled(theme.bracket@, chars.bar_right@, theme.reset@);
    lemma_wrapped_shown(theme.bracket@, chars.bar_left@, theme.reset@);
    lemma_wrapped_shown(theme.bracket@, chars.bar_right@, theme.reset@);
    lemma_plain_text_shown(" "@);
    lemma_shown_parts(l, body);
    lemma_shown_parts(l + body, r);
    lemma_shown_parts(l + body + r, " "@);
    assert(styled(plain.bracket@, chars.bar_left@, plain.reset@) == chars.bar_left@);
    assert(styled(plain.bracket@, chars.bar_right@, plain.reset@) == chars.bar_right@);
}

proof fn lemma_remaining_part_shown(
    elapsed_secs: nat,
    total_secs: nat,
    theme: Theme,
    plain: Theme,
    pct_text: Seq<char>,
)
    requires
        styles_only(theme),
        is_plain_theme(plain),
        free_of(pct_text, '\x1b'),
    ensures
        shown(remaining_part(elapsed_secs, total_secs, theme, pct_text)) == remaining_part(
            elapsed_secs,
            total_secs,
            plain,
            pct_text,
        ),
        !ends_in_escape(remaining_part(elapsed_secs, total_secs, theme, pct_text), false),
{
    reveal_strlit(" remaining (");
    reveal_strlit(")");
    let t = fixed_text(shown_remaining(elapsed_secs, total_secs), total_secs);
    lemma_fixed_text_chars(shown_remaining(elapsed_secs, total_secs), total_secs);
    let a = styled(theme.remaining@, t, theme.reset@);
    let b = " remaining ("@;
    let c = styled(theme.pct@, pct_text, theme.reset@);
    let d = ")"@;
    lemma_wrapped_shown(theme.remaining@, t, theme.reset@);
    lemma_wrapped_shown(theme.pct@, pct_text, theme.reset@);
    lemma_plain_text_shown(b);
    lemma_plain_text_shown(d);
    lemma_shown_parts(a, b);
    lemma_shown_parts(a + b, c);
    lemma_shown_parts(a + b + c, d);
    assert(styled(plain.remaining@, t, plain.reset@) == t);
    assert(styled(plain.pct@, pct_text, plain.reset@) == pct_text);
}

/// Colors only wrap the parts of the progress line: with the style sequences
/// dropped, as a terminal shows it, the colored line is the plain line.
pub proof fn lemma_progress_line_colors_only_wrap(
    elapsed_secs: nat,
    total_secs: nat,
    chars: BarChars,
    no_bar: bool,
    theme: Theme,
    plain: Theme,
    term_width: nat,
    pct_text: Seq<char>,
    filled: nat,
)
    requires
        styles_only(theme),
        is_plain_theme(plain),
        chars_free_of(chars, '\x1b'),
        free_of(pct_text, '\x1b'),
    ensures
        shown(
            progress_line(
                elapsed_secs,
                total_secs,
                chars,
                no_bar,
                theme,
                term_width,
                pct_text,
                filled,
            ),
        ) == progress_line(
            elapsed_secs,
            total_secs,
            chars,
            no_bar,
            plain,
            term_width,
            pct_text,
            filled,
        ),
{
    lemma_remaining_part_shown(elapsed_secs, total_secs, theme, plain, pct_text);
    if !no_bar {
        let cells = bar_cells(term_width, progress_overhead(total_secs, chars));
        let empty = split_cells(cells, filled);
        lemma_bar_body_shown(theme, plain, chars, filled, empty);
        let body = bar_body(theme, chars, filled, empty);
        lemma_bracketed_shown(theme, plain, chars, body);
        lemma_shown_parts(
            bracketed(theme, chars, body),
            remaining_part(elapsed_secs, total_secs, theme, pct_text),
        );
    }
}

/// Colors only wrap the parts of the final line: with the style sequences
/// dropped, the colored line is the plain line.
pub proof fn lemma_done_line_colors_only_wrap(
    total_secs: nat,
    chars: BarChars,
    no_bar: bool,
    theme: Theme,
    plain: Theme,
    term_width: nat,
)
    requires
        styles_only(theme),
        is_plain_theme(plain),
        chars_free_of(chars, '\x1b'),
    ensures
        shown(done_line(total_secs, chars, no_bar, theme, term_width)) == done_line(
            total_secs,
            chars,
            no_bar,
            plain,
            term_width,
        ),
{
    reveal_strlit("Done!");
    lemma_wrapped_shown(theme.done@, "Done!"@, theme.reset@);
    assert(styled(plain.done@, "Done!"@, plain.reset@) == "Done!"@);
    if !no_bar {
        let cells = bar_cells(term_width, progress_overhead(total_secs, chars));
        let fills = repeat_seq(chars.fill@, cells);
        lemma_repeat_free_of(chars.fill@, cells, '\x1b');
        lemma_wrapped_shown(theme.bar_fill@, fills, theme.reset@);
        assert(styled(plain.bar_fill@, fills, plain.reset@) == fills);
        let body = styled(theme.bar_fill@, fills, theme.reset@);
        lemma_bracketed_shown(theme, plain, chars, body);
        lemma_shown_parts(
            bracketed(theme, chars, body),
            styled(theme.done@, "Done!"@, theme.reset@),
        );
    }
}

/// The colored theme and the plain theme hold only style sequences, and no
/// control character but the escape that starts them, so the laws about colors
/// and single lines apply to both.
pub proof fn lemma_themes_are_styles(theme: Theme)
    requires
        is_color_theme(theme) || is_plain_theme(theme),
    ensures
        styles_only(theme),
        forall|c: char| c < ' ' && c != '\x1b' ==> #[trigger] theme_free_of(theme, c),
{
    reveal_strlit("\x1b[32m");
    reveal_strlit("\x1b[2m");
    reveal_strlit("\x1b[33m");
    reveal_strlit("\x1b[36m");
    reveal_strlit("\x1b[1m");
    reveal_strlit("\x1b[1;32m");
    reveal_strlit("\x1b[0m");
}

/// Every part of a theme is free of `c`.
pub open spec fn theme_free_of(theme: Theme, c: char) -> bool {
    &&& free_of(theme.bar_fill@, c)
    &&& free_of(theme.bar_empty@, c)
    &&& free_of(theme.bracket@, c)
    &&& free_of(theme.remaining@, c)
    &&& free_of(theme.elapsed@, c)
    &&& free_of(theme.pct@, c)
    &&& free_of(theme.done@, c)
    &&& free_of(theme.reset@, c)
}

proof fn lemma_styled_free_of(style: Seq<char>, t: Seq<char>, reset: Seq<char>, c: char)
    requires
        free_of(style, c),
        free_of(t, c),
        free_of(reset, c),
    ensures
        free_of(styled(style, t, reset), c),
{
    lemma_free_of_concat(style, t, c);
    lemma_free_of_concat(style + t, reset, c);
}

proof fn lemma_bracketed_free_of(theme: Theme, chars: BarChars, body: Seq<char>, c: char)
    requires
        theme_free_of(theme, c),
        chars_free_of(chars, c),
        free_of(body, c),
        c != ' ',
    ensures
        free_of(bracketed(theme, chars, body), c),
{
    reveal_strlit(" ");
    let l = styled(theme.bracket@, chars.bar_left@, theme.reset@);
    let r = styled(theme.bracket@, chars.bar_right@, theme.reset@);
    lemma_styled_free_of(theme.bracket@, chars.bar_left@, theme.reset@, c);
    lemma_styled_free_of(theme.bracket@, chars.bar_right@, theme.reset@, c);
    lemma_free_of_concat(l, body, c);
    lemma_free_of_concat(l + body, r, c);
    lemma_free_of_concat(l + body + r, " "@, c);
}

proof fn lemma_literal_free_of_control(s: Seq<char>, c: char)
    requires
        c < ' ',
        forall|i: int| 0 <= i < s.len() ==> ' ' <= #[trigger] s[i],
    ensures
        free_of(s, c),
{
}

/// The progress line is a single line: it holds no control character (a line
/// break, a carriage return, ...) that its parts do not hold.
pub proof fn lemma_progress_line_is_single_line(
    elapsed_secs: nat,
    total_secs: nat,
    chars: BarChars,
    no_bar: bool,
    theme: Theme,
    term_width: nat,
    pct_text: Seq<char>,
    filled: nat,
    c: char,
)
    requires
        c < ' ',
        theme_free_of(theme, c),
        chars_free_of(chars, c),
        free_of(pct_text, c),
    ensures
        free_of(
            progress_line(
                elapsed_secs,
                total_secs,
                chars,
                no_bar,
                theme,
                term_width,
                pct_text,
                filled,
            ),
            c,
        ),
{
    reveal_strlit(" remaining (");
    reveal_strlit(")");
    let t = fixed_text(shown_remaining(elapsed_secs, total_secs), total_secs);
    lemma_fixed_text_chars(shown_remaining(elapsed_secs, total_secs), total_secs);
    assert forall|i: int| 0 <= i < t.len() implies t[i] != c by {
        assert(is_time_char(t[i]));
    }
    lemma_literal_free_of_control(" remaining ("@, c);
    lemma_literal_free_of_control(")"@, c);
    let a = styled(theme.remaining@, t, theme.reset@);
    let p = styled(theme.pct@, pct_text, theme.reset@);
    lemma_styled_free_of(theme.remaining@, t, theme.reset@, c);
    lemma_styled_free_of(theme.pct@, pct_text, theme.reset@, c);
    lemma_free_of_concat(a, " remaining ("@, c);
    lemma_free_of_concat(a + " remaining ("@, p, c);
    lemma_free_of_concat(a + " remaining ("@ + p, ")"@, c);
    if !no_bar {
        let cells = bar_cells(term_width, progress_overhead(total_secs, chars));
        let empty = split_cells(cells, filled);
        lemma_done_cells_free_of(chars, filled, empty, c);
        let d = done_cells(chars, filled, empty);
        let e = repeat_seq(chars.empty@, empty);
        lemma_styled_free_of(theme.bar_fill@, d, theme.reset@, c);
        lemma_styled_free_of(theme.bar_empty@, e, theme.reset@, c);
        lemma_free_of_concat(
            styled(theme.bar_fill@, d, theme.reset@),
            styled(theme.bar_empty@, e, theme.reset@),
            c,
        );
        let body = bar_body(theme, chars, filled, empty);
        lemma_bracketed_free_of(theme, chars, body, c);
        lemma_free_of_concat(
            bracketed(theme, chars, body),
            remaining_part(elapsed_secs, total_secs, theme, pct_text),
            c,
        );
    }
}

/// The final line is a single line: it holds no control character (a line
/// break, a carriage return, ...) that its parts do not hold.
pub proof fn lemma_done_line_is_single_line(
    total_secs: nat,
    chars: BarChars,
    no_bar: bool,
    theme: Theme,
    term_width: nat,
    c: char,
)
    requires
        c < ' ',
        theme_free_of(theme, c),
        chars_free_of(chars, c),
    ensures
        free_of(done_line(total_secs, chars, no_bar, theme, term_width), c),
{
    reveal_strlit("Done!");
    lemma_literal_free_of_control("Done!"@, c);
    lemma_styled_free_of(theme.done@, "Done!"@, theme.reset@, c);
    if !no_bar {
        let cells = bar_cells(term_width, progress_overhead(total_secs, chars));
        let fills = repeat_seq(chars.fill@, cells);
        lemma_repeat_free_of(chars.fill@, cells, c);
        lemma_styled_free_of(theme.bar_fill@, fills, theme.reset@, c);
        let body = styled(theme.bar_fill@, fills, theme.reset@);
        lemma_bracketed_free_of(theme, chars, body, c);
        lemma_free_of_concat(
            bracketed(theme, chars, body),
            styled(theme.done@, "Done!"@, theme.reset@),
            c,
        );
    }
}

fn bar_cells_exec(term_width: usize, overhead: usize) -> (c: usize)
    ensures
        c == bar_cells(term_width as nat, overhead as nat),
{
    let free = term_width.saturating_sub(overhead);
    if free < 10 {
        10
    } else {
        free
    }
}

/// The cells of the bar for a timer of length `total` on a terminal of
/// `term_width` columns; the final line's bar has the same cells.
pub fn progress_bar_width(total: Duration, chars: &BarChars, term_width: usize) -> (w: usize)
    requires
        brackets_fit(*chars),
    ensures
        w == bar_cells(term_width as nat, progress_overhead(whole_secs(total@), *chars)),
        w >= 10,
{
    let dur_w = duration_display_width(total);
    let lb = chars.bar_left.as_str().unicode_len();
    let rb = chars.bar_right.as_str().unicode_len();
    let overhead = lb + rb + 1 + dur_w + 12 + 4 + 1;
    bar_cells_exec(term_width, overhead)
}

fn styled_text(style: &str, t: &str, reset: &str) -> (r: String)
    ensures
        r@ == styled(style@, t@, reset@),
{
    let mut out = String::from_str(style);
    out.append(t);
    out.append(reset);
    out
}

fn bar_content(theme: &Theme, chars: &BarChars, filled: usize, empty: usize) -> (r: String)
    ensures
        r@ == bar_body(*theme, *chars, filled as nat, empty as nat),
{
    let done = match &chars.tip {
        Some(tip) => {
            if filled > 0 && empty > 0 {
                let mut d = repeat_str(chars.fill.as_str(), filled - 1);
                d.append(tip.as_str());
                d
            } else {
                repeat_str(chars.fill.as_str(), filled)
            }
        },
        None => repeat_str(chars.fill.as_str(), filled),
    };
    let mut out = styled_text(theme.bar_fill, done.as_str(), theme.reset);
    let empties = repeat_str(chars.empty.as_str(), empty);
    out.append(styled_text(theme.bar_empty, empties.as_str(), theme.reset).as_str());
    out
}

fn bracketed_text(theme: &Theme, chars: &BarChars, body: &str) -> (r: String)
    ensures
        r@ == bracketed(*theme, *chars, body@),
{
    let mut out = styled_text(theme.bracket, chars.bar_left.as_str(), theme.reset);
    out.append(body);
    out.append(styled_text(theme.bracket, chars.bar_right.as_str(), theme.reset).as_str());
    out.append(" ");
    out
}

fn remaining_text(elapsed: Duration, total: Duration, theme: &Theme, pct_text: &str) -> (r: String)
    ensures
        r@ == remaining_part(whole_secs(elapsed@), whole_secs(total@), *theme, pct_text@),
{
    let total_secs = total.as_secs();
    let e = elapsed.as_secs();
    let remaining_secs = if e < total_secs {
        total_secs - e
    } else {
        0
    };
    let remaining_d = Duration::from_secs(remaining_secs);
    proof {
        lemma_whole_secs_of(remaining_secs);
    }
    let remaining_str = format_duration_fixed(remaining_d, total);
    let mut out = styled_text(theme.remaining, remaining_str.as_str(), theme.reset);
    out.append(" remaining (");
    out.append(styled_text(theme.pct, pct_text, theme.reset).as_str());
    out.append(")");
    out
}

/// The progress line after `elapsed` of a timer of length `total`, in whole
/// seconds: the bar (unless hidden), the remaining time and the percentage
/// done. `pct_text` is the percentage as it is printed, and `filled` the number
/// of bar cells that are done; both are computed by the caller from the exact
/// fraction.
pub fn render_progress(
    elapsed: Duration,
    total: Duration,
    chars: &BarChars,
    no_bar: bool,
    theme: &Theme,
    term_width: usize,
    pct_text: &str,
    filled: usize,
) -> (r: String)
    requires
        brackets_fit(*chars),
        !no_bar ==> filled <= bar_cells(
            term_width as nat,
            progress_overhead(whole_secs(total@), *chars),
        ),
    ensures
        r@ == progress_line(
            whole_secs(elapsed@),
            whole_secs(total@),
            *chars,
            no_bar,
            *theme,
            term_width as nat,
            pct_text@,
            filled as nat,
        ),
{
    let tail = remaining_text(elapsed, total, theme, pct_text);
    if no_bar {
        tail
    } else {
        let bar_width = progress_bar_width(total, chars, term_width);
        let empty = bar_width.saturating_sub(filled);
        let body = bar_content(theme, chars, filled, empty);
        let mut out = bracketed_text(theme, chars, body.as_str());
        out.append(tail.as_str());
        out
    }
}

/// The final line of a timer of length `total`: the progress bar with every
/// cell done (unless hidden), then "Done!".
pub fn render_done(
    total: Duration,
    chars: &BarChars,
    no_bar: bool,
    theme: &Theme,
    term_width: usize,
) -> (r: String)
    requires
        brackets_fit(*chars),
    ensures
        r@ == done_line(whole_secs(total@), *chars, no_bar, *theme, term_width as nat),
{
    let label = styled_text(theme.done, "Done!", theme.reset);
    if no_bar {
        label
    } else {
        let bar_width = progress_bar_width(total, chars, term_width);
        let fills = repeat_str(chars.fill.as_str(), bar_width);
        let body = styled_text(theme.bar_fill, fills.as_str(), theme.reset);
        let mut out = bracketed_text(theme, chars, body.as_str());
        out.append(label.as_str());
        out
    }
}

} // verus!
