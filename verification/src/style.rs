//! Bar styles, bar characters, color themes and the options that choose them.

use vstd::prelude::*;

verus! {

/// The look of the progress bar.
#[derive(Clone, Copy, Debug, PartialEq, Eq)]
pub enum BarStyle {
    Arrow,
    Dot,
    Block,
    Hash,
}

/// Whether the progress bar is shown: `Auto` shows it on a terminal only.
#[derive(Clone, Copy, Debug, PartialEq, Eq)]
pub enum BarVisibility {
    Auto,
    On,
    Off,
}

/// Whether colors are used: `Auto` uses them on a terminal only.
#[derive(Clone, Copy, Debug, PartialEq, Eq)]
pub enum ColorMode {
    Auto,
    On,
    Off,
}

/// The fill character of a style.
pub open spec fn style_fill(style: BarStyle) -> Seq<char> {
    match style {
        BarStyle::Arrow => "="@,
        BarStyle::Dot => "●"@,
        BarStyle::Block => "█"@,
        BarStyle::Hash => "#"@,
    }
}

/// The empty character of a style.
pub open spec fn style_empty(style: BarStyle) -> Seq<char> {
    match style {
        BarStyle::Arrow => " "@,
        BarStyle::Dot => "○"@,
        BarStyle::Block => "░"@,
        BarStyle::Hash => "-"@,
    }
}

/// The tip character of a style, if it has one.
pub open spec fn style_tip(style: BarStyle) -> Option<Seq<char>> {
    match style {
        BarStyle::Arrow => Some(">"@),
        _ => None,
    }
}

impl BarStyle {
    /// The character that fills the done part of the bar.
    pub fn fill_char(&self) -> (r: &str)
        ensures
            r@ == style_fill(*self),
            r@.len() == 1,
    {
        proof {
            reveal_strlit("=");
            reveal_strlit("●");
            reveal_strlit("█");
            reveal_strlit("#");
        }
        match self {
            BarStyle::Arrow => "=",
            BarStyle::Dot => "●",
            BarStyle::Block => "█",
            BarStyle::Hash => "#",
        }
    }

    /// The character of the part of the bar still to go.
    pub fn empty_char(&self) -> (r: &str)
        ensures
            r@ == style_empty(*self),
            r@.len() == 1,
    {
        proof {
            reveal_strlit(" ");
            reveal_strlit("○");
            reveal_strlit("░");
            reveal_strlit("-");
        }
        match self {
            BarStyle::Arrow => " ",
            BarStyle::Dot => "○",
            BarStyle::Block => "░",
            BarStyle::Hash => "-",
        }
    }

    /// The character at the head of the done part, for the styles that have one.
    pub fn tip_char(&self) -> (r: Option<&str>)
        ensures
            r matches Some(t) ==> style_tip(*self) == Some(t@) && t@.len() == 1,
            r is None ==> style_tip(*self) is None,
    {
        proof {
            reveal_strlit(">");
        }
        match self {
            BarStyle::Arrow => Some(">"),
            _ => None,
        }
    }
}

/// The characters the bar is drawn with.
pub struct BarChars {
    pub fill: String,
    pub empty: String,
    pub tip: Option<String>,
    pub bar_left: String,
    pub bar_right: String,
}

/// Exactly one character.
pub open spec fn single(s: Seq<char>) -> bool {
    s.len() == 1
}

impl BarChars {
    /// Every bar character is a single character.
    pub open spec fn wf(&self) -> bool {
        &&& single(self.fill@)
        &&& single(self.empty@)
        &&& single(self.bar_left@)
        &&& single(self.bar_right@)
        &&& (self.tip matches Some(t) ==> single(t@))
    }
}

/// The view of an optional string.
pub open spec fn opt_view(s: Option<String>) -> Option<Seq<char>> {
    match s {
        Some(t) => Some(t@),
        None => None,
    }
}

/// The first option, in the order they are checked, that is not a single
/// character, as the message that rejects it.
pub open spec fn bar_chars_error(
    fill: Option<Seq<char>>,
    empty: Option<Seq<char>>,
    tip: Option<Seq<char>>,
    bar_left: Seq<char>,
    bar_right: Seq<char>,
) -> Option<Seq<char>> {
    if fill matches Some(f) && !single(f) {
        Some("--bar-fill must be a single character"@)
    } else if empty matches Some(e) && !single(e) {
        Some("--bar-empty must be a single character"@)
    } else if !single(bar_left) {
        Some("--bar-left must be a single character"@)
    } else if !single(bar_right) {
        Some("--bar-right must be a single character"@)
    } else if tip matches Some(t) && !single(t) {
        Some("--bar-tip must be a single character"@)
    } else {
        None
    }
}

fn is_single(s: &str) -> (b: bool)
    ensures
        b == single(s@),
{
    s.unicode_len() == 1
}

fn is_single_opt(s: &Option<String>) -> (b: bool)
    ensures
        b == (s matches Some(t) ==> single(t@)),
{
    match s {
        Some(t) => is_single(t.as_str()),
        None => true,
    }
}

impl BarChars {
    /// The bar characters chosen by the options: each given character must be a
    /// single character; a missing fill, empty or tip character comes from the
    /// style.
    pub fn from_options(
        style: BarStyle,
        bar_fill: Option<String>,
        bar_empty: Option<String>,
        bar_tip: Option<String>,
        bar_left: String,
        bar_right: String,
    ) -> (r: Result<BarChars, String>)
        ensures
            r is Ok <==> {
                &&& (bar_fill matches Some(f) ==> f@.len() == 1)
                &&& (bar_empty matches Some(e) ==> e@.len() == 1)
                &&& (bar_tip matches Some(t) ==> t@.len() == 1)
                &&& bar_left@.len() == 1
                &&& bar_right@.len() == 1
            },
            r matches Ok(c) ==> (bar_fill matches Some(f) ==> c.fill@ == f@),
            r matches Ok(c) ==> (bar_empty matches Some(e) ==> c.empty@ == e@),
            r matches Ok(c) ==> (bar_tip matches Some(t) ==> c.tip matches Some(ct) && ct@ == t@),
            r is Err <==> bar_chars_error(
                opt_view(bar_fill),
                opt_view(bar_empty),
                opt_view(bar_tip),
                bar_left@,
                bar_right@,
            ) is Some,
            r matches Err(e) ==> Some(e@) == bar_chars_error(
                opt_view(bar_fill),
                opt_view(bar_empty),
                opt_view(bar_tip),
                bar_left@,
                bar_right@,
            ),
            r matches Ok(c) ==> {
                &&& c.wf()
                &&& c.fill@ == (if let Some(f) = opt_view(bar_fill) { f } else { style_fill(style) })
                &&& c.empty@ == (if let Some(e) = opt_view(bar_empty) { e } else { style_empty(style) })
                &&& opt_view(c.tip) == (if let Some(t) = opt_view(bar_tip) { Some(t) } else { style_tip(style) })
                &&& c.bar_left@ == bar_left@
                &&& c.bar_right@ == bar_right@
            },
    {
        if !is_single_opt(&bar_fill) {
            return Err(String::from_str("--bar-fill must be a single character"));
        }
        if !is_single_opt(&bar_empty) {
            return Err(String::from_str("--bar-empty must be a single character"));
        }
        if !is_single(bar_left.as_str()) {
            return Err(String::from_str("--bar-left must be a single character"));
        }
        if !is_single(bar_right.as_str()) {
            return Err(String::from_str("--bar-right must be a single character"));
        }
        if !is_single_opt(&bar_tip) {
            return Err(String::from_str("--bar-tip must be a single character"));
        }
        let fill = match bar_fill {
            Some(f) => f,
            None => String::from_str(style.fill_char()),
        };
        let empty = match bar_empty {
            Some(e) => e,
            None => String::from_str(style.empty_char()),
        };
        let tip = match bar_tip {
            Some(t) => Some(t),
            None => match style.tip_char() {
                Some(t) => Some(String::from_str(t)),
                None => None,
            },
        };
        Ok(BarChars { fill, empty, tip, bar_left, bar_right })
    }
}

/// The escape sequences that color each part of the line; all empty for plain
/// output.
#[derive(Clone, Copy)]
pub struct Theme {
    pub bar_fill: &'static str,
    pub bar_empty: &'static str,
    pub bracket: &'static str,
    pub remaining: &'static str,
    /// The color of the elapsed time; the lines show the remaining time only.
    pub elapsed: &'static str,
    pub pct: &'static str,
    pub done: &'static str,
    pub reset: &'static str,
}

/// The colored theme.
pub open spec fn is_color_theme(t: Theme) -> bool {
    &&& t.bar_fill@ == "\x1b[32m"@
    &&& t.bar_empty@ == "\x1b[2m"@
    &&& t.bracket@ == "\x1b[2m"@
    &&& t.remaining@ == "\x1b[33m"@
    &&& t.elapsed@ == "\x1b[36m"@
    &&& t.pct@ == "\x1b[1m"@
    &&& t.done@ == "\x1b[1;32m"@
    &&& t.reset@ == "\x1b[0m"@
}

/// The theme without colors: every sequence is empty.
pub open spec fn is_plain_theme(t: Theme) -> bool {
    &&& t.bar_fill@.len() == 0
    &&& t.bar_empty@.len() == 0
    &&& t.bracket@.len() == 0
    &&& t.remaining@.len() == 0
    &&& t.elapsed@.len() == 0
    &&& t.pct@.len() == 0
    &&& t.done@.len() == 0
    &&& t.reset@.len() == 0
}

/// Green bar, dim brackets and empty part, yellow remaining time, cyan elapsed
/// time, bold percentage, bold green "Done!".
pub fn color_theme() -> (t: Theme)
    ensures
        is_color_theme(t),
{
    Theme {
        bar_fill: "\x1b[32m",
        bar_empty: "\x1b[2m",
        bracket: "\x1b[2m",
        remaining: "\x1b[33m",
        elapsed: "\x1b[36m",
        pct: "\x1b[1m",
        done: "\x1b[1;32m",
        reset: "\x1b[0m",
    }
}

/// No colors.
pub fn plain_theme() -> (t: Theme)
    ensures
        is_plain_theme(t),
{
    proof {
        reveal_strlit("");
    }
    Theme {
        bar_fill: "",
        bar_empty: "",
        bracket: "",
        remaining: "",
        elapsed: "",
        pct: "",
        done: "",
        reset: "",
    }
}

/// Whether the bar is hidden for the chosen visibility on this kind of output.
pub open spec fn hides_bar_spec(bar: BarVisibility, is_tty: bool) -> bool {
    match bar {
        BarVisibility::On => false,
        BarVisibility::Off => true,
        BarVisibility::Auto => !is_tty,
    }
}

/// Whether colors are used for the chosen mode on this kind of output.
pub open spec fn uses_color(color: ColorMode, is_tty: bool) -> bool {
    match color {
        ColorMode::On => true,
        ColorMode::Off => false,
        ColorMode::Auto => is_tty,
    }
}

/// `On` always shows the bar and `Off` always hides it, whatever the output;
/// only `Auto` follows the output, showing the bar on a terminal alone.
pub proof fn lemma_bar_visibility(is_tty: bool)
    ensures
        !hides_bar_spec(BarVisibility::On, is_tty),
        hides_bar_spec(BarVisibility::Off, is_tty),
        hides_bar_spec(BarVisibility::Auto, is_tty) == !is_tty,
{
}

/// `On` always uses colors and `Off` never does, whatever the output; only
/// `Auto` follows the output, using colors on a terminal alone.
pub proof fn lemma_color_use(is_tty: bool)
    ensures
        uses_color(ColorMode::On, is_tty),
        !uses_color(ColorMode::Off, is_tty),
        uses_color(ColorMode::Auto, is_tty) == is_tty,
{
}

/// An option is rejected only for not being exactly one character, of any kind:
/// the bar characters are refused exactly when some given one has another
/// number of characters.
pub proof fn lemma_single_characters_accepted(
    fill: Option<Seq<char>>,
    empty: Option<Seq<char>>,
    tip: Option<Seq<char>>,
    bar_left: Seq<char>,
    bar_right: Seq<char>,
)
    ensures
        bar_chars_error(fill, empty, tip, bar_left, bar_right) is None <==> {
            &&& (fill matches Some(f) ==> f.len() == 1)
            &&& (empty matches Some(e) ==> e.len() == 1)
            &&& (tip matches Some(t) ==> t.len() == 1)
            &&& bar_left.len() == 1
            &&& bar_right.len() == 1
        },
{
}

/// Whether the bar is hidden: always for `Off`, never for `On`, and for `Auto`
/// when the output is not a terminal.
pub fn hides_bar(bar: BarVisibility, is_tty: bool) -> (b: bool)
    ensures
        b == hides_bar_spec(bar, is_tty),
        bar == BarVisibility::On ==> !b,
        bar == BarVisibility::Off ==> b,
        bar == BarVisibility::Auto ==> (b <==> !is_tty),
{
    match bar {
        BarVisibility::On => false,
        BarVisibility::Off => true,
        BarVisibility::Auto => !is_tty,
    }
}

/// The theme for the chosen color mode: colored for `On`, plain for `Off`, and
/// for `Auto` colored on a terminal only.
pub fn theme_for(color: ColorMode, is_tty: bool) -> (t: Theme)
    ensures
        uses_color(color, is_tty) ==> is_color_theme(t),
        !uses_color(color, is_tty) ==> is_plain_theme(t),
        color == ColorMode::On ==> is_color_theme(t),
        color == ColorMode::Off ==> is_plain_theme(t),
        color == ColorMode::Auto && is_tty ==> is_color_theme(t),
        color == ColorMode::Auto && !is_tty ==> is_plain_theme(t),
{
    match color {
        ColorMode::On => color_theme(),
        ColorMode::Off => plain_theme(),
        ColorMode::Auto => {
            if is_tty {
                color_theme()
            } else {
                plain_theme()
            }
        },
    }
}

} // verus!
