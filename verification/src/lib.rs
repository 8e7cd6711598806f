//! Rendering and scheduling logic of a countdown timer that shows an inline
//! progress bar: fixed-width time strings, the bar line, the decisions of the
//! timer loop, and the reading of durations.

pub mod duration;
pub mod escape;
pub mod parse;
pub mod render;
pub mod schedule;
pub mod style;
pub mod text;
pub mod timefmt;

pub use duration::Duration;
pub use parse::{
    count_significant_digits, duration_from_parse, parse_human_duration, read_human_duration,
    MAX_SIGNIFICANT_DIGITS,
};
pub use render::{
    clear_wrapped_lines, progress_bar_width, render_done, render_progress,
    width_from_terminal_size,
};
pub use schedule::{next_step, non_tty_interval, width_to_clear, Step};
pub use style::{
    color_theme, hides_bar, plain_theme, theme_for, BarChars, BarStyle, BarVisibility, ColorMode,
    Theme,
};
pub use timefmt::{duration_display_width, format_duration_fixed, hour_digits, prettify_duration};
