//! The two progress indicators, drawn by `indicatif`: a spinner for work of
//! unknown size and a bar for work that is counted.
//!
//! An indicator is known here by its length, where it stands, its
//! message, whether it is finished, and the steady tick it was set to. How
//! it is drawn on the terminal is `indicatif`'s affair and nothing is stated
//! of it.

use vstd::prelude::*;
use crate::loader::{LOADED_MESSAGE, LOADING_MESSAGE};

verus! {

/// `indicatif::ProgressBar`, carried as an opaque value.
#[verifier::external_type_specification]
#[verifier::external_body]
pub struct ExProgressBar(indicatif::ProgressBar);

/// The number of units that an indicator counts up to, as
/// `indicatif::ProgressBar::length` gives it: `None` for a spinner.
pub uninterp spec fn bar_length(bar: indicatif::ProgressBar) -> Option<u64>;

/// The number of units that an indicator has counted, as
/// `indicatif::ProgressBar::position` gives it.
pub uninterp spec fn bar_position(bar: indicatif::ProgressBar) -> u64;

/// The message that an indicator was last given. It is drawn, and handed
/// out by `indicatif::ProgressBar::message`, with each tab widened to
/// spaces.
pub uninterp spec fn bar_message(bar: indicatif::ProgressBar) -> Seq<char>;

/// Whether an indicator has been finished, as
/// `indicatif::ProgressBar::is_finished` gives it.
pub uninterp spec fn bar_finished(bar: indicatif::ProgressBar) -> bool;

/// The time between two redraws that an indicator makes by itself, in
/// milliseconds: `None` where it has no steady tick and is redrawn only
/// when it is moved.
pub uninterp spec fn bar_tick_millis(bar: indicatif::ProgressBar) -> Option<u64>;

/// Time between two redraws of the spinner, in milliseconds.
pub const SPINNER_TICK_MILLIS: u64 = 100;

/// How the bar is laid out: the estimated time left, the bar itself, forty
/// cells wide, and the message.
pub const BAR_TEMPLATE: &'static str = "[{eta_precise}] {bar:40.cyan/blue} {msg}";

/// The cells of the bar: filled, current and empty.
pub const BAR_CELLS: &'static str = "##-";

/// `indicatif::ProgressBar::new_spinner`, then `with_message` and
/// `enable_steady_tick` on the new spinner.
///
/// Claimed of it: the spinner is made without a length, with its count at
/// zero and not finished, `with_message` stores the message, and
/// `enable_steady_tick` starts a tick of the interval given, or none where
/// the interval is zero, and touches nothing else.
#[verifier::external_body]
fn spinner(message: String, tick_millis: u64) -> (bar: indicatif::ProgressBar)
    ensures
        bar_length(bar) is None,
        bar_position(bar) == 0,
        bar_message(bar) == message@,
        !bar_finished(bar),
        bar_tick_millis(bar) == if tick_millis == 0 {
            None
        } else {
            Some(tick_millis)
        },
{
    let bar = indicatif::ProgressBar::new_spinner().with_message(message);
    bar.enable_steady_tick(std::time::Duration::from_millis(tick_millis));
    bar
}

/// `indicatif::ProgressBar::new`, then `with_message` and `with_style` on the
/// new bar, the style made by `indicatif::ProgressStyle::with_template` and
/// `progress_chars`. Both refuse some texts by a panic, so the wrapper is
/// for the one layout that the library draws.
///
/// Claimed of it: the bar is made with the length `size`, with its count at
/// zero, not finished and without a steady tick, `with_message` stores the
/// message, and the style touches none of these.
#[verifier::external_body]
fn styled_bar(
    size: u64,
    message: String,
    template: &str,
    cells: &str,
) -> (bar: indicatif::ProgressBar)
    requires
        template@ == BAR_TEMPLATE@,
        cells@ == BAR_CELLS@,
    ensures
        bar_length(bar) == Some(size),
        bar_position(bar) == 0,
        bar_message(bar) == message@,
        !bar_finished(bar),
        bar_tick_millis(bar) is None,
{
    let style = indicatif::ProgressStyle::with_template(template).unwrap().progress_chars(cells);
    indicatif::ProgressBar::new(size).with_message(message).with_style(style)
}

/// `indicatif::ProgressBar::inc`: moves the bar on by `delta` units.
///
/// The call redraws the bar on the caller's thread, and on a terminal one
/// column wide the drawing panics for a message that ends in a character
/// two columns wide. So the wrapper is for a bar that shows the message of
/// a running load, which is plain ASCII.
///
/// Claimed of it: the count grows by `delta`, starting again from zero
/// where it would pass the largest number, and nothing else changes.
#[verifier::external_body]
pub(crate) fn advance(bar: &mut indicatif::ProgressBar, delta: u64)
    requires
        bar_message(*old(bar)) == LOADING_MESSAGE@,
    ensures
        bar_position(*final(bar)) == (bar_position(*old(bar)) + delta) % 0x1_0000_0000_0000_0000,
        bar_length(*final(bar)) == bar_length(*old(bar)),
        bar_message(*final(bar)) == bar_message(*old(bar)),
        bar_finished(*final(bar)) == bar_finished(*old(bar)),
        bar_tick_millis(*final(bar)) == bar_tick_millis(*old(bar)),
{
    bar.inc(delta)
}

/// `indicatif::ProgressBar::finish_with_message`: ends the indicator and
/// leaves `message` on the screen.
///
/// The call redraws the bar on the caller's thread, as `inc` does, so the
/// wrapper is for the bar of a running load and for the message that closes
/// the load, both plain ASCII.
///
/// Claimed of it: the indicator is finished and holds the message given,
/// its length is as it was, and its count is set to its length where it has
/// one and is as it was where it has none. No steady tick is started.
#[verifier::external_body]
pub(crate) fn finish(bar: &mut indicatif::ProgressBar, message: String)
    requires
        bar_message(*old(bar)) == LOADING_MESSAGE@,
        message@ == LOADED_MESSAGE@,
    ensures
        bar_finished(*final(bar)),
        bar_message(*final(bar)) == message@,
        bar_length(*final(bar)) == bar_length(*old(bar)),
        bar_position(*final(bar)) == match bar_length(*old(bar)) {
            Some(length) => length,
            None => bar_position(*old(bar)),
        },
        bar_tick_millis(*old(bar)) is None ==> bar_tick_millis(*final(bar)) is None,
{
    bar.finish_with_message(message)
}

/// Starts a spinner that shows `message` and redraws itself on a steady
/// tick until it is finished or dropped. A spinner has no length: it shows
/// that work goes on, not how much of it is done.
pub fn create_spinner(message: String) -> (bar: indicatif::ProgressBar)
    ensures
        bar_length(bar) is None,
        bar_position(bar) == 0,
        bar_message(bar) == message@,
        !bar_finished(bar),
        bar_tick_millis(bar) == Some(SPINNER_TICK_MILLIS),
{
    spinner(message, SPINNER_TICK_MILLIS)
}

/// Creates a progress bar of `size` units that shows `message` beside the
/// estimated time left. The new bar stands at zero and is redrawn when it
/// is moved, not by itself.
pub fn create_progress_bar(size: u64, message: String) -> (bar: indicatif::ProgressBar)
    ensures
        bar_length(bar) == Some(size),
        bar_position(bar) == 0,
        bar_message(bar) == message@,
        !bar_finished(bar),
        bar_tick_millis(bar) is None,
{
    styled_bar(size, message, BAR_TEMPLATE, BAR_CELLS)
}

} // verus!
