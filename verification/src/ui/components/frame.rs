use vstd::prelude::*;
use vstd::string::*;

use crate::app::View as Screen;
use crate::config::{APP_NAME, APP_VERSION};
use crate::models::mode::Mode;

verus! {

/// The line under the screen for each mode.
pub open spec fn footer_line(mode: Mode) -> &'static str {
    match mode {
        Mode::Offline => " OFFLINE | Virtual chips | Local saves | Sandbox ",
        Mode::Online => " ONLINE | Placeholder | Server-authoritative later ",
    }
}

pub fn footer_text(mode: Mode) -> (t: &'static str)
    ensures
        t == footer_line(mode),
{
    match mode {
        Mode::Offline => " OFFLINE | Virtual chips | Local saves | Sandbox ",
        Mode::Online => " ONLINE | Placeholder | Server-authoritative later ",
    }
}

/// The mode as the header names it.
pub open spec fn mode_tag(mode: Mode) -> &'static str {
    match mode {
        Mode::Offline => "OFFLINE",
        Mode::Online => "ONLINE",
    }
}

/// The header's title: the casino's name, its version and the mode.
pub open spec fn header_line(mode: Mode) -> Seq<char> {
    " "@ + APP_NAME@ + "  v"@ + APP_VERSION@ + "  ["@ + mode_tag(mode)@ + "] "@
}

pub fn header_title(mode: Mode) -> (t: String)
    ensures
        t@ == header_line(mode),
{
    let mut t = String::from_str(" ");
    t.append(APP_NAME);
    t.append("  v");
    t.append(APP_VERSION);
    t.append("  [");
    t.append(match mode {
        Mode::Offline => "OFFLINE",
        Mode::Online => "ONLINE",
    });
    t.append("] ");
    t
}

/// The header tab of each screen, in the order dashboard, blackjack,
/// slots, online.
pub open spec fn tab_of(view: Screen) -> usize {
    match view {
        Screen::Dashboard => 0,
        Screen::Blackjack => 1,
        Screen::Slots => 2,
        Screen::Online => 3,
    }
}

pub fn tab_index(view: Screen) -> (i: usize)
    ensures
        i == tab_of(view),
{
    match view {
        Screen::Dashboard => 0,
        Screen::Blackjack => 1,
        Screen::Slots => 2,
        Screen::Online => 3,
    }
}

/// Where the feed panel starts: it shows the last four lines.
pub fn feed_start(len: usize) -> (i: usize)
    ensures
        i == if len > 4 { len - 4 } else { 0 },
{
    if len > 4 {
        len - 4
    } else {
        0
    }
}

} // verus!
