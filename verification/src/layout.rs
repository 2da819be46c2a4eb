//! What the screen shows, as plain values for a renderer: the help line,
//! the list's labels and the place of the cursor.

use crate::app::{InputMode, UIApp};
use crate::projects::{entries, Entry, Project};
use crate::text::{display_width, width_of};
use vstd::prelude::*;
use vstd::string::StringExecFns;

verus! {

/// The help line of a mode: its pieces in order, each with whether it is
/// set in bold.
pub open spec fn help_spans(mode: InputMode) -> Seq<(Seq<char>, bool)> {
    match mode {
        InputMode::Normal => seq![
            ("Press "@, false),
            ("ESC"@, true),
            (" to exit, "@, false),
            ("i"@, true),
            (" to navigate to project."@, false),
        ],
        InputMode::Editing => seq![
            ("Press "@, false),
            ("Esc"@, true),
            (" to stop editing, "@, false),
            ("Enter"@, true),
            (" to record the message"@, false),
        ],
    }
}

/// The line of the list for `entry`; the selection, which comes first, is
/// starred.
pub open spec fn label(entry: Entry, selected: bool) -> Seq<char> {
    (if selected {
        "[ * ] "@
    } else {
        "[ ] "@
    }) + entry.title + " - "@ + entry.path
}

/// The lines of the list for `shown`.
pub open spec fn labels(shown: Seq<Entry>) -> Seq<Seq<char>> {
    Seq::new(shown.len(), |i: int| label(shown[i], i == 0))
}

/// Where the cursor goes for an input box whose corner is at column `x`,
/// row `y`, behind a text `columns` wide: one past the text, one row down.
/// `None` where that place is off any screen.
pub open spec fn cursor_spot(x: u16, y: u16, columns: nat) -> Option<(u16, u16)> {
    if x + columns + 1 <= u16::MAX && y + 1 <= u16::MAX {
        Some(((x + columns + 1) as u16, (y + 1) as u16))
    } else {
        None
    }
}

/// The help line for `mode`.
pub fn help_message(mode: InputMode) -> (spans: Vec<(String, bool)>)
    ensures
        spans.deep_view() == help_spans(mode),
{
    let mut spans: Vec<(String, bool)> = Vec::new();
    match mode {
        InputMode::Normal => {
            spans.push((String::from_str("Press "), false));
            spans.push((String::from_str("ESC"), true));
            spans.push((String::from_str(" to exit, "), false));
            spans.push((String::from_str("i"), true));
            spans.push((String::from_str(" to navigate to project."), false));
        },
        InputMode::Editing => {
            spans.push((String::from_str("Press "), false));
            spans.push((String::from_str("Esc"), true));
            spans.push((String::from_str(" to stop editing, "), false));
            spans.push((String::from_str("Enter"), true));
            spans.push((String::from_str(" to record the message"), false));
        },
    }
    assert(spans.deep_view() =~= help_spans(mode));
    spans
}

/// The lines of the list for the projects shown.
pub fn project_labels(shown: &Vec<Project>) -> (lines: Vec<String>)
    ensures
        lines.deep_view() == labels(entries(shown@)),
{
    let ghost all = entries(shown@);
    let mut lines: Vec<String> = Vec::new();
    let mut i: usize = 0;
    while i < shown.len()
        invariant
            i <= shown.len(),
            all == entries(shown@),
            lines.len() == i,
            forall|j: int| 0 <= j < i ==> (#[trigger] lines[j])@ == label(all[j], j == 0),
        decreases shown.len() - i,
    {
        let mut line = if i == 0 {
            String::from_str("[ * ] ")
        } else {
            String::from_str("[ ] ")
        };
        line.append(shown[i].title.as_str());
        line.append(" - ");
        line.append(shown[i].path.as_str());
        proof {
            assert(all[i as int] == shown[i as int]@);
        }
        lines.push(line);
        i += 1;
    }
    assert(lines.deep_view() =~= labels(all));
    lines
}

/// Where the cursor goes behind a text `columns` wide.
pub fn cursor_at(x: u16, y: u16, columns: usize) -> (spot: Option<(u16, u16)>)
    ensures
        spot == cursor_spot(x, y, columns as nat),
{
    if y == u16::MAX {
        return None;
    }
    let room: u16 = u16::MAX - x;
    if room == 0 || columns > (room - 1) as usize {
        return None;
    }
    Some((x + (columns as u16) + 1, y + 1))
}

/// Where the cursor goes on the screen of `app`: behind the input while
/// editing, nowhere in normal mode.
pub fn cursor_position(app: &UIApp, x: u16, y: u16) -> (spot: Option<(u16, u16)>)
    ensures
        spot == match app@.mode {
            InputMode::Editing => cursor_spot(x, y, display_width(app@.input)),
            InputMode::Normal => None,
        },
{
    match app.input_mode() {
        InputMode::Editing => cursor_at(x, y, width_of(app.input())),
        InputMode::Normal => None,
    }
}

} // verus!
