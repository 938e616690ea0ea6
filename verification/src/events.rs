//! Classification of one event line from the compositor's event stream.
//!
//! A line is matched against a fixed set of literal prefixes, in a fixed
//! priority order; a line matching none of them, and a layout-change line
//! whose payload has no comma, is ignored.

use vstd::prelude::*;
use vstd::string::*;

use crate::text::{
    after_first_comma, is_prefix_of, split_after_comma, str_has_prefix, trim_spec, trim_str,
};

verus! {

/// Prefix of a focus-change line; the payload is the focused window id.
pub open spec fn focus_prefix() -> Seq<char> {
    "activewindowv2>>"@
}

/// Prefix of a layout-change line; the payload is `<device>,<layout name>`.
pub open spec fn layout_prefix() -> Seq<char> {
    "activelayout>>"@
}

/// Prefix of a window-close line; the payload is the closed window id.
pub open spec fn close_prefix() -> Seq<char> {
    "closewindow>>"@
}

/// Prefix of a launcher-overlay-open line; it carries no payload the
/// daemon reads.
pub open spec fn overlay_prefix() -> Seq<char> {
    "openlayer>>wofi"@
}

/// The mathematical form of a classified event line.
#[verifier::ext_equal]
pub enum EventModel {
    FocusChange(Seq<char>),
    LayoutChange(Seq<char>),
    WindowClose(Seq<char>),
    OverlayOpen,
    Ignored,
}

/// A classified event line, payload extracted.
pub enum Event {
    FocusChange { window_id: String },
    LayoutChange { layout_name: String },
    WindowClose { window_id: String },
    OverlayOpen,
    Ignored,
}

impl View for Event {
    type V = EventModel;

    open spec fn view(&self) -> EventModel {
        match self {
            Event::FocusChange { window_id } => EventModel::FocusChange(window_id@),
            Event::LayoutChange { layout_name } => EventModel::LayoutChange(layout_name@),
            Event::WindowClose { window_id } => EventModel::WindowClose(window_id@),
            Event::OverlayOpen => EventModel::OverlayOpen,
            Event::Ignored => EventModel::Ignored,
        }
    }
}

/// How one event line is read: the first matching prefix wins, the
/// payload after the prefix is trimmed, and a layout-change payload is
/// split at its first comma — a payload with no comma is ignored.
pub open spec fn parse_event_spec(line: Seq<char>) -> EventModel {
    if is_prefix_of(focus_prefix(), line) {
        EventModel::FocusChange(trim_spec(line.subrange(focus_prefix().len() as int, line.len() as int)))
    } else if is_prefix_of(layout_prefix(), line) {
        match after_first_comma(
            trim_spec(line.subrange(layout_prefix().len() as int, line.len() as int)),
        ) {
            Some(name) => EventModel::LayoutChange(name),
            None => EventModel::Ignored,
        }
    } else if is_prefix_of(close_prefix(), line) {
        EventModel::WindowClose(trim_spec(line.subrange(close_prefix().len() as int, line.len() as int)))
    } else if is_prefix_of(overlay_prefix(), line) {
        EventModel::OverlayOpen
    } else {
        EventModel::Ignored
    }
}

/// Classifies one event line exactly as `parse_event_spec` reads it.
pub fn parse_event(line: &str) -> (ev: Event)
    ensures
        ev@ == parse_event_spec(line@),
{
    let n: usize = line.unicode_len();
    if str_has_prefix(line, "activewindowv2>>") {
        let plen: usize = "activewindowv2>>".unicode_len();
        let window_id = trim_str(line.substring_char(plen, n));
        Event::FocusChange { window_id }
    } else if str_has_prefix(line, "activelayout>>") {
        let plen: usize = "activelayout>>".unicode_len();
        let payload = trim_str(line.substring_char(plen, n));
        match split_after_comma(payload.as_str()) {
            Some(layout_name) => Event::LayoutChange { layout_name },
            None => Event::Ignored,
        }
    } else if str_has_prefix(line, "closewindow>>") {
        let plen: usize = "closewindow>>".unicode_len();
        let window_id = trim_str(line.substring_char(plen, n));
        Event::WindowClose { window_id }
    } else if str_has_prefix(line, "openlayer>>wofi") {
        Event::OverlayOpen
    } else {
        Event::Ignored
    }
}

} // verus!
