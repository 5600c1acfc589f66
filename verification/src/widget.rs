//! How an activity presents itself to the shell: the name and metadata it is
//! created with, and how clicks change its mode.

use crate::identifier::{decimal, digit_char, lemma_index_text_round_trip, parse_index};
use vstd::prelude::*;
use vstd::string::StringExecFns;

verus! {

/// The key of the metadata entry that holds the slot number of an activity.
pub const INSTANCE_KEY: &'static str = "instance";

/// What the shell is told when an activity is created.
#[derive(Debug)]
pub struct ActivityDescription {
    /// The module that owns the activity.
    pub module: String,
    /// The name of the activity: its base name, a hyphen and its slot number.
    pub activity_name: String,
    /// The window that shows the activity.
    pub window_name: String,
    /// Further metadata: the slot number under [`INSTANCE_KEY`].
    pub additional_metadata: Vec<(String, String)>,
    /// The style class of the activity: its base name.
    pub css_class: String,
}

/// The display mode of an activity.
#[derive(Clone, Copy, Debug, PartialEq, Eq, Structural)]
pub enum ActivityMode {
    Minimal,
    Compact,
    Expanded,
    Overlay,
}

/// The mouse button of a click.
#[derive(Clone, Copy, Debug, PartialEq, Eq, Structural)]
pub enum MouseButton {
    Primary,
    Secondary,
}

/// The mode that a released click puts an activity in, `None` where the
/// click changes nothing: a secondary click inside a compact activity takes
/// it back to minimal. The step from minimal to compact is left to the
/// layout manager.
pub open spec fn click_transition(button: MouseButton, mode: ActivityMode, inside: bool) -> Option<
    ActivityMode,
> {
    if inside && button == MouseButton::Secondary && mode == ActivityMode::Compact {
        Some(ActivityMode::Minimal)
    } else {
        None
    }
}

/// The mode to set after a click was released over an activity in `mode`;
/// `inside` says whether the pointer was within the bounds of the activity.
pub fn mode_after_click(button: MouseButton, mode: ActivityMode, inside: bool) -> (res: Option<
    ActivityMode,
>)
    ensures
        res == click_transition(button, mode, inside),
{
    if !inside {
        return None;
    }
    match button {
        MouseButton::Primary => None,
        MouseButton::Secondary => match mode {
            ActivityMode::Compact => Some(ActivityMode::Minimal),
            _ => None,
        },
    }
}

/// The text of one decimal digit.
fn digit_text(d: usize) -> (res: &'static str)
    requires
        d < 10,
    ensures
        res@ == seq![digit_char(d as nat)],
{
    proof {
        reveal_strlit("0");
        reveal_strlit("1");
        reveal_strlit("2");
        reveal_strlit("3");
        reveal_strlit("4");
        reveal_strlit("5");
        reveal_strlit("6");
        reveal_strlit("7");
        reveal_strlit("8");
        reveal_strlit("9");
    }
    let res = match d {
        0 => "0",
        1 => "1",
        2 => "2",
        3 => "3",
        4 => "4",
        5 => "5",
        6 => "6",
        7 => "7",
        8 => "8",
        _ => "9",
    };
    assert(res@ =~= seq![digit_char(d as nat)]);
    res
}

/// A slot number in decimal digits.
pub fn index_text(idx: usize) -> (res: String)
    ensures
        res@ == decimal(idx as nat),
        parse_index(res@) == Some(idx),
    decreases idx,
{
    proof {
        lemma_index_text_round_trip(idx);
    }
    if idx < 10 {
        digit_text(idx).to_owned()
    } else {
        let mut text = index_text(idx / 10);
        text.append(digit_text(idx % 10));
        text
    }
}

/// Describes the activity of slot `idx` in `window`: it is named `name`, a
/// hyphen and the slot number, carries the slot number in its metadata and
/// `name` as its style class.
pub fn get_activity(module: &str, name: &str, window: &str, idx: usize) -> (res:
    ActivityDescription)
    ensures
        res.module@ == module@,
        res.activity_name@ == name@ + seq!['-'] + decimal(idx as nat),
        res.window_name@ == window@,
        res.additional_metadata@.len() == 1,
        res.additional_metadata@[0].0@ == INSTANCE_KEY@,
        res.additional_metadata@[0].1@ == decimal(idx as nat),
        parse_index(res.additional_metadata@[0].1@) == Some(idx),
        res.css_class@ == name@,
{
    proof {
        reveal_strlit("-");
    }
    let mut activity_name = name.to_owned();
    activity_name.append("-");
    assert("-"@ =~= seq!['-']);
    activity_name.append(index_text(idx).as_str());
    let mut additional_metadata: Vec<(String, String)> = Vec::new();
    additional_metadata.push((INSTANCE_KEY.to_owned(), index_text(idx)));
    ActivityDescription {
        module: module.to_owned(),
        activity_name,
        window_name: window.to_owned(),
        additional_metadata,
        css_class: name.to_owned(),
    }
}

} // verus!
