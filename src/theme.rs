use vstd::prelude::*;

use crate::mode::Mode;

verus! {

#[derive(Debug, Clone, Copy, Default, PartialEq, Eq, Structural)]
pub enum ThemedButton {
    #[default]
    Default,
    /// The search bar, marked active while a search is being typed.
    Search(bool),
}

#[derive(Debug, Clone, Copy, Default, PartialEq, Eq, Structural)]
pub enum ThemedText {
    #[default]
    Default,
    Hovered,
    Selected,
}

/// The style of the row at visible index `idx`: the hovered row stands out
/// first, then selected rows.
pub fn row_style(idx: usize, hovered: usize, selected: bool) -> (r: ThemedText)
    ensures
        idx == hovered ==> r == ThemedText::Hovered,
        idx != hovered && selected ==> r == ThemedText::Selected,
        idx != hovered && !selected ==> r == ThemedText::Default,
{
    if idx == hovered {
        ThemedText::Hovered
    } else if selected {
        ThemedText::Selected
    } else {
        ThemedText::Default
    }
}

/// The style of the search bar in `mode`.
pub fn search_style(mode: Mode) -> (r: ThemedButton)
    ensures
        r == ThemedButton::Search(mode is Search),
{
    match mode {
        Mode::Search(_) => ThemedButton::Search(true),
        Mode::Normal => ThemedButton::Search(false),
    }
}

} // verus!
