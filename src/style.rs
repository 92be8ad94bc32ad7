//! The glyphs of the expand/collapse control.

use vstd::prelude::*;

verus! {

/// How the expand/collapse control of a collection is drawn.
#[derive(Debug, Clone, PartialEq, Eq)]
pub enum ExpandIconStyle {
    /// A right-pointing triangle when collapsed, a down-pointing one when expanded.
    Arrow,
    /// `+` when collapsed, `-` when expanded.
    PlusMinus,
    /// A right chevron when collapsed, a down chevron when expanded.
    ChevronRight,
    /// Text of the application's choosing for each state.
    Custom {
        /// Shown while the node is collapsed.
        collapsed: String,
        /// Shown while the node is expanded.
        expanded: String,
    },
}

impl ExpandIconStyle {
    /// The text shown for a collapsed node.
    pub fn collapsed_str(&self) -> (r: &str)
        ensures
            r@ == (match self {
                ExpandIconStyle::Arrow => "\u{25B6}"@,
                ExpandIconStyle::PlusMinus => "+"@,
                ExpandIconStyle::ChevronRight => "\u{203A}"@,
                ExpandIconStyle::Custom { collapsed, .. } => collapsed@,
            }),
    {
        match self {
            ExpandIconStyle::Arrow => "\u{25B6}",
            ExpandIconStyle::PlusMinus => "+",
            ExpandIconStyle::ChevronRight => "\u{203A}",
            ExpandIconStyle::Custom { collapsed, .. } => collapsed.as_str(),
        }
    }

    /// The text shown for an expanded node.
    pub fn expanded_str(&self) -> (r: &str)
        ensures
            r@ == (match self {
                ExpandIconStyle::Arrow => "\u{25BC}"@,
                ExpandIconStyle::PlusMinus => "-"@,
                ExpandIconStyle::ChevronRight => "\u{2304}"@,
                ExpandIconStyle::Custom { expanded, .. } => expanded@,
            }),
    {
        match self {
            ExpandIconStyle::Arrow => "\u{25BC}",
            ExpandIconStyle::PlusMinus => "-",
            ExpandIconStyle::ChevronRight => "\u{2304}",
            ExpandIconStyle::Custom { expanded, .. } => expanded.as_str(),
        }
    }
}

impl Default for ExpandIconStyle {
    fn default() -> (r: Self)
        ensures
            r == ExpandIconStyle::Arrow,
    {
        ExpandIconStyle::Arrow
    }
}

} // verus!
