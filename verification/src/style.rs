//! The look of a token: which colour role it has and how strongly it is set.
//! A surface maps each role to a colour of its own.

use crate::stop_monitor::{ArrivalRecord, MonitoredVehicleJourney};
use crate::text::str_eq;
use vstd::prelude::*;

verus! {

/// The colour role of a token.
#[derive(Clone, Copy, Debug, PartialEq, Eq, Structural)]
pub enum Accent {
    /// The surface's ordinary text colour.
    Plain,
    /// A vehicle of a child line that is shown in its parent's row.
    Child,
    /// A vehicle of the very line that the row is labelled with.
    Parent,
    /// The label of the row that the configuration singles out.
    Highlight,
    /// A warning, such as missing or stale data.
    Alert,
}

/// How strongly a token is set.
#[derive(Clone, Copy, Debug, PartialEq, Eq, Structural)]
pub enum Emphasis {
    Regular,
    /// Bold on a terminal.
    Strong,
    /// Italic on a terminal: a prediction without live tracking.
    Weak,
}

/// Colour role and emphasis of a token.
#[derive(Clone, Copy, Debug, PartialEq, Eq, Structural)]
pub struct Style {
    pub accent: Accent,
    pub emphasis: Emphasis,
}

/// The style of a record's minutes in the row labelled `key`: the accent
/// tells a child line from the row's own, the emphasis tells whether the
/// vehicle is tracked live.
pub open spec fn journey_style(key: Seq<char>, record: ArrivalRecord) -> Style {
    Style {
        accent: if record.line_ref != key {
            Accent::Child
        } else {
            Accent::Parent
        },
        emphasis: if record.has_location {
            Emphasis::Strong
        } else {
            Emphasis::Weak
        },
    }
}

/// The style of a row's label: strong, and highlighted if `key` is the key
/// that the configuration singles out.
pub open spec fn label_style(key: Seq<char>, highlight: Option<Seq<char>>) -> Style {
    Style {
        accent: if highlight == Some(key) {
            Accent::Highlight
        } else {
            Accent::Plain
        },
        emphasis: Emphasis::Strong,
    }
}

/// Decides the style of every token of a row. It is configured with the one
/// display key, if any, whose label is highlighted.
#[derive(Debug)]
pub struct StyleResolver {
    pub highlight_key: Option<String>,
}

impl View for StyleResolver {
    type V = Option<Seq<char>>;

    open spec fn view(&self) -> Option<Seq<char>> {
        match self.highlight_key {
            Some(key) => Some(key@),
            None => None,
        }
    }
}

impl StyleResolver {
    /// A resolver that highlights the label of `highlight_key`.
    pub fn new(highlight_key: Option<String>) -> (r: Self)
        ensures
            r.highlight_key == highlight_key,
    {
        StyleResolver { highlight_key }
    }

    /// The style of the label of the row `key`.
    pub fn label_style(&self, key: &str) -> (style: Style)
        ensures
            style == label_style(key@, self@),
    {
        let highlighted = match &self.highlight_key {
            Some(chosen) => str_eq(chosen.as_str(), key),
            None => false,
        };
        Style {
            accent: if highlighted {
                Accent::Highlight
            } else {
                Accent::Plain
            },
            emphasis: Emphasis::Strong,
        }
    }

    /// The style of the minutes of `record` in the row `key`.
    pub fn journey_style(&self, key: &str, record: &MonitoredVehicleJourney) -> (style: Style)
        ensures
            style == journey_style(key@, record@),
    {
        let is_child = !str_eq(record.line_ref.as_str(), key);
        Style {
            accent: if is_child {
                Accent::Child
            } else {
                Accent::Parent
            },
            emphasis: if record.has_location() {
                Emphasis::Strong
            } else {
                Emphasis::Weak
            },
        }
    }
}

} // verus!
