//! Switching the inbound mode: what to change in the daemon's configuration
//! file, given what it holds.

use vstd::prelude::*;
use crate::cli::InboundMode;

verus! {

/// What the `tun` member of a configuration file is.
#[derive(Clone, Copy, Debug, PartialEq, Eq, Structural)]
pub struct TunSection {
    /// Whether it is a plain mapping, so that a key can be added to it.
    pub is_mapping: bool,
    /// Whether it has the key `enable`.
    pub has_enable: bool,
}

/// What a configuration file holds, as far as the inbound mode goes.
#[derive(Clone, Copy, Debug, PartialEq, Eq, Structural)]
pub struct TunProbe {
    /// Whether the document is a plain mapping, so that a key can be added to
    /// it.
    pub is_mapping: bool,
    /// The member `tun`, where the document has one.
    pub tun: Option<TunSection>,
}

/// One change to a configuration file.
#[derive(Clone, Copy, Debug, PartialEq, Eq, Structural)]
pub enum TunEdit {
    /// Set the `enable` that the `tun` member has.
    SetEnable(bool),
    /// Give the `tun` member an `enable` that is true.
    AddEnable,
    /// Give the document a `tun` member that is enabled and uses the
    /// system's network stack.
    AddSection,
    /// Leave the file as it is.
    Nothing,
}

/// The change that brings a configuration file to an inbound mode.
///
/// For the virtual interface, an `enable` that is there is set, one that is
/// missing is added, and a whole section is added where there is none; what
/// cannot take a key is left alone. For the proxy ports, an `enable` that is
/// there is cleared, and nothing else is touched.
pub open spec fn edit_for(mode: InboundMode, probe: TunProbe) -> TunEdit {
    match mode {
        InboundMode::Tun => match probe.tun {
            Some(section) => if section.has_enable {
                TunEdit::SetEnable(true)
            } else if section.is_mapping {
                TunEdit::AddEnable
            } else {
                TunEdit::Nothing
            },
            None => if probe.is_mapping {
                TunEdit::AddSection
            } else {
                TunEdit::Nothing
            },
        },
        InboundMode::Http => match probe.tun {
            Some(section) => if section.has_enable {
                TunEdit::SetEnable(false)
            } else {
                TunEdit::Nothing
            },
            None => TunEdit::Nothing,
        },
    }
}

/// The change that brings a configuration file to an inbound mode.
pub fn plan_inbound(mode: InboundMode, probe: TunProbe) -> (edit: TunEdit)
    ensures
        edit == edit_for(mode, probe),
{
    match mode {
        InboundMode::Tun => match probe.tun {
            Some(section) => {
                if section.has_enable {
                    TunEdit::SetEnable(true)
                } else if section.is_mapping {
                    TunEdit::AddEnable
                } else {
                    TunEdit::Nothing
                }
            },
            None => {
                if probe.is_mapping {
                    TunEdit::AddSection
                } else {
                    TunEdit::Nothing
                }
            },
        },
        InboundMode::Http => match probe.tun {
            Some(section) => {
                if section.has_enable {
                    TunEdit::SetEnable(false)
                } else {
                    TunEdit::Nothing
                }
            },
            None => TunEdit::Nothing,
        },
    }
}

/// The virtual interface is on after the change that switches it on has
/// been made, wherever the file can take the change; and a change for the
/// proxy ports never switches it on.
pub proof fn lemma_edit_matches_mode(probe: TunProbe)
    ensures
        edit_for(InboundMode::Http, probe) != TunEdit::SetEnable(true),
        edit_for(InboundMode::Http, probe) != TunEdit::AddEnable,
        edit_for(InboundMode::Http, probe) != TunEdit::AddSection,
        edit_for(InboundMode::Tun, probe) != TunEdit::SetEnable(false),
{
}

} // verus!
