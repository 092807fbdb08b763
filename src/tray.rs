//! Events of the tray menu. The tray itself lives outside.

use vstd::prelude::*;

verus! {

/// An entry of the tray menu was chosen.
#[derive(Debug, Clone, Copy, PartialEq, Eq, Structural)]
pub enum TrayMenuEvent {
    StartTranscription,
    StopTranscription,
    Settings,
    Quit,
}

} // verus!
