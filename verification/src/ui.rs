//! What the overlays hand back, and their errors.

use crate::text::join2;
use crate::types::{CanvasConfig, CaptureTarget, Rect};
use vstd::prelude::*;

verus! {

/// What the overlay picker returns.
#[derive(Debug, Clone, Copy, PartialEq, Eq, Structural)]
pub enum PickerSelection {
    Screen(u32),
    Window(i64),
    Region { screen: u32, rect: Rect },
}

impl From<PickerSelection> for CaptureTarget {
    fn from(s: PickerSelection) -> (r: Self) {
        match s {
            PickerSelection::Screen(id) => CaptureTarget::Screen(id),
            PickerSelection::Window(id) => CaptureTarget::Window(id),
            PickerSelection::Region { screen, rect } => CaptureTarget::Region { screen, rect },
        }
    }
}

impl vstd::std_specs::convert::FromSpecImpl<PickerSelection> for CaptureTarget {
    open spec fn obeys_from_spec() -> bool {
        true
    }

    open spec fn from_spec(s: PickerSelection) -> CaptureTarget {
        match s {
            PickerSelection::Screen(id) => CaptureTarget::Screen(id),
            PickerSelection::Window(id) => CaptureTarget::Window(id),
            PickerSelection::Region { screen, rect } => CaptureTarget::Region { screen, rect },
        }
    }
}

/// What can go wrong with a window.
#[derive(Debug, Clone, PartialEq, Eq)]
pub enum UiError {
    NotImplemented(String),
    Backend(String),
}

impl UiError {
    /// The text of the error.
    pub open spec fn text(self) -> Seq<char> {
        match self {
            UiError::NotImplemented(m) => "not implemented: "@ + m@,
            UiError::Backend(m) => "windowing backend failed: "@ + m@,
        }
    }

    /// The text of the error, for the user.
    pub fn message(&self) -> (s: String)
        ensures
            s@ == self.text(),
    {
        match self {
            UiError::NotImplemented(m) => join2("not implemented: ", m.as_str()),
            UiError::Backend(m) => join2("windowing backend failed: ", m.as_str()),
        }
    }
}

/// The entry point of an overlay that does not exist: it always says so, so that
/// no window without a function is shipped by accident.
pub fn run_overlay_stub(_canvas: CanvasConfig) -> (r: Result<(), UiError>)
    ensures
        r matches Err(UiError::NotImplemented(m)) && m@
            == "overlay arrives in Phase 2 (winit+egui)"@,
{
    Err(UiError::NotImplemented("overlay arrives in Phase 2 (winit+egui)".to_owned()))
}

/// The edge of the program's icon, in pixels.
pub const ICON_EDGE: u32 = 128;

/// The icon of the windows: its width, height and RGBA bytes. An icon that is not
/// as large as it should be gives way to one transparent pixel.
pub fn app_icon(bytes: &[u8]) -> (r: (u32, u32, Vec<u8>))
    ensures
        if bytes@.len() == ICON_EDGE * ICON_EDGE * 4 {
            r.0 == ICON_EDGE && r.1 == ICON_EDGE && r.2@ == bytes@
        } else {
            r.0 == 1 && r.1 == 1 && r.2@ == seq![0u8, 0u8, 0u8, 0u8]
        },
{
    if bytes.len() == 65536 {
        let mut icon: Vec<u8> = Vec::new();
        icon.extend_from_slice(bytes);
        assert(icon@ =~= bytes@);
        (ICON_EDGE, ICON_EDGE, icon)
    } else {
        let blank: Vec<u8> = vec![0, 0, 0, 0];
        (1, 1, blank)
    }
}

// ---------------------------------------------------------------------------
// What holds on every input
// ---------------------------------------------------------------------------

/// What was picked is captured: the same screen, window or region.
pub proof fn law_picked_is_captured(id: u32, window: i64, screen: u32, rect: Rect)
    ensures
        <CaptureTarget as vstd::std_specs::convert::FromSpec<PickerSelection>>::from_spec(
            PickerSelection::Screen(id),
        ) == CaptureTarget::Screen(id),
        <CaptureTarget as vstd::std_specs::convert::FromSpec<PickerSelection>>::from_spec(
            PickerSelection::Window(window),
        ) == CaptureTarget::Window(window),
        <CaptureTarget as vstd::std_specs::convert::FromSpec<PickerSelection>>::from_spec(
            PickerSelection::Region { screen, rect },
        ) == (CaptureTarget::Region { screen, rect }),
{
}

/// What the errors of the windows say.
pub proof fn law_window_errors(e: UiError)
    ensures
        e matches UiError::NotImplemented(m) ==> e.text() == "not implemented: "@ + m@,
        e matches UiError::Backend(m) ==> e.text() == "windowing backend failed: "@ + m@,
{
}

/// The icon is a square of 128 pixels.
pub proof fn law_icon_size()
    ensures
        ICON_EDGE * ICON_EDGE * 4 == 65_536,
{
}

} // verus!
