//! The map of the whole field: what a click on it asks for.

use vstd::prelude::*;

verus! {

/// Button of the pointer that made a click.
#[derive(Clone, Copy, Debug, PartialEq, Eq, Structural)]
pub enum Button {
    Primary,
    Secondary,
    Middle,
}

/// What a click on the map asks for.
#[derive(Clone, Copy, Debug, PartialEq, Eq, Structural)]
pub enum MapAction {
    /// Put the observer on the cell under the pointer.
    Select,
    /// Centre the view bounds on the point under the pointer.
    Pan,
    /// Centre the view bounds on the point under the pointer and narrow them.
    Zoom,
}

/// Reading of a click: the primary button selects, the secondary one pans, or
/// zooms while the modifier is held; any other button asks for nothing.
pub open spec fn click_action(button: Button, modifier: bool) -> Option<MapAction> {
    match button {
        Button::Primary => Some(MapAction::Select),
        Button::Secondary => if modifier {
            Some(MapAction::Zoom)
        } else {
            Some(MapAction::Pan)
        },
        Button::Middle => None,
    }
}

/// What a click on the map with `button` asks for, `modifier` telling whether the
/// modifier key was held.
pub fn on_click(button: Button, modifier: bool) -> (action: Option<MapAction>)
    ensures
        action == click_action(button, modifier),
        action == Some(MapAction::Select) <==> button == Button::Primary,
        action is None <==> button == Button::Middle,
        action == Some(MapAction::Zoom) <==> button == Button::Secondary && modifier,
{
    match button {
        Button::Primary => Some(MapAction::Select),
        Button::Secondary => {
            if modifier {
                Some(MapAction::Zoom)
            } else {
                Some(MapAction::Pan)
            }
        },
        Button::Middle => None,
    }
}

} // verus!
