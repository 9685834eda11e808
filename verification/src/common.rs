//! The application's closed message vocabulary: raw input events and the
//! commands derived from them.  The message bus itself is payload-agnostic;
//! these are the payloads the scale application sends over it.

use vstd::prelude::*;

use crate::button::ButtonEvent;

verus! {

/// A debounced event from one of the two physical buttons.
#[derive(PartialEq, Eq, Structural, Debug)]
pub enum InputEvent {
    ButtonA(ButtonEvent),
    ButtonB(ButtonEvent),
}

/// Everything the application's tasks say to one another.
#[derive(PartialEq, Eq, Structural, Debug)]
pub enum AppMessage {
    InputEvent(InputEvent),
    Tare,
    Calibrate,
}

} // verus!
