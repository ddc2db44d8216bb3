//! What the library takes from the host runtime's crates as it stands:
//! plain data with public fields, and the few methods that only compute.
//!
//! The types are declared with their fields, which Verus reads from the
//! crates themselves. The contracts of the three methods are taken from the
//! crates' source and believed, not proved.

use turbo_genesis_abi::{TurboButton, TurboGamepad, TurboMouse};
use turbo_genesis_sdk::os::server::channel::{ChannelError, ChannelMessage, ChannelSettings};
use vstd::prelude::*;

verus! {

/// `turbo_genesis_sdk::os::server::channel::ChannelSettings`, with its one
/// public field: the interval that a channel asks for, if any.
#[verifier::external_type_specification]
pub struct ExChannelSettings(ChannelSettings);

/// `turbo_genesis_sdk::os::server::channel::ChannelMessage`: what a channel
/// receives, each with the caller it is about and a payload.
#[verifier::external_type_specification]
pub struct ExChannelMessage(ChannelMessage);

/// `turbo_genesis_sdk::os::server::channel::ChannelError`: why a channel
/// received nothing.
#[verifier::external_type_specification]
pub struct ExChannelError(ChannelError);

/// `turbo_genesis_abi::TurboButton`: the four states of a button.
#[verifier::external_type_specification]
pub struct ExTurboButton(TurboButton);

/// `turbo_genesis_abi::TurboGamepad`: one button state for each button.
#[verifier::external_type_specification]
pub struct ExTurboGamepad(TurboGamepad);

/// `turbo_genesis_abi::TurboMouse`: the two buttons, the position and the
/// scroll deltas.
#[verifier::external_type_specification]
pub struct ExTurboMouse(TurboMouse);

/// `ChannelSettings::set_interval` stores its argument as the interval.
pub assume_specification[ ChannelSettings::set_interval ](
    settings: &mut ChannelSettings,
    ms: u32,
)
    ensures
        final(settings).interval == Some(ms),
;

/// `TurboButton::just_pressed` tells the state `JustPressed` from the others.
pub assume_specification[ TurboButton::just_pressed ](button: &TurboButton) -> (yes: bool)
    ensures
        yes == (*button == TurboButton::JustPressed),
;

/// `TurboMouse::pressed` holds when either button is down: in the state
/// `JustPressed` or `Pressed`.
pub assume_specification[ TurboMouse::pressed ](mouse: &TurboMouse) -> (yes: bool)
    ensures
        yes == (button_down(mouse.left) || button_down(mouse.right)),
;

/// A button that is held down, whether since this frame or longer.
pub open spec fn button_down(button: TurboButton) -> bool {
    button == TurboButton::JustPressed || button == TurboButton::Pressed
}

} // verus!
