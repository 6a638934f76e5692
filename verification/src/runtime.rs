//! The runtime interface that generated state machines implement.
//!
//! The code generator emits, for every machine, marker types implementing
//! `State` and `Event`, a machine carrier implementing `SM`, one `Transition`
//! impl per declared edge, an `EntryPoint` impl per entry state, and
//! `ToEnum` / `ToMemEnum` impls converting a typed machine instance into the
//! machine's state enumeration.

use vstd::prelude::*;

verus! {

/// A marker capability for an event type.
pub trait Event {
}

/// A marker capability for a state type.
pub trait State {
}

/// A marker capability for a state machine carrier; `State` is the state the
/// machine is statically known to be in.
pub trait SM {
    type State;
}

/// A typed transition: consuming a machine instance at the origin state and
/// an event yields a machine instance at the destination state.
pub trait Transition<E: Event> {
    type SM: SM;

    fn t(self, e: E) -> Self::SM;
}

/// Conversion from a typed machine instance into the machine's state
/// enumeration, for payload-less states.
pub trait ToEnum {
    type Repr;

    fn to_enum(self) -> Self::Repr;
}

/// Conversion from a typed machine instance plus its payload values into the
/// machine's state enumeration, for states that carry a payload.
pub trait ToMemEnum {
    type Repr;
    type Mem;

    fn to_enum(self, mem: Self::Mem) -> Self::Repr;
}

/// A marker capability for a state the machine may be constructed in
/// directly, without a prior transition.
pub trait EntryPoint {
}

/// A constructor for a machine starting at entry state `S`.
pub trait Init<S: State + EntryPoint> {
    type SM: SM<State = S>;

    fn init() -> Self::SM;
}

} // verus!
