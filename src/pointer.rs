use vstd::prelude::*;
use crate::event::{Event, EventV, ObjectId, WlPointerId, WlSurfaceId};
use crate::wire::{Arg, ArgV, Fixed};

verus! {

pub const ENTER: u16 = 0;
pub const LEAVE: u16 = 1;
pub const MOTION: u16 = 2;
pub const BUTTON: u16 = 3;
pub const AXIS: u16 = 4;
pub const FRAME: u16 = 5;
pub const AXIS_SOURCE: u16 = 6;
pub const AXIS_STOP: u16 = 7;
pub const AXIS_DISCRETE: u16 = 8;

pub const RELEASED: u32 = 0;
pub const PRESSED: u32 = 1;

pub const VERTICAL_SCROLL: u32 = 0;
pub const HORIZONTAL_SCROLL: u32 = 1;

/// The pointer object of a seat, as one client sees it.
pub struct WlPointer {
    pub id: WlPointerId,
    /// The seat the pointer belongs to.
    pub seat: ObjectId,
}

/// The event with target `object`, `opcode` and fields `args`.
pub open spec fn event_of(object: ObjectId, opcode: u16, args: Seq<ArgV>) -> EventV {
    EventV { object: object.0, opcode, args }
}

impl WlPointer {
    pub fn new(id: WlPointerId, seat: ObjectId) -> (r: Self)
        ensures
            r.id == id,
            r.seat == seat,
    {
        WlPointer { id, seat }
    }

    /// The pointer entered `surface` at surface-local `(x, y)`.
    pub fn enter(&self, serial: u32, surface: WlSurfaceId, x: Fixed, y: Fixed) -> (r: Event)
        ensures
            r@ == event_of(
                self.id,
                ENTER,
                seq![ArgV::Uint(serial), ArgV::Object(surface.0), ArgV::Fixed(x.0), ArgV::Fixed(y.0)],
            ),
    {
        let args = vec![Arg::Uint(serial), Arg::Object(surface.0), Arg::Fixed(x), Arg::Fixed(y)];
        let r = Event { object: self.id, opcode: ENTER, args };
        proof {
            assert(r@.args =~= seq![ArgV::Uint(serial), ArgV::Object(surface.0), ArgV::Fixed(x.0), ArgV::Fixed(y.0)]);
        }
        r
    }

    /// The pointer left `surface`.
    pub fn leave(&self, serial: u32, surface: WlSurfaceId) -> (r: Event)
        ensures
            r@ == event_of(self.id, LEAVE, seq![ArgV::Uint(serial), ArgV::Object(surface.0)]),
    {
        let r = Event { object: self.id, opcode: LEAVE, args: vec![Arg::Uint(serial), Arg::Object(surface.0)] };
        proof {
            assert(r@.args =~= seq![ArgV::Uint(serial), ArgV::Object(surface.0)]);
        }
        r
    }

    /// The pointer moved to surface-local `(x, y)`.
    pub fn motion(&self, time: u32, x: Fixed, y: Fixed) -> (r: Event)
        ensures
            r@ == event_of(self.id, MOTION, seq![ArgV::Uint(time), ArgV::Fixed(x.0), ArgV::Fixed(y.0)]),
    {
        let r = Event { object: self.id, opcode: MOTION, args: vec![Arg::Uint(time), Arg::Fixed(x), Arg::Fixed(y)] };
        proof {
            assert(r@.args =~= seq![ArgV::Uint(time), ArgV::Fixed(x.0), ArgV::Fixed(y.0)]);
        }
        r
    }

    /// A button changed to `state` (`PRESSED` or `RELEASED`).
    pub fn button(&self, serial: u32, time: u32, button: u32, state: u32) -> (r: Event)
        ensures
            r@ == event_of(
                self.id,
                BUTTON,
                seq![ArgV::Uint(serial), ArgV::Uint(time), ArgV::Uint(button), ArgV::Uint(state)],
            ),
    {
        let r = Event {
            object: self.id,
            opcode: BUTTON,
            args: vec![Arg::Uint(serial), Arg::Uint(time), Arg::Uint(button), Arg::Uint(state)],
        };
        proof {
            assert(r@.args =~= seq![ArgV::Uint(serial), ArgV::Uint(time), ArgV::Uint(button), ArgV::Uint(state)]);
        }
        r
    }

    /// Scrolling by `value` along `axis`.
    pub fn axis(&self, time: u32, axis: u32, value: Fixed) -> (r: Event)
        ensures
            r@ == event_of(self.id, AXIS, seq![ArgV::Uint(time), ArgV::Uint(axis), ArgV::Fixed(value.0)]),
    {
        let r = Event { object: self.id, opcode: AXIS, args: vec![Arg::Uint(time), Arg::Uint(axis), Arg::Fixed(value)] };
        proof {
            assert(r@.args =~= seq![ArgV::Uint(time), ArgV::Uint(axis), ArgV::Fixed(value.0)]);
        }
        r
    }

    /// The end of a group of pointer events.
    pub fn frame(&self) -> (r: Event)
        ensures
            r@ == event_of(self.id, FRAME, seq![]),
    {
        let r = Event { object: self.id, opcode: FRAME, args: Vec::new() };
        proof {
            assert(r@.args =~= Seq::<ArgV>::empty());
        }
        r
    }

    /// The source of the following axis events.
    pub fn axis_source(&self, axis_source: u32) -> (r: Event)
        ensures
            r@ == event_of(self.id, AXIS_SOURCE, seq![ArgV::Uint(axis_source)]),
    {
        let r = Event { object: self.id, opcode: AXIS_SOURCE, args: vec![Arg::Uint(axis_source)] };
        proof {
            assert(r@.args =~= seq![ArgV::Uint(axis_source)]);
        }
        r
    }

    /// Scrolling along `axis` stopped.
    pub fn axis_stop(&self, time: u32, axis: u32) -> (r: Event)
        ensures
            r@ == event_of(self.id, AXIS_STOP, seq![ArgV::Uint(time), ArgV::Uint(axis)]),
    {
        let r = Event { object: self.id, opcode: AXIS_STOP, args: vec![Arg::Uint(time), Arg::Uint(axis)] };
        proof {
            assert(r@.args =~= seq![ArgV::Uint(time), ArgV::Uint(axis)]);
        }
        r
    }

    /// Scrolling along `axis` by `discrete` steps.
    pub fn axis_discrete(&self, axis: u32, discrete: i32) -> (r: Event)
        ensures
            r@ == event_of(self.id, AXIS_DISCRETE, seq![ArgV::Uint(axis), ArgV::Int(discrete)]),
    {
        let r = Event { object: self.id, opcode: AXIS_DISCRETE, args: vec![Arg::Uint(axis), Arg::Int(discrete)] };
        proof {
            assert(r@.args =~= seq![ArgV::Uint(axis), ArgV::Int(discrete)]);
        }
        r
    }
}

} // verus!
