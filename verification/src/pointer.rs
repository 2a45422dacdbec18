//! The pointer as the solver sees it: a position on the grid, the movement
//! since the last step and whether it is pressed.
//!
//! The window layer reports what happened as events; the tracker folds them
//! into the state that the next step consumes.

use vstd::prelude::*;
use crate::fixed::Fx;
use crate::grid::MAX_SIDE;
use crate::params::{TickParams, Vec2};

verus! {

/// What the window layer can report about the pointer.
#[derive(Clone, Copy, Debug)]
pub enum PointerEvent {
    /// The button went down.
    Pressed,
    /// The button went up.
    Released,
    /// The cursor moved to a position on the grid.
    Moved(Vec2),
    /// A finger touched the surface at a position on the grid.
    TouchStarted(Vec2),
    /// The finger moved to a position on the grid.
    TouchMoved(Vec2),
    /// The finger was lifted, or the touch was cancelled.
    TouchEnded,
    /// A time step has consumed the movement.
    StepDone,
}

/// The state of the pointer between events.
#[derive(Clone, Copy, Debug)]
pub struct Pointer {
    /// Whether the pointer is pressed.
    pub down: bool,
    /// The last reported position.
    pub pos: Vec2,
    /// The movement that the next step will consume.
    pub delta: Vec2,
    /// The position that the next movement is measured from, if there is one.
    pub anchor: Option<Vec2>,
}

/// A position in window coordinates brought to grid coordinates along one
/// axis: the coordinate times the grid side over the window extent, where an
/// extent of zero counts as one.
pub open spec fn grid_coord(coord: Fx, extent: u32, grid_size: usize) -> Fx {
    let pixels: int = if extent == 0 {
        1
    } else {
        extent as int
    };
    coord.times(Fx::spec_from_int(grid_size as int)).over(Fx::spec_from_int(pixels))
}

/// Brings a window coordinate to grid coordinates along one axis.
pub fn to_grid(coord: Fx, extent: u32, grid_size: usize) -> (r: Fx)
    requires
        grid_size <= MAX_SIDE,
    ensures
        r == grid_coord(coord, extent, grid_size),
{
    let pixels: i64 = if extent == 0 {
        1
    } else {
        extent as i64
    };
    let divisor: Fx = Fx::from_int(pixels);
    coord.times(Fx::from_int(grid_size as i64)).over(divisor)
}

/// The movement from one position to another.
pub open spec fn movement(from: Vec2, to: Vec2) -> Vec2 {
    Vec2 { x: to.x.minus(from.x), y: to.y.minus(from.y) }
}

impl Pointer {
    /// The state after an event.
    ///
    /// Pressing sets the flag. Releasing, by button or by finger, clears the
    /// flag, the movement and the anchor. A move records the position,
    /// measures the movement from the anchor where there is one, and makes
    /// the position the new anchor. A touch that starts presses the pointer
    /// at its position and anchors there. A finished step clears the
    /// movement.
    pub open spec fn after(self, event: PointerEvent) -> Pointer {
        let still = Vec2 { x: Fx::zero(), y: Fx::zero() };
        match event {
            PointerEvent::Pressed => Pointer { down: true, ..self },
            PointerEvent::Released | PointerEvent::TouchEnded => Pointer {
                down: false,
                delta: still,
                anchor: None,
                ..self
            },
            PointerEvent::Moved(to) | PointerEvent::TouchMoved(to) => Pointer {
                pos: to,
                delta: match self.anchor {
                    Some(from) => movement(from, to),
                    None => self.delta,
                },
                anchor: Some(to),
                ..self
            },
            PointerEvent::TouchStarted(at) => Pointer {
                down: true,
                pos: at,
                anchor: Some(at),
                ..self
            },
            PointerEvent::StepDone => Pointer { delta: still, ..self },
        }
    }

    /// A released pointer at rest at `pos`.
    pub fn new(pos: Vec2) -> (r: Pointer)
        ensures
            r == (Pointer {
                down: false,
                pos,
                delta: Vec2 { x: Fx::zero(), y: Fx::zero() },
                anchor: None,
            }),
    {
        Pointer { down: false, pos, delta: Vec2 { x: Fx::zero(), y: Fx::zero() }, anchor: None }
    }

    /// Takes one event in.
    pub fn handle(&mut self, event: PointerEvent)
        ensures
            *final(self) == old(self).after(event),
    {
        match event {
            PointerEvent::Pressed => {
                self.down = true;
            },
            PointerEvent::Released | PointerEvent::TouchEnded => {
                self.down = false;
                self.delta = Vec2 { x: Fx::zero(), y: Fx::zero() };
                self.anchor = None;
            },
            PointerEvent::Moved(to) | PointerEvent::TouchMoved(to) => {
                match self.anchor {
                    Some(from) => {
                        self.delta = Vec2 { x: to.x.minus(from.x), y: to.y.minus(from.y) };
                    },
                    None => {},
                }
                self.pos = to;
                self.anchor = Some(to);
            },
            PointerEvent::TouchStarted(at) => {
                self.down = true;
                self.pos = at;
                self.anchor = Some(at);
            },
            PointerEvent::StepDone => {
                self.delta = Vec2 { x: Fx::zero(), y: Fx::zero() };
            },
        }
    }

    /// The parameters of the next step: `base` with the pointer's state put
    /// in.
    pub fn params(&self, base: TickParams) -> (r: TickParams)
        ensures
            r == (TickParams {
                pointer_active: self.down,
                pointer_pos: self.pos,
                pointer_delta: self.delta,
                ..base
            }),
            base.wf() ==> r.wf(),
    {
        base.with_pointer(self.down, self.pos, self.delta)
    }
}

} // verus!
