//! The pen: each actor's drawing state and the shared log of line segments
//! that the renderer draws.

use vstd::prelude::*;

verus! {

/// A completed line segment, with coordinates held as IEEE-754 bit patterns.
#[derive(Debug, Clone, Copy, PartialEq, Eq, Structural)]
pub struct PenInstruction {
    pub size: u32,
    pub r: u8,
    pub g: u8,
    pub b: u8,
    pub a: u8,
    pub x1: u64,
    pub y1: u64,
    pub x2: u64,
    pub y2: u64,
}

/// An actor's pen: whether it is down, its width and colour, and the last
/// position drawn from, as IEEE-754 bit patterns.
#[derive(Debug, Clone, Copy, PartialEq, Eq, Structural)]
pub struct PenState {
    pub is_down: bool,
    pub size: u32,
    pub r: u8,
    pub g: u8,
    pub b: u8,
    pub a: u8,
    pub x: u64,
    pub y: u64,
}

impl PenState {
    /// The segment from the last position to `(x, y)`, in the pen's width
    /// and colour.
    pub open spec fn segment_to(self, x: u64, y: u64) -> PenInstruction {
        PenInstruction {
            size: self.size,
            r: self.r,
            g: self.g,
            b: self.b,
            a: self.a,
            x1: self.x,
            y1: self.y,
            x2: x,
            y2: y,
        }
    }

    /// The pen put down at `(x, y)`.
    pub open spec fn put_down(self, x: u64, y: u64) -> PenState {
        PenState { is_down: true, x, y, ..self }
    }

    /// The log after the actor moved to `(x, y)`: one more segment where the
    /// pen is down.
    pub open spec fn log_after_move(self, log: Seq<PenInstruction>, x: u64, y: u64) -> Seq<
        PenInstruction,
    > {
        if self.is_down {
            log.push(self.segment_to(x, y))
        } else {
            log
        }
    }

    /// The pen after the actor moved to `(x, y)`: a pen that is down draws
    /// from there next.
    pub open spec fn after_move(self, x: u64, y: u64) -> PenState {
        if self.is_down {
            PenState { x, y, ..self }
        } else {
            self
        }
    }

    /// Whether lifting the pen at `(x, y)` leaves a segment to draw: the pen
    /// is down and the actor stands elsewhere than the last position.
    pub open spec fn pending_at(self, x: u64, y: u64) -> bool {
        self.is_down && (x != self.x || y != self.y)
    }

    /// The log after the pen is lifted at `(x, y)`.
    pub open spec fn log_after_up(self, log: Seq<PenInstruction>, x: u64, y: u64) -> Seq<
        PenInstruction,
    > {
        if self.pending_at(x, y) {
            log.push(self.segment_to(x, y))
        } else {
            log
        }
    }

    /// The pen after it is lifted at `(x, y)`.
    pub open spec fn after_up(self, x: u64, y: u64) -> PenState {
        if self.pending_at(x, y) {
            PenState { is_down: false, x, y, ..self }
        } else {
            PenState { is_down: false, ..self }
        }
    }

    /// A pen that is up, one unit wide, in the default colour, at `(x, y)`.
    pub fn new(x: u64, y: u64) -> (r: PenState)
        ensures
            r == (PenState { is_down: false, size: 1, r: 0, g: 0, b: 255, a: 0, x, y }),
    {
        PenState { is_down: false, size: 1, r: 0, g: 0, b: 255, a: 0, x, y }
    }

    /// Puts the pen down where the actor stands.
    pub fn pen_down(&mut self, x: u64, y: u64)
        ensures
            *final(self) == old(self).put_down(x, y),
    {
        self.is_down = true;
        self.x = x;
        self.y = y;
    }

    /// Records a move of the actor to `(x, y)`.
    pub fn move_to(&mut self, log: &mut Vec<PenInstruction>, x: u64, y: u64)
        ensures
            *final(self) == old(self).after_move(x, y),
            final(log)@ == old(self).log_after_move(old(log)@, x, y),
    {
        if self.is_down {
            log.push(self.segment(x, y));
            self.x = x;
            self.y = y;
        }
    }

    /// Lifts the pen where the actor stands, drawing what is left of the
    /// travelled segment.
    pub fn pen_up(&mut self, log: &mut Vec<PenInstruction>, x: u64, y: u64)
        ensures
            *final(self) == old(self).after_up(x, y),
            final(log)@ == old(self).log_after_up(old(log)@, x, y),
    {
        if self.is_down && (x != self.x || y != self.y) {
            log.push(self.segment(x, y));
            self.x = x;
            self.y = y;
        }
        self.is_down = false;
    }

    /// Sets the pen's width.
    pub fn set_size(&mut self, size: u32)
        ensures
            *final(self) == (PenState { size, ..*old(self) }),
    {
        self.size = size;
    }

    fn segment(&self, x: u64, y: u64) -> (r: PenInstruction)
        ensures
            r == self.segment_to(x, y),
    {
        PenInstruction {
            size: self.size,
            r: self.r,
            g: self.g,
            b: self.b,
            a: self.a,
            x1: self.x,
            y1: self.y,
            x2: x,
            y2: y,
        }
    }
}

/// Empties the log.
pub fn pen_clear(log: &mut Vec<PenInstruction>)
    ensures
        final(log)@.len() == 0,
{
    log.clear();
}

/// Putting the pen down, moving, and lifting it where the move ended draws
/// exactly one segment, from the start to the end of the move; a move made
/// while the pen is up draws nothing.
pub proof fn pen_draws_one_segment(
    pen: PenState,
    log: Seq<PenInstruction>,
    x0: u64,
    y0: u64,
    x1: u64,
    y1: u64,
    x2: u64,
    y2: u64,
)
    ensures
        ({
            let down = pen.put_down(x0, y0);
            let moved = down.after_move(x1, y1);
            let drawn = moved.log_after_up(down.log_after_move(log, x1, y1), x1, y1);
            &&& drawn == log.push(
                PenInstruction {
                    size: pen.size,
                    r: pen.r,
                    g: pen.g,
                    b: pen.b,
                    a: pen.a,
                    x1: x0,
                    y1: y0,
                    x2: x1,
                    y2: y1,
                },
            )
            &&& moved.after_up(x1, y1).log_after_move(drawn, x2, y2) == drawn
        }),
{
}

} // verus!
