//! An actor's mutable state and the statements that change it. The host
//! evaluates a statement's operands into an `Effect`; applying it here
//! changes the state, draws with the pen, and tells whether the statement
//! is a point where the screen refreshes.

use vstd::prelude::*;

use crate::block::{ListInput, VariableInput};
use crate::loader::RotationStyle;
use crate::pen::{pen_clear, PenState};
use crate::project::{add_to_list, delete_all_of_list, list_replaced, say_bubble, set_variable, SharedState};
use crate::value::Value;

verus! {

/// The mutable state of an actor. Position, size, direction and volume are
/// IEEE-754 bit patterns.
#[derive(Debug)]
pub struct TargetState {
    pub visible: bool,
    pub x: u64,
    pub y: u64,
    pub size: u64,
    pub direction: u64,
    pub draggable: bool,
    pub current_costume: usize,
    pub rotation_style: RotationStyle,
    pub volume: u64,
    pub variables: Vec<Value>,
    pub lists: Vec<Vec<Value>>,
    pub say: Option<String>,
    pub pen: PenState,
}

/// A statement with its operands evaluated.
#[derive(Debug)]
pub enum Effect {
    /// A statement that changes nothing, such as a hat.
    Nothing,
    /// Go to a position; the pen draws the way there.
    MoveTo { x: u64, y: u64 },
    /// Point in a direction already wrapped into (-180, 180]; `None` where
    /// the requested direction was not finite, which leaves it unchanged.
    PointIn(Option<u64>),
    Say(String),
    SetSize(u64),
    SetVariable(VariableInput, Value),
    DeleteAllOfList(ListInput),
    AddToList(ListInput, Value),
    PenClear,
    PenSize(u32),
    PenDown,
    PenUp,
}

/// Whether an effect's variable or list exists.
pub open spec fn effect_ok(shared: &SharedState, state: &TargetState, effect: Effect) -> bool {
    match effect {
        Effect::SetVariable(v, _) => shared.has_variable(state.variables@, v),
        Effect::DeleteAllOfList(l) => shared.has_list(state.lists@, l),
        Effect::AddToList(l, _) => shared.has_list(state.lists@, l),
        _ => true,
    }
}

/// Whether a statement with this effect is a point where the screen
/// refreshes: motion and looks statements are, data and pen statements are
/// not.
pub open spec fn yields(effect: Effect) -> bool {
    match effect {
        Effect::MoveTo { .. } | Effect::PointIn(_) | Effect::Say(_) | Effect::SetSize(_) => true,
        _ => false,
    }
}

/// The fields that no statement changes.
pub open spec fn same_settings(a: &TargetState, b: &TargetState) -> bool {
    &&& a.visible == b.visible
    &&& a.draggable == b.draggable
    &&& a.current_costume == b.current_costume
    &&& a.rotation_style == b.rotation_style
    &&& a.volume == b.volume
}

impl TargetState {
    /// Position, size, direction and pen after an effect.
    pub open spec fn motion_after(self, effect: Effect) -> (u64, u64, u64, u64, PenState) {
        match effect {
            Effect::MoveTo { x, y } => (x, y, self.size, self.direction, self.pen.after_move(x, y)),
            Effect::PointIn(Some(d)) => (self.x, self.y, self.size, d, self.pen),
            Effect::SetSize(s) => (self.x, self.y, s, self.direction, self.pen),
            Effect::PenSize(w) => (
                self.x,
                self.y,
                self.size,
                self.direction,
                PenState { size: w, ..self.pen },
            ),
            Effect::PenDown => (self.x, self.y, self.size, self.direction, self.pen.put_down(self.x, self.y)),
            Effect::PenUp => (self.x, self.y, self.size, self.direction, self.pen.after_up(self.x, self.y)),
            _ => (self.x, self.y, self.size, self.direction, self.pen),
        }
    }
}

/// The pen log after an effect.
pub open spec fn log_after(state: &TargetState, log: Seq<crate::pen::PenInstruction>, effect: Effect) -> Seq<
    crate::pen::PenInstruction,
> {
    match effect {
        Effect::MoveTo { x, y } => state.pen.log_after_move(log, x, y),
        Effect::PenUp => state.pen.log_after_up(log, state.x, state.y),
        Effect::PenClear => Seq::empty(),
        _ => log,
    }
}

/// Applies a statement's effect to the actor and the shared state. Returns
/// whether the statement is a point where the screen refreshes.
pub fn apply_effect(shared: &mut SharedState, state: &mut TargetState, effect: Effect) -> (should_yield: bool)
    requires
        effect_ok(old(shared), old(state), effect),
    ensures
        should_yield == yields(effect),
        (final(state).x, final(state).y, final(state).size, final(state).direction, final(state).pen)
            == old(state).motion_after(effect),
        same_settings(old(state), final(state)),
        final(shared).pen@ == log_after(old(state), old(shared).pen@, effect),
        effect matches Effect::Say(m) ==> final(state).say == (if m@.len() == 0 {
            None::<String>
        } else {
            Some(m)
        }),
        !(effect is Say) ==> final(state).say == old(state).say,
        effect matches Effect::SetVariable(v, value) ==> {
            &&& v.is_global ==> final(shared).global_variables@ == old(shared).global_variables@.update(
                v.id as int,
                value,
            ) && final(state).variables@ == old(state).variables@
            &&& !v.is_global ==> final(state).variables@ == old(state).variables@.update(
                v.id as int,
                value,
            ) && final(shared).global_variables@ == old(shared).global_variables@
        },
        !(effect is SetVariable) ==> final(shared).global_variables@ == old(shared).global_variables@
            && final(state).variables@ == old(state).variables@,
        effect matches Effect::DeleteAllOfList(l) ==> {
            &&& l.is_global ==> list_replaced(
                old(shared).global_lists@,
                final(shared).global_lists@,
                l.id as int,
                Seq::empty(),
            ) && final(state).lists@ == old(state).lists@
            &&& !l.is_global ==> list_replaced(
                old(state).lists@,
                final(state).lists@,
                l.id as int,
                Seq::empty(),
            ) && final(shared).global_lists@ == old(shared).global_lists@
        },
        effect matches Effect::AddToList(l, value) ==> {
            &&& l.is_global ==> list_replaced(
                old(shared).global_lists@,
                final(shared).global_lists@,
                l.id as int,
                old(shared).global_lists@[l.id as int]@.push(value),
            ) && final(state).lists@ == old(state).lists@
            &&& !l.is_global ==> list_replaced(
                old(state).lists@,
                final(state).lists@,
                l.id as int,
                old(state).lists@[l.id as int]@.push(value),
            ) && final(shared).global_lists@ == old(shared).global_lists@
        },
        !(effect is DeleteAllOfList || effect is AddToList) ==> final(shared).global_lists@ == old(
            shared,
        ).global_lists@ && final(state).lists@ == old(state).lists@,
{
    match effect {
        Effect::Nothing => false,
        Effect::MoveTo { x, y } => {
            state.pen.move_to(&mut shared.pen, x, y);
            state.x = x;
            state.y = y;
            true
        },
        Effect::PointIn(direction) => {
            if let Some(d) = direction {
                state.direction = d;
            }
            true
        },
        Effect::Say(message) => {
            state.say = say_bubble(message);
            true
        },
        Effect::SetSize(size) => {
            state.size = size;
            true
        },
        Effect::SetVariable(variable, value) => {
            set_variable(shared, &mut state.variables, variable, value);
            false
        },
        Effect::DeleteAllOfList(list) => {
            delete_all_of_list(shared, &mut state.lists, list);
            false
        },
        Effect::AddToList(list, value) => {
            add_to_list(shared, &mut state.lists, list, value);
            false
        },
        Effect::PenClear => {
            pen_clear(&mut shared.pen);
            assert(shared.pen@ =~= Seq::<crate::pen::PenInstruction>::empty());
            false
        },
        Effect::PenSize(width) => {
            state.pen.set_size(width);
            false
        },
        Effect::PenDown => {
            let (x, y) = (state.x, state.y);
            state.pen.pen_down(x, y);
            false
        },
        Effect::PenUp => {
            let (x, y) = (state.x, state.y);
            state.pen.pen_up(&mut shared.pen, x, y);
            false
        },
    }
}

} // verus!
