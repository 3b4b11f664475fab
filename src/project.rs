//! State shared by every actor: the stage's variables and lists and the pen
//! log, with the slot accesses that statements make.

use vstd::prelude::*;

use crate::block::{Input, ListInput, VariableInput};
use crate::pen::PenInstruction;
use crate::script::Script;
use crate::value::Value;

verus! {

/// The stage's variables and lists, seen by every actor, and the log of
/// drawn segments.
#[derive(Debug)]
pub struct SharedState {
    pub global_variables: Vec<Value>,
    pub global_lists: Vec<Vec<Value>>,
    pub pen: Vec<PenInstruction>,
}

/// The size of the stage and the number of ticks per second.
#[derive(Debug, Clone, Copy, PartialEq, Eq, Structural)]
pub struct Config {
    pub stage_width: u32,
    pub stage_height: u32,
    pub frame_rate: u32,
}

impl SharedState {
    /// Whether a variable reference names an existing slot, in the stage's
    /// storage or in the actor's `locals`.
    pub open spec fn has_variable(&self, locals: Seq<Value>, variable: VariableInput) -> bool {
        if variable.is_global {
            variable.id < self.global_variables@.len()
        } else {
            variable.id < locals.len()
        }
    }

    /// Whether a list reference names an existing slot, in the stage's
    /// storage or among the actor's `lists`.
    pub open spec fn has_list(&self, lists: Seq<Vec<Value>>, list: ListInput) -> bool {
        if list.is_global {
            list.id < self.global_lists@.len()
        } else {
            list.id < lists.len()
        }
    }
}

/// The value of a variable.
pub fn get_variable<'a>(shared: &'a SharedState, locals: &'a Vec<Value>, variable: VariableInput) -> (r: &'a Value)
    requires
        shared.has_variable(locals@, variable),
    ensures
        *r == if variable.is_global {
            shared.global_variables@[variable.id as int]
        } else {
            locals@[variable.id as int]
        },
{
    if variable.is_global {
        &shared.global_variables[variable.id]
    } else {
        &locals[variable.id]
    }
}

/// Stores a value in a variable; nothing else changes.
pub fn set_variable(shared: &mut SharedState, locals: &mut Vec<Value>, variable: VariableInput, value: Value)
    requires
        old(shared).has_variable(old(locals)@, variable),
    ensures
        variable.is_global ==> final(shared).global_variables@ == old(shared).global_variables@.update(
            variable.id as int,
            value,
        ) && final(locals)@ == old(locals)@,
        !variable.is_global ==> final(locals)@ == old(locals)@.update(variable.id as int, value)
            && final(shared).global_variables@ == old(shared).global_variables@,
        final(shared).global_lists@ == old(shared).global_lists@,
        final(shared).pen@ == old(shared).pen@,
{
    if variable.is_global {
        shared.global_variables.set(variable.id, value);
    } else {
        locals.set(variable.id, value);
    }
}

/// `after` is `before` with the list at `id` replaced by one holding
/// `content`.
pub open spec fn list_replaced(
    before: Seq<Vec<Value>>,
    after: Seq<Vec<Value>>,
    id: int,
    content: Seq<Value>,
) -> bool {
    &&& after.len() == before.len()
    &&& after[id]@ == content
    &&& forall|i: int| 0 <= i < before.len() && i != id ==> #[trigger] after[i] == before[i]
}

/// Empties a list; nothing else changes.
pub fn delete_all_of_list(shared: &mut SharedState, lists: &mut Vec<Vec<Value>>, list: ListInput)
    requires
        old(shared).has_list(old(lists)@, list),
    ensures
        list.is_global ==> list_replaced(
            old(shared).global_lists@,
            final(shared).global_lists@,
            list.id as int,
            Seq::empty(),
        ) && final(lists)@ == old(lists)@,
        !list.is_global ==> list_replaced(old(lists)@, final(lists)@, list.id as int, Seq::empty())
            && final(shared).global_lists@ == old(shared).global_lists@,
        final(shared).global_variables@ == old(shared).global_variables@,
        final(shared).pen@ == old(shared).pen@,
{
    if list.is_global {
        shared.global_lists.set(list.id, Vec::new());
    } else {
        lists.set(list.id, Vec::new());
    }
}

/// Appends a value to a list; nothing else changes.
pub fn add_to_list(shared: &mut SharedState, lists: &mut Vec<Vec<Value>>, list: ListInput, value: Value)
    requires
        old(shared).has_list(old(lists)@, list),
    ensures
        list.is_global ==> list_replaced(
            old(shared).global_lists@,
            final(shared).global_lists@,
            list.id as int,
            old(shared).global_lists@[list.id as int]@.push(value),
        ) && final(lists)@ == old(lists)@,
        !list.is_global ==> list_replaced(
            old(lists)@,
            final(lists)@,
            list.id as int,
            old(lists)@[list.id as int]@.push(value),
        ) && final(shared).global_lists@ == old(shared).global_lists@,
        final(shared).global_variables@ == old(shared).global_variables@,
        final(shared).pen@ == old(shared).pen@,
{
    if list.is_global {
        shared.global_lists[list.id].push(value);
    } else {
        lists[list.id].push(value);
    }
}

/// Whether an input can be read where it stands: a variable names an
/// existing slot and a parameter lies in the current call's window.
pub open spec fn readable(shared: &SharedState, locals: Seq<Value>, script: &Script, input: Input) -> bool {
    match input {
        Input::Variable(v) => shared.has_variable(locals, v),
        Input::Argument(i) => script.arguments_start + i < script.arguments@.len(),
        _ => true,
    }
}

/// The value an input holds without evaluating a block: a literal, the
/// current value of a variable, or a parameter of the current call. `None`
/// for a nested block, which the evaluator computes, and for broadcast and
/// list inputs, which hold no value.
pub fn read_input(shared: &SharedState, locals: &Vec<Value>, script: &Script, input: &Input) -> (r: Option<Value>)
    requires
        readable(shared, locals@, script, *input),
    ensures
        r == match *input {
            Input::Value(v) => Some(v),
            Input::Variable(v) => Some(
                if v.is_global {
                    shared.global_variables@[v.id as int]
                } else {
                    locals@[v.id as int]
                },
            ),
            Input::Argument(i) => Some(script.arguments@[script.arguments_start + i]),
            _ => None,
        },
{
    match input {
        Input::Value(v) => Some(v.duplicate()),
        Input::Variable(v) => Some(get_variable(shared, locals, *v).duplicate()),
        Input::Argument(i) => {
            let n = script.arguments.len();
            assert(script.arguments_start + *i < n);
            Some(script.arguments[script.arguments_start + *i].duplicate())
        },
        _ => None,
    }
}

/// The say bubble for a message: none for an empty message.
pub fn say_bubble(message: String) -> (r: Option<String>)
    ensures
        message@.len() == 0 ==> r is None,
        message@.len() > 0 ==> r == Some(message),
{
    if message.unicode_len() == 0 {
        None
    } else {
        Some(message)
    }
}

} // verus!
