//! The resolved instruction arena: blocks, their inputs and the table of
//! custom procedures.

use std::collections::HashMap;
use vstd::prelude::*;

use crate::value::Value;

verus! {

/// A broadcast message named by a block.
#[derive(Debug)]
pub struct BroadcastInput {
    pub name: String,
    pub id: String,
}

/// A variable slot: in the stage's storage when `is_global`, else in the
/// actor's own.
#[derive(Debug, Clone, Copy, PartialEq, Eq, Structural)]
pub struct VariableInput {
    pub is_global: bool,
    pub id: usize,
}

/// A list slot: in the stage's storage when `is_global`, else in the actor's
/// own.
#[derive(Debug, Clone, Copy, PartialEq, Eq, Structural)]
pub struct ListInput {
    pub is_global: bool,
    pub id: usize,
}

/// One input of a block, with every reference already resolved to an index.
#[derive(Debug)]
pub enum Input {
    /// A nested block, by its index in the actor's arena.
    Block(usize),
    /// A literal.
    Value(Value),
    Broadcast(BroadcastInput),
    Variable(VariableInput),
    List(ListInput),
    /// The position of a parameter of the enclosing custom procedure.
    Argument(usize),
}

/// One instruction or expression node. `next` is the index of the following
/// block in its sequence, 0 where there is none.
#[derive(Debug)]
pub struct Block {
    pub opcode: String,
    pub next: usize,
    pub inputs: HashMap<String, Input>,
}

/// A custom procedure: the index of the first block of its body, the ids of
/// its parameters in order, and whether the screen may refresh while it runs.
#[derive(Debug)]
pub struct CustomBlock {
    pub next: usize,
    pub argument_ids: Vec<String>,
    pub refresh: bool,
}

} // verus!
