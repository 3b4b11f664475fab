//! The cooperative scheduler's decisions: which scripts start with the
//! program, and what follows each step of a script within a tick.

use vstd::prelude::*;

use crate::block::Block;
use crate::script::{Script, ScriptView};
use crate::value::same_text;

verus! {

/// What the scheduler does with a script after one of its steps.
#[derive(Debug, Clone, Copy, PartialEq, Eq, Structural)]
pub enum StepOutcome {
    /// Run the script's next step within this tick.
    Continue,
    /// Keep the script where it stands and move on to the next one.
    Yield,
    /// The script has ended: take it out of the live set.
    Remove,
}

/// What follows a step: an ended script is removed; a script that reached a
/// yield point with refresh on keeps its place until the next tick; any
/// other runs on, so that a procedure that allows no refresh runs to its end.
pub open spec fn outcome_of(terminated: bool, should_yield: bool, refresh: bool) -> StepOutcome {
    if terminated {
        StepOutcome::Remove
    } else if should_yield && refresh {
        StepOutcome::Yield
    } else {
        StepOutcome::Continue
    }
}

/// Decides what follows a step, from whether it ended the script, whether
/// it asked for a screen refresh, and the script's refresh flag.
pub fn after_step(terminated: bool, should_yield: bool, refresh: bool) -> (r: StepOutcome)
    ensures
        r == outcome_of(terminated, should_yield, refresh),
{
    if terminated {
        StepOutcome::Remove
    } else if should_yield && refresh {
        StepOutcome::Yield
    } else {
        StepOutcome::Continue
    }
}

/// Whether a block is the hat that starts a script with the program.
pub open spec fn is_start_hat(b: Block) -> bool {
    b.opcode@ == "event_whenflagclicked"@
}

/// The entry index (1-based) of every start hat among the first `n` blocks,
/// in arena order.
pub open spec fn start_entries(blocks: Seq<Block>, n: int) -> Seq<usize>
    decreases n,
{
    if n <= 0 {
        Seq::empty()
    } else if is_start_hat(blocks[n - 1]) {
        start_entries(blocks, n - 1).push(n as usize)
    } else {
        start_entries(blocks, n - 1)
    }
}

/// Appends a fresh script for every start hat of the arena, in arena order.
pub fn start_scripts(blocks: &Vec<Block>, scripts: &mut Vec<Script>)
    requires
        blocks@.len() < usize::MAX,
    ensures
        ({
            let entries = start_entries(blocks@, blocks@.len() as int);
            &&& final(scripts)@.len() == old(scripts)@.len() + entries.len()
            &&& final(scripts)@.subrange(0, old(scripts)@.len() as int) == old(scripts)@
            &&& forall|j: int|
                0 <= j < entries.len() ==> (#[trigger] final(scripts)@[old(scripts)@.len() + j])@
                    == ScriptView::started(entries[j])
        }),
{
    let ghost before = scripts@;
    let mut i: usize = 0;
    while i < blocks.len()
        invariant
            blocks@.len() < usize::MAX,
            i <= blocks@.len(),
            scripts@.len() == before.len() + start_entries(blocks@, i as int).len(),
            scripts@.subrange(0, before.len() as int) == before,
            forall|j: int|
                0 <= j < start_entries(blocks@, i as int).len() ==> (#[trigger] scripts@[before.len()
                    + j])@ == ScriptView::started(start_entries(blocks@, i as int)[j]),
        decreases blocks@.len() - i,
    {
        let ghost prev = scripts@;
        if same_text(blocks[i].opcode.as_str(), "event_whenflagclicked") {
            scripts.push(Script::new(i + 1));
            assert(scripts@.subrange(0, before.len() as int) =~= prev.subrange(0, before.len() as int));
        }
        i = i + 1;
    }
}

} // verus!
