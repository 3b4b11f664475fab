//! A running script: a cursor into the actor's block arena and an explicit
//! stack of continuations, so that a script can stop at any statement and be
//! resumed by a later tick.

use vstd::prelude::*;

use crate::block::CustomBlock;
use crate::value::Value;

verus! {

/// One saved continuation.
#[derive(Debug, Clone, Copy, PartialEq, Eq, Structural)]
pub enum StackFrame {
    /// A loop body that still runs `iterations` times, counting the current
    /// pass; `return_id` follows the loop.
    Repeat { iterations: u32, jump_id: usize, return_id: usize },
    /// Resume at the given block once the current sequence ends.
    Goto(usize),
    /// A custom procedure call: the number of argument values it added, where
    /// the caller resumes, whether the call switched screen refresh off, and
    /// the caller's argument window.
    CustomBlock {
        argument_count: usize,
        return_id: usize,
        refresh_was_set_false: bool,
        old_arguments_start: usize,
    },
}

/// The control flow of one block, with its condition or count evaluated.
#[derive(Debug, Clone, Copy, PartialEq, Eq, Structural)]
pub enum Control {
    Repeat { times: u32, body: usize },
    /// A forever loop at the current block.
    Forever { body: usize },
    If { condition: bool, body: usize },
    IfElse { condition: bool, body: usize, else_body: usize },
    /// A block with no control flow, already run.
    Statement,
}

/// A running script. `id` is the block to run next, 0 once the current
/// sequence has ended.
#[derive(Debug)]
pub struct Script {
    pub id: usize,
    pub stack: Vec<StackFrame>,
    pub arguments: Vec<Value>,
    pub arguments_start: usize,
    pub refresh: bool,
}

/// The mathematical state of a script.
pub struct ScriptView {
    pub id: usize,
    pub stack: Seq<StackFrame>,
    pub arguments: Seq<Value>,
    pub arguments_start: usize,
    pub refresh: bool,
}

impl View for Script {
    type V = ScriptView;

    open spec fn view(&self) -> ScriptView {
        ScriptView {
            id: self.id,
            stack: self.stack@,
            arguments: self.arguments@,
            arguments_start: self.arguments_start,
            refresh: self.refresh,
        }
    }
}

/// How many argument values a frame holds on the argument buffer.
pub open spec fn frame_arguments(f: StackFrame) -> nat {
    match f {
        StackFrame::CustomBlock { argument_count, .. } => argument_count as nat,
        _ => 0,
    }
}

/// How many argument values the frames of a stack hold together.
pub open spec fn pending(stack: Seq<StackFrame>) -> nat
    decreases stack.len(),
{
    if stack.len() == 0 {
        0
    } else {
        pending(stack.drop_last()) + frame_arguments(stack.last())
    }
}

/// A frame is sound over the frames below it, which hold `below` values: a
/// loop has a pass left and a body, a call's saved window lies in the buffer
/// that its caller saw.
pub open spec fn frame_ok(f: StackFrame, below: nat) -> bool {
    match f {
        StackFrame::Repeat { iterations, jump_id, .. } => iterations >= 1 && jump_id != 0,
        StackFrame::Goto(_) => true,
        StackFrame::CustomBlock { old_arguments_start, .. } => old_arguments_start <= below,
    }
}

impl ScriptView {
    /// The stack discipline: the buffer holds exactly the values of the
    /// pending calls, the current window lies inside it, and every frame is
    /// sound.
    pub open spec fn wf(self) -> bool {
        &&& self.arguments.len() == pending(self.stack)
        &&& self.arguments_start <= self.arguments.len()
        &&& forall|i: int|
            0 <= i < self.stack.len() ==> frame_ok(
                #[trigger] self.stack[i],
                pending(self.stack.take(i)),
            )
    }

    /// A script that starts at `entry`.
    pub open spec fn started(entry: usize) -> ScriptView {
        ScriptView {
            id: entry,
            stack: Seq::empty(),
            arguments: Seq::empty(),
            arguments_start: 0,
            refresh: true,
        }
    }

    /// The cursor moved on to `next`.
    pub open spec fn advanced(self, next: usize) -> ScriptView {
        ScriptView { id: next, ..self }
    }

    /// A repeat of `times` passes over `body`, followed by `next`: entered
    /// only where `times` is positive and there is a body.
    pub open spec fn after_repeat(self, times: u32, body: usize, next: usize) -> ScriptView {
        if times > 0 && body != 0 {
            ScriptView {
                id: body,
                stack: self.stack.push(
                    StackFrame::Repeat { iterations: times, jump_id: body, return_id: next },
                ),
                ..self
            }
        } else {
            ScriptView { id: next, ..self }
        }
    }

    /// A forever loop at the current block: its body, then the loop again.
    pub open spec fn after_forever(self, body: usize) -> ScriptView {
        ScriptView { id: body, stack: self.stack.push(StackFrame::Goto(self.id)), ..self }
    }

    /// An if: the body and then `next` where the condition holds, else `next`.
    pub open spec fn after_if(self, condition: bool, body: usize, next: usize) -> ScriptView {
        if condition {
            ScriptView { id: body, stack: self.stack.push(StackFrame::Goto(next)), ..self }
        } else {
            ScriptView { id: next, ..self }
        }
    }

    /// An if-else: the selected branch, then `next`.
    pub open spec fn after_if_else(
        self,
        condition: bool,
        body: usize,
        else_body: usize,
        next: usize,
    ) -> ScriptView {
        ScriptView {
            id: if condition {
                body
            } else {
                else_body
            },
            stack: self.stack.push(StackFrame::Goto(next)),
            ..self
        }
    }

    /// A call of a custom procedure whose body starts at `entry`, with the
    /// argument values `values`, resuming at `next`: the values open a new
    /// window at the end of the buffer, and a procedure that allows no
    /// refresh switches refresh off for the call.
    pub open spec fn after_call(
        self,
        values: Seq<Value>,
        entry: usize,
        refresh_allowed: bool,
        next: usize,
    ) -> ScriptView {
        ScriptView {
            id: entry,
            stack: self.stack.push(
                StackFrame::CustomBlock {
                    argument_count: values.len() as usize,
                    return_id: next,
                    refresh_was_set_false: self.refresh && !refresh_allowed,
                    old_arguments_start: self.arguments_start,
                },
            ),
            arguments: self.arguments + values,
            arguments_start: self.arguments.len() as usize,
            refresh: self.refresh && refresh_allowed,
        }
    }

    /// The script after the control flow of a block followed by `next`.
    pub open spec fn after_control(self, control: Control, next: usize) -> ScriptView {
        match control {
            Control::Repeat { times, body } => self.after_repeat(times, body, next),
            Control::Forever { body } => self.after_forever(body),
            Control::If { condition, body } => self.after_if(condition, body, next),
            Control::IfElse { condition, body, else_body } => self.after_if_else(
                condition,
                body,
                else_body,
                next,
            ),
            Control::Statement => self.advanced(next),
        }
    }

    /// Where a script goes once its cursor has run off the end of a
    /// sequence: frames are popped until one names a block to run, or the
    /// stack is empty.
    pub open spec fn unwound(self) -> ScriptView
        decreases self.stack.len(),
    {
        if self.id != 0 || self.stack.len() == 0 {
            self
        } else {
            let rest = self.stack.drop_last();
            match self.stack.last() {
                StackFrame::Repeat { iterations, jump_id, return_id } => {
                    if iterations > 1 {
                        ScriptView {
                            id: jump_id,
                            stack: self.stack.update(
                                self.stack.len() - 1,
                                StackFrame::Repeat {
                                    iterations: (iterations - 1) as u32,
                                    jump_id,
                                    return_id,
                                },
                            ),
                            ..self
                        }
                    } else {
                        ScriptView { id: return_id, stack: rest, ..self }.unwound()
                    }
                },
                StackFrame::Goto(return_id) => ScriptView {
                    id: return_id,
                    stack: rest,
                    ..self
                }.unwound(),
                StackFrame::CustomBlock {
                    argument_count,
                    return_id,
                    refresh_was_set_false,
                    old_arguments_start,
                } => ScriptView {
                    id: return_id,
                    stack: rest,
                    arguments: self.arguments.subrange(
                        0,
                        self.arguments.len() - argument_count,
                    ),
                    arguments_start: old_arguments_start,
                    refresh: self.refresh || refresh_was_set_false,
                }.unwound(),
            }
        }
    }
}

proof fn lemma_push_frame(stack: Seq<StackFrame>, f: StackFrame)
    ensures
        pending(stack.push(f)) == pending(stack) + frame_arguments(f),
        stack.push(f).take(stack.len() as int) == stack,
        forall|i: int| 0 <= i <= stack.len() ==> #[trigger] stack.push(f).take(i) == stack.take(i),
{
    assert(stack.push(f).drop_last() =~= stack);
    assert(stack.push(f).take(stack.len() as int) =~= stack);
    assert forall|i: int| 0 <= i <= stack.len() implies #[trigger] stack.push(f).take(i)
        == stack.take(i) by {
        assert(stack.push(f).take(i) =~= stack.take(i));
    }
}

proof fn lemma_pop_frame(stack: Seq<StackFrame>)
    requires
        stack.len() > 0,
    ensures
        pending(stack) == pending(stack.drop_last()) + frame_arguments(stack.last()),
        stack.take(stack.len() - 1) == stack.drop_last(),
        forall|i: int|
            0 <= i < stack.len() ==> #[trigger] stack.drop_last().take(i) == stack.take(i),
{
    assert(stack.take(stack.len() - 1) =~= stack.drop_last());
    assert forall|i: int| 0 <= i < stack.len() implies #[trigger] stack.drop_last().take(i)
        == stack.take(i) by {
        assert(stack.drop_last().take(i) =~= stack.take(i));
    }
}

proof fn lemma_update_top(stack: Seq<StackFrame>, f: StackFrame)
    requires
        stack.len() > 0,
        frame_arguments(f) == frame_arguments(stack.last()),
    ensures
        pending(stack.update(stack.len() - 1, f)) == pending(stack),
        forall|i: int|
            0 <= i < stack.len() ==> #[trigger] stack.update(stack.len() - 1, f).take(i)
                == stack.take(i),
{
    let s2 = stack.update(stack.len() - 1, f);
    assert(s2.drop_last() =~= stack.drop_last());
    assert forall|i: int| 0 <= i < stack.len() implies #[trigger] stack.update(
        stack.len() - 1,
        f,
    ).take(i) == stack.take(i) by {
        assert(s2.take(i) =~= stack.take(i));
    }
}

/// Pushing a frame that is sound over the current stack keeps the discipline.
proof fn lemma_wf_push(v: ScriptView, w: ScriptView, f: StackFrame)
    requires
        v.wf(),
        frame_ok(f, pending(v.stack)),
        w.stack == v.stack.push(f),
        w.arguments.len() == v.arguments.len() + frame_arguments(f),
        w.arguments_start <= w.arguments.len(),
    ensures
        w.wf(),
{
    lemma_push_frame(v.stack, f);
    assert forall|i: int| 0 <= i < w.stack.len() implies frame_ok(
        #[trigger] w.stack[i],
        pending(w.stack.take(i)),
    ) by {
        if i < v.stack.len() {
            assert(w.stack[i] == v.stack[i]);
        }
    }
}

impl Script {
    /// A script that starts at block `entry`.
    pub fn new(entry: usize) -> (r: Script)
        ensures
            r@ == ScriptView::started(entry),
            r@.wf(),
    {
        Script { id: entry, stack: Vec::new(), arguments: Vec::new(), arguments_start: 0, refresh: true }
    }

    /// Moves the cursor to `next`, after a block with no control flow.
    pub fn advance(&mut self, next: usize)
        requires
            old(self)@.wf(),
        ensures
            final(self)@ == old(self)@.advanced(next),
            final(self)@.wf(),
    {
        self.id = next;
    }

    /// Enters a repeat of `times` passes over `body`, or goes on to `next`
    /// where `times` is zero or the body is empty (0).
    pub fn repeat(&mut self, times: u32, body: usize, next: usize)
        requires
            old(self)@.wf(),
        ensures
            final(self)@ == old(self)@.after_repeat(times, body, next),
            final(self)@.wf(),
    {
        if times > 0 && body != 0 {
            let ghost v = self@;
            self.stack.push(StackFrame::Repeat { iterations: times, jump_id: body, return_id: next });
            self.id = body;
            proof {
                lemma_wf_push(v, self@, StackFrame::Repeat { iterations: times, jump_id: body, return_id: next });
            }
        } else {
            self.id = next;
        }
    }

    /// Enters a forever loop at the current block.
    pub fn forever(&mut self, body: usize)
        requires
            old(self)@.wf(),
        ensures
            final(self)@ == old(self)@.after_forever(body),
            final(self)@.wf(),
    {
        let ghost v = self@;
        self.stack.push(StackFrame::Goto(self.id));
        self.id = body;
        proof {
            lemma_wf_push(v, self@, StackFrame::Goto(v.id));
        }
    }

    /// Enters `body` where `condition` holds, then `next`.
    pub fn branch_if(&mut self, condition: bool, body: usize, next: usize)
        requires
            old(self)@.wf(),
        ensures
            final(self)@ == old(self)@.after_if(condition, body, next),
            final(self)@.wf(),
    {
        if condition {
            let ghost v = self@;
            self.stack.push(StackFrame::Goto(next));
            self.id = body;
            proof {
                lemma_wf_push(v, self@, StackFrame::Goto(next));
            }
        } else {
            self.id = next;
        }
    }

    /// Enters `body` where `condition` holds, else `else_body`, then `next`.
    pub fn branch_if_else(&mut self, condition: bool, body: usize, else_body: usize, next: usize)
        requires
            old(self)@.wf(),
        ensures
            final(self)@ == old(self)@.after_if_else(condition, body, else_body, next),
            final(self)@.wf(),
    {
        let ghost v = self@;
        self.stack.push(StackFrame::Goto(next));
        self.id = if condition {
            body
        } else {
            else_body
        };
        proof {
            lemma_wf_push(v, self@, StackFrame::Goto(next));
        }
    }

    /// Calls a custom procedure with the argument values already evaluated
    /// in the caller's window, one for each of its parameters; the caller
    /// resumes at `next`.
    pub fn call(&mut self, custom: &CustomBlock, values: Vec<Value>, next: usize)
        requires
            old(self)@.wf(),
            values@.len() == custom.argument_ids@.len(),
        ensures
            final(self)@ == old(self)@.after_call(values@, custom.next, custom.refresh, next),
            final(self)@.wf(),
    {
        let ghost v = self@;
        let ghost added = values@;
        let mut values = values;
        let count = values.len();
        let frame = StackFrame::CustomBlock {
            argument_count: count,
            return_id: next,
            refresh_was_set_false: self.refresh && !custom.refresh,
            old_arguments_start: self.arguments_start,
        };
        self.stack.push(frame);
        let start = self.arguments.len();
        self.arguments.append(&mut values);
        self.arguments_start = start;
        self.id = custom.next;
        if self.refresh && !custom.refresh {
            self.refresh = false;
        }
        proof {
            lemma_wf_push(v, self@, frame);
            assert(self@.arguments =~= v.arguments + added);
        }
    }

    /// Finishes a step: the block's control flow, followed by `next`, then
    /// unwinding. Returns whether the script has ended.
    pub fn execute(&mut self, control: Control, next: usize) -> (terminated: bool)
        requires
            old(self)@.wf(),
        ensures
            final(self)@ == old(self)@.after_control(control, next).unwound(),
            final(self)@.wf(),
            terminated == (final(self).id == 0),
    {
        match control {
            Control::Repeat { times, body } => self.repeat(times, body, next),
            Control::Forever { body } => self.forever(body),
            Control::If { condition, body } => self.branch_if(condition, body, next),
            Control::IfElse { condition, body, else_body } => self.branch_if_else(
                condition,
                body,
                else_body,
                next,
            ),
            Control::Statement => self.advance(next),
        }
        self.unwind()
    }

    /// Finishes a step that calls a custom procedure: the call, then
    /// unwinding, which matters only for a procedure with an empty body.
    /// Returns whether the script has ended.
    pub fn execute_call(&mut self, custom: &CustomBlock, values: Vec<Value>, next: usize) -> (terminated: bool)
        requires
            old(self)@.wf(),
            values@.len() == custom.argument_ids@.len(),
        ensures
            final(self)@ == old(self)@.after_call(values@, custom.next, custom.refresh, next).unwound(),
            final(self)@.wf(),
            terminated == (final(self).id == 0),
    {
        self.call(custom, values, next);
        self.unwind()
    }

    /// The value of parameter `index` of the current call.
    pub fn argument(&self, index: usize) -> (r: &Value)
        requires
            self@.wf(),
            self.arguments_start + index < self.arguments@.len(),
        ensures
            *r == self.arguments@[self.arguments_start + index],
    {
        let n = self.arguments.len();
        assert(self.arguments_start + index < n);
        &self.arguments[self.arguments_start + index]
    }

    /// Once the cursor has run off the end of a sequence, pops frames until
    /// one names a block to run. Returns whether the script has ended: its
    /// cursor is 0 with nothing left on the stack.
    pub fn unwind(&mut self) -> (terminated: bool)
        requires
            old(self)@.wf(),
        ensures
            final(self)@ == old(self)@.unwound(),
            final(self)@.wf(),
            terminated == (final(self).id == 0),
    {
        let ghost target = self@.unwound();
        while self.id == 0
            invariant
                self@.wf(),
                self@.unwound() == target,
            ensures
                self@.wf(),
                self@.unwound() == target,
                self.id != 0 || self@.stack.len() == 0,
            decreases self.stack.len() + if self.id == 0 {
                1int
            } else {
                0int
            },
        {
            let n = self.stack.len();
            if n == 0 {
                break;
            }
            let ghost v = self@;
            let top = self.stack[n - 1];
            proof {
                lemma_pop_frame(v.stack);
                assert(frame_ok(v.stack[n - 1], pending(v.stack.take(n - 1))));
            }
            match top {
                StackFrame::Repeat { iterations, jump_id, return_id } => {
                    if iterations > 1 {
                        let f = StackFrame::Repeat { iterations: iterations - 1, jump_id, return_id };
                        self.stack.set(n - 1, f);
                        self.id = jump_id;
                        proof {
                            lemma_update_top(v.stack, f);
                            assert forall|i: int| 0 <= i < self@.stack.len() implies frame_ok(
                                #[trigger] self@.stack[i],
                                pending(self@.stack.take(i)),
                            ) by {
                                if i < n - 1 {
                                    assert(self@.stack[i] == v.stack[i]);
                                }
                            }
                        }
                    } else {
                        self.id = return_id;
                        self.stack.pop();
                        proof {
                            assert(self@.stack =~= v.stack.drop_last());
                            assert forall|i: int| 0 <= i < self@.stack.len() implies frame_ok(
                                #[trigger] self@.stack[i],
                                pending(self@.stack.take(i)),
                            ) by {
                                assert(self@.stack[i] == v.stack[i]);
                            }
                        }
                    }
                },
                StackFrame::Goto(return_id) => {
                    self.id = return_id;
                    self.stack.pop();
                    proof {
                        assert(self@.stack =~= v.stack.drop_last());
                        assert forall|i: int| 0 <= i < self@.stack.len() implies frame_ok(
                            #[trigger] self@.stack[i],
                            pending(self@.stack.take(i)),
                        ) by {
                            assert(self@.stack[i] == v.stack[i]);
                        }
                    }
                },
                StackFrame::CustomBlock {
                    argument_count,
                    return_id,
                    refresh_was_set_false,
                    old_arguments_start,
                } => {
                    self.id = return_id;
                    if refresh_was_set_false {
                        self.refresh = true;
                    }
                    let len = self.arguments.len();
                    self.arguments.truncate(len - argument_count);
                    self.arguments_start = old_arguments_start;
                    self.stack.pop();
                    proof {
                        assert(self@.stack =~= v.stack.drop_last());
                        assert forall|i: int| 0 <= i < self@.stack.len() implies frame_ok(
                            #[trigger] self@.stack[i],
                            pending(self@.stack.take(i)),
                        ) by {
                            assert(self@.stack[i] == v.stack[i]);
                        }
                    }
                },
            }
        }
        assert(self@.unwound() == self@);
        self.id == 0
    }
}


/// The script after the current sequence has run to its end `k` times, each
/// time unwinding as far as the stack says.
pub open spec fn ends_of_sequence(v: ScriptView, k: nat) -> ScriptView
    decreases k,
{
    if k == 0 {
        v
    } else {
        ends_of_sequence(v, (k - 1) as nat).advanced(0).unwound()
    }
}

proof fn lemma_repeat_passes(v: ScriptView, times: u32, body: usize, next: usize, k: nat)
    requires
        body != 0,
        times > 0,
        k < times,
    ensures
        ends_of_sequence(v.after_repeat(times, body, next), k) == (ScriptView {
            id: body,
            stack: v.stack.push(
                StackFrame::Repeat { iterations: (times - k) as u32, jump_id: body, return_id: next },
            ),
            ..v
        }),
    decreases k,
{
    if k > 0 {
        lemma_repeat_passes(v, times, body, next, (k - 1) as nat);
        let prev = StackFrame::Repeat {
            iterations: (times - (k - 1)) as u32,
            jump_id: body,
            return_id: next,
        };
        let cur = StackFrame::Repeat {
            iterations: (times - k) as u32,
            jump_id: body,
            return_id: next,
        };
        assert(v.stack.push(prev).update(v.stack.len() as int, cur) =~= v.stack.push(cur));
    }
}

/// A repeat of `times` passes over a body that runs straight to its end
/// goes back to the body at each of the first `times - 1` ends, and at the
/// `times`-th end resumes after the loop with the stack it started from; a
/// repeat of zero passes never enters the body.
pub proof fn repeat_runs_body_times(v: ScriptView, times: u32, body: usize, next: usize)
    requires
        body != 0,
    ensures
        times == 0 ==> v.after_repeat(times, body, next) == v.advanced(next),
        forall|k: nat|
            0 < k < times ==> (#[trigger] ends_of_sequence(
                v.after_repeat(times, body, next),
                k,
            )).id == body,
        times > 0 ==> ends_of_sequence(v.after_repeat(times, body, next), times as nat)
            == v.advanced(next).unwound(),
{
    assert forall|k: nat| 0 < k < times implies (#[trigger] ends_of_sequence(
        v.after_repeat(times, body, next),
        k,
    )).id == body by {
        lemma_repeat_passes(v, times, body, next, k);
    }
    if times > 0 {
        let last = (times - 1) as nat;
        lemma_repeat_passes(v, times, body, next, last);
        let top = StackFrame::Repeat { iterations: 1, jump_id: body, return_id: next };
        assert(v.stack.push(top).drop_last() =~= v.stack);
    }
}

/// A custom procedure call whose body runs straight to its end returns to
/// the caller exactly as it was: the same stack, argument buffer, window and
/// refresh flag, with the cursor at the block after the call. Where the call
/// has a following block, the caller resumes there and nothing more is
/// popped: inside an outer call, its window and buffer are back as they were
/// before the inner call.
pub proof fn call_returns_to_caller(
    v: ScriptView,
    values: Seq<Value>,
    entry: usize,
    refresh_allowed: bool,
    next: usize,
)
    requires
        values.len() <= usize::MAX,
    ensures
        v.after_call(values, entry, refresh_allowed, next).advanced(0).unwound() == v.advanced(
            next,
        ).unwound(),
        next != 0 ==> v.after_call(values, entry, refresh_allowed, next).advanced(0).unwound()
            == v.advanced(next),
{
    let w = v.after_call(values, entry, refresh_allowed, next).advanced(0);
    assert(w.stack.drop_last() =~= v.stack);
    assert((v.arguments + values).subrange(0, v.arguments.len() as int) =~= v.arguments);
    let back = ScriptView {
        id: next,
        stack: w.stack.drop_last(),
        arguments: w.arguments.subrange(0, w.arguments.len() - values.len()),
        arguments_start: v.arguments_start,
        refresh: w.refresh || (v.refresh && !refresh_allowed),
    };
    assert(back == v.advanced(next));
    assert(w.unwound() == back.unwound());
    if next != 0 {
        assert(back.unwound() == back);
    }
}

} // verus!
