use std::collections::HashMap;

use rustphorus::block::{Block, CustomBlock, Input};
use rustphorus::loader::RotationStyle;
use rustphorus::pen::PenState;
use rustphorus::project::SharedState;
use rustphorus::target::{apply_effect, Effect, TargetState};
use rustphorus::scheduler::{after_step, start_scripts, StepOutcome};
use rustphorus::script::{Control, Script, StackFrame};
use rustphorus::value::{Order, Value};

fn block(opcode: &str, next: usize, inputs: Vec<(&str, Input)>) -> Block {
    let mut map = HashMap::new();
    for (k, v) in inputs {
        map.insert(String::from(k), v);
    }
    Block { opcode: String::from(opcode), next, inputs: map }
}

fn number(f: f64) -> Input {
    Input::Value(Value::Float(f.to_bits()))
}

fn literal_number(input: &Input) -> f64 {
    match input {
        Input::Value(Value::Float(b)) => f64::from_bits(*b),
        _ => panic!("not a number literal"),
    }
}

fn substack(input: &Input) -> usize {
    match input {
        Input::Block(i) => *i,
        _ => panic!("not a block"),
    }
}

fn actor() -> TargetState {
    TargetState {
        visible: true,
        x: 0f64.to_bits(),
        y: 0f64.to_bits(),
        size: 100f64.to_bits(),
        direction: 90f64.to_bits(),
        draggable: false,
        current_costume: 0,
        rotation_style: RotationStyle::AllAround,
        volume: 100f64.to_bits(),
        variables: vec![],
        lists: vec![],
        say: None,
        pen: PenState::new(0f64.to_bits(), 0f64.to_bits()),
    }
}

fn shared() -> SharedState {
    SharedState { global_variables: vec![], global_lists: vec![], pen: vec![] }
}

/// Runs one step of a script over the small opcode set these tests use and
/// reports whether the script ended and whether it asked for a refresh.
fn step(blocks: &[Block], shared: &mut SharedState, actor: &mut TargetState, script: &mut Script) -> (bool, bool) {
    let b = &blocks[script.id - 1];
    let mut should_yield = false;
    match b.opcode.as_str() {
        "control_repeat" => {
            let times = literal_number(&b.inputs["TIMES"]) as u32;
            let terminated = script.execute(Control::Repeat { times, body: substack(&b.inputs["SUBSTACK"]) }, b.next);
            return (terminated, false);
        }
        "control_if_else" => {
            let cond = match &b.inputs["CONDITION"] {
                Input::Block(i) => {
                    let c = &blocks[*i - 1];
                    assert_eq!(c.opcode, "operator_lt");
                    let (Input::Value(a), Input::Value(b)) = (&c.inputs["OPERAND1"], &c.inputs["OPERAND2"]) else {
                        panic!("operands must be literals")
                    };
                    a.compare(b, None, None, "1", "2") == Order::Less
                }
                _ => false,
            };
            let control = Control::IfElse {
                condition: cond,
                body: substack(&b.inputs["SUBSTACK"]),
                else_body: substack(&b.inputs["SUBSTACK2"]),
            };
            return (script.execute(control, b.next), false);
        }
        "motion_changexby" => {
            let x = f64::from_bits(actor.x) + literal_number(&b.inputs["DX"]);
            let y = actor.y;
            should_yield = apply_effect(shared, actor, Effect::MoveTo { x: x.to_bits(), y });
        }
        "looks_say" => {
            let message = match &b.inputs["MESSAGE"] {
                Input::Value(Value::String(s)) => s.clone(),
                _ => String::new(),
            };
            should_yield = apply_effect(shared, actor, Effect::Say(message));
        }
        _ => {}
    }
    (script.execute(Control::Statement, b.next), should_yield)
}

fn tick(blocks: &[Block], shared: &mut SharedState, actor: &mut TargetState, scripts: &mut Vec<Script>) {
    scripts.retain_mut(|script| loop {
        let (terminated, should_yield) = step(blocks, shared, actor, script);
        match after_step(terminated, should_yield, script.refresh) {
            StepOutcome::Remove => return false,
            StepOutcome::Yield => return true,
            StepOutcome::Continue => {}
        }
    });
}

#[test]
fn repeat_twice_change_x_by_five() {
    let blocks = vec![
        block("event_whenflagclicked", 2, vec![]),
        block("control_repeat", 0, vec![("TIMES", number(2.0)), ("SUBSTACK", Input::Block(3))]),
        block("motion_changexby", 0, vec![("DX", number(5.0))]),
    ];
    let mut scripts = Vec::new();
    start_scripts(&blocks, &mut scripts);
    assert_eq!(scripts.len(), 1);
    assert_eq!(scripts[0].id, 1);
    let mut actor = actor();
    let mut shared = shared();
    let mut ticks = 0;
    while !scripts.is_empty() && ticks < 10 {
        tick(&blocks, &mut shared, &mut actor, &mut scripts);
        ticks += 1;
    }
    assert_eq!(ticks, 2);
    assert_eq!(f64::from_bits(actor.x), 10.0);
    assert!(scripts.is_empty());
}

#[test]
fn if_else_says_hi() {
    let blocks = vec![
        block("event_whenflagclicked", 2, vec![]),
        block(
            "control_if_else",
            0,
            vec![
                ("CONDITION", Input::Block(3)),
                ("SUBSTACK", Input::Block(4)),
                ("SUBSTACK2", Input::Block(5)),
            ],
        ),
        block("operator_lt", 0, vec![("OPERAND1", number(1.0)), ("OPERAND2", number(2.0))]),
        block("looks_say", 0, vec![("MESSAGE", Input::Value(Value::String(String::from("hi"))))]),
        block("looks_say", 0, vec![("MESSAGE", Input::Value(Value::String(String::from("bye"))))]),
    ];
    let mut scripts = Vec::new();
    start_scripts(&blocks, &mut scripts);
    let mut actor = actor();
    let mut shared = shared();
    let mut ticks = 0;
    while !scripts.is_empty() && ticks < 10 {
        tick(&blocks, &mut shared, &mut actor, &mut scripts);
        ticks += 1;
    }
    assert_eq!(actor.say, Some(String::from("hi")));
    assert!(scripts.is_empty());
}

#[test]
fn repeat_three_enters_body_three_times() {
    let mut script = Script::new(1);
    script.repeat(3, 10, 20);
    let mut counter = 0;
    let mut resumed = 0;
    for _ in 0..3 {
        assert_eq!(script.id, 10);
        counter += 1;
        script.advance(0);
        assert!(!script.unwind());
        if script.id == 20 {
            resumed += 1;
        }
    }
    assert_eq!(counter, 3);
    assert_eq!(resumed, 1);
    assert_eq!(script.id, 20);
    assert!(script.stack.is_empty());
}

#[test]
fn repeat_zero_never_enters_body() {
    let mut script = Script::new(1);
    script.repeat(0, 10, 20);
    assert_eq!(script.id, 20);
    assert!(script.stack.is_empty());
}

#[test]
fn nested_calls_restore_argument_window() {
    let a = CustomBlock { next: 100, argument_ids: vec![String::from("p"), String::from("q")], refresh: true };
    let b = CustomBlock { next: 200, argument_ids: vec![String::from("r")], refresh: true };
    let mut script = Script::new(1);
    script.call(&a, vec![Value::Bool(true), Value::Float(1.0f64.to_bits())], 2);
    let a_start = script.arguments_start;
    let a_len = script.arguments.len();
    assert_eq!(a_len, 2);
    assert!(matches!(script.argument(0), Value::Bool(true)));
    script.call(&b, vec![Value::String(String::from("x"))], 101);
    assert_eq!(script.arguments_start, 2);
    assert!(matches!(script.argument(0), Value::String(s) if s == "x"));
    script.advance(0);
    assert!(!script.unwind());
    assert_eq!(script.id, 101);
    assert_eq!(script.arguments_start, a_start);
    assert_eq!(script.arguments.len(), a_len);
    script.advance(0);
    assert!(!script.unwind());
    assert_eq!(script.id, 2);
    assert!(script.arguments.is_empty());
    assert_eq!(script.arguments_start, 0);
}

#[test]
fn warp_call_switches_refresh_off_until_return() {
    let w = CustomBlock { next: 50, argument_ids: vec![], refresh: false };
    let mut script = Script::new(1);
    script.call(&w, vec![], 2);
    assert!(!script.refresh);
    assert_eq!(
        script.stack[0],
        StackFrame::CustomBlock { argument_count: 0, return_id: 2, refresh_was_set_false: true, old_arguments_start: 0 }
    );
    script.advance(0);
    script.unwind();
    assert!(script.refresh);
    assert_eq!(script.id, 2);
}

#[test]
fn forever_returns_to_loop_block() {
    let mut script = Script::new(5);
    script.forever(6);
    assert_eq!(script.id, 6);
    script.advance(0);
    assert!(!script.unwind());
    assert_eq!(script.id, 5);
    assert!(script.stack.is_empty());
}

#[test]
fn if_false_skips_body_and_empty_stack_terminates() {
    let mut script = Script::new(1);
    script.branch_if(false, 3, 0);
    assert_eq!(script.id, 0);
    assert!(script.unwind());
    let mut other = Script::new(1);
    other.branch_if(true, 3, 4);
    assert_eq!(other.id, 3);
    assert_eq!(other.stack, vec![StackFrame::Goto(4)]);
}

#[test]
fn unwinding_continues_through_frames_without_next() {
    let mut script = Script::new(1);
    script.branch_if(true, 3, 9);
    script.branch_if(true, 4, 0);
    script.advance(0);
    assert!(!script.unwind());
    assert_eq!(script.id, 9);
    assert!(script.stack.is_empty());
}

#[test]
fn after_step_outcomes() {
    assert_eq!(after_step(true, true, true), StepOutcome::Remove);
    assert_eq!(after_step(false, true, true), StepOutcome::Yield);
    assert_eq!(after_step(false, true, false), StepOutcome::Continue);
    assert_eq!(after_step(false, false, true), StepOutcome::Continue);
}

#[test]
fn start_scripts_finds_every_hat_in_order() {
    let blocks = vec![
        block("motion_setx", 0, vec![]),
        block("event_whenflagclicked", 1, vec![]),
        block("event_whenflagclicked", 0, vec![]),
    ];
    let mut scripts = vec![Script::new(7)];
    start_scripts(&blocks, &mut scripts);
    let ids: Vec<usize> = scripts.iter().map(|s| s.id).collect();
    assert_eq!(ids, vec![7, 2, 3]);
    assert!(scripts[1].refresh);
}

#[test]
fn effects_and_yield_points() {
    let mut state = actor();
    let mut shared = shared();
    assert!(!apply_effect(&mut shared, &mut state, Effect::PenDown));
    assert!(apply_effect(&mut shared, &mut state, Effect::MoveTo { x: 10f64.to_bits(), y: 0f64.to_bits() }));
    assert_eq!(shared.pen.len(), 1);
    assert_eq!(f64::from_bits(shared.pen[0].x2), 10.0);
    assert!(!apply_effect(&mut shared, &mut state, Effect::PenUp));
    assert_eq!(shared.pen.len(), 1);
    assert!(apply_effect(&mut shared, &mut state, Effect::MoveTo { x: 20f64.to_bits(), y: 0f64.to_bits() }));
    assert_eq!(shared.pen.len(), 1);
    assert!(!apply_effect(&mut shared, &mut state, Effect::PenClear));
    assert!(shared.pen.is_empty());
    assert!(apply_effect(&mut shared, &mut state, Effect::PointIn(None)));
    assert_eq!(f64::from_bits(state.direction), 90.0);
    assert!(apply_effect(&mut shared, &mut state, Effect::PointIn(Some((-90f64).to_bits()))));
    assert_eq!(f64::from_bits(state.direction), -90.0);
    assert!(apply_effect(&mut shared, &mut state, Effect::Say(String::new())));
    assert_eq!(state.say, None);
    assert!(!apply_effect(&mut shared, &mut state, Effect::PenSize(4)));
    assert_eq!(state.pen.size, 4);
    assert!(!apply_effect(&mut shared, &mut state, Effect::Nothing));
}

#[test]
fn start_scripts_on_empty_arena() {
    let mut scripts = Vec::new();
    start_scripts(&Vec::new(), &mut scripts);
    assert!(scripts.is_empty());
}

#[test]
fn execute_call_with_empty_body_returns_at_once() {
    let empty = CustomBlock { next: 0, argument_ids: vec![String::from("a")], refresh: false };
    let mut script = Script::new(1);
    let terminated = script.execute_call(&empty, vec![Value::Bool(true)], 7);
    assert!(!terminated);
    assert_eq!(script.id, 7);
    assert!(script.arguments.is_empty());
    assert!(script.refresh);
    let mut last = Script::new(1);
    assert!(last.execute_call(&empty, vec![Value::Bool(true)], 0));
}

#[test]
fn execute_forever_and_if() {
    let mut script = Script::new(4);
    assert!(!script.execute(Control::Forever { body: 5 }, 0));
    assert_eq!(script.id, 5);
    assert!(!script.execute(Control::Statement, 0));
    assert_eq!(script.id, 4);
    assert!(!script.execute(Control::If { condition: false, body: 0 }, 8));
    assert_eq!(script.id, 8);
}

#[test]
fn repeat_without_body_goes_on() {
    let mut script = Script::new(1);
    script.repeat(3, 0, 20);
    assert_eq!(script.id, 20);
    assert!(script.stack.is_empty());
    let mut other = Script::new(1);
    assert!(!other.execute(Control::Repeat { times: 2, body: 0 }, 9));
    assert_eq!(other.id, 9);
}
