//! Resolution done once at load time: string ids become dense indices,
//! variable and list references are bound local-first, and argument
//! reporters are tied to the parameter position of their procedure.

use vstd::prelude::*;
use vstd::string::StringExecFns;

use crate::block::{BroadcastInput, CustomBlock, Input, ListInput, VariableInput};
use crate::value::Value;
use crate::value::same_text;

verus! {

/// Why a project cannot be loaded.
#[derive(Debug, Clone, Copy, PartialEq, Eq, Structural)]
pub enum LoadError {
    /// A block id that no block of the actor carries.
    UnknownBlock,
    /// A variable id that neither the actor nor the stage declares.
    UnknownVariable,
    /// A list id that neither the actor nor the stage declares.
    UnknownList,
    /// An argument reporter whose name the procedure does not declare.
    UnknownArgument,
    /// A rotation style other than the three of the format.
    UnknownRotationStyle,
    /// A chain of parent links that never ends.
    CyclicParents,
    /// An input or field whose shape the format does not allow.
    MalformedInput,
    /// A primitive input of a kind the format does not define.
    UnknownInputKind,
}

/// How an actor's costume turns with its direction.
#[derive(Debug, Clone, Copy, PartialEq, Eq, Structural)]
pub enum RotationStyle {
    AllAround,
    LeftRight,
    DontRotate,
}

/// The procedure metadata that a block may carry.
#[derive(Debug)]
pub struct Mutation {
    pub proccode: String,
    pub argumentids: Vec<String>,
    pub argumentnames: Vec<String>,
    pub warp: bool,
}

/// The value of an absent flag that defaults to true.
pub fn default_true() -> (r: bool)
    ensures
        r,
{
    true
}

/// The value of an absent flag that defaults to false.
pub fn default_false() -> (r: bool)
    ensures
        !r,
{
    false
}

/// The rotation style of an actor that names none.
pub fn default_rotation_style() -> (r: String)
    ensures
        r@ == "don't rotate"@,
{
    String::from_str("don't rotate")
}

/// The metadata of a block that carries none.
pub fn no_mutation() -> (r: Mutation)
    ensures
        r.proccode@.len() == 0,
        r.argumentids@.len() == 0,
        r.argumentnames@.len() == 0,
        !r.warp,
{
    Mutation {
        proccode: String::new(),
        argumentids: Vec::new(),
        argumentnames: Vec::new(),
        warp: false,
    }
}

/// The rotation style that a name of the format stands for.
pub open spec fn rotation_style_of(s: Seq<char>) -> Option<RotationStyle> {
    if s == "all around"@ {
        Some(RotationStyle::AllAround)
    } else if s == "left-right"@ {
        Some(RotationStyle::LeftRight)
    } else if s == "don't rotate"@ {
        Some(RotationStyle::DontRotate)
    } else {
        None
    }
}

/// Reads a rotation style; any other text is a load error.
pub fn rotation_style(s: &str) -> (r: Result<RotationStyle, LoadError>)
    ensures
        rotation_style_of(s@) matches Some(style) ==> r == Ok::<RotationStyle, LoadError>(style),
        rotation_style_of(s@) is None ==> r == Err::<RotationStyle, LoadError>(
            LoadError::UnknownRotationStyle,
        ),
{
    if same_text(s, "all around") {
        Ok(RotationStyle::AllAround)
    } else if same_text(s, "left-right") {
        Ok(RotationStyle::LeftRight)
    } else if same_text(s, "don't rotate") {
        Ok(RotationStyle::DontRotate)
    } else {
        Err(LoadError::UnknownRotationStyle)
    }
}

/// The first position at which `ids` holds `id`, if any.
pub fn position_of(ids: &Vec<String>, id: &str) -> (r: Option<usize>)
    ensures
        r matches Some(i) ==> i < ids@.len() && ids@[i as int]@ == id@ && forall|j: int|
            0 <= j < i ==> ids@[j]@ != id@,
        r is None ==> forall|j: int| 0 <= j < ids@.len() ==> ids@[j]@ != id@,
{
    let mut i: usize = 0;
    while i < ids.len()
        invariant
            i <= ids@.len(),
            forall|j: int| 0 <= j < i ==> ids@[j]@ != id@,
        decreases ids@.len() - i,
    {
        if same_text(ids[i].as_str(), id) {
            return Some(i);
        }
        i = i + 1;
    }
    None
}

/// The arena index of a referenced block: 0 for no reference, one more than
/// the block's position among the actor's ids otherwise.
pub fn block_index(ids: &Vec<String>, id: &Option<String>) -> (r: Result<usize, LoadError>)
    ensures
        id is None ==> r == Ok::<usize, LoadError>(0),
        id matches Some(s) ==> (r matches Ok(k) ==> 1 <= k <= ids@.len() && ids@[k - 1]@ == s@
            && forall|j: int| 0 <= j < k - 1 ==> ids@[j]@ != s@),
        id matches Some(s) ==> (r is Err <==> forall|j: int| 0 <= j < ids@.len() ==> ids@[j]@ != s@),
        r is Err ==> r == Err::<usize, LoadError>(LoadError::UnknownBlock),
{
    match id {
        None => Ok(0),
        Some(s) => match position_of(ids, s.as_str()) {
            Some(i) => {
                let n = ids.len();
                assert(i < n);
                Ok(i + 1)
            },
            None => Err(LoadError::UnknownBlock),
        },
    }
}

/// Whether `id` is absent from `ids`.
pub open spec fn undeclared(ids: Seq<String>, id: Seq<char>) -> bool {
    forall|j: int| 0 <= j < ids.len() ==> #[trigger] ids[j]@ != id
}

/// Whether a reference to `id` binds to the slot `(is_global, slot)`: the
/// first local of that id, or where no local has it, the first global.
pub open spec fn binds(
    locals: Seq<String>,
    globals: Seq<String>,
    id: Seq<char>,
    is_global: bool,
    slot: usize,
) -> bool {
    if is_global {
        undeclared(locals, id) && slot < globals.len() && globals[slot as int]@ == id && forall|j: int|
            0 <= j < slot ==> globals[j]@ != id
    } else {
        slot < locals.len() && locals[slot as int]@ == id && forall|j: int|
            0 <= j < slot ==> locals[j]@ != id
    }
}

/// Binds a variable id: the actor's own variable where it declares one, the
/// stage's otherwise.
pub fn resolve_variable(locals: &Vec<String>, globals: &Vec<String>, id: &str) -> (r: Result<VariableInput, LoadError>)
    ensures
        r matches Ok(v) ==> binds(locals@, globals@, id@, v.is_global, v.id),
        r is Err <==> undeclared(locals@, id@) && undeclared(globals@, id@),
        r is Err ==> r == Err::<VariableInput, LoadError>(LoadError::UnknownVariable),
{
    match position_of(locals, id) {
        Some(i) => Ok(VariableInput { is_global: false, id: i }),
        None => match position_of(globals, id) {
            Some(i) => Ok(VariableInput { is_global: true, id: i }),
            None => Err(LoadError::UnknownVariable),
        },
    }
}

/// Binds a list id: the actor's own list where it declares one, the stage's
/// otherwise.
pub fn resolve_list(locals: &Vec<String>, globals: &Vec<String>, id: &str) -> (r: Result<ListInput, LoadError>)
    ensures
        r matches Ok(v) ==> binds(locals@, globals@, id@, v.is_global, v.id),
        r is Err <==> undeclared(locals@, id@) && undeclared(globals@, id@),
        r is Err ==> r == Err::<ListInput, LoadError>(LoadError::UnknownList),
{
    match position_of(locals, id) {
        Some(i) => Ok(ListInput { is_global: false, id: i }),
        None => match position_of(globals, id) {
            Some(i) => Ok(ListInput { is_global: true, id: i }),
            None => Err(LoadError::UnknownList),
        },
    }
}

/// The position of an argument reporter's name among the parameter names of
/// its procedure.
pub fn argument_position(names: &Vec<String>, name: &str) -> (r: Result<usize, LoadError>)
    ensures
        r matches Ok(i) ==> i < names@.len() && names@[i as int]@ == name@ && forall|j: int|
            0 <= j < i ==> names@[j]@ != name@,
        r is Err <==> forall|j: int| 0 <= j < names@.len() ==> names@[j]@ != name@,
        r is Err ==> r == Err::<usize, LoadError>(LoadError::UnknownArgument),
{
    match position_of(names, name) {
        Some(i) => Ok(i),
        None => Err(LoadError::UnknownArgument),
    }
}


/// The block `k` parent links above block `b`; blocks are numbered from 1
/// and 0 stands for the end of the chain. `parents[i]` is the parent of
/// block `i + 1`.
pub open spec fn ancestor(parents: Seq<usize>, b: usize, k: nat) -> usize
    decreases k,
{
    if k == 0 {
        b
    } else {
        let a = ancestor(parents, b, (k - 1) as nat);
        if a == 0 || a > parents.len() {
            0
        } else {
            parents[a - 1]
        }
    }
}

/// Whether block `a` is a procedure definition.
pub open spec fn is_definition(definitions: Seq<bool>, a: usize) -> bool {
    1 <= a <= definitions.len() && definitions[a - 1]
}

/// Whether the first `k - 1` blocks above `b` exist and none of them is a
/// procedure definition.
pub open spec fn passes_no_definition(
    parents: Seq<usize>,
    definitions: Seq<bool>,
    b: usize,
    k: nat,
) -> bool {
    forall|j: nat|
        1 <= j < k ==> #[trigger] ancestor(parents, b, j) != 0 && !is_definition(
            definitions,
            ancestor(parents, b, j),
        )
}

/// Whether `d` is the nearest procedure definition above block `b`.
pub open spec fn nearest_definition(
    parents: Seq<usize>,
    definitions: Seq<bool>,
    b: usize,
    d: usize,
) -> bool {
    exists|k: nat|
        1 <= k && #[trigger] ancestor(parents, b, k) == d && is_definition(definitions, d)
            && passes_no_definition(parents, definitions, b, k)
}

/// Whether the chain above block `b` ends without passing a procedure
/// definition.
pub open spec fn ends_outside_definition(parents: Seq<usize>, definitions: Seq<bool>, b: usize) -> bool {
    exists|k: nat|
        1 <= k && #[trigger] ancestor(parents, b, k) == 0 && passes_no_definition(
            parents,
            definitions,
            b,
            k,
        )
}

/// Walks the parent links above block `block` to the nearest procedure
/// definition. `Ok(None)` where the chain ends first; an error where it
/// passes more links than there are blocks, so that it runs in a cycle.
pub fn enclosing_definition(parents: &Vec<usize>, definitions: &Vec<bool>, block: usize) -> (r: Result<Option<usize>, LoadError>)
    requires
        parents@.len() == definitions@.len(),
        1 <= block <= parents@.len(),
        forall|i: int| 0 <= i < parents@.len() ==> #[trigger] parents@[i] <= parents@.len(),
    ensures
        r matches Ok(Some(d)) ==> nearest_definition(parents@, definitions@, block, d),
        r matches Ok(None) ==> ends_outside_definition(parents@, definitions@, block),
        r is Err ==> r == Err::<Option<usize>, LoadError>(LoadError::CyclicParents)
            && passes_no_definition(parents@, definitions@, block, (parents@.len() + 1) as nat),
{
    let n = parents.len();
    let mut cur = parents[block - 1];
    let mut left: usize = n;
    let ghost mut steps: nat = 1;
    assert(ancestor(parents@, block, 0) == block);
    assert(ancestor(parents@, block, 1) == cur);
    while left > 0
        invariant
            n == parents@.len(),
            parents@.len() == definitions@.len(),
            forall|i: int| 0 <= i < parents@.len() ==> #[trigger] parents@[i] <= parents@.len(),
            steps + left == n + 1,
            cur == ancestor(parents@, block, steps),
            cur <= n,
            steps >= 1,
            passes_no_definition(parents@, definitions@, block, steps),
        decreases left,
    {
        if cur == 0 {
            return Ok(None);
        }
        if definitions[cur - 1] {
            return Ok(Some(cur));
        }
        proof {
            assert forall|j: nat| 1 <= j < steps + 1 implies #[trigger] ancestor(parents@, block, j)
                != 0 && !is_definition(definitions@, ancestor(parents@, block, j)) by {
                if j < steps {
                } else {
                    assert(j == steps);
                }
            }
        }
        cur = parents[cur - 1];
        left = left - 1;
        proof {
            steps = steps + 1;
            assert(ancestor(parents@, block, steps) == cur);
        }
    }
    Err(LoadError::CyclicParents)
}


/// Whether `i` is the first position of `name` among `names`.
pub open spec fn first_position_of(names: Seq<String>, name: Seq<char>, i: usize) -> bool {
    &&& i < names.len()
    &&& names[i as int]@ == name
    &&& forall|j: int| 0 <= j < i ==> names[j]@ != name
}

/// Whether no entry of `names` is `name`.
pub open spec fn absent_from(names: Seq<String>, name: Seq<char>) -> bool {
    forall|j: int| 0 <= j < names.len() ==> #[trigger] names[j]@ != name
}

/// Ties an argument reporter, block `block` reading the parameter `name`, to
/// the position of that parameter in its procedure. `definitions[i]` says
/// whether block `i + 1` defines a procedure, `prototypes[i]` names the block
/// that holds its parameter names (0 for none), and `argument_names[i]` are
/// the parameter names that block `i + 1` declares.
///
/// `Ok(None)` for a reporter that stands alone; `Ok(Some(0))` for one in a
/// stack that lies outside any definition, which no call ever reads;
/// otherwise the position of `name` in the nearest enclosing procedure.
pub fn convert_argument_reporter(
    parents: &Vec<usize>,
    definitions: &Vec<bool>,
    prototypes: &Vec<usize>,
    argument_names: &Vec<Vec<String>>,
    block: usize,
    name: &str,
) -> (r: Result<Option<usize>, LoadError>)
    requires
        parents@.len() == definitions@.len(),
        parents@.len() == prototypes@.len(),
        parents@.len() == argument_names@.len(),
        1 <= block <= parents@.len(),
        forall|i: int| 0 <= i < parents@.len() ==> #[trigger] parents@[i] <= parents@.len(),
        forall|i: int| 0 <= i < prototypes@.len() ==> #[trigger] prototypes@[i] <= parents@.len(),
    ensures
        parents@[block - 1] == 0 ==> r == Ok::<Option<usize>, LoadError>(None),
        parents@[block - 1] != 0 ==> r != Ok::<Option<usize>, LoadError>(None),
        parents@[block - 1] != 0 ==> (r matches Ok(Some(i)) ==> (i == 0 && ends_outside_definition(
            parents@,
            definitions@,
            block,
        )) || exists|d: usize|
            #[trigger] nearest_definition(parents@, definitions@, block, d) && prototypes@[d - 1]
                != 0 && first_position_of(
                argument_names@[prototypes@[d - 1] - 1]@,
                name@,
                i,
            )),
        r == Err::<Option<usize>, LoadError>(LoadError::CyclicParents) ==> passes_no_definition(
            parents@,
            definitions@,
            block,
            (parents@.len() + 1) as nat,
        ),
        r == Err::<Option<usize>, LoadError>(LoadError::UnknownBlock) ==> exists|d: usize|
            #[trigger] nearest_definition(parents@, definitions@, block, d) && prototypes@[d - 1]
                == 0,
        r == Err::<Option<usize>, LoadError>(LoadError::UnknownArgument) ==> exists|d: usize|
            #[trigger] nearest_definition(parents@, definitions@, block, d) && prototypes@[d - 1]
                != 0 && absent_from(argument_names@[prototypes@[d - 1] - 1]@, name@),
        r matches Err(e) ==> e == LoadError::CyclicParents || e == LoadError::UnknownBlock || e
            == LoadError::UnknownArgument,
{
    if parents[block - 1] == 0 {
        return Ok(None);
    }
    match enclosing_definition(parents, definitions, block) {
        Err(e) => Err(e),
        Ok(None) => Ok(Some(0)),
        Ok(Some(d)) => {
            let prototype = prototypes[d - 1];
            if prototype == 0 {
                return Err(LoadError::UnknownBlock);
            }
            match argument_position(&argument_names[prototype - 1], name) {
                Ok(i) => {
                    assert(nearest_definition(parents@, definitions@, block, d));
                    Ok(Some(i))
                },
                Err(e) => Err(e),
            }
        },
    }
}


/// A broadcast named in the project file.
#[derive(Debug)]
pub struct InputBroadcast {
    pub name: String,
    pub id: String,
}

/// A variable named in the project file, by its string id.
#[derive(Debug)]
pub struct InputVariable {
    pub name: String,
    pub id: String,
}

/// A list named in the project file, by its string id.
#[derive(Debug)]
pub struct InputList {
    pub name: String,
    pub id: String,
}

/// An input as the project file states it, before its references are resolved.
#[derive(Debug)]
pub enum SourceInput {
    Block(String),
    Value(Value),
    Broadcast(InputBroadcast),
    Variable(InputVariable),
    List(InputList),
}

/// The input that a primitive array `[kind, a, b, ...]` stands for: a
/// literal `a` for kinds 4 to 10; a broadcast, variable or list named `a`
/// with id `b` for kinds 11, 12 and 13, where both are texts.
pub open spec fn primitive_input(kind: i32, values: Seq<Value>) -> Result<SourceInput, LoadError> {
    if 4 <= kind <= 10 {
        if values.len() >= 2 {
            Ok(SourceInput::Value(values[1]))
        } else {
            Err(LoadError::MalformedInput)
        }
    } else if 11 <= kind <= 13 {
        if values.len() >= 3 {
            match (values[1], values[2]) {
                (Value::String(name), Value::String(id)) => Ok(
                    if kind == 11 {
                        SourceInput::Broadcast(InputBroadcast { name, id })
                    } else if kind == 12 {
                        SourceInput::Variable(InputVariable { name, id })
                    } else {
                        SourceInput::List(InputList { name, id })
                    },
                ),
                _ => Err(LoadError::MalformedInput),
            }
        } else {
            Err(LoadError::MalformedInput)
        }
    } else {
        Err(LoadError::UnknownInputKind)
    }
}

/// Decodes a primitive array whose first entry reads as `kind`.
pub fn decode_primitive(kind: i32, values: &Vec<Value>) -> (r: Result<SourceInput, LoadError>)
    ensures
        r == primitive_input(kind, values@),
{
    if 4 <= kind && kind <= 10 {
        if values.len() >= 2 {
            Ok(SourceInput::Value(values[1].duplicate()))
        } else {
            Err(LoadError::MalformedInput)
        }
    } else if 11 <= kind && kind <= 13 {
        if values.len() >= 3 {
            match (&values[1], &values[2]) {
                (Value::String(name), Value::String(id)) => {
                    let name = name.clone();
                    let id = id.clone();
                    Ok(
                        if kind == 11 {
                            SourceInput::Broadcast(InputBroadcast { name, id })
                        } else if kind == 12 {
                            SourceInput::Variable(InputVariable { name, id })
                        } else {
                            SourceInput::List(InputList { name, id })
                        },
                    )
                },
                _ => Err(LoadError::MalformedInput),
            }
        } else {
            Err(LoadError::MalformedInput)
        }
    } else {
        Err(LoadError::UnknownInputKind)
    }
}

/// The input that a field `[value, id]` becomes under `key`: a literal where
/// it has no id; with an id, a reference named by the value under the keys
/// `VARIABLE`, `LIST` and `BROADCAST_OPTION`, and an error under any other.
pub open spec fn field_input(key: Seq<char>, value: Value, id: Option<String>) -> Result<
    SourceInput,
    LoadError,
> {
    match id {
        None => Ok(SourceInput::Value(value)),
        Some(id) => match value {
            Value::String(name) => if key == "VARIABLE"@ {
                Ok(SourceInput::Variable(InputVariable { name, id }))
            } else if key == "LIST"@ {
                Ok(SourceInput::List(InputList { name, id }))
            } else if key == "BROADCAST_OPTION"@ {
                Ok(SourceInput::Broadcast(InputBroadcast { name, id }))
            } else {
                Err(LoadError::MalformedInput)
            },
            _ => Err(LoadError::MalformedInput),
        },
    }
}

/// Folds a field into the block's inputs.
pub fn fold_field(key: &str, value: Value, id: Option<String>) -> (r: Result<SourceInput, LoadError>)
    ensures
        r == field_input(key@, value, id),
{
    match id {
        None => Ok(SourceInput::Value(value)),
        Some(id) => match value {
            Value::String(name) => if same_text(key, "VARIABLE") {
                Ok(SourceInput::Variable(InputVariable { name, id }))
            } else if same_text(key, "LIST") {
                Ok(SourceInput::List(InputList { name, id }))
            } else if same_text(key, "BROADCAST_OPTION") {
                Ok(SourceInput::Broadcast(InputBroadcast { name, id }))
            } else {
                Err(LoadError::MalformedInput)
            },
            _ => Err(LoadError::MalformedInput),
        },
    }
}

/// A nested block at index `k`: the parameter position recorded for an
/// argument reporter, the index itself for any other block.
pub open spec fn resolved_block(reporters: Seq<Option<usize>>, k: int) -> Input {
    match reporters[k - 1] {
        Some(p) => Input::Argument(p),
        None => Input::Block(k as usize),
    }
}

/// Resolves one input of a block of the actor whose block ids are `ids`.
/// A nested block becomes its index, or the parameter position that
/// `reporters` records for an argument reporter; variables and lists bind
/// local-first.
pub fn resolve_input(
    ids: &Vec<String>,
    reporters: &Vec<Option<usize>>,
    variable_ids: &Vec<String>,
    global_variable_ids: &Vec<String>,
    list_ids: &Vec<String>,
    global_list_ids: &Vec<String>,
    source: &SourceInput,
) -> (r: Result<Input, LoadError>)
    requires
        reporters@.len() == ids@.len(),
    ensures
        source matches SourceInput::Value(v) ==> r == Ok::<Input, LoadError>(Input::Value(*v)),
        source matches SourceInput::Broadcast(b) ==> r == Ok::<Input, LoadError>(
            Input::Broadcast(BroadcastInput { name: b.name, id: b.id }),
        ),
        source matches SourceInput::Block(id) ==> {
            &&& r is Err <==> undeclared(ids@, id@)
            &&& r is Err ==> r == Err::<Input, LoadError>(LoadError::UnknownBlock)
            &&& r matches Ok(input) ==> exists|k: int|
                1 <= k <= ids@.len() && (#[trigger] ids@[k - 1])@ == id@ && (forall|j: int|
                    0 <= j < k - 1 ==> ids@[j]@ != id@) && input == resolved_block(reporters@, k)
        },
        source matches SourceInput::Variable(v) ==> {
            &&& r is Err <==> undeclared(variable_ids@, v.id@) && undeclared(global_variable_ids@, v.id@)
            &&& r is Err ==> r == Err::<Input, LoadError>(LoadError::UnknownVariable)
            &&& r matches Ok(input) ==> input matches Input::Variable(slot) && binds(
                variable_ids@,
                global_variable_ids@,
                v.id@,
                slot.is_global,
                slot.id,
            )
        },
        source matches SourceInput::List(l) ==> {
            &&& r is Err <==> undeclared(list_ids@, l.id@) && undeclared(global_list_ids@, l.id@)
            &&& r is Err ==> r == Err::<Input, LoadError>(LoadError::UnknownList)
            &&& r matches Ok(input) ==> input matches Input::List(slot) && binds(
                list_ids@,
                global_list_ids@,
                l.id@,
                slot.is_global,
                slot.id,
            )
        },
{
    match source {
        SourceInput::Value(v) => Ok(Input::Value(v.duplicate())),
        SourceInput::Broadcast(b) => Ok(
            Input::Broadcast(BroadcastInput { name: b.name.clone(), id: b.id.clone() }),
        ),
        SourceInput::Block(id) => match position_of(ids, id.as_str()) {
            Some(i) => {
                let n = ids.len();
                assert(i < n);
                let k = i + 1;
                let r = match reporters[i] {
                    Some(p) => Input::Argument(p),
                    None => Input::Block(k),
                };
                assert(r == resolved_block(reporters@, k as int));
                assert((ids@[k - 1])@ == id@);
                Ok(r)
            },
            None => Err(LoadError::UnknownBlock),
        },
        SourceInput::Variable(v) => match resolve_variable(
            variable_ids,
            global_variable_ids,
            v.id.as_str(),
        ) {
            Ok(slot) => Ok(Input::Variable(slot)),
            Err(e) => Err(e),
        },
        SourceInput::List(l) => match resolve_list(list_ids, global_list_ids, l.id.as_str()) {
            Ok(slot) => Ok(Input::List(slot)),
            Err(e) => Err(e),
        },
    }
}


/// The table entry of a custom procedure whose definition is followed by the
/// block at `next` and whose prototype carries `prototype`: its parameter
/// ids in order, and refresh allowed unless it runs without screen refresh.
pub fn custom_block_of(next: usize, prototype: &Mutation) -> (r: CustomBlock)
    ensures
        r.next == next,
        r.argument_ids@ == prototype.argumentids@,
        r.refresh == !prototype.warp,
{
    let mut argument_ids: Vec<String> = Vec::new();
    let mut i: usize = 0;
    while i < prototype.argumentids.len()
        invariant
            i <= prototype.argumentids@.len(),
            argument_ids@ == prototype.argumentids@.subrange(0, i as int),
        decreases prototype.argumentids@.len() - i,
    {
        argument_ids.push(prototype.argumentids[i].clone());
        assert(argument_ids@ =~= prototype.argumentids@.subrange(0, i + 1));
        i = i + 1;
    }
    assert(argument_ids@ =~= prototype.argumentids@);
    CustomBlock { next, argument_ids, refresh: !prototype.warp }
}

/// The input that names the procedure a call block calls: its signature
/// text, as a literal.
pub fn proccode_input(call: &Mutation) -> (r: SourceInput)
    ensures
        r matches SourceInput::Value(Value::String(s)) && s == call.proccode,
{
    SourceInput::Value(Value::String(call.proccode.clone()))
}

/// The ids under which an actor keeps variables or lists of its own: none
/// for the stage, whose declarations are the global storage, the declared
/// ids otherwise.
pub fn local_ids(is_stage: bool, declared: Vec<String>) -> (r: Vec<String>)
    ensures
        is_stage ==> r@.len() == 0,
        !is_stage ==> r@ == declared@,
{
    if is_stage {
        Vec::new()
    } else {
        declared
    }
}

} // verus!
