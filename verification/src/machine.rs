//! What the evaluator does, as a mathematical machine.
//!
//! The evaluator is a machine with two stacks: the frames, which say what is
//! still to be done, and the values that the work done so far has left. One
//! step takes the topmost frame and carries it out. A step either goes on
//! silently or stops with an action for the host: to print a value, to do
//! arithmetic on doubles, or to take note that the program has ended.
//!
//! A `return` is no error: it takes the frames off up to the boundary of the
//! call it belongs to and leaves the result there. A run-time error empties
//! both stacks and goes back to the global environment; what the program has
//! defined so far stays.

use vstd::prelude::*;
use crate::ast::{
    position_of, reserved_symbols, BinaryOp, List, LogicalOp, Node, ProgramView, UnaryOp, SYM_INIT,
    SYM_SUPER, SYM_THIS,
};
use crate::runtime::{
    ancestor, find_method, find_slot, truthy, Action, Class, Env, Event, Frame, Function, Instance,
    RuntimeError, RuntimeErrorKind, Slot, Value,
};

verus! {

/// A compilation unit as the evaluator holds it: the program, the global
/// symbol of each of its own symbols, the resolver's table, and the index in
/// the string table at which its literal texts start.
pub struct UnitView {
    pub program: ProgramView,
    pub names: Seq<usize>,
    pub depths: Seq<Option<usize>>,
    pub texts: usize,
}

/// The programs that the evaluator has been given, and the names that occur
/// in them.
pub struct CodeView {
    pub units: Seq<UnitView>,
    pub names: Seq<Seq<char>>,
}

impl UnitView {
    pub open spec fn wf(self) -> bool {
        &&& self.program.wf()
        &&& self.names.len() == self.program.symbols.len()
        &&& self.depths.len() == self.program.nodes.len()
    }
}

impl CodeView {
    pub open spec fn wf(self) -> bool {
        forall|u: int| 0 <= u < self.units.len() ==> (#[trigger] self.units[u]).wf()
    }

    /// The node `id` of the unit `unit`.
    pub open spec fn node(self, unit: usize, id: usize) -> Option<Node> {
        if unit < self.units.len() && id < self.units[unit as int].program.nodes.len() {
            Some(self.units[unit as int].program.nodes[id as int])
        } else {
            None
        }
    }

    /// The global symbol of the symbol `symbol` of the unit `unit`.
    pub open spec fn name(self, unit: usize, symbol: usize) -> usize {
        if unit < self.units.len() && symbol < self.units[unit as int].names.len() {
            self.units[unit as int].names[symbol as int]
        } else {
            symbol
        }
    }

    /// What the resolver has recorded for the node `id` of the unit `unit`.
    pub open spec fn depth(self, unit: usize, id: usize) -> Option<usize> {
        if unit < self.units.len() && id < self.units[unit as int].depths.len() {
            self.units[unit as int].depths[id as int]
        } else {
            None
        }
    }

    /// The entry `k` of the list `list` of the unit `unit`.
    pub open spec fn link(self, unit: usize, list: List, k: usize) -> Option<usize> {
        if unit < self.units.len() && k < list.len && list.start + k
            < self.units[unit as int].program.links.len() {
            Some(self.units[unit as int].program.links[list.start + k])
        } else {
            None
        }
    }

    /// The index in the string table of the literal text `text` of the unit
    /// `unit`.
    pub open spec fn text(self, unit: usize, text: usize) -> Option<usize> {
        if unit < self.units.len() && self.units[unit as int].texts + text <= usize::MAX {
            Some((self.units[unit as int].texts + text) as usize)
        } else {
            None
        }
    }
}

/// The state of the evaluator.
pub struct Machine {
    pub strings: Seq<Seq<char>>,
    pub envs: Seq<Env>,
    pub slots: Seq<Slot>,
    pub functions: Seq<Function>,
    pub classes: Seq<Class>,
    pub instances: Seq<Instance>,
    /// What is still to be done, the next piece of work last.
    pub frames: Seq<Frame>,
    /// The values that the work done so far has left.
    pub stack: Seq<Value>,
    /// The current environment.
    pub env: usize,
    /// The unit that the code being run belongs to.
    pub unit: usize,
}

/// The state after a step, and the action with which the step stops, if it
/// stops.
pub type Step = (Machine, Option<Action>);

/// A chain of slots after `value` is written under `name`: the slot of that
/// name gets the value or, when there is none, a new slot heads the chain.
pub open spec fn write_slot(slots: Seq<Slot>, head: Option<usize>, name: usize, value: Value) -> (
    Seq<Slot>,
    Option<usize>,
) {
    match find_slot(slots, head, name) {
        Some(i) => (slots.update(i as int, Slot { name, value, next: slots[i as int].next }), head),
        None => (slots.push(Slot { name, value, next: head }), Some(slots.len() as usize)),
    }
}

/// Whether two values that are not both numbers are equal: values of
/// different kinds never are, strings are equal when their texts are, and
/// functions, classes and instances are equal only to themselves.
pub open spec fn equal_values(strings: Seq<Seq<char>>, left: Value, right: Value) -> bool {
    match (left, right) {
        (Value::Nil, Value::Nil) => true,
        (Value::Boolean(a), Value::Boolean(b)) => a == b,
        (Value::Number(a), Value::Number(b)) => a == b,
        (Value::Text(a), Value::Text(b)) => a == b || (a < strings.len() && b < strings.len()
            && strings[a as int] == strings[b as int]),
        (Value::Function(a), Value::Function(b)) => a == b,
        (Value::Class(a), Value::Class(b)) => a == b,
        (Value::Instance(a), Value::Instance(b)) => a == b,
        _ => false,
    }
}

/// The index of the topmost call boundary among the first `upto` frames.
pub open spec fn last_call(frames: Seq<Frame>, upto: int) -> Option<int>
    decreases upto,
{
    if upto <= 0 || upto > frames.len() {
        None
    } else if frames[upto - 1] is CallEnd {
        Some(upto - 1)
    } else {
        last_call(frames, upto - 1)
    }
}

impl Machine {
    /// The state of a new evaluator: the global environment and nothing
    /// else.
    pub open spec fn start() -> Machine {
        Machine {
            strings: Seq::empty(),
            envs: seq![Env { parent: None, first: None }],
            slots: Seq::empty(),
            functions: Seq::empty(),
            classes: Seq::empty(),
            instances: Seq::empty(),
            frames: Seq::empty(),
            stack: Seq::empty(),
            env: 0,
            unit: 0,
        }
    }

    /// Every table is small enough for its indices to be machine integers,
    /// as the tables of an interpreter are.
    pub open spec fn fits(self) -> bool {
        &&& self.envs.len() <= usize::MAX
        &&& self.slots.len() <= usize::MAX
        &&& self.functions.len() <= usize::MAX
        &&& self.classes.len() <= usize::MAX
        &&& self.instances.len() <= usize::MAX
        &&& self.strings.len() <= usize::MAX
    }

    pub open spec fn go(self) -> Step {
        (self, None)
    }

    pub open spec fn push(self, value: Value) -> Machine {
        Machine { stack: self.stack.push(value), ..self }
    }

    pub open spec fn plan(self, frame: Frame) -> Machine {
        Machine { frames: self.frames.push(frame), ..self }
    }

    /// The value `below` places under the top of the value stack.
    pub open spec fn peek(self, below: int) -> Option<Value> {
        if 0 <= below < self.stack.len() {
            Some(self.stack[self.stack.len() - 1 - below])
        } else {
            None
        }
    }

    /// Takes the topmost `count` values off the value stack.
    pub open spec fn drop(self, count: int) -> Machine {
        if 0 <= count <= self.stack.len() {
            Machine { stack: self.stack.take(self.stack.len() - count), ..self }
        } else {
            self
        }
    }

    /// Stops the program with an error: both stacks are emptied and the
    /// global environment is current again.
    pub open spec fn fail(self, kind: RuntimeErrorKind, line: usize) -> Step {
        (
            Machine { frames: Seq::empty(), stack: Seq::empty(), env: 0, ..self },
            Some(Action::Failed(RuntimeError { kind, line })),
        )
    }

    /// Adds the text of the string `a` followed by that of the string `b`
    /// to the string table.
    pub open spec fn join(self, a: usize, b: usize) -> Machine {
        Machine {
            strings: self.strings.push(self.strings[a as int] + self.strings[b as int]),
            ..self
        }
    }

    /// A new environment inside `parent`.
    pub open spec fn scope(self, parent: usize) -> (Machine, usize) {
        (
            Machine { envs: self.envs.push(Env { parent: Some(parent), first: None }), ..self },
            self.envs.len() as usize,
        )
    }

    /// Defines `name` in the environment `env`; a second definition
    /// overwrites the first.
    pub open spec fn define(self, env: usize, name: usize, value: Value) -> Machine {
        if env < self.envs.len() {
            let (slots, first) = write_slot(self.slots, self.envs[env as int].first, name, value);
            Machine {
                slots,
                envs: self.envs.update(env as int, Env { parent: self.envs[env as int].parent, first }),
                ..self
            }
        } else {
            self
        }
    }

    /// The environment in which the variable used at the node `id` lives:
    /// the one that the resolver's table names, or the global one.
    pub open spec fn home(self, code: CodeView, id: usize) -> Option<usize> {
        match code.depth(self.unit, id) {
            Some(depth) => ancestor(self.envs, self.env, depth as nat),
            None => if self.envs.len() > 0 {
                Some(0)
            } else {
                None
            },
        }
    }

    /// The slot of the variable `name` in the environment `env`.
    pub open spec fn slot_in(self, env: Option<usize>, name: usize) -> Option<usize> {
        match env {
            Some(e) => if e < self.envs.len() {
                find_slot(self.slots, self.envs[e as int].first, name)
            } else {
                None
            },
            None => None,
        }
    }

    /// The value of the variable `name` used at the node `id`.
    pub open spec fn lookup(self, code: CodeView, id: usize, name: usize) -> Option<Value> {
        match self.slot_in(self.home(code, id), name) {
            Some(i) => Some(self.slots[i as int].value),
            None => None,
        }
    }

    /// Assigns to the variable `name` used at the node `id`, if it exists.
    pub open spec fn assign(self, code: CodeView, id: usize, name: usize, value: Value) -> Option<
        Machine,
    > {
        match self.slot_in(self.home(code, id), name) {
            Some(i) => Some(
                Machine {
                    slots: self.slots.update(
                        i as int,
                        Slot { name, value, next: self.slots[i as int].next },
                    ),
                    ..self
                },
            ),
            None => None,
        }
    }

    /// A new function value.
    pub open spec fn function(self, function: Function) -> (Machine, usize) {
        (
            Machine { functions: self.functions.push(function), ..self },
            self.functions.len() as usize,
        )
    }

    /// The function `f` with `this` bound to `receiver`: a new function
    /// whose closure is a new environment, inside that of `f`, in which
    /// `this` is defined.
    pub open spec fn bind(self, f: usize, receiver: Value) -> (Machine, usize) {
        let (m, env) = self.scope(self.functions[f as int].closure);
        m.define(env, SYM_THIS, receiver).function(
            Function { closure: env, ..self.functions[f as int] },
        )
    }

    /// Pushes the value of the variable `name` used at the node `id`.
    pub open spec fn read(self, code: CodeView, id: usize, name: usize, line: usize) -> Step {
        match self.lookup(code, id, name) {
            Some(value) => self.push(value).go(),
            None => self.fail(RuntimeErrorKind::UndefinedVariable(name), line),
        }
    }

    /// Pushes the method `method` of the superclass, bound to the current
    /// instance. `super` lives one environment outside `this`.
    #[verifier::opaque]
    pub open spec fn super_method(self, code: CodeView, id: usize, method: usize, line: usize) -> Step {
        match code.depth(self.unit, id) {
            Some(depth) => if depth >= 1 {
                let above = self.slot_in(ancestor(self.envs, self.env, depth as nat), SYM_SUPER);
                let inside = self.slot_in(
                    ancestor(self.envs, self.env, (depth - 1) as nat),
                    SYM_THIS,
                );
                match (above, inside) {
                    (Some(s), Some(t)) => match self.slots[s as int].value {
                        Value::Class(class) => match find_method(
                            self.classes,
                            self.slots,
                            class,
                            method,
                        ) {
                            Some(f) => if f < self.functions.len() {
                                let (m, bound) = self.bind(f, self.slots[t as int].value);
                                m.push(Value::Function(bound)).go()
                            } else {
                                self.fail(RuntimeErrorKind::Inconsistent, line)
                            },
                            None => self.fail(RuntimeErrorKind::UndefinedProperty(method), line),
                        },
                        _ => self.fail(RuntimeErrorKind::Inconsistent, line),
                    },
                    _ => self.fail(RuntimeErrorKind::Inconsistent, line),
                }
            } else {
                self.fail(RuntimeErrorKind::Inconsistent, line)
            },
            None => self.fail(RuntimeErrorKind::Inconsistent, line),
        }
    }

    /// Evaluates the node `id` of the current unit.
    #[verifier::opaque]
    pub open spec fn run(self, code: CodeView, id: usize) -> Step {
        match code.node(self.unit, id) {
            None => self.fail(RuntimeErrorKind::Inconsistent, 0),
            Some(node) => match node {
                Node::Nil => self.push(Value::Nil).go(),
                Node::Boolean { value } => self.push(Value::Boolean(value)).go(),
                Node::Number { text } => match code.text(self.unit, text) {
                    Some(at) => (self, Some(Action::ParseNumber(at))),
                    None => self.fail(RuntimeErrorKind::Inconsistent, 0),
                },
                Node::Str { text } => match code.text(self.unit, text) {
                    Some(at) => self.push(Value::Text(at)).go(),
                    None => self.fail(RuntimeErrorKind::Inconsistent, 0),
                },
                Node::Grouping { inner } => self.plan(Frame::Run(inner)).go(),
                Node::Unary { op, operand, line } => self.plan(Frame::Unary(op, line)).plan(
                    Frame::Run(operand),
                ).go(),
                Node::Binary { op, left, right, line } => self.plan(Frame::Binary(op, line)).plan(
                    Frame::Run(right),
                ).plan(Frame::Run(left)).go(),
                Node::Logical { op, left, right } => self.plan(Frame::Logic(op, right)).plan(
                    Frame::Run(left),
                ).go(),
                Node::Variable { name, line } => self.read(code, id, code.name(self.unit, name), line),
                Node::Assign { value, .. } => self.plan(Frame::Store(id)).plan(Frame::Run(value)).go(),
                Node::Call { callee, args, line } => self.plan(Frame::Arguments(args, 0, line)).plan(
                    Frame::Run(callee),
                ).go(),
                Node::GetField { object, name, line } => self.plan(
                    Frame::GetField(code.name(self.unit, name), line),
                ).plan(Frame::Run(object)).go(),
                Node::SetField { object, name, value, line } => self.plan(
                    Frame::SetField(code.name(self.unit, name), line),
                ).plan(Frame::Run(value)).plan(Frame::Run(object)).go(),
                Node::This { line } => self.read(code, id, SYM_THIS, line),
                Node::Super { method, line } => self.super_method(
                    code,
                    id,
                    code.name(self.unit, method),
                    line,
                ),
                Node::Expression { expr } => self.plan(Frame::Discard).plan(Frame::Run(expr)).go(),
                Node::Print { expr } => self.plan(Frame::Print).plan(Frame::Run(expr)).go(),
                Node::Var { name, init, .. } => match init {
                    Some(init) => self.plan(Frame::Define(code.name(self.unit, name))).plan(
                        Frame::Run(init),
                    ).go(),
                    None => self.define(self.env, code.name(self.unit, name), Value::Nil).go(),
                },
                Node::Block { body } => {
                    let (m, inner) = self.scope(self.env);
                    Machine { env: inner, ..m }.plan(Frame::Restore(self.env)).plan(
                        Frame::Sequence(body, 0),
                    ).go()
                },
                Node::If { cond, then_branch, else_branch } => self.plan(
                    Frame::Branch(then_branch, else_branch),
                ).plan(Frame::Run(cond)).go(),
                Node::While { cond, body } => self.plan(Frame::Loop(cond, body)).plan(
                    Frame::Run(cond),
                ).go(),
                Node::Function { name, .. } => {
                    let (m, f) = self.function(
                        Function { unit: self.unit, decl: id, closure: self.env, initializer: false },
                    );
                    m.define(self.env, code.name(self.unit, name), Value::Function(f)).go()
                },
                Node::Return { value, .. } => match value {
                    Some(value) => self.plan(Frame::Return).plan(Frame::Run(value)).go(),
                    None => self.push(Value::Nil).plan(Frame::Return).go(),
                },
                Node::Class { superclass, .. } => match superclass {
                    Some(parent) => self.plan(Frame::MakeClass(id)).plan(Frame::Run(parent)).go(),
                    None => self.plan(Frame::MakeClass(id)).go(),
                },
            },
        }
    }

    /// Applies a binary operator to two values. Arithmetic and comparison of
    /// two numbers is left to the host.
    #[verifier::opaque]
    pub open spec fn binary(self, op: BinaryOp, left: Value, right: Value, line: usize) -> Step {
        match (left, right) {
            (Value::Number(a), Value::Number(b)) => match op {
                BinaryOp::Add | BinaryOp::Subtract | BinaryOp::Multiply | BinaryOp::Divide => (
                    self,
                    Some(Action::Arithmetic(op, a, b)),
                ),
                _ => (self, Some(Action::Compare(op, a, b))),
            },
            _ => match op {
                BinaryOp::Equal => self.push(
                    Value::Boolean(equal_values(self.strings, left, right)),
                ).go(),
                BinaryOp::NotEqual => self.push(
                    Value::Boolean(!equal_values(self.strings, left, right)),
                ).go(),
                BinaryOp::Add => match (left, right) {
                    (Value::Text(a), Value::Text(b)) => if a < self.strings.len() && b
                        < self.strings.len() {
                        self.join(a, b).push(Value::Text(self.strings.len() as usize)).go()
                    } else {
                        self.fail(RuntimeErrorKind::Inconsistent, line)
                    },
                    _ => self.fail(RuntimeErrorKind::OperandsMustBeNumbersOrStrings, line),
                },
                _ => self.fail(RuntimeErrorKind::OperandsMustBeNumbers(op), line),
            },
        }
    }

    /// Binds the parameters `params[k..]` in the environment `env` to the
    /// topmost `params.len` values, in order.
    pub open spec fn bind_params(
        self,
        code: CodeView,
        unit: usize,
        params: List,
        k: usize,
        env: usize,
    ) -> Machine
        decreases params.len - k,
    {
        if k >= params.len {
            self
        } else {
            match (code.link(unit, params, k), self.peek(params.len - 1 - k)) {
                (Some(name), Some(value)) => self.define(env, code.name(unit, name), value)
                    .bind_params(code, unit, params, (k + 1) as usize, env),
                _ => self,
            }
        }
    }

    /// Calls the function `f` with the topmost `argc` values; the callee
    /// lies below them. The call ends at a boundary that restores the
    /// caller's environment and leaves the result: `result` where it is
    /// given, the bound instance for an initializer, and else what the body
    /// returns.
    #[verifier::opaque]
    pub open spec fn call(self, code: CodeView, f: usize, argc: usize, line: usize, result: Option<Value>) -> Step {
        if f >= self.functions.len() || argc >= self.stack.len() {
            self.fail(RuntimeErrorKind::Inconsistent, line)
        } else {
            let function = self.functions[f as int];
            match code.node(function.unit, function.decl) {
                Some(Node::Function { params, body, .. }) => if params.len != argc {
                    self.fail(RuntimeErrorKind::Arity { expected: params.len, got: argc }, line)
                } else {
                    let (m, env) = self.scope(function.closure);
                    let bound = m.bind_params(code, function.unit, params, 0, env);
                    let forced = if result is Some {
                        result
                    } else if function.initializer {
                        match self.slot_in(Some(function.closure), SYM_THIS) {
                            Some(i) => Some(self.slots[i as int].value),
                            None => None,
                        }
                    } else {
                        None
                    };
                    Machine { env, unit: function.unit, ..bound.drop(argc + 1) }.plan(
                        Frame::CallEnd { env: self.env, unit: self.unit, result: forced },
                    ).plan(Frame::Sequence(body, 0)).go()
                },
                _ => self.fail(RuntimeErrorKind::Inconsistent, line),
            }
        }
    }

    /// Makes an instance of the class `class` and, where the class has an
    /// initializer, calls it with the topmost `argc` values; either way the
    /// result is the new instance.
    #[verifier::opaque]
    pub open spec fn instantiate(self, code: CodeView, class: usize, argc: usize, line: usize) -> Step {
        if class >= self.classes.len() || argc >= self.stack.len() {
            self.fail(RuntimeErrorKind::Inconsistent, line)
        } else {
            let made = Machine {
                instances: self.instances.push(Instance { class, fields: None }),
                ..self
            };
            let instance = Value::Instance(self.instances.len() as usize);
            match find_method(self.classes, self.slots, class, SYM_INIT) {
                Some(f) => if f < self.functions.len() {
                    let (m, bound) = made.bind(f, instance);
                    m.call(code, bound, argc, line, Some(instance))
                } else {
                    self.fail(RuntimeErrorKind::Inconsistent, line)
                },
                None => if argc != 0 {
                    self.fail(RuntimeErrorKind::Arity { expected: 0, got: argc }, line)
                } else {
                    made.drop(1).push(instance).go()
                },
            }
        }
    }

    /// Calls the value that lies below the topmost `argc` values.
    pub open spec fn invoke(self, code: CodeView, argc: usize, line: usize) -> Step {
        match self.peek(argc as int) {
            Some(Value::Function(f)) => self.call(code, f, argc, line, None),
            Some(Value::Class(class)) => self.instantiate(code, class, argc, line),
            Some(_) => self.fail(RuntimeErrorKind::NotCallable, line),
            None => self.fail(RuntimeErrorKind::Inconsistent, line),
        }
    }

    /// Reads the property `name` of the topmost value: a field of the
    /// instance or, failing that, a method of its class, bound to the
    /// instance.
    #[verifier::opaque]
    pub open spec fn get_field(self, name: usize, line: usize) -> Step {
        match self.peek(0) {
            Some(Value::Instance(i)) => if i < self.instances.len() {
                match find_slot(self.slots, self.instances[i as int].fields, name) {
                    Some(s) => self.drop(1).push(self.slots[s as int].value).go(),
                    None => match find_method(
                        self.classes,
                        self.slots,
                        self.instances[i as int].class,
                        name,
                    ) {
                        Some(f) => if f < self.functions.len() {
                            let (m, bound) = self.bind(f, Value::Instance(i));
                            m.drop(1).push(Value::Function(bound)).go()
                        } else {
                            self.fail(RuntimeErrorKind::Inconsistent, line)
                        },
                        None => self.fail(RuntimeErrorKind::UndefinedProperty(name), line),
                    },
                }
            } else {
                self.fail(RuntimeErrorKind::Inconsistent, line)
            },
            Some(_) => self.fail(RuntimeErrorKind::NotAnInstance, line),
            None => self.fail(RuntimeErrorKind::Inconsistent, line),
        }
    }

    /// Writes the topmost value to the field `name` of the instance below
    /// it, and leaves the value.
    #[verifier::opaque]
    pub open spec fn set_field(self, name: usize, line: usize) -> Step {
        match (self.peek(1), self.peek(0)) {
            (Some(Value::Instance(i)), Some(value)) => if i < self.instances.len() {
                let (slots, fields) = write_slot(
                    self.slots,
                    self.instances[i as int].fields,
                    name,
                    value,
                );
                Machine {
                    slots,
                    instances: self.instances.update(
                        i as int,
                        Instance { class: self.instances[i as int].class, fields },
                    ),
                    ..self
                }.drop(2).push(value).go()
            } else {
                self.fail(RuntimeErrorKind::Inconsistent, line)
            },
            (Some(_), Some(_)) => self.fail(RuntimeErrorKind::NotAnInstance, line),
            _ => self.fail(RuntimeErrorKind::Inconsistent, line),
        }
    }

    /// Leaves the current call with `value`: the frames above the topmost
    /// call boundary are dropped, the boundary restores the caller, and the
    /// result is left. Outside any call the program ends.
    #[verifier::opaque]
    pub open spec fn unwind(self, value: Value) -> Step {
        match last_call(self.frames, self.frames.len() as int) {
            Some(at) => match self.frames[at] {
                Frame::CallEnd { env, unit, result } => Machine {
                    frames: self.frames.take(at),
                    env,
                    unit,
                    ..self
                }.push(
                    match result {
                        Some(forced) => forced,
                        None => value,
                    },
                ).go(),
                _ => self.go(),
            },
            None => Machine { frames: Seq::empty(), stack: Seq::empty(), ..self }.go(),
        }
    }

    /// Adds the methods `methods[k..]` of a class to the chain of slots that
    /// starts at `head`; every method closes over `closure`.
    pub open spec fn add_methods(
        self,
        code: CodeView,
        methods: List,
        k: usize,
        closure: usize,
        head: Option<usize>,
    ) -> (Machine, Option<usize>)
        decreases methods.len - k,
    {
        if k >= methods.len {
            (self, head)
        } else {
            match code.link(self.unit, methods, k) {
                Some(decl) => match code.node(self.unit, decl) {
                    Some(Node::Function { name, .. }) => {
                        let global = code.name(self.unit, name);
                        let (m, f) = self.function(
                            Function {
                                unit: self.unit,
                                decl,
                                closure,
                                initializer: global == SYM_INIT,
                            },
                        );
                        let (slots, next) = write_slot(m.slots, head, global, Value::Function(f));
                        Machine { slots, ..m }.add_methods(
                            code,
                            methods,
                            (k + 1) as usize,
                            closure,
                            next,
                        )
                    },
                    _ => (self, head),
                },
                None => (self, head),
            }
        }
    }

    /// Builds a class whose superclass, if any, is `parent`, and defines it
    /// under its name. The methods of a subclass close over an environment
    /// of their own in which `super` is the superclass.
    pub open spec fn build_class(
        self,
        code: CodeView,
        name: usize,
        parent: Option<usize>,
        methods: List,
    ) -> Machine {
        let declared = self.define(self.env, name, Value::Nil);
        let (outer, closure) = match parent {
            Some(class) => {
                let (m, env) = declared.scope(self.env);
                (m.define(env, SYM_SUPER, Value::Class(class)), env)
            },
            None => (declared, self.env),
        };
        let (with_methods, head) = outer.add_methods(code, methods, 0, closure, None);
        Machine {
            classes: with_methods.classes.push(Class { name, superclass: parent, methods: head }),
            ..with_methods
        }.define(self.env, name, Value::Class(with_methods.classes.len() as usize))
    }

    /// Builds the class of the node `id`; the value of its superclass, if it
    /// has one, is the topmost value.
    #[verifier::opaque]
    pub open spec fn make_class(self, code: CodeView, id: usize) -> Step {
        match code.node(self.unit, id) {
            Some(Node::Class { name, superclass, methods, line }) => match superclass {
                Some(_) => match self.peek(0) {
                    Some(Value::Class(class)) => self.drop(1).build_class(
                        code,
                        code.name(self.unit, name),
                        Some(class),
                        methods,
                    ).go(),
                    Some(_) => self.fail(RuntimeErrorKind::SuperclassMustBeClass, line),
                    None => self.fail(RuntimeErrorKind::Inconsistent, line),
                },
                None => self.build_class(code, code.name(self.unit, name), None, methods).go(),
            },
            _ => self.fail(RuntimeErrorKind::Inconsistent, 0),
        }
    }

    /// Assigns the topmost value to the variable of the assignment node
    /// `id`; the value stays as the value of the assignment.
    #[verifier::opaque]
    pub open spec fn store(self, code: CodeView, id: usize) -> Step {
        match (code.node(self.unit, id), self.peek(0)) {
            (Some(Node::Assign { name, line, .. }), Some(value)) => match self.assign(
                code,
                id,
                code.name(self.unit, name),
                value,
            ) {
                Some(m) => m.go(),
                None => self.fail(
                    RuntimeErrorKind::UndefinedVariable(code.name(self.unit, name)),
                    line,
                ),
            },
            _ => self.fail(RuntimeErrorKind::Inconsistent, 0),
        }
    }

    /// Carries out a frame that works on the topmost value.
    #[verifier::opaque]
    pub open spec fn consume(self, frame: Frame, value: Value) -> Step {
        let rest = self.drop(1);
        match frame {
            Frame::Discard => rest.go(),
            Frame::Print => (rest, Some(Action::Print(value))),
            Frame::Define(name) => rest.define(self.env, name, value).go(),
            Frame::Unary(op, line) => match op {
                UnaryOp::Not => rest.push(Value::Boolean(!truthy(value))).go(),
                UnaryOp::Negate => match value {
                    Value::Number(bits) => (rest, Some(Action::Negate(bits))),
                    _ => self.fail(RuntimeErrorKind::OperandMustBeNumber, line),
                },
            },
            Frame::Binary(op, line) => match self.peek(1) {
                Some(left) => self.drop(2).binary(op, left, value, line),
                None => self.fail(RuntimeErrorKind::Inconsistent, line),
            },
            Frame::Logic(op, right) => if (op == LogicalOp::Or) == truthy(value) {
                self.go()
            } else {
                rest.plan(Frame::Run(right)).go()
            },
            Frame::Branch(then_branch, else_branch) => if truthy(value) {
                rest.plan(Frame::Run(then_branch)).go()
            } else {
                match else_branch {
                    Some(other) => rest.plan(Frame::Run(other)).go(),
                    None => rest.go(),
                }
            },
            Frame::Loop(cond, body) => if truthy(value) {
                rest.plan(Frame::Loop(cond, body)).plan(Frame::Run(cond)).plan(Frame::Run(body)).go()
            } else {
                rest.go()
            },
            Frame::Return => rest.unwind(value),
            _ => self.go(),
        }
    }

    /// Carries out the frame `frame`, which has been taken off the frames.
    #[verifier::opaque]
    pub open spec fn perform(self, code: CodeView, frame: Frame) -> Step {
        match frame {
            Frame::Run(id) => self.run(code, id),
            Frame::Roots(k) => if self.unit < code.units.len() && k
                < code.units[self.unit as int].program.roots.len() {
                self.plan(Frame::Roots((k + 1) as usize)).plan(
                    Frame::Run(code.units[self.unit as int].program.roots[k as int]),
                ).go()
            } else {
                self.go()
            },
            Frame::Sequence(list, k) => match code.link(self.unit, list, k) {
                Some(id) => self.plan(Frame::Sequence(list, (k + 1) as usize)).plan(Frame::Run(id)).go(),
                None => self.go(),
            },
            Frame::Arguments(list, k, line) => match code.link(self.unit, list, k) {
                Some(id) => self.plan(Frame::Arguments(list, (k + 1) as usize, line)).plan(
                    Frame::Run(id),
                ).go(),
                None => self.invoke(code, list.len, line),
            },
            Frame::CallEnd { env, unit, result } => Machine { env, unit, ..self }.push(
                match result {
                    Some(forced) => forced,
                    None => Value::Nil,
                },
            ).go(),
            Frame::Restore(env) => Machine { env, ..self }.go(),
            Frame::Store(id) => self.store(code, id),
            Frame::GetField(name, line) => self.get_field(name, line),
            Frame::SetField(name, line) => self.set_field(name, line),
            Frame::MakeClass(id) => self.make_class(code, id),
            _ => match self.peek(0) {
                Some(value) => self.consume(frame, value),
                None => self.fail(RuntimeErrorKind::Inconsistent, 0),
            },
        }
    }

    /// One step: the topmost frame is taken off and carried out. With no
    /// frame left the program has ended.
    pub open spec fn step(self, code: CodeView) -> Step {
        if self.frames.len() == 0 {
            (self, Some(Action::Finished))
        } else {
            Machine { frames: self.frames.drop_last(), ..self }.perform(code, self.frames.last())
        }
    }

    /// Takes in what the host hands back.
    pub open spec fn accept(self, event: Event) -> Machine {
        match event {
            Event::Done => self,
            Event::Number(bits) => self.push(Value::Number(bits)),
            Event::Truth(truth) => self.push(Value::Boolean(truth)),
        }
    }

    /// Steps until a step stops with an action, or `fuel` steps are done.
    pub open spec fn run_for(self, code: CodeView, fuel: nat) -> (Machine, Action)
        decreases fuel,
    {
        if fuel == 0 {
            (self, Action::Pause)
        } else {
            let (next, action) = self.step(code);
            match action {
                Some(action) => (next, action),
                None => next.run_for(code, (fuel - 1) as nat),
            }
        }
    }
}

/// The global symbols of the symbols `symbols[k..]` of a unit, behind those
/// in `map`: a name that the evaluator knows keeps its symbol, a new name is
/// added to `names`.
pub open spec fn link_names(
    names: Seq<Seq<char>>,
    symbols: Seq<Seq<char>>,
    k: nat,
    map: Seq<usize>,
) -> (Seq<Seq<char>>, Seq<usize>)
    decreases symbols.len() - k,
{
    if k >= symbols.len() {
        (names, map)
    } else {
        let at = position_of(names, symbols[k as int], 0);
        if at < names.len() {
            link_names(names, symbols, k + 1, map.push(at as usize))
        } else {
            link_names(names.push(symbols[k as int]), symbols, k + 1, map.push(at as usize))
        }
    }
}

/// The table to run a program of `nodes` nodes with: the one that was
/// handed in for it, if it has the right size, and else the empty table,
/// under which every variable is global.
pub open spec fn depths_for(pending: Option<Seq<Option<usize>>>, nodes: nat) -> Seq<Option<usize>> {
    match pending {
        Some(table) => if table.len() == nodes {
            table
        } else {
            Seq::new(nodes, |i: int| None::<usize>)
        },
        None => Seq::new(nodes, |i: int| None::<usize>),
    }
}

/// The whole of an interpreter: the programs it has been given, the state of
/// the evaluator, and the table handed in for the next program.
pub struct InterpreterView {
    pub code: CodeView,
    pub machine: Machine,
    pub pending: Option<Seq<Option<usize>>>,
}

impl InterpreterView {
    /// A new interpreter: no program, the reserved names, and the global
    /// environment.
    pub open spec fn start() -> InterpreterView {
        InterpreterView {
            code: CodeView { units: Seq::empty(), names: reserved_symbols() },
            machine: Machine::start(),
            pending: None,
        }
    }

    /// Takes `program` in as a new unit and makes its top-level statements
    /// the work to be done. What an earlier program has left undone is
    /// dropped; what it has defined stays.
    pub open spec fn load(self, program: ProgramView) -> InterpreterView {
        let (names, map) = link_names(self.code.names, program.symbols, 0, Seq::empty());
        InterpreterView {
            code: CodeView {
                units: self.code.units.push(
                    UnitView {
                        program,
                        names: map,
                        depths: depths_for(self.pending, program.nodes.len()),
                        texts: self.machine.strings.len() as usize,
                    },
                ),
                names,
            },
            machine: Machine {
                strings: self.machine.strings + program.texts,
                frames: seq![Frame::Roots(0)],
                stack: Seq::empty(),
                env: 0,
                unit: self.code.units.len() as usize,
                ..self.machine
            },
            pending: None,
        }
    }

    /// Runs for at most `fuel` steps.
    pub open spec fn run(self, fuel: nat) -> (InterpreterView, Action) {
        let (machine, action) = self.machine.run_for(self.code, fuel);
        (InterpreterView { machine, ..self }, action)
    }

    /// The name of the declaration of the function `f`.
    pub open spec fn function_name(self, f: usize) -> Option<Seq<char>> {
        if f < self.machine.functions.len() {
            let function = self.machine.functions[f as int];
            match self.code.node(function.unit, function.decl) {
                Some(Node::Function { name, .. }) => self.name(self.code.name(function.unit, name)),
                _ => None,
            }
        } else {
            None
        }
    }

    /// The name that the global symbol `symbol` stands for.
    pub open spec fn name(self, symbol: usize) -> Option<Seq<char>> {
        if symbol < self.code.names.len() {
            Some(self.code.names[symbol as int])
        } else {
            None
        }
    }

    /// The name of the class `class`.
    pub open spec fn class_name(self, class: usize) -> Option<Seq<char>> {
        if class < self.machine.classes.len() {
            self.name(self.machine.classes[class as int].name)
        } else {
            None
        }
    }

    /// How `value` is printed. A number has no text here: its digits are the
    /// host's to find.
    pub open spec fn rendering(self, value: Value) -> Option<Seq<char>> {
        match value {
            Value::Nil => Some("nil"@),
            Value::Boolean(b) => Some(
                if b {
                    "true"@
                } else {
                    "false"@
                },
            ),
            Value::Number(_) => None,
            Value::Text(at) => if at < self.machine.strings.len() {
                Some(self.machine.strings[at as int])
            } else {
                None
            },
            Value::Function(f) => match self.function_name(f) {
                Some(name) => Some("<fn "@ + name + ">"@),
                None => None,
            },
            Value::Class(class) => self.class_name(class),
            Value::Instance(i) => if i < self.machine.instances.len() {
                match self.class_name(self.machine.instances[i as int].class) {
                    Some(name) => Some(name + " instance"@),
                    None => None,
                }
            } else {
                None
            },
        }
    }
}

} // verus!
