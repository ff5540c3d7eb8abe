//! The evaluator: the machine of the module `machine`, made of vectors.
//!
//! An [`Interpreter`] keeps its global environment for as long as it lives,
//! so one interpreter can be given one program after another and each sees
//! what the earlier ones have defined. It never prints and never computes
//! with doubles: it stops with an [`Action`] and goes on when it is resumed
//! with the matching [`Event`].

use vstd::prelude::*;
use vstd::string::*;
use crate::ast::{
    find_symbol, lemma_string_views_push, reserved_symbols, string_views, BinaryOp, List,
    LogicalOp, Node, Program, UnaryOp, SYM_INIT, SYM_SUPER, SYM_THIS,
};
use crate::machine::{
    equal_values, last_call, link_names, write_slot, CodeView, InterpreterView, Machine, UnitView,
};
use crate::resolver::ScopeTable;
use crate::runtime::{
    ancestor, ancestor_of, find_method, find_method_in, find_slot_in, is_truthy, Action, Class,
    Env, Event, Frame, Function, Instance, RuntimeError, RuntimeErrorKind, Slot, Value,
};

verus! {

/// A compilation unit as the evaluator holds it.
#[derive(Debug)]
pub struct Unit {
    pub program: Program,
    pub names: Vec<usize>,
    pub depths: Vec<Option<usize>>,
    pub texts: usize,
}

impl View for Unit {
    type V = UnitView;

    open spec fn view(&self) -> UnitView {
        UnitView {
            program: self.program@,
            names: self.names@,
            depths: self.depths@,
            texts: self.texts,
        }
    }
}

/// The contents of a sequence of units.
pub open spec fn unit_views(units: Seq<Unit>) -> Seq<UnitView> {
    units.map_values(|u: Unit| u@)
}

/// The programs that the evaluator has been given.
#[derive(Debug)]
pub struct Code {
    pub units: Vec<Unit>,
    pub names: Vec<String>,
}

impl View for Code {
    type V = CodeView;

    open spec fn view(&self) -> CodeView {
        CodeView { units: unit_views(self.units@), names: string_views(self.names@) }
    }
}

impl Code {
    pub fn node(&self, unit: usize, id: usize) -> (r: Option<Node>)
        ensures
            r == self@.node(unit, id),
    {
        if unit < self.units.len() && id < self.units[unit].program.nodes.len() {
            Some(self.units[unit].program.nodes[id])
        } else {
            None
        }
    }

    pub fn name(&self, unit: usize, symbol: usize) -> (r: usize)
        ensures
            r == self@.name(unit, symbol),
    {
        if unit < self.units.len() && symbol < self.units[unit].names.len() {
            self.units[unit].names[symbol]
        } else {
            symbol
        }
    }

    pub fn depth(&self, unit: usize, id: usize) -> (r: Option<usize>)
        ensures
            r == self@.depth(unit, id),
    {
        if unit < self.units.len() && id < self.units[unit].depths.len() {
            self.units[unit].depths[id]
        } else {
            None
        }
    }

    pub fn link(&self, unit: usize, list: List, k: usize) -> (r: Option<usize>)
        ensures
            r == self@.link(unit, list, k),
            r is Some ==> k < list.len,
    {
        if unit < self.units.len() && k < list.len {
            let links = &self.units[unit].program.links;
            if list.start < links.len() && k < links.len() - list.start {
                Some(links[list.start + k])
            } else {
                None
            }
        } else {
            None
        }
    }

    pub fn text(&self, unit: usize, text: usize) -> (r: Option<usize>)
        ensures
            r == self@.text(unit, text),
    {
        if unit < self.units.len() && text <= usize::MAX - self.units[unit].texts {
            Some(self.units[unit].texts + text)
        } else {
            None
        }
    }
}

/// Writes `value` under `name` into the chain of slots that starts at
/// `head`, and gives the head of the chain afterwards.
pub fn write(slots: &mut Vec<Slot>, head: Option<usize>, name: usize, value: Value) -> (r: Option<
    usize,
>)
    ensures
        (final(slots)@, r) == write_slot(old(slots)@, head, name, value),
{
    match find_slot_in(slots, head, name) {
        Some(i) => {
            let next = slots[i].next;
            slots[i] = Slot { name, value, next };
            head
        },
        None => {
            let at = slots.len();
            slots.push(Slot { name, value, next: head });
            Some(at)
        },
    }
}

/// The state of the evaluator.
#[derive(Debug)]
pub struct State {
    pub strings: Vec<String>,
    pub envs: Vec<Env>,
    pub slots: Vec<Slot>,
    pub functions: Vec<Function>,
    pub classes: Vec<Class>,
    pub instances: Vec<Instance>,
    pub frames: Vec<Frame>,
    pub stack: Vec<Value>,
    pub env: usize,
    pub unit: usize,
}

impl View for State {
    type V = Machine;

    open spec fn view(&self) -> Machine {
        Machine {
            strings: string_views(self.strings@),
            envs: self.envs@,
            slots: self.slots@,
            functions: self.functions@,
            classes: self.classes@,
            instances: self.instances@,
            frames: self.frames@,
            stack: self.stack@,
            env: self.env,
            unit: self.unit,
        }
    }
}

impl State {
    fn push(&mut self, value: Value)
        ensures
            final(self)@ == old(self)@.push(value),
    {
        self.stack.push(value);
    }

    fn plan(&mut self, frame: Frame)
        ensures
            final(self)@ == old(self)@.plan(frame),
    {
        self.frames.push(frame);
    }

    fn peek(&self, below: usize) -> (r: Option<Value>)
        ensures
            r == self@.peek(below as int),
    {
        if below < self.stack.len() {
            Some(self.stack[self.stack.len() - 1 - below])
        } else {
            None
        }
    }

    fn drop(&mut self, count: usize)
        ensures
            final(self)@ == old(self)@.drop(count as int),
    {
        if count <= self.stack.len() {
            let keep = self.stack.len() - count;
            self.stack.truncate(keep);
            assert(self.stack@ =~= old(self).stack@.take(keep as int));
        }
    }

    fn fail(&mut self, kind: RuntimeErrorKind, line: usize) -> (r: Option<Action>)
        ensures
            (final(self)@, r) == old(self)@.fail(kind, line),
    {
        self.frames = Vec::new();
        self.stack = Vec::new();
        self.env = 0;
        Some(Action::Failed(RuntimeError { kind, line }))
    }

    fn scope(&mut self, parent: usize) -> (r: usize)
        ensures
            (final(self)@, r) == old(self)@.scope(parent),
            r < final(self)@.envs.len(),
    {
        let id = self.envs.len();
        self.envs.push(Env { parent: Some(parent), first: None });
        id
    }

    fn define(&mut self, env: usize, name: usize, value: Value)
        ensures
            final(self)@ == old(self)@.define(env, name, value),
    {
        if env < self.envs.len() {
            let parent = self.envs[env].parent;
            let first = write(&mut self.slots, self.envs[env].first, name, value);
            self.envs[env] = Env { parent, first };
        }
    }

    fn home(&self, code: &Code, id: usize) -> (r: Option<usize>)
        ensures
            r == self@.home(code@, id),
    {
        match code.depth(self.unit, id) {
            Some(depth) => ancestor_of(&self.envs, self.env, depth),
            None => {
                if self.envs.len() > 0 {
                    Some(0)
                } else {
                    None
                }
            },
        }
    }

    fn slot_in(&self, env: Option<usize>, name: usize) -> (r: Option<usize>)
        ensures
            r == self@.slot_in(env, name),
            r matches Some(i) ==> i < self@.slots.len(),
    {
        match env {
            Some(e) => {
                if e < self.envs.len() {
                    find_slot_in(&self.slots, self.envs[e].first, name)
                } else {
                    None
                }
            },
            None => None,
        }
    }

    fn lookup(&self, code: &Code, id: usize, name: usize) -> (r: Option<Value>)
        ensures
            r == self@.lookup(code@, id, name),
    {
        match self.slot_in(self.home(code, id), name) {
            Some(i) => Some(self.slots[i].value),
            None => None,
        }
    }

    fn function(&mut self, function: Function) -> (r: usize)
        ensures
            (final(self)@, r) == old(self)@.function(function),
            r < final(self)@.functions.len(),
    {
        let id = self.functions.len();
        self.functions.push(function);
        id
    }

    fn bind(&mut self, f: usize, receiver: Value) -> (r: usize)
        requires
            f < old(self)@.functions.len(),
        ensures
            (final(self)@, r) == old(self)@.bind(f, receiver),
            r < final(self)@.functions.len(),
    {
        let function = self.functions[f];
        let env = self.scope(function.closure);
        self.define(env, SYM_THIS, receiver);
        self.function(
            Function {
                unit: function.unit,
                decl: function.decl,
                closure: env,
                initializer: function.initializer,
            },
        )
    }

    fn read(&mut self, code: &Code, id: usize, name: usize, line: usize) -> (r: Option<Action>)
        ensures
            (final(self)@, r) == old(self)@.read(code@, id, name, line),
    {
        match self.lookup(code, id, name) {
            Some(value) => {
                self.push(value);
                None
            },
            None => self.fail(RuntimeErrorKind::UndefinedVariable(name), line),
        }
    }
    fn assign(&mut self, code: &Code, id: usize, name: usize, value: Value) -> (done: bool)
        ensures
            match old(self)@.assign(code@, id, name, value) {
                Some(m) => done && final(self)@ == m,
                None => !done && final(self)@ == old(self)@,
            },
    {
        match self.slot_in(self.home(code, id), name) {
            Some(i) => {
                let next = self.slots[i].next;
                self.slots[i] = Slot { name, value, next };
                true
            },
            None => false,
        }
    }

    fn values_equal(&self, left: Value, right: Value) -> (r: bool)
        ensures
            r == equal_values(self@.strings, left, right),
    {
        match (left, right) {
            (Value::Nil, Value::Nil) => true,
            (Value::Boolean(a), Value::Boolean(b)) => a == b,
            (Value::Number(a), Value::Number(b)) => a == b,
            (Value::Text(a), Value::Text(b)) => a == b || (a < self.strings.len() && b
                < self.strings.len() && self.strings[a] == self.strings[b]),
            (Value::Function(a), Value::Function(b)) => a == b,
            (Value::Class(a), Value::Class(b)) => a == b,
            (Value::Instance(a), Value::Instance(b)) => a == b,
            _ => false,
        }
    }

    /// Appends the text of the strings `a` and `b` to the string table.
    fn concat(&mut self, a: usize, b: usize) -> (r: usize)
        requires
            a < old(self)@.strings.len(),
            b < old(self)@.strings.len(),
        ensures
            final(self)@ == old(self)@.join(a, b),
            r == old(self)@.strings.len(),
    {
        let mut joined = self.strings[a].clone();
        joined.append(self.strings[b].as_str());
        proof {
            lemma_string_views_push(self.strings@, joined);
        }
        let at = self.strings.len();
        self.strings.push(joined);
        at
    }

    fn super_method(&mut self, code: &Code, id: usize, method: usize, line: usize) -> (r: Option<
        Action,
    >)
        ensures
            (final(self)@, r) == old(self)@.super_method(code@, id, method, line),
    {
        let found = match code.depth(self.unit, id) {
            Some(depth) => {
                if depth >= 1 {
                    let above = self.slot_in(ancestor_of(&self.envs, self.env, depth), SYM_SUPER);
                    let inside = self.slot_in(
                        ancestor_of(&self.envs, self.env, depth - 1),
                        SYM_THIS,
                    );
                    match (above, inside) {
                        (Some(s), Some(t)) => match self.slots[s].value {
                            Value::Class(class) => match find_method_in(
                                &self.classes,
                                &self.slots,
                                class,
                                method,
                            ) {
                                Some(f) => {
                                    if f < self.functions.len() {
                                        Ok((f, self.slots[t].value))
                                    } else {
                                        Err(RuntimeErrorKind::Inconsistent)
                                    }
                                },
                                None => Err(RuntimeErrorKind::UndefinedProperty(method)),
                            },
                            _ => Err(RuntimeErrorKind::Inconsistent),
                        },
                        _ => Err(RuntimeErrorKind::Inconsistent),
                    }
                } else {
                    Err(RuntimeErrorKind::Inconsistent)
                }
            },
            None => Err(RuntimeErrorKind::Inconsistent),
        };
        let r = match found {
            Ok((f, receiver)) => {
                let bound = self.bind(f, receiver);
                self.push(Value::Function(bound));
                None
            },
            Err(kind) => self.fail(kind, line),
        };
        proof {
            assert((self@, r) == old(self)@.super_method(code@, id, method, line)) by {
                reveal(Machine::super_method);
            }
        }
        r
    }

    fn run(&mut self, code: &Code, id: usize) -> (r: Option<Action>)
        ensures
            (final(self)@, r) == old(self)@.run(code@, id),
    {
        let unit = self.unit;
        let r = match code.node(unit, id) {
            None => self.fail(RuntimeErrorKind::Inconsistent, 0),
            Some(node) => match node {
                Node::Nil => {
                    self.push(Value::Nil);
                    None
                },
                Node::Boolean { value } => {
                    self.push(Value::Boolean(value));
                    None
                },
                Node::Number { text } => match code.text(unit, text) {
                    Some(at) => Some(Action::ParseNumber(at)),
                    None => self.fail(RuntimeErrorKind::Inconsistent, 0),
                },
                Node::Str { text } => match code.text(unit, text) {
                    Some(at) => {
                        self.push(Value::Text(at));
                        None
                    },
                    None => self.fail(RuntimeErrorKind::Inconsistent, 0),
                },
                Node::Grouping { inner } => {
                    self.plan(Frame::Run(inner));
                    None
                },
                Node::Unary { op, operand, line } => {
                    self.plan(Frame::Unary(op, line));
                    self.plan(Frame::Run(operand));
                    None
                },
                Node::Binary { op, left, right, line } => {
                    self.plan(Frame::Binary(op, line));
                    self.plan(Frame::Run(right));
                    self.plan(Frame::Run(left));
                    None
                },
                Node::Logical { op, left, right } => {
                    self.plan(Frame::Logic(op, right));
                    self.plan(Frame::Run(left));
                    None
                },
                Node::Variable { name, line } => self.read(code, id, code.name(unit, name), line),
                Node::Assign { value, .. } => {
                    self.plan(Frame::Store(id));
                    self.plan(Frame::Run(value));
                    None
                },
                Node::Call { callee, args, line } => {
                    self.plan(Frame::Arguments(args, 0, line));
                    self.plan(Frame::Run(callee));
                    None
                },
                Node::GetField { object, name, line } => {
                    self.plan(Frame::GetField(code.name(unit, name), line));
                    self.plan(Frame::Run(object));
                    None
                },
                Node::SetField { object, name, value, line } => {
                    self.plan(Frame::SetField(code.name(unit, name), line));
                    self.plan(Frame::Run(value));
                    self.plan(Frame::Run(object));
                    None
                },
                Node::This { line } => self.read(code, id, SYM_THIS, line),
                Node::Super { method, line } => self.super_method(
                    code,
                    id,
                    code.name(unit, method),
                    line,
                ),
                Node::Expression { expr } => {
                    self.plan(Frame::Discard);
                    self.plan(Frame::Run(expr));
                    None
                },
                Node::Print { expr } => {
                    self.plan(Frame::Print);
                    self.plan(Frame::Run(expr));
                    None
                },
                Node::Var { name, init, .. } => {
                    match init {
                        Some(init) => {
                            self.plan(Frame::Define(code.name(unit, name)));
                            self.plan(Frame::Run(init));
                        },
                        None => {
                            self.define(self.env, code.name(unit, name), Value::Nil);
                        },
                    }
                    None
                },
                Node::Block { body } => {
                    let outer = self.env;
                    let inner = self.scope(outer);
                    self.env = inner;
                    self.plan(Frame::Restore(outer));
                    self.plan(Frame::Sequence(body, 0));
                    None
                },
                Node::If { cond, then_branch, else_branch } => {
                    self.plan(Frame::Branch(then_branch, else_branch));
                    self.plan(Frame::Run(cond));
                    None
                },
                Node::While { cond, body } => {
                    self.plan(Frame::Loop(cond, body));
                    self.plan(Frame::Run(cond));
                    None
                },
                Node::Function { name, .. } => {
                    let f = self.function(
                        Function { unit, decl: id, closure: self.env, initializer: false },
                    );
                    self.define(self.env, code.name(unit, name), Value::Function(f));
                    None
                },
                Node::Return { value, .. } => {
                    match value {
                        Some(value) => {
                            self.plan(Frame::Return);
                            self.plan(Frame::Run(value));
                        },
                        None => {
                            self.push(Value::Nil);
                            self.plan(Frame::Return);
                        },
                    }
                    None
                },
                Node::Class { superclass, .. } => {
                    self.plan(Frame::MakeClass(id));
                    match superclass {
                        Some(parent) => {
                            self.plan(Frame::Run(parent));
                        },
                        None => {},
                    }
                    None
                },
            },
        };
        proof {
            assert((self@, r) == old(self)@.run(code@, id)) by {
                reveal(Machine::run);
            }
        }
        r
    }

    fn binary(&mut self, op: BinaryOp, left: Value, right: Value, line: usize) -> (r: Option<
        Action,
    >)
        ensures
            (final(self)@, r) == old(self)@.binary(op, left, right, line),
    {
        let r = match (left, right) {
            (Value::Number(a), Value::Number(b)) => match op {
                BinaryOp::Add | BinaryOp::Subtract | BinaryOp::Multiply | BinaryOp::Divide => Some(
                    Action::Arithmetic(op, a, b),
                ),
                _ => Some(Action::Compare(op, a, b)),
            },
            _ => match op {
                BinaryOp::Equal => {
                    let equal = self.values_equal(left, right);
                    self.push(Value::Boolean(equal));
                    None
                },
                BinaryOp::NotEqual => {
                    let equal = self.values_equal(left, right);
                    self.push(Value::Boolean(!equal));
                    None
                },
                BinaryOp::Add => match (left, right) {
                    (Value::Text(a), Value::Text(b)) => {
                        if a < self.strings.len() && b < self.strings.len() {
                            let joined = self.concat(a, b);
                            self.push(Value::Text(joined));
                            None
                        } else {
                            self.fail(RuntimeErrorKind::Inconsistent, line)
                        }
                    },
                    _ => self.fail(RuntimeErrorKind::OperandsMustBeNumbersOrStrings, line),
                },
                _ => self.fail(RuntimeErrorKind::OperandsMustBeNumbers(op), line),
            },
        };
        proof {
            assert((self@, r) == old(self)@.binary(op, left, right, line)) by {
                reveal(Machine::binary);
            }
        }
        r
    }

    fn bind_params(&mut self, code: &Code, unit: usize, params: List, env: usize)
        ensures
            final(self)@ == old(self)@.bind_params(code@, unit, params, 0, env),
    {
        let mut k: usize = 0;
        while k < params.len
            invariant
                k <= params.len,
                self@.bind_params(code@, unit, params, k, env)
                    == old(self)@.bind_params(code@, unit, params, 0, env),
            decreases params.len - k,
        {
            match (code.link(unit, params, k), self.peek(params.len - 1 - k)) {
                (Some(name), Some(value)) => {
                    self.define(env, code.name(unit, name), value);
                    k = k + 1;
                },
                _ => {
                    return ;
                },
            }
        }
    }

    fn call(&mut self, code: &Code, f: usize, argc: usize, line: usize, result: Option<Value>) -> (r:
        Option<Action>)
        ensures
            (final(self)@, r) == old(self)@.call(code@, f, argc, line, result),
    {
        let r = if f >= self.functions.len() || argc >= self.stack.len() {
            self.fail(RuntimeErrorKind::Inconsistent, line)
        } else {
            let function = self.functions[f];
            match code.node(function.unit, function.decl) {
                Some(Node::Function { params, body, .. }) => {
                    if params.len != argc {
                        self.fail(
                            RuntimeErrorKind::Arity { expected: params.len, got: argc },
                            line,
                        )
                    } else {
                        let forced = if result.is_some() {
                            result
                        } else if function.initializer {
                            match self.slot_in(Some(function.closure), SYM_THIS) {
                                Some(i) => Some(self.slots[i].value),
                                None => None,
                            }
                        } else {
                            None
                        };
                        let caller = self.env;
                        let unit = self.unit;
                        let env = self.scope(function.closure);
                        self.bind_params(code, function.unit, params, env);
                        self.drop(argc + 1);
                        self.env = env;
                        self.unit = function.unit;
                        self.plan(Frame::CallEnd { env: caller, unit, result: forced });
                        self.plan(Frame::Sequence(body, 0));
                        None
                    }
                },
                _ => self.fail(RuntimeErrorKind::Inconsistent, line),
            }
        };
        proof {
            assert((self@, r) == old(self)@.call(code@, f, argc, line, result)) by {
                reveal(Machine::call);
            }
        }
        r
    }

    fn instantiate(&mut self, code: &Code, class: usize, argc: usize, line: usize) -> (r: Option<
        Action,
    >)
        ensures
            (final(self)@, r) == old(self)@.instantiate(code@, class, argc, line),
    {
        let r = if class >= self.classes.len() || argc >= self.stack.len() {
            self.fail(RuntimeErrorKind::Inconsistent, line)
        } else {
            match find_method_in(&self.classes, &self.slots, class, SYM_INIT) {
                Some(f) => {
                    if f < self.functions.len() {
                        let instance = Value::Instance(self.instances.len());
                        self.instances.push(Instance { class, fields: None });
                        let bound = self.bind(f, instance);
                        self.call(code, bound, argc, line, Some(instance))
                    } else {
                        self.fail(RuntimeErrorKind::Inconsistent, line)
                    }
                },
                None => {
                    if argc != 0 {
                        self.fail(RuntimeErrorKind::Arity { expected: 0, got: argc }, line)
                    } else {
                        let instance = Value::Instance(self.instances.len());
                        self.instances.push(Instance { class, fields: None });
                        self.drop(1);
                        self.push(instance);
                        None
                    }
                },
            }
        };
        proof {
            assert((self@, r) == old(self)@.instantiate(code@, class, argc, line)) by {
                reveal(Machine::instantiate);
            }
        }
        r
    }

    fn invoke(&mut self, code: &Code, argc: usize, line: usize) -> (r: Option<Action>)
        ensures
            (final(self)@, r) == old(self)@.invoke(code@, argc, line),
    {
        match self.peek(argc) {
            Some(Value::Function(f)) => self.call(code, f, argc, line, None),
            Some(Value::Class(class)) => self.instantiate(code, class, argc, line),
            Some(_) => self.fail(RuntimeErrorKind::NotCallable, line),
            None => self.fail(RuntimeErrorKind::Inconsistent, line),
        }
    }

    fn get_field(&mut self, name: usize, line: usize) -> (r: Option<Action>)
        ensures
            (final(self)@, r) == old(self)@.get_field(name, line),
    {
        let r = match self.peek(0) {
            Some(Value::Instance(i)) => {
                if i < self.instances.len() {
                    match find_slot_in(&self.slots, self.instances[i].fields, name) {
                        Some(s) => {
                            let value = self.slots[s].value;
                            self.drop(1);
                            self.push(value);
                            None
                        },
                        None => match find_method_in(
                            &self.classes,
                            &self.slots,
                            self.instances[i].class,
                            name,
                        ) {
                            Some(f) => {
                                if f < self.functions.len() {
                                    let bound = self.bind(f, Value::Instance(i));
                                    self.drop(1);
                                    self.push(Value::Function(bound));
                                    None
                                } else {
                                    self.fail(RuntimeErrorKind::Inconsistent, line)
                                }
                            },
                            None => self.fail(RuntimeErrorKind::UndefinedProperty(name), line),
                        },
                    }
                } else {
                    self.fail(RuntimeErrorKind::Inconsistent, line)
                }
            },
            Some(_) => self.fail(RuntimeErrorKind::NotAnInstance, line),
            None => self.fail(RuntimeErrorKind::Inconsistent, line),
        };
        proof {
            assert((self@, r) == old(self)@.get_field(name, line)) by {
                reveal(Machine::get_field);
            }
        }
        r
    }

    fn set_field(&mut self, name: usize, line: usize) -> (r: Option<Action>)
        ensures
            (final(self)@, r) == old(self)@.set_field(name, line),
    {
        let r = match (self.peek(1), self.peek(0)) {
            (Some(Value::Instance(i)), Some(value)) => {
                if i < self.instances.len() {
                    let class = self.instances[i].class;
                    let fields = write(&mut self.slots, self.instances[i].fields, name, value);
                    self.instances[i] = Instance { class, fields };
                    self.drop(2);
                    self.push(value);
                    None
                } else {
                    self.fail(RuntimeErrorKind::Inconsistent, line)
                }
            },
            (Some(_), Some(_)) => self.fail(RuntimeErrorKind::NotAnInstance, line),
            _ => self.fail(RuntimeErrorKind::Inconsistent, line),
        };
        proof {
            assert((self@, r) == old(self)@.set_field(name, line)) by {
                reveal(Machine::set_field);
            }
        }
        r
    }

    fn last_call(&self) -> (r: Option<usize>)
        ensures
            r matches Some(at) ==> at < self@.frames.len() && last_call(
                self@.frames,
                self@.frames.len() as int,
            ) == Some(at as int),
            r is None ==> last_call(self@.frames, self@.frames.len() as int) is None,
    {
        let mut upto: usize = self.frames.len();
        while upto > 0
            invariant
                upto <= self.frames@.len(),
                last_call(self@.frames, upto as int) == last_call(
                    self@.frames,
                    self@.frames.len() as int,
                ),
            decreases upto,
        {
            match self.frames[upto - 1] {
                Frame::CallEnd { .. } => {
                    return Some(upto - 1);
                },
                _ => {},
            }
            upto = upto - 1;
        }
        None
    }

    fn unwind(&mut self, value: Value) -> (r: Option<Action>)
        ensures
            (final(self)@, r) == old(self)@.unwind(value),
    {
        match self.last_call() {
            Some(at) => match self.frames[at] {
                Frame::CallEnd { env, unit, result } => {
                    self.frames.truncate(at);
                    assert(self.frames@ =~= old(self).frames@.take(at as int));
                    self.env = env;
                    self.unit = unit;
                    self.push(
                        match result {
                            Some(forced) => forced,
                            None => value,
                        },
                    );
                },
                _ => {},
            },
            None => {
                self.frames = Vec::new();
                self.stack = Vec::new();
            },
        }
        proof {
            assert((self@, None::<Action>) == old(self)@.unwind(value)) by {
                reveal(Machine::unwind);
            }
        }
        None
    }

    fn add_methods(&mut self, code: &Code, methods: List, closure: usize) -> (head: Option<usize>)
        ensures
            (final(self)@, head) == old(self)@.add_methods(code@, methods, 0, closure, None),
    {
        let mut head: Option<usize> = None;
        let mut k: usize = 0;
        while k < methods.len
            invariant
                k <= methods.len,
                self@.add_methods(code@, methods, k, closure, head)
                    == old(self)@.add_methods(code@, methods, 0, closure, None),
            decreases methods.len - k,
        {
            let unit = self.unit;
            let name = match code.link(unit, methods, k) {
                Some(decl) => match code.node(unit, decl) {
                    Some(Node::Function { name, .. }) => Some((decl, code.name(unit, name))),
                    _ => None,
                },
                None => None,
            };
            match name {
                Some((decl, global)) => {
                    let f = self.function(
                        Function { unit, decl, closure, initializer: global == SYM_INIT },
                    );
                    head = write(&mut self.slots, head, global, Value::Function(f));
                    k = k + 1;
                },
                None => {
                    return head;
                },
            }
        }
        head
    }

    fn build_class(&mut self, code: &Code, name: usize, parent: Option<usize>, methods: List)
        ensures
            final(self)@ == old(self)@.build_class(code@, name, parent, methods),
    {
        let home = self.env;
        self.define(home, name, Value::Nil);
        let closure = match parent {
            Some(class) => {
                let env = self.scope(home);
                self.define(env, SYM_SUPER, Value::Class(class));
                env
            },
            None => home,
        };
        let head = self.add_methods(code, methods, closure);
        let made = self.classes.len();
        self.classes.push(Class { name, superclass: parent, methods: head });
        self.define(home, name, Value::Class(made));
    }

    fn make_class(&mut self, code: &Code, id: usize) -> (r: Option<Action>)
        ensures
            (final(self)@, r) == old(self)@.make_class(code@, id),
    {
        let unit = self.unit;
        let r = match code.node(unit, id) {
            Some(Node::Class { name, superclass, methods, line }) => match superclass {
                Some(_) => match self.peek(0) {
                    Some(Value::Class(class)) => {
                        self.drop(1);
                        self.build_class(code, code.name(unit, name), Some(class), methods);
                        None
                    },
                    Some(_) => self.fail(RuntimeErrorKind::SuperclassMustBeClass, line),
                    None => self.fail(RuntimeErrorKind::Inconsistent, line),
                },
                None => {
                    self.build_class(code, code.name(unit, name), None, methods);
                    None
                },
            },
            _ => self.fail(RuntimeErrorKind::Inconsistent, 0),
        };
        proof {
            assert((self@, r) == old(self)@.make_class(code@, id)) by {
                reveal(Machine::make_class);
            }
        }
        r
    }

    fn store(&mut self, code: &Code, id: usize) -> (r: Option<Action>)
        ensures
            (final(self)@, r) == old(self)@.store(code@, id),
    {
        let unit = self.unit;
        let r = match (code.node(unit, id), self.peek(0)) {
            (Some(Node::Assign { name, line, .. }), Some(value)) => {
                let global = code.name(unit, name);
                if self.assign(code, id, global, value) {
                    None
                } else {
                    self.fail(RuntimeErrorKind::UndefinedVariable(global), line)
                }
            },
            _ => self.fail(RuntimeErrorKind::Inconsistent, 0),
        };
        proof {
            assert((self@, r) == old(self)@.store(code@, id)) by {
                reveal(Machine::store);
            }
        }
        r
    }

    fn consume(&mut self, frame: Frame, value: Value) -> (r: Option<Action>)
        requires
            old(self)@.peek(0) == Some(value),
        ensures
            (final(self)@, r) == old(self)@.consume(frame, value),
    {
        let r = match frame {
            Frame::Discard => {
                self.drop(1);
                None
            },
            Frame::Print => {
                self.drop(1);
                Some(Action::Print(value))
            },
            Frame::Define(name) => {
                self.drop(1);
                self.define(self.env, name, value);
                None
            },
            Frame::Unary(op, line) => match op {
                UnaryOp::Not => {
                    self.drop(1);
                    self.push(Value::Boolean(!is_truthy(value)));
                    None
                },
                UnaryOp::Negate => match value {
                    Value::Number(bits) => {
                        self.drop(1);
                        Some(Action::Negate(bits))
                    },
                    _ => self.fail(RuntimeErrorKind::OperandMustBeNumber, line),
                },
            },
            Frame::Binary(op, line) => match self.peek(1) {
                Some(left) => {
                    self.drop(2);
                    self.binary(op, left, value, line)
                },
                None => self.fail(RuntimeErrorKind::Inconsistent, line),
            },
            Frame::Logic(op, right) => {
                let keep = match op {
                    LogicalOp::Or => is_truthy(value),
                    LogicalOp::And => !is_truthy(value),
                };
                if !keep {
                    self.drop(1);
                    self.plan(Frame::Run(right));
                }
                None
            },
            Frame::Branch(then_branch, else_branch) => {
                self.drop(1);
                if is_truthy(value) {
                    self.plan(Frame::Run(then_branch));
                } else {
                    match else_branch {
                        Some(other) => {
                            self.plan(Frame::Run(other));
                        },
                        None => {},
                    }
                }
                None
            },
            Frame::Loop(cond, body) => {
                self.drop(1);
                if is_truthy(value) {
                    self.plan(Frame::Loop(cond, body));
                    self.plan(Frame::Run(cond));
                    self.plan(Frame::Run(body));
                }
                None
            },
            Frame::Return => {
                self.drop(1);
                self.unwind(value)
            },
            _ => None,
        };
        proof {
            assert((self@, r) == old(self)@.consume(frame, value)) by {
                reveal(Machine::consume);
            }
        }
        r
    }

    fn perform(&mut self, code: &Code, frame: Frame) -> (r: Option<Action>)
        ensures
            (final(self)@, r) == old(self)@.perform(code@, frame),
    {
        let unit = self.unit;
        let r = match frame {
            Frame::Run(id) => self.run(code, id),
            Frame::Roots(k) => {
                if unit < code.units.len() && k < code.units[unit].program.roots.len() {
                    self.plan(Frame::Roots(k + 1));
                    self.plan(Frame::Run(code.units[unit].program.roots[k]));
                }
                None
            },
            Frame::Sequence(list, k) => match code.link(unit, list, k) {
                Some(id) => {
                    self.plan(Frame::Sequence(list, k + 1));
                    self.plan(Frame::Run(id));
                    None
                },
                None => None,
            },
            Frame::Arguments(list, k, line) => match code.link(unit, list, k) {
                Some(id) => {
                    self.plan(Frame::Arguments(list, k + 1, line));
                    self.plan(Frame::Run(id));
                    None
                },
                None => self.invoke(code, list.len, line),
            },
            Frame::CallEnd { env, unit, result } => {
                self.env = env;
                self.unit = unit;
                self.push(
                    match result {
                        Some(forced) => forced,
                        None => Value::Nil,
                    },
                );
                None
            },
            Frame::Restore(env) => {
                self.env = env;
                None
            },
            Frame::Store(id) => self.store(code, id),
            Frame::GetField(name, line) => self.get_field(name, line),
            Frame::SetField(name, line) => self.set_field(name, line),
            Frame::MakeClass(id) => self.make_class(code, id),
            _ => match self.peek(0) {
                Some(value) => self.consume(frame, value),
                None => self.fail(RuntimeErrorKind::Inconsistent, 0),
            },
        };
        proof {
            assert((self@, r) == old(self)@.perform(code@, frame)) by {
                reveal(Machine::perform);
            }
        }
        r
    }

    /// One step of the evaluator.
    pub fn step(&mut self, code: &Code) -> (r: Option<Action>)
        ensures
            (final(self)@, r) == old(self)@.step(code@),
    {
        match self.frames.pop() {
            Some(frame) => self.perform(code, frame),
            None => Some(Action::Finished),
        }
    }

    /// Takes in what the host hands back.
    pub fn accept(&mut self, event: Event)
        ensures
            final(self)@ == old(self)@.accept(event),
    {
        match event {
            Event::Done => {},
            Event::Number(bits) => {
                self.push(Value::Number(bits));
            },
            Event::Truth(truth) => {
                self.push(Value::Boolean(truth));
            },
        }
    }

    /// Steps until a step stops with an action, or `fuel` steps are done.
    pub fn run_for(&mut self, code: &Code, fuel: usize) -> (r: Action)
        ensures
            (final(self)@, r) == old(self)@.run_for(code@, fuel as nat),
    {
        let mut left = fuel;
        while left > 0
            invariant
                self@.run_for(code@, left as nat) == old(self)@.run_for(code@, fuel as nat),
            decreases left,
        {
            match self.step(code) {
                Some(action) => {
                    return action;
                },
                None => {},
            }
            left = left - 1;
        }
        Action::Pause
    }
}

/// A tree-walking interpreter.
#[derive(Debug)]
pub struct Interpreter {
    pub code: Code,
    pub state: State,
    pub pending: Option<ScopeTable>,
}

impl View for Interpreter {
    type V = InterpreterView;

    open spec fn view(&self) -> InterpreterView {
        InterpreterView {
            code: self.code@,
            machine: self.state@,
            pending: match self.pending {
                Some(table) => Some(table@),
                None => None,
            },
        }
    }
}

pub proof fn lemma_unit_views_push(units: Seq<Unit>, unit: Unit)
    ensures
        unit_views(units.push(unit)) == unit_views(units).push(unit@),
{
    assert(unit_views(units.push(unit)) =~= unit_views(units).push(unit@));
}

/// A table of `nodes` entries that records nothing.
fn empty_table(nodes: usize) -> (r: Vec<Option<usize>>)
    ensures
        r@ == Seq::new(nodes as nat, |i: int| None::<usize>),
{
    let mut depths: Vec<Option<usize>> = Vec::new();
    let mut i: usize = 0;
    while i < nodes
        invariant
            i <= nodes,
            depths@.len() == i,
            forall|j: int| 0 <= j < i ==> depths@[j] == None::<usize>,
        decreases nodes - i,
    {
        depths.push(None);
        i = i + 1;
    }
    assert(depths@ =~= Seq::new(nodes as nat, |i: int| None::<usize>));
    depths
}

/// Gives each symbol of a unit its global symbol, adding the names that are
/// new to `names`.
fn link(names: &mut Vec<String>, symbols: &Vec<String>) -> (map: Vec<usize>)
    ensures
        (string_views(final(names)@), map@)
            == link_names(string_views(old(names)@), string_views(symbols@), 0, Seq::empty()),
{
    let mut map: Vec<usize> = Vec::new();
    let mut k: usize = 0;
    while k < symbols.len()
        invariant
            k <= symbols@.len(),
            link_names(string_views(names@), string_views(symbols@), k as nat, map@)
                == link_names(string_views(old(names)@), string_views(symbols@), 0, Seq::empty()),
        decreases symbols@.len() - k,
    {
        let at = find_symbol(names, &symbols[k]);
        if at >= names.len() {
            proof {
                lemma_string_views_push(names@, symbols@[k as int]);
            }
            names.push(symbols[k].clone());
        }
        map.push(at);
        k = k + 1;
    }
    map
}

/// Appends copies of `texts` to `strings`.
fn append_texts(strings: &mut Vec<String>, texts: &Vec<String>)
    ensures
        string_views(final(strings)@) == string_views(old(strings)@) + string_views(texts@),
{
    let mut k: usize = 0;
    while k < texts.len()
        invariant
            k <= texts@.len(),
            string_views(strings@) == string_views(old(strings)@) + string_views(texts@).take(
                k as int,
            ),
        decreases texts@.len() - k,
    {
        proof {
            lemma_string_views_push(strings@, texts@[k as int]);
        }
        strings.push(texts[k].clone());
        k = k + 1;
        assert(string_views(strings@) =~= string_views(old(strings)@) + string_views(texts@).take(
            k as int,
        ));
    }
    assert(string_views(texts@).take(texts@.len() as int) =~= string_views(texts@));
}

impl Interpreter {
    /// A new interpreter, with an empty global environment.
    pub fn new() -> (r: Interpreter)
        ensures
            r@ == InterpreterView::start(),
    {
        let mut names: Vec<String> = Vec::new();
        names.push(String::from_str("init"));
        names.push(String::from_str("this"));
        names.push(String::from_str("super"));
        let mut envs: Vec<Env> = Vec::new();
        envs.push(Env { parent: None, first: None });
        let r = Interpreter {
            code: Code { units: Vec::new(), names },
            state: State {
                strings: Vec::new(),
                envs,
                slots: Vec::new(),
                functions: Vec::new(),
                classes: Vec::new(),
                instances: Vec::new(),
                frames: Vec::new(),
                stack: Vec::new(),
                env: 0,
                unit: 0,
            },
            pending: None,
        };
        proof {
            assert(r@.code.names =~= reserved_symbols());
            assert(r@.code.units =~= Seq::<UnitView>::empty());
            assert(r@.machine.strings =~= Seq::<Seq<char>>::empty());
            assert(r@.machine.envs =~= Machine::start().envs);
        }
        r
    }

    /// Hands in the resolver's table for the program that is interpreted
    /// next.
    pub fn add_scopes(&mut self, table: ScopeTable)
        ensures
            final(self)@ == (InterpreterView { pending: Some(table@), ..old(self)@ }),
    {
        self.pending = Some(table);
    }

    /// Takes `program` in as a new unit, ready to run.
    fn load(&mut self, program: Program)
        ensures
            final(self)@ == old(self)@.load(program@),
    {
        let nodes = program.nodes.len();
        let depths = match self.pending.take() {
            Some(table) => {
                if table.depths.len() == nodes {
                    table.depths
                } else {
                    empty_table(nodes)
                }
            },
            None => empty_table(nodes),
        };
        let names = link(&mut self.code.names, &program.symbols);
        let texts = self.state.strings.len();
        append_texts(&mut self.state.strings, &program.texts);
        let unit = self.code.units.len();
        let made = Unit { program, names, depths, texts };
        proof {
            lemma_unit_views_push(self.code.units@, made);
        }
        self.code.units.push(made);
        let mut frames: Vec<Frame> = Vec::new();
        frames.push(Frame::Roots(0));
        assert(frames@ =~= seq![Frame::Roots(0)]);
        self.state.frames = frames;
        self.state.stack = Vec::new();
        self.state.env = 0;
        self.state.unit = unit;
    }

    /// Starts to run `program` against what earlier programs have defined,
    /// and runs it for at most `fuel` steps.
    ///
    /// The table last handed in with [`Interpreter::add_scopes`] is used
    /// for the program; without one every variable is looked up in the
    /// global environment. The action that comes back says why the run has
    /// stopped and what the host is to do before it calls
    /// [`Interpreter::resume`].
    pub fn interpret(&mut self, program: Program, fuel: usize) -> (action: Action)
        ensures
            (final(self)@, action) == old(self)@.load(program@).run(fuel as nat),
    {
        self.load(program);
        self.state.run_for(&self.code, fuel)
    }

    /// Goes on with the run after the host has done what the last action
    /// asked for, for at most `fuel` steps.
    pub fn resume(&mut self, event: Event, fuel: usize) -> (action: Action)
        ensures
            (final(self)@, action)
                == (InterpreterView { machine: old(self)@.machine.accept(event), ..old(self)@ }).run(fuel as nat),
    {
        self.state.accept(event);
        self.state.run_for(&self.code, fuel)
    }

    /// The text in the string table at `at`.
    pub fn text(&self, at: usize) -> (r: Option<String>)
        ensures
            match r {
                Some(text) => at < self@.machine.strings.len() && text@
                    == self@.machine.strings[at as int],
                None => at >= self@.machine.strings.len(),
            },
    {
        if at < self.state.strings.len() {
            Some(self.state.strings[at].clone())
        } else {
            None
        }
    }

    /// The name that the global symbol `symbol` stands for.
    pub fn name(&self, symbol: usize) -> (r: Option<String>)
        ensures
            match r {
                Some(name) => self@.name(symbol) == Some(name@),
                None => self@.name(symbol) is None,
            },
    {
        if symbol < self.code.names.len() {
            Some(self.code.names[symbol].clone())
        } else {
            None
        }
    }

    fn function_name(&self, f: usize) -> (r: Option<String>)
        ensures
            match r {
                Some(name) => self@.function_name(f) == Some(name@),
                None => self@.function_name(f) is None,
            },
    {
        if f < self.state.functions.len() {
            let function = self.state.functions[f];
            match self.code.node(function.unit, function.decl) {
                Some(Node::Function { name, .. }) => self.name(
                    self.code.name(function.unit, name),
                ),
                _ => None,
            }
        } else {
            None
        }
    }

    fn class_name(&self, class: usize) -> (r: Option<String>)
        ensures
            match r {
                Some(name) => self@.class_name(class) == Some(name@),
                None => self@.class_name(class) is None,
            },
    {
        if class < self.state.classes.len() {
            self.name(self.state.classes[class].name)
        } else {
            None
        }
    }

    /// The text that `value` is printed as; `None` for a number, whose
    /// digits are the host's to find.
    pub fn render(&self, value: Value) -> (r: Option<String>)
        ensures
            match r {
                Some(text) => self@.rendering(value) == Some(text@),
                None => self@.rendering(value) is None,
            },
    {
        match value {
            Value::Nil => Some(String::from_str("nil")),
            Value::Boolean(b) => Some(
                if b {
                    String::from_str("true")
                } else {
                    String::from_str("false")
                },
            ),
            Value::Number(_) => None,
            Value::Text(at) => self.text(at),
            Value::Function(f) => match self.function_name(f) {
                Some(name) => {
                    let mut text = String::from_str("<fn ");
                    text.append(name.as_str());
                    text.append(">");
                    Some(text)
                },
                None => None,
            },
            Value::Class(class) => self.class_name(class),
            Value::Instance(i) => {
                if i < self.state.instances.len() {
                    match self.class_name(self.state.instances[i].class) {
                        Some(name) => {
                            let mut text = name;
                            text.append(" instance");
                            Some(text)
                        },
                        None => None,
                    }
                } else {
                    None
                }
            },
        }
    }
}

} // verus!
