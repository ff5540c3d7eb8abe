//! The run-time data model: values, environments, functions, classes and
//! instances, and the continuation of the evaluator.
//!
//! Everything that can be shared lives in a table and is named by its index:
//! an environment that a closure has captured stays in its table for as long
//! as the interpreter lives, so a closure may outlive the call that made it.
//! A number is kept as the 64 bits of a double; the evaluator never looks
//! inside them.

use vstd::prelude::*;
use vstd::string::*;
use crate::ast::{BinaryOp, List, LogicalOp, UnaryOp};

verus! {

/// A run-time value.
#[derive(Clone, Copy, Debug, PartialEq, Eq)]
pub enum Value {
    Nil,
    Boolean(bool),
    /// The bits of a double.
    Number(u64),
    /// An index into the string table.
    Text(usize),
    /// An index into the function table.
    Function(usize),
    /// An index into the class table.
    Class(usize),
    /// An index into the instance table.
    Instance(usize),
}

/// An environment: the head of its chain of slots, and the environment
/// around it.
#[derive(Clone, Copy, Debug, PartialEq, Eq)]
pub struct Env {
    pub parent: Option<usize>,
    pub first: Option<usize>,
}

/// A named slot in a chain of slots: a variable of an environment, a field
/// of an instance, or a method of a class. `next` is the slot that was added
/// before this one.
#[derive(Clone, Copy, Debug, PartialEq, Eq)]
pub struct Slot {
    pub name: usize,
    pub value: Value,
    pub next: Option<usize>,
}

/// A function value: a declaration together with the environment it was
/// declared in.
#[derive(Clone, Copy, Debug, PartialEq, Eq)]
pub struct Function {
    /// The compilation unit that holds the declaration.
    pub unit: usize,
    /// The node of the declaration.
    pub decl: usize,
    pub closure: usize,
    pub initializer: bool,
}

#[derive(Clone, Copy, Debug, PartialEq, Eq)]
pub struct Class {
    pub name: usize,
    pub superclass: Option<usize>,
    pub methods: Option<usize>,
}

#[derive(Clone, Copy, Debug, PartialEq, Eq)]
pub struct Instance {
    pub class: usize,
    pub fields: Option<usize>,
}

/// One pending piece of work of the evaluator. The evaluator keeps a stack of
/// them; each step takes the topmost and carries it out.
#[derive(Clone, Copy, Debug, PartialEq, Eq)]
pub enum Frame {
    /// Evaluate the node: an expression leaves its value on the value stack,
    /// a statement leaves nothing.
    Run(usize),
    /// Run the top-level statements from the given one on.
    Roots(usize),
    /// Run the entries of a list from the given one on.
    Sequence(List, usize),
    /// Drop the topmost value.
    Discard,
    /// Print the topmost value.
    Print,
    /// Define the variable with the topmost value.
    Define(usize),
    /// Assign the topmost value to the variable of the given assignment node.
    Store(usize),
    Unary(UnaryOp, usize),
    Binary(BinaryOp, usize),
    /// Short-circuit on the topmost value, or go on with the right operand.
    Logic(LogicalOp, usize),
    /// Choose a branch by the topmost value.
    Branch(usize, Option<usize>),
    /// Run the body and test the condition again, or stop.
    Loop(usize, usize),
    /// Evaluate the arguments of a call from the given one on, then call.
    Arguments(List, usize, usize),
    /// Call the value that lies below the given number of arguments.
    Invoke(usize, usize),
    /// The boundary of a call: restores the caller's environment and unit
    /// and leaves the result, `result` if it is given and `nil` otherwise.
    CallEnd { env: usize, unit: usize, result: Option<Value> },
    /// Leave the current call with the topmost value.
    Return,
    /// Go back to the given environment.
    Restore(usize),
    GetField(usize, usize),
    SetField(usize, usize),
    /// Build the class of the given node; when it has a superclass, its
    /// value is the topmost value.
    MakeClass(usize),
}

/// What went wrong at run time.
#[derive(Clone, Copy, Debug, PartialEq, Eq)]
pub enum RuntimeErrorKind {
    /// The operand of `-` is not a number.
    OperandMustBeNumber,
    /// An operand of the given arithmetic operator or comparison is not a
    /// number.
    OperandsMustBeNumbers(BinaryOp),
    /// The operands of `+` are neither two numbers nor two strings.
    OperandsMustBeNumbersOrStrings,
    /// No variable of this name is defined.
    UndefinedVariable(usize),
    /// The value that is called is neither a function nor a class.
    NotCallable,
    /// A call with the wrong number of arguments.
    Arity { expected: usize, got: usize },
    /// A property is read or written on a value that is no instance.
    NotAnInstance,
    /// The instance has no field and no method of this name.
    UndefinedProperty(usize),
    /// The superclass of a class is not a class.
    SuperclassMustBeClass,
    /// The state of the evaluator does not fit the program: a value or a
    /// reference that should be there is missing.
    Inconsistent,
}

impl RuntimeErrorKind {
    /// The text of the diagnostic; the operator, the name or the numbers
    /// that the kind carries are not part of it.
    pub open spec fn description(self) -> Seq<char> {
        match self {
            RuntimeErrorKind::OperandMustBeNumber => "Operand must be a number."@,
            RuntimeErrorKind::OperandsMustBeNumbers(_) => "Operands must be numbers."@,
            RuntimeErrorKind::OperandsMustBeNumbersOrStrings => "Operands must be two numbers or two strings."@,
            RuntimeErrorKind::UndefinedVariable(_) => "Undefined variable."@,
            RuntimeErrorKind::NotCallable => "Can only call functions and classes."@,
            RuntimeErrorKind::Arity { .. } => "Wrong number of arguments."@,
            RuntimeErrorKind::NotAnInstance => "Only instances have properties."@,
            RuntimeErrorKind::UndefinedProperty(_) => "Undefined property."@,
            RuntimeErrorKind::SuperclassMustBeClass => "Superclass must be a class."@,
            RuntimeErrorKind::Inconsistent => "The program and the state of the evaluator do not fit."@,
        }
    }
}

impl RuntimeError {
    /// The text of the diagnostic, without the line and without the
    /// operator, the name or the numbers that the kind carries.
    pub fn message(&self) -> (text: String)
        ensures
            text@ == self.kind.description(),
    {
        match self.kind {
            RuntimeErrorKind::OperandMustBeNumber => String::from_str("Operand must be a number."),
            RuntimeErrorKind::OperandsMustBeNumbers(_) => String::from_str(
                "Operands must be numbers.",
            ),
            RuntimeErrorKind::OperandsMustBeNumbersOrStrings => String::from_str(
                "Operands must be two numbers or two strings.",
            ),
            RuntimeErrorKind::UndefinedVariable(_) => String::from_str("Undefined variable."),
            RuntimeErrorKind::NotCallable => String::from_str(
                "Can only call functions and classes.",
            ),
            RuntimeErrorKind::Arity { .. } => String::from_str("Wrong number of arguments."),
            RuntimeErrorKind::NotAnInstance => String::from_str("Only instances have properties."),
            RuntimeErrorKind::UndefinedProperty(_) => String::from_str("Undefined property."),
            RuntimeErrorKind::SuperclassMustBeClass => String::from_str(
                "Superclass must be a class.",
            ),
            RuntimeErrorKind::Inconsistent => String::from_str(
                "The program and the state of the evaluator do not fit.",
            ),
        }
    }
}

/// A run-time error and the line it arose on.
#[derive(Clone, Copy, Debug, PartialEq, Eq)]
pub struct RuntimeError {
    pub kind: RuntimeErrorKind,
    pub line: usize,
}

/// What the evaluator asks of its host when it stops.
#[derive(Clone, Copy, Debug, PartialEq, Eq)]
pub enum Action {
    /// Print the value, then resume with `Event::Done`.
    Print(Value),
    /// Convert the numeral in the string table at this index to a double and
    /// resume with `Event::Number`.
    ParseNumber(usize),
    /// Negate the double and resume with `Event::Number`.
    Negate(u64),
    /// Apply the arithmetic operator to the two doubles and resume with
    /// `Event::Number`.
    Arithmetic(BinaryOp, u64, u64),
    /// Compare the two doubles and resume with `Event::Truth`.
    Compare(BinaryOp, u64, u64),
    /// The step budget is used up; resume with `Event::Done` to go on.
    Pause,
    /// The program has run to its end.
    Finished,
    /// The program was stopped by a run-time error.
    Failed(RuntimeError),
}

/// What the host hands back when it resumes the evaluator.
#[derive(Clone, Copy, Debug, PartialEq, Eq)]
pub enum Event {
    Done,
    Number(u64),
    Truth(bool),
}

/// `nil` and `false` are falsy; every other value is truthy.
pub open spec fn truthy(value: Value) -> bool {
    match value {
        Value::Nil => false,
        Value::Boolean(b) => b,
        _ => true,
    }
}

pub fn is_truthy(value: Value) -> (r: bool)
    ensures
        r == truthy(value),
{
    match value {
        Value::Nil => false,
        Value::Boolean(b) => b,
        _ => true,
    }
}

/// The slot named `name` in the chain of slots that starts at `at`: the one
/// added last, if there are several. The chain ends where a slot names no
/// earlier slot.
pub open spec fn find_slot(slots: Seq<Slot>, at: Option<usize>, name: usize) -> Option<usize>
    decreases
            (match at {
                Some(i) => i + 1,
                None => 0,
            }),
{
    match at {
        None => None,
        Some(i) => {
            if i >= slots.len() {
                None
            } else if slots[i as int].name == name {
                Some(i)
            } else {
                match slots[i as int].next {
                    Some(j) => if j < i {
                        find_slot(slots, Some(j), name)
                    } else {
                        None
                    },
                    None => None,
                }
            }
        },
    }
}

pub fn find_slot_in(slots: &Vec<Slot>, head: Option<usize>, name: usize) -> (r: Option<usize>)
    ensures
        r == find_slot(slots@, head, name),
        r matches Some(i) ==> i < slots@.len() && slots@[i as int].name == name,
{
    let mut at = head;
    loop
        invariant
            find_slot(slots@, at, name) == find_slot(slots@, head, name),
        decreases
                (match at {
                    Some(i) => i + 1,
                    None => 0,
                }),
    {
        match at {
            None => {
                return None;
            },
            Some(i) => {
                if i >= slots.len() {
                    return None;
                }
                if slots[i].name == name {
                    return Some(i);
                }
                match slots[i].next {
                    Some(j) => {
                        if j < i {
                            at = Some(j);
                        } else {
                            return None;
                        }
                    },
                    None => {
                        return None;
                    },
                }
            },
        }
    }
}

/// The environment that lies `depth` environments outside `env`.
pub open spec fn ancestor(envs: Seq<Env>, env: usize, depth: nat) -> Option<usize>
    decreases depth,
{
    if env >= envs.len() {
        None
    } else if depth == 0 {
        Some(env)
    } else {
        match envs[env as int].parent {
            Some(parent) => ancestor(envs, parent, (depth - 1) as nat),
            None => None,
        }
    }
}

pub fn ancestor_of(envs: &Vec<Env>, from: usize, hops: usize) -> (r: Option<usize>)
    ensures
        r == ancestor(envs@, from, hops as nat),
        r matches Some(e) ==> e < envs@.len(),
{
    let mut env = from;
    let mut depth = hops;
    loop
        invariant
            ancestor(envs@, env, depth as nat) == ancestor(envs@, from, hops as nat),
        decreases depth,
    {
        if env >= envs.len() {
            return None;
        }
        if depth == 0 {
            return Some(env);
        }
        match envs[env].parent {
            Some(parent) => {
                env = parent;
                depth = depth - 1;
            },
            None => {
                return None;
            },
        }
    }
}

/// The method named `name` of the class `class` or, failing that, of the
/// closest of its superclasses that has one. A superclass is always older
/// than its subclass.
pub open spec fn find_method(
    classes: Seq<Class>,
    slots: Seq<Slot>,
    class: usize,
    name: usize,
) -> Option<usize>
    decreases class,
{
    if class >= classes.len() {
        None
    } else {
        match find_slot(slots, classes[class as int].methods, name) {
            Some(i) => match slots[i as int].value {
                Value::Function(f) => Some(f),
                _ => None,
            },
            None => match classes[class as int].superclass {
                Some(parent) => if parent < class {
                    find_method(classes, slots, parent, name)
                } else {
                    None
                },
                None => None,
            },
        }
    }
}

pub fn find_method_in(classes: &Vec<Class>, slots: &Vec<Slot>, start: usize, name: usize) -> (r:
    Option<usize>)
    ensures
        r == find_method(classes@, slots@, start, name),
{
    let mut class = start;
    loop
        invariant
            find_method(classes@, slots@, class, name) == find_method(
                classes@,
                slots@,
                start,
                name,
            ),
        decreases class,
    {
        if class >= classes.len() {
            return None;
        }
        match find_slot_in(slots, classes[class].methods, name) {
            Some(i) => {
                return match slots[i].value {
                    Value::Function(f) => Some(f),
                    _ => None,
                };
            },
            None => match classes[class].superclass {
                Some(parent) => {
                    if parent < class {
                        class = parent;
                    } else {
                        return None;
                    }
                },
                None => {
                    return None;
                },
            },
        }
    }
}

} // verus!
