//! The resolver: a static pass that finds, for every use of a local
//! variable, how many scopes lie between the use and the declaration.
//!
//! The pass walks the tree with a stack of scopes that mirrors the nesting of
//! the environments at run time. A scope is the sequence of the bindings made
//! in it so far, the latest last; the latest binding of a name is the one
//! that counts. The global scope is not on the stack: a name found in no
//! scope is taken to be global and gets no entry in the table.
//!
//! A local variable that is read in its own initializer is reported as an
//! error rather than resolved to an outer variable of the same name.

use vstd::prelude::*;
use vstd::string::*;
use crate::ast::{
    list_below, node_ok, nodes_ok, List, Node, Program, ProgramView, SYM_INIT, SYM_SUPER, SYM_THIS,
};

verus! {

/// What kind of function body the resolver is in.
#[derive(Clone, Copy, Debug, PartialEq, Eq, Structural)]
pub enum FunctionKind {
    Outside,
    Function,
    Method,
    Initializer,
}

/// What kind of class body the resolver is in.
#[derive(Clone, Copy, Debug, PartialEq, Eq, Structural)]
pub enum ClassKind {
    Outside,
    Class,
    Subclass,
}

/// The static misuses that the resolver reports.
#[derive(Clone, Copy, Debug, PartialEq, Eq, Structural)]
pub enum ResolveErrorKind {
    /// A name is declared twice in one local scope.
    AlreadyDeclared,
    /// A local variable is read in its own initializer.
    OwnInitializer,
    /// `return` outside any function.
    ReturnOutsideFunction,
    /// `return` with a value inside an initializer.
    ReturnFromInitializer,
    /// `this` outside any class.
    ThisOutsideClass,
    /// `super` outside any class.
    SuperOutsideClass,
    /// `super` in a class that has no superclass.
    SuperWithoutSuperclass,
    /// A class names itself as its superclass.
    InheritsFromItself,
}

/// A resolution error: its kind, the line, and the node at which it was
/// found.
#[derive(Clone, Copy, Debug, PartialEq, Eq, Structural)]
pub struct ResolveError {
    pub kind: ResolveErrorKind,
    pub line: usize,
    pub node: usize,
}

impl ResolveErrorKind {
    pub open spec fn description(self) -> Seq<char> {
        match self {
            ResolveErrorKind::AlreadyDeclared => "Already a variable with this name in this scope."@,
            ResolveErrorKind::OwnInitializer => "Can't read local variable in its own initializer."@,
            ResolveErrorKind::ReturnOutsideFunction => "Can't return from top-level code."@,
            ResolveErrorKind::ReturnFromInitializer => "Can't return a value from an initializer."@,
            ResolveErrorKind::ThisOutsideClass => "Can't use 'this' outside of a class."@,
            ResolveErrorKind::SuperOutsideClass => "Can't use 'super' outside of a class."@,
            ResolveErrorKind::SuperWithoutSuperclass => "Can't use 'super' in a class with no superclass."@,
            ResolveErrorKind::InheritsFromItself => "A class can't inherit from itself."@,
        }
    }
}

impl ResolveError {
    /// The text of the diagnostic, without the line.
    pub fn message(&self) -> (text: String)
        ensures
            text@ == self.kind.description(),
    {
        match self.kind {
            ResolveErrorKind::AlreadyDeclared => String::from_str(
                "Already a variable with this name in this scope.",
            ),
            ResolveErrorKind::OwnInitializer => String::from_str(
                "Can't read local variable in its own initializer.",
            ),
            ResolveErrorKind::ReturnOutsideFunction => String::from_str(
                "Can't return from top-level code.",
            ),
            ResolveErrorKind::ReturnFromInitializer => String::from_str(
                "Can't return a value from an initializer.",
            ),
            ResolveErrorKind::ThisOutsideClass => String::from_str(
                "Can't use 'this' outside of a class.",
            ),
            ResolveErrorKind::SuperOutsideClass => String::from_str(
                "Can't use 'super' outside of a class.",
            ),
            ResolveErrorKind::SuperWithoutSuperclass => String::from_str(
                "Can't use 'super' in a class with no superclass.",
            ),
            ResolveErrorKind::InheritsFromItself => String::from_str(
                "A class can't inherit from itself.",
            ),
        }
    }
}

/// A name in a scope, and whether its initializer has been resolved.
#[derive(Clone, Copy, Debug, PartialEq, Eq, Structural)]
pub struct Binding {
    pub name: usize,
    pub ready: bool,
}

/// The table that the resolver fills: for each node, the number of scopes
/// between a use of a local variable and its declaration, or `None` where
/// the node is no such use or the variable is global.
#[derive(Debug)]
pub struct ScopeTable {
    pub depths: Vec<Option<usize>>,
}

impl View for ScopeTable {
    type V = Seq<Option<usize>>;

    open spec fn view(&self) -> Seq<Option<usize>> {
        self.depths@
    }
}

/// The state of the resolver.
pub struct RState {
    /// The scopes that are open, the innermost last.
    pub scopes: Seq<Seq<Binding>>,
    /// The table filled so far.
    pub depths: Seq<Option<usize>>,
    /// The errors found so far.
    pub errors: Seq<ResolveError>,
    pub function: FunctionKind,
    pub class: ClassKind,
}

/// The state of `name` among the first `upto` bindings of `scope`: that of
/// the latest of them that binds it, or `None` when none does.
pub open spec fn state_from(scope: Seq<Binding>, name: usize, upto: int) -> Option<bool>
    decreases upto,
{
    if upto <= 0 || upto > scope.len() {
        None
    } else if scope[upto - 1].name == name {
        Some(scope[upto - 1].ready)
    } else {
        state_from(scope, name, upto - 1)
    }
}

/// The state of `name` in `scope`, or `None` when the scope does not bind it.
pub open spec fn state_of(scope: Seq<Binding>, name: usize) -> Option<bool> {
    state_from(scope, name, scope.len() as int)
}

/// The scope that lies `depth` scopes outside the innermost one.
pub open spec fn scope_at(scopes: Seq<Seq<Binding>>, depth: int) -> Seq<Binding> {
    scopes[scopes.len() - 1 - depth]
}

/// The least depth, not less than `depth`, of a scope that binds `name`.
pub open spec fn hops_from(scopes: Seq<Seq<Binding>>, name: usize, depth: nat) -> Option<nat>
    decreases scopes.len() - depth,
{
    if depth >= scopes.len() {
        None
    } else if state_of(scope_at(scopes, depth as int), name) is Some {
        Some(depth)
    } else {
        hops_from(scopes, name, depth + 1)
    }
}

/// The number of scopes between the innermost scope and the closest scope
/// around it that binds `name`, or `None` when no scope does.
pub open spec fn hops(scopes: Seq<Seq<Binding>>, name: usize) -> Option<nat> {
    hops_from(scopes, name, 0)
}

/// Whether `node` is a variable named `name`.
pub open spec fn names_variable(node: Node, name: usize) -> bool {
    node matches Node::Variable { name: other, .. } && other == name
}

/// The kind of function that the method `node` is: an initializer when it is
/// named `init`.
pub open spec fn method_kind(node: Node) -> FunctionKind {
    if node matches Node::Function { name, .. } && name == SYM_INIT {
        FunctionKind::Initializer
    } else {
        FunctionKind::Method
    }
}

impl RState {
    /// The state before anything is resolved, for a program of `nodes` nodes.
    pub open spec fn start(nodes: nat) -> RState {
        RState {
            scopes: Seq::empty(),
            depths: Seq::new(nodes, |i: int| None::<usize>),
            errors: Seq::empty(),
            function: FunctionKind::Outside,
            class: ClassKind::Outside,
        }
    }

    pub open spec fn error(self, kind: ResolveErrorKind, line: usize, node: usize) -> RState {
        RState { errors: self.errors.push(ResolveError { kind, line, node }), ..self }
    }

    /// Opens a scope.
    pub open spec fn begin(self) -> RState {
        RState { scopes: self.scopes.push(Seq::empty()), ..self }
    }

    /// Closes the innermost scope.
    pub open spec fn end(self) -> RState {
        if self.scopes.len() > 0 {
            RState { scopes: self.scopes.drop_last(), ..self }
        } else {
            self
        }
    }

    /// Adds a binding to the innermost scope; at global level nothing is
    /// recorded.
    pub open spec fn bind(self, binding: Binding) -> RState {
        if self.scopes.len() > 0 {
            RState {
                scopes: self.scopes.update(
                    self.scopes.len() - 1,
                    self.scopes.last().push(binding),
                ),
                ..self
            }
        } else {
            self
        }
    }

    /// Declares `name` in the innermost scope, not yet ready for use. A
    /// second declaration of a name in one local scope is an error.
    pub open spec fn declare(self, name: usize, line: usize, node: usize) -> RState {
        if self.scopes.len() > 0 && state_of(self.scopes.last(), name) is Some {
            self.error(ResolveErrorKind::AlreadyDeclared, line, node).bind(
                Binding { name, ready: false },
            )
        } else {
            self.bind(Binding { name, ready: false })
        }
    }

    /// Marks `name` as ready for use in the innermost scope.
    pub open spec fn define(self, name: usize) -> RState {
        self.bind(Binding { name, ready: true })
    }

    /// Records for the node `id`, a use of `name`, the depth of the closest
    /// scope that binds `name`; a name that no scope binds is global and
    /// leaves no record.
    pub open spec fn local(self, id: usize, name: usize) -> RState {
        match hops(self.scopes, name) {
            Some(depth) => RState {
                depths: self.depths.update(id as int, Some(depth as usize)),
                ..self
            },
            None => self,
        }
    }

    /// A read of the variable `name` at the node `id`.
    pub open spec fn variable(self, id: usize, name: usize, line: usize) -> RState {
        if self.scopes.len() > 0 && state_of(self.scopes.last(), name) == Some(false) {
            self.error(ResolveErrorKind::OwnInitializer, line, id).local(id, name)
        } else {
            self.local(id, name)
        }
    }

    /// A use of `this` at the node `id`.
    pub open spec fn this(self, id: usize, line: usize) -> RState {
        if self.class == ClassKind::Outside {
            self.error(ResolveErrorKind::ThisOutsideClass, line, id)
        } else {
            self.local(id, SYM_THIS)
        }
    }

    /// A use of `super` at the node `id`.
    pub open spec fn superclass(self, id: usize, line: usize) -> RState {
        if self.class == ClassKind::Outside {
            self.error(ResolveErrorKind::SuperOutsideClass, line, id).local(id, SYM_SUPER)
        } else if self.class != ClassKind::Subclass {
            self.error(ResolveErrorKind::SuperWithoutSuperclass, line, id).local(id, SYM_SUPER)
        } else {
            self.local(id, SYM_SUPER)
        }
    }

    /// A `return` at the node `id`, with or without a value.
    pub open spec fn returning(self, with_value: bool, line: usize, id: usize) -> RState {
        if self.function == FunctionKind::Outside {
            self.error(ResolveErrorKind::ReturnOutsideFunction, line, id)
        } else if with_value && self.function == FunctionKind::Initializer {
            self.error(ResolveErrorKind::ReturnFromInitializer, line, id)
        } else {
            self
        }
    }

    pub open spec fn in_function(self, function: FunctionKind) -> RState {
        RState { function, ..self }
    }

    pub open spec fn in_class(self, class: ClassKind) -> RState {
        RState { class, ..self }
    }
}

/// The node `id` of `p` is in order.
pub open spec fn node_in_order(p: ProgramView, id: usize) -> bool {
    node_ok(p.nodes[id as int], id as int, p.links, p.symbols.len() as int, p.texts.len() as int)
}

/// Declares and defines the parameters `params[k..]` of the function `id`.
pub open spec fn declare_params(
    links: Seq<usize>,
    params: List,
    k: nat,
    line: usize,
    id: usize,
    st: RState,
) -> RState
    decreases params.len - k,
{
    if k >= params.len {
        st
    } else {
        let name = links[params.start + k];
        declare_params(links, params, k + 1, line, id, st.declare(name, line, id).define(name))
    }
}

/// Resolves the node `id` and all that lies below it.
#[verifier::opaque]
pub open spec fn resolve_node(p: ProgramView, id: usize, st: RState) -> RState
    decreases id, 2nat, 0nat,
    when p.wf() && id < p.nodes.len()
{
    proof {
        reveal(nodes_ok);
    }
    match p.nodes[id as int] {
        Node::Nil => st,
        Node::Boolean { .. } => st,
        Node::Number { .. } => st,
        Node::Str { .. } => st,
        Node::Grouping { inner } => resolve_node(p, inner, st),
        Node::Unary { operand, .. } => resolve_node(p, operand, st),
        Node::Binary { left, right, .. } => resolve_node(p, right, resolve_node(p, left, st)),
        Node::Logical { left, right, .. } => resolve_node(p, right, resolve_node(p, left, st)),
        Node::Variable { name, line } => st.variable(id, name, line),
        Node::Assign { name, value, .. } => resolve_node(p, value, st).local(id, name),
        Node::Call { callee, args, .. } => resolve_list(p, id, args, 0, resolve_node(p, callee, st)),
        Node::GetField { object, .. } => resolve_node(p, object, st),
        Node::SetField { object, value, .. } => resolve_node(
            p,
            object,
            resolve_node(p, value, st),
        ),
        Node::This { line } => st.this(id, line),
        Node::Super { line, .. } => st.superclass(id, line),
        Node::Expression { expr } => resolve_node(p, expr, st),
        Node::Print { expr } => resolve_node(p, expr, st),
        Node::Var { name, init, line } => {
            let declared = st.declare(name, line, id);
            match init {
                Some(init) => resolve_node(p, init, declared).define(name),
                None => declared.define(name),
            }
        },
        Node::Block { body } => resolve_list(p, id, body, 0, st.begin()).end(),
        Node::If { cond, then_branch, else_branch } => {
            let first = resolve_node(p, then_branch, resolve_node(p, cond, st));
            match else_branch {
                Some(other) => resolve_node(p, other, first),
                None => first,
            }
        },
        Node::While { cond, body } => resolve_node(p, body, resolve_node(p, cond, st)),
        Node::Function { name, line, .. } => resolve_function(
            p,
            id,
            FunctionKind::Function,
            st.declare(name, line, id).define(name),
        ),
        Node::Return { value, line } => {
            let checked = st.returning(value is Some, line, id);
            match value {
                Some(value) => resolve_node(p, value, checked),
                None => checked,
            }
        },
        Node::Class { .. } => resolve_class(p, id, st),
    }
}

/// Resolves the nodes `list[k..]`, children of the node `id`, in order.
#[verifier::opaque]
pub open spec fn resolve_list(p: ProgramView, id: usize, list: List, k: nat, st: RState) -> RState
    decreases id, 0nat, list.len - k,
    when p.wf() && id < p.nodes.len() && list_below(p.links, list, id as int)
{
    if k >= list.len {
        st
    } else {
        resolve_list(p, id, list, k + 1, resolve_node(p, p.links[list.start + k], st))
    }
}

/// Resolves the parameters and the body of the function `id`, in a scope of
/// their own.
#[verifier::opaque]
pub open spec fn resolve_function(p: ProgramView, id: usize, kind: FunctionKind, st: RState) -> RState
    decreases id, 1nat, 0nat,
    when p.wf() && id < p.nodes.len()
{
    proof {
        reveal(nodes_ok);
    }
    match p.nodes[id as int] {
        Node::Function { params, body, line, .. } => {
            let inside = declare_params(p.links, params, 0, line, id, st.in_function(kind).begin());
            resolve_list(p, id, body, 0, inside).end().in_function(st.function)
        },
        _ => st,
    }
}

/// Resolves the methods `list[k..]` of the class `id`, in order.
#[verifier::opaque]
pub open spec fn resolve_methods(p: ProgramView, id: usize, list: List, k: nat, st: RState) -> RState
    decreases id, 0nat, list.len - k,
    when p.wf() && id < p.nodes.len() && list_below(p.links, list, id as int)
{
    if k >= list.len {
        st
    } else {
        let method = p.links[list.start + k];
        resolve_methods(
            p,
            id,
            list,
            k + 1,
            resolve_function(p, method, method_kind(p.nodes[method as int]), st),
        )
    }
}

/// Resolves the class `id`: its name, its superclass, and its methods in a
/// scope that binds `this`, inside a scope that binds `super` when there is
/// a superclass.
#[verifier::opaque]
pub open spec fn resolve_class(p: ProgramView, id: usize, st: RState) -> RState
    decreases id, 1nat, 0nat,
    when p.wf() && id < p.nodes.len()
{
    proof {
        reveal(nodes_ok);
    }
    match p.nodes[id as int] {
        Node::Class { name, superclass, methods, line } => {
            let named = st.in_class(ClassKind::Class).declare(name, line, id).define(name);
            match superclass {
                Some(parent) => {
                    let checked = if names_variable(p.nodes[parent as int], name) {
                        named.error(ResolveErrorKind::InheritsFromItself, line, id)
                    } else {
                        named
                    };
                    let outer = resolve_node(p, parent, checked.in_class(ClassKind::Subclass))
                        .begin().define(SYM_SUPER);
                    resolve_methods(p, id, methods, 0, outer.begin().define(SYM_THIS)).end().end()
                        .in_class(st.class)
                },
                None => resolve_methods(p, id, methods, 0, named.begin().define(SYM_THIS)).end()
                    .in_class(st.class),
            }
        },
        _ => st,
    }
}

/// Resolves the top-level statements `roots[k..]`, in order.
pub open spec fn resolve_roots(p: ProgramView, k: nat, st: RState) -> RState
    decreases p.roots.len() - k,
{
    if k >= p.roots.len() {
        st
    } else {
        resolve_roots(p, k + 1, resolve_node(p, p.roots[k as int], st))
    }
}

/// The state of the resolver after the whole of `p`.
pub open spec fn resolved(p: ProgramView) -> RState {
    resolve_roots(p, 0, RState::start(p.nodes.len()))
}

/// What resolving `p` gives: the table, or every error found.
pub open spec fn spec_resolve(p: ProgramView) -> Result<Seq<Option<usize>>, Seq<ResolveError>> {
    if resolved(p).errors.len() == 0 {
        Ok(resolved(p).depths)
    } else {
        Err(resolved(p).errors)
    }
}

/// The contents of a stack of scopes.
pub open spec fn scope_views(scopes: Seq<Vec<Binding>>) -> Seq<Seq<Binding>> {
    scopes.map_values(|s: Vec<Binding>| s@)
}

/// The working state of the resolver.
struct Resolver {
    scopes: Vec<Vec<Binding>>,
    depths: Vec<Option<usize>>,
    errors: Vec<ResolveError>,
    function: FunctionKind,
    class: ClassKind,
}

impl View for Resolver {
    type V = RState;

    closed spec fn view(&self) -> RState {
        RState {
            scopes: scope_views(self.scopes@),
            depths: self.depths@,
            errors: self.errors@,
            function: self.function,
            class: self.class,
        }
    }
}

fn state_in(scope: &Vec<Binding>, name: usize) -> (r: Option<bool>)
    ensures
        r == state_of(scope@, name),
{
    let mut i: usize = scope.len();
    while i > 0
        invariant
            i <= scope.len(),
            state_from(scope@, name, i as int) == state_of(scope@, name),
        decreases i,
    {
        if scope[i - 1].name == name {
            return Some(scope[i - 1].ready);
        }
        i = i - 1;
    }
    None
}

fn find_hops(scopes: &Vec<Vec<Binding>>, name: usize) -> (r: Option<usize>)
    ensures
        match hops(scope_views(scopes@), name) {
            Some(depth) => r == Some(depth as usize) && depth < scopes.len(),
            None => r is None,
        },
{
    let ghost views = scope_views(scopes@);
    let mut depth: usize = 0;
    while depth < scopes.len()
        invariant
            depth <= scopes.len(),
            views == scope_views(scopes@),
            hops_from(views, name, depth as nat) == hops(views, name),
        decreases scopes.len() - depth,
    {
        let found = state_in(&scopes[scopes.len() - 1 - depth], name);
        assert(scope_at(views, depth as int) == scopes@[scopes.len() - 1 - depth]@);
        if found.is_some() {
            return Some(depth);
        }
        depth = depth + 1;
    }
    None
}

impl Resolver {
    spec fn sized(&self, program: &Program) -> bool {
        self.depths@.len() == program.nodes@.len()
    }

    fn error(&mut self, kind: ResolveErrorKind, line: usize, node: usize)
        ensures
            final(self)@ == old(self)@.error(kind, line, node),
            final(self).depths@.len() == old(self).depths@.len(),
    {
        self.errors.push(ResolveError { kind, line, node });
    }

    fn begin(&mut self)
        ensures
            final(self)@ == old(self)@.begin(),
            final(self).depths@.len() == old(self).depths@.len(),
    {
        let scope: Vec<Binding> = Vec::new();
        self.scopes.push(scope);
        assert(scope_views(self.scopes@) =~= scope_views(old(self).scopes@).push(Seq::empty()));
    }

    fn end(&mut self)
        ensures
            final(self)@ == old(self)@.end(),
            final(self).depths@.len() == old(self).depths@.len(),
    {
        if self.scopes.len() > 0 {
            self.scopes.pop();
            assert(scope_views(self.scopes@) =~= scope_views(old(self).scopes@).drop_last());
        }
    }

    fn bind(&mut self, binding: Binding)
        ensures
            final(self)@ == old(self)@.bind(binding),
            final(self).depths@.len() == old(self).depths@.len(),
    {
        match self.scopes.pop() {
            Some(mut top) => {
                top.push(binding);
                self.scopes.push(top);
                assert(scope_views(self.scopes@) =~= scope_views(old(self).scopes@).update(
                    old(self).scopes@.len() - 1,
                    scope_views(old(self).scopes@).last().push(binding),
                ));
            },
            None => {},
        }
    }

    fn declare(&mut self, name: usize, line: usize, node: usize)
        ensures
            final(self)@ == old(self)@.declare(name, line, node),
            final(self).depths@.len() == old(self).depths@.len(),
    {
        let n = self.scopes.len();
        if n > 0 && state_in(&self.scopes[n - 1], name).is_some() {
            self.error(ResolveErrorKind::AlreadyDeclared, line, node);
        }
        self.bind(Binding { name, ready: false });
    }

    fn define(&mut self, name: usize)
        ensures
            final(self)@ == old(self)@.define(name),
            final(self).depths@.len() == old(self).depths@.len(),
    {
        self.bind(Binding { name, ready: true });
    }

    fn local(&mut self, id: usize, name: usize)
        requires
            id < old(self).depths@.len(),
        ensures
            final(self)@ == old(self)@.local(id, name),
            final(self).depths@.len() == old(self).depths@.len(),
    {
        match find_hops(&self.scopes, name) {
            Some(depth) => {
                self.depths[id] = Some(depth);
            },
            None => {},
        }
    }

    fn variable(&mut self, id: usize, name: usize, line: usize)
        requires
            id < old(self).depths@.len(),
        ensures
            final(self)@ == old(self)@.variable(id, name, line),
            final(self).depths@.len() == old(self).depths@.len(),
    {
        let n = self.scopes.len();
        if n > 0 {
            match state_in(&self.scopes[n - 1], name) {
                Some(ready) => {
                    if !ready {
                        self.error(ResolveErrorKind::OwnInitializer, line, id);
                    }
                },
                None => {},
            }
        }
        self.local(id, name);
    }

    fn this(&mut self, id: usize, line: usize)
        requires
            id < old(self).depths@.len(),
        ensures
            final(self)@ == old(self)@.this(id, line),
            final(self).depths@.len() == old(self).depths@.len(),
    {
        match self.class {
            ClassKind::Outside => {
                self.error(ResolveErrorKind::ThisOutsideClass, line, id);
            },
            _ => {
                self.local(id, SYM_THIS);
            },
        }
    }

    fn superclass(&mut self, id: usize, line: usize)
        requires
            id < old(self).depths@.len(),
        ensures
            final(self)@ == old(self)@.superclass(id, line),
            final(self).depths@.len() == old(self).depths@.len(),
    {
        match self.class {
            ClassKind::Outside => {
                self.error(ResolveErrorKind::SuperOutsideClass, line, id);
            },
            ClassKind::Class => {
                self.error(ResolveErrorKind::SuperWithoutSuperclass, line, id);
            },
            ClassKind::Subclass => {},
        }
        self.local(id, SYM_SUPER);
    }

    fn returning(&mut self, with_value: bool, line: usize, id: usize)
        ensures
            final(self)@ == old(self)@.returning(with_value, line, id),
            final(self).depths@.len() == old(self).depths@.len(),
    {
        match self.function {
            FunctionKind::Outside => {
                self.error(ResolveErrorKind::ReturnOutsideFunction, line, id);
            },
            FunctionKind::Initializer => {
                if with_value {
                    self.error(ResolveErrorKind::ReturnFromInitializer, line, id);
                }
            },
            _ => {},
        }
    }

    fn params(&mut self, program: &Program, params: List, line: usize, id: usize)
        requires
            params.start + params.len <= program.links@.len(),
        ensures
            final(self)@ == declare_params(program@.links, params, 0, line, id, old(self)@),
            final(self).depths@.len() == old(self).depths@.len(),
    {
        let total = program.links.len();
        let mut k: usize = 0;
        while k < params.len
            invariant
                k <= params.len,
                total == program.links@.len(),
                params.start + params.len <= program.links@.len(),
                self.depths@.len() == old(self).depths@.len(),
                declare_params(program@.links, params, k as nat, line, id, self@)
                    == declare_params(program@.links, params, 0, line, id, old(self)@),
            decreases params.len - k,
        {
            let name = program.links[params.start + k];
            self.declare(name, line, id);
            self.define(name);
            k = k + 1;
        }
    }

    fn node(&mut self, program: &Program, id: usize)
        requires
            program.wf(),
            id < program.nodes@.len(),
            old(self).sized(program),
        ensures
            final(self)@ == resolve_node(program@, id, old(self)@),
            final(self).sized(program),
        decreases id, 2nat, 0nat,
    {
        proof {
            assert(node_in_order(program@, id)) by {
                reveal(nodes_ok);
            }
        }
        match program.nodes[id] {
            Node::Nil => {},
            Node::Boolean { .. } => {},
            Node::Number { .. } => {},
            Node::Str { .. } => {},
            Node::Grouping { inner } => {
                self.node(program, inner);
            },
            Node::Unary { operand, .. } => {
                self.node(program, operand);
            },
            Node::Binary { left, right, .. } => {
                self.node(program, left);
                self.node(program, right);
            },
            Node::Logical { left, right, .. } => {
                self.node(program, left);
                self.node(program, right);
            },
            Node::Variable { name, line } => {
                self.variable(id, name, line);
            },
            Node::Assign { name, value, .. } => {
                self.node(program, value);
                self.local(id, name);
            },
            Node::Call { callee, args, .. } => {
                self.node(program, callee);
                self.list(program, id, args);
            },
            Node::GetField { object, .. } => {
                self.node(program, object);
            },
            Node::SetField { object, value, .. } => {
                self.node(program, value);
                self.node(program, object);
            },
            Node::This { line } => {
                self.this(id, line);
            },
            Node::Super { line, .. } => {
                self.superclass(id, line);
            },
            Node::Expression { expr } => {
                self.node(program, expr);
            },
            Node::Print { expr } => {
                self.node(program, expr);
            },
            Node::Var { name, init, line } => {
                self.declare(name, line, id);
                match init {
                    Some(init) => {
                        self.node(program, init);
                    },
                    None => {},
                }
                self.define(name);
            },
            Node::Block { body } => {
                self.begin();
                self.list(program, id, body);
                self.end();
            },
            Node::If { cond, then_branch, else_branch } => {
                self.node(program, cond);
                self.node(program, then_branch);
                match else_branch {
                    Some(other) => {
                        self.node(program, other);
                    },
                    None => {},
                }
            },
            Node::While { cond, body } => {
                self.node(program, cond);
                self.node(program, body);
            },
            Node::Function { name, line, .. } => {
                self.declare(name, line, id);
                self.define(name);
                self.function(program, id, FunctionKind::Function);
            },
            Node::Return { value, line } => {
                self.returning(value.is_some(), line, id);
                match value {
                    Some(value) => {
                        self.node(program, value);
                    },
                    None => {},
                }
            },
            Node::Class { .. } => {
                self.class(program, id);
            },
        }
        proof {
            assert(self@ == resolve_node(program@, id, old(self)@)) by {
                reveal(resolve_node);
                reveal(resolve_list);
                reveal(resolve_function);
                reveal(resolve_class);
            }
        }
    }

    #[verifier::loop_isolation(false)]
    fn list(&mut self, program: &Program, id: usize, list: List)
        requires
            program.wf(),
            id < program.nodes@.len(),
            list_below(program@.links, list, id as int),
            old(self).sized(program),
        ensures
            final(self)@ == resolve_list(program@, id, list, 0, old(self)@),
            final(self).sized(program),
        decreases id, 0nat, list.len,
    {
        let total = program.links.len();
        let mut k: usize = 0;
        while k < list.len
            invariant
                k <= list.len,
                self.sized(program),
                resolve_list(program@, id, list, k as nat, self@)
                    == resolve_list(program@, id, list, 0, old(self)@),
            decreases list.len - k,
        {
            let ghost before = self@;
            let child = program.links[list.start + k];
            self.node(program, child);
            k = k + 1;
            proof {
                assert(resolve_list(program@, id, list, k as nat, self@)
                    == resolve_list(program@, id, list, (k - 1) as nat, before)) by {
                    reveal(resolve_list);
                    reveal(resolve_node);
                }
            }
        }
        proof {
            assert(self@ == resolve_list(program@, id, list, k as nat, self@)) by {
                reveal(resolve_list);
            }
        }
    }

    fn function(&mut self, program: &Program, id: usize, kind: FunctionKind)
        requires
            program.wf(),
            id < program.nodes@.len(),
            old(self).sized(program),
        ensures
            final(self)@ == resolve_function(program@, id, kind, old(self)@),
            final(self).sized(program),
        decreases id, 1nat, 0nat,
    {
        proof {
            assert(node_in_order(program@, id)) by {
                reveal(nodes_ok);
            }
        }
        match program.nodes[id] {
            Node::Function { params, body, line, .. } => {
                let enclosing = self.function;
                self.function = kind;
                self.begin();
                self.params(program, params, line, id);
                self.list(program, id, body);
                self.end();
                self.function = enclosing;
            },
            _ => {},
        }
        proof {
            assert(self@ == resolve_function(program@, id, kind, old(self)@)) by {
                reveal(resolve_function);
                reveal(resolve_list);
            }
        }
    }

    #[verifier::loop_isolation(false)]
    fn methods(&mut self, program: &Program, id: usize, list: List)
        requires
            program.wf(),
            id < program.nodes@.len(),
            list_below(program@.links, list, id as int),
            old(self).sized(program),
        ensures
            final(self)@ == resolve_methods(program@, id, list, 0, old(self)@),
            final(self).sized(program),
        decreases id, 0nat, list.len,
    {
        let total = program.links.len();
        let mut k: usize = 0;
        while k < list.len
            invariant
                k <= list.len,
                self.sized(program),
                resolve_methods(program@, id, list, k as nat, self@)
                    == resolve_methods(program@, id, list, 0, old(self)@),
            decreases list.len - k,
        {
            let ghost before = self@;
            let method = program.links[list.start + k];
            let kind = match program.nodes[method] {
                Node::Function { name, .. } => {
                    if name == SYM_INIT {
                        FunctionKind::Initializer
                    } else {
                        FunctionKind::Method
                    }
                },
                _ => FunctionKind::Method,
            };
            self.function(program, method, kind);
            k = k + 1;
            proof {
                assert(resolve_methods(program@, id, list, k as nat, self@)
                    == resolve_methods(program@, id, list, (k - 1) as nat, before)) by {
                    reveal(resolve_methods);
                    reveal(resolve_function);
                }
            }
        }
        proof {
            assert(self@ == resolve_methods(program@, id, list, k as nat, self@)) by {
                reveal(resolve_methods);
            }
        }
    }

    fn class(&mut self, program: &Program, id: usize)
        requires
            program.wf(),
            id < program.nodes@.len(),
            old(self).sized(program),
        ensures
            final(self)@ == resolve_class(program@, id, old(self)@),
            final(self).sized(program),
        decreases id, 1nat, 0nat,
    {
        proof {
            assert(node_in_order(program@, id)) by {
                reveal(nodes_ok);
            }
        }
        match program.nodes[id] {
            Node::Class { name, superclass, methods, line } => {
                let enclosing = self.class;
                self.class = ClassKind::Class;
                self.declare(name, line, id);
                self.define(name);
                match superclass {
                    Some(parent) => {
                        match program.nodes[parent] {
                            Node::Variable { name: other, .. } => {
                                if other == name {
                                    self.error(ResolveErrorKind::InheritsFromItself, line, id);
                                }
                            },
                            _ => {},
                        }
                        self.class = ClassKind::Subclass;
                        self.node(program, parent);
                        self.begin();
                        self.define(SYM_SUPER);
                    },
                    None => {},
                }
                self.begin();
                self.define(SYM_THIS);
                self.methods(program, id, methods);
                self.end();
                if superclass.is_some() {
                    self.end();
                }
                self.class = enclosing;
            },
            _ => {},
        }
        proof {
            assert(self@ == resolve_class(program@, id, old(self)@)) by {
                reveal(resolve_class);
                reveal(resolve_node);
                reveal(resolve_methods);
            }
        }
    }
}

/// Resolves a program.
///
/// The table that comes back has one entry for each node of the program. The
/// entry of a variable, an assignment, a `this` or a `super` that refers to
/// a local binding is the number of scopes between the use and the closest
/// scope around it that binds the name; every other entry is `None`. When
/// the program misuses `return`, `this` or `super`, declares a local name
/// twice, reads a local variable in its own initializer, or has a class
/// inherit from itself, all such errors come back instead.
pub fn resolve(program: &Program) -> (r: Result<ScopeTable, Vec<ResolveError>>)
    requires
        program.wf(),
    ensures
        match r {
            Ok(table) => spec_resolve(program@) == Ok::<Seq<Option<usize>>, Seq<ResolveError>>(
                table@,
            ) && table@.len() == program@.nodes.len(),
            Err(errors) => spec_resolve(program@) == Err::<Seq<Option<usize>>, Seq<ResolveError>>(
                errors@,
            ) && errors@.len() > 0,
        },
{
    let mut depths: Vec<Option<usize>> = Vec::new();
    let mut i: usize = 0;
    while i < program.nodes.len()
        invariant
            i <= program.nodes@.len(),
            depths@.len() == i,
            forall|j: int| 0 <= j < i ==> depths@[j] == None::<usize>,
        decreases program.nodes@.len() - i,
    {
        depths.push(None);
        i = i + 1;
    }
    let mut resolver = Resolver {
        scopes: Vec::new(),
        depths,
        errors: Vec::new(),
        function: FunctionKind::Outside,
        class: ClassKind::Outside,
    };
    proof {
        assert(resolver@.depths =~= RState::start(program@.nodes.len()).depths);
        assert(resolver@.scopes =~= Seq::<Seq<Binding>>::empty());
        assert(resolver@ == RState::start(program@.nodes.len()));
    }
    let mut k: usize = 0;
    while k < program.roots.len()
        invariant
            k <= program.roots@.len(),
            program.wf(),
            resolver.sized(program),
            resolve_roots(program@, k as nat, resolver@) == resolved(program@),
        decreases program.roots@.len() - k,
    {
        resolver.node(program, program.roots[k]);
        k = k + 1;
    }
    if resolver.errors.len() == 0 {
        Ok(ScopeTable { depths: resolver.depths })
    } else {
        Err(resolver.errors)
    }
}

} // verus!
