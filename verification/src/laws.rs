//! Laws that relate the parts of the interpreter to each other.

use vstd::prelude::*;
use crate::ast::{list_below, nodes_ok, List, Node, ProgramView, SYM_INIT, SYM_SUPER, SYM_THIS};
use crate::machine::{CodeView, InterpreterView, Machine, Step};
use crate::resolver::{
    declare_params, hops, hops_from, method_kind, names_variable, node_in_order, resolve_class,
    resolve_function, resolve_list, resolve_methods, resolve_node, resolve_roots, scope_at,
    spec_resolve, state_of, Binding, ClassKind, FunctionKind, RState, ResolveErrorKind,
};
use crate::runtime::{
    ancestor, find_method, find_slot, Action, Env, Frame, Instance, RuntimeErrorKind, Slot, Value,
};

verus! {

/// The environment in which a variable is looked up when the resolver has
/// recorded `depth` for its use: the one that many environments outside
/// `env`, or the global environment when nothing is recorded.
pub open spec fn resolved_home(envs: Seq<Env>, env: usize, depth: Option<nat>) -> Option<usize> {
    match depth {
        Some(depth) => ancestor(envs, env, depth),
        None => Some(0),
    }
}

/// The slot of `name` in the environment `home`.
pub open spec fn slot_of(envs: Seq<Env>, slots: Seq<Slot>, home: Option<usize>, name: usize) -> Option<
    usize,
> {
    match home {
        Some(e) => if e < envs.len() {
            find_slot(slots, envs[e as int].first, name)
        } else {
            None
        },
        None => None,
    }
}

/// The slot that a search from `env` outwards finds first: that of the
/// closest environment, among `env` and the `reach - 1` environments around
/// it, that has a slot named `name`.
pub open spec fn closest_slot(envs: Seq<Env>, slots: Seq<Slot>, env: usize, name: usize, reach: nat) -> Option<
    usize,
>
    decreases reach,
{
    if reach == 0 || env >= envs.len() {
        None
    } else {
        match find_slot(slots, envs[env as int].first, name) {
            Some(i) => Some(i),
            None => match envs[env as int].parent {
                Some(parent) => closest_slot(envs, slots, parent, name, (reach - 1) as nat),
                None => None,
            },
        }
    }
}

/// The environments from `env` outwards mirror the scopes of the resolver:
/// the environment at each depth has a slot for just the names that the
/// scope at that depth binds, and outside the outermost scope lies the
/// global environment.
pub open spec fn mirrors(envs: Seq<Env>, slots: Seq<Slot>, env: usize, scopes: Seq<Seq<Binding>>) -> bool {
    &&& forall|k: nat, name: usize|
        k < scopes.len() ==> (#[trigger] slot_of(envs, slots, ancestor(envs, env, k), name) is Some
            <==> state_of(scope_at(scopes, k as int), name) is Some)
    &&& forall|k: nat| k <= scopes.len() ==> (#[trigger] ancestor(envs, env, k)) is Some
    &&& ancestor(envs, env, scopes.len()) == Some(0usize)
}

/// The depth that the resolver records is that of the closest scope that
/// binds the name: the scope at that depth binds it and no scope inside it
/// does; and nothing is recorded just when no scope binds the name.
pub proof fn lemma_hops_is_closest(scopes: Seq<Seq<Binding>>, name: usize, from: nat)
    ensures
        match hops_from(scopes, name, from) {
            Some(depth) => {
                &&& from <= depth < scopes.len()
                &&& state_of(scope_at(scopes, depth as int), name) is Some
                &&& forall|k: nat|
                    from <= k < depth ==> state_of(#[trigger] scope_at(scopes, k as int), name)
                        is None
            },
            None => forall|k: nat|
                from <= k < scopes.len() ==> state_of(#[trigger] scope_at(scopes, k as int), name)
                    is None,
        },
    decreases scopes.len() - from,
{
    if from < scopes.len() && state_of(scope_at(scopes, from as int), name) is None {
        lemma_hops_is_closest(scopes, name, from + 1);
    }
}

/// Going one environment further out is taking the parent.
pub proof fn lemma_ancestor_step(envs: Seq<Env>, env: usize, depth: nat)
    ensures
        ancestor(envs, env, depth + 1) == match ancestor(envs, env, depth) {
            Some(e) => match envs[e as int].parent {
                Some(parent) => if parent < envs.len() {
                    Some(parent)
                } else {
                    None
                },
                None => None,
            },
            None => None,
        },
        ancestor(envs, env, depth) matches Some(e) ==> e < envs.len(),
    decreases depth,
{
    reveal_with_fuel(ancestor, 3);
    if env < envs.len() && depth > 0 {
        assert(ancestor(envs, env, depth + 1) == match envs[env as int].parent {
            Some(parent) => ancestor(envs, parent, depth),
            None => None,
        });
        match envs[env as int].parent {
            Some(parent) => {
                lemma_ancestor_step(envs, parent, (depth - 1) as nat);
            },
            None => {},
        }
    }
}

proof fn lemma_closest_from(
    envs: Seq<Env>,
    slots: Seq<Slot>,
    env: usize,
    scopes: Seq<Seq<Binding>>,
    name: usize,
    from: nat,
)
    requires
        mirrors(envs, slots, env, scopes),
        from <= scopes.len(),
    ensures
        ancestor(envs, env, from) matches Some(e) && closest_slot(
            envs,
            slots,
            e,
            name,
            (scopes.len() - from + 1) as nat,
        ) == slot_of(envs, slots, resolved_home(envs, env, hops_from(scopes, name, from)), name),
    decreases scopes.len() - from,
{
    lemma_ancestor_step(envs, env, from);
    let e = ancestor(envs, env, from)->0;
    if from < scopes.len() {
        assert(slot_of(envs, slots, ancestor(envs, env, from), name) is Some <==> state_of(
            scope_at(scopes, from as int),
            name,
        ) is Some);
        if state_of(scope_at(scopes, from as int), name) is None {
            lemma_closest_from(envs, slots, env, scopes, name, from + 1);
            assert(ancestor(envs, env, from + 1) is Some);
        }
    } else {
        assert(e == 0);
        assert(closest_slot(envs, slots, e, name, 1) == find_slot(
            slots,
            envs[e as int].first,
            name,
        )) by {
            reveal_with_fuel(closest_slot, 2);
        }
    }
}

/// Where the environments mirror the scopes, the lookup that goes by the
/// resolver's table finds the same slot as a search from the current
/// environment outwards that takes the first slot of the name it meets.
pub proof fn lemma_resolved_lookup_is_closest(
    envs: Seq<Env>,
    slots: Seq<Slot>,
    env: usize,
    scopes: Seq<Seq<Binding>>,
    name: usize,
)
    requires
        mirrors(envs, slots, env, scopes),
    ensures
        slot_of(envs, slots, resolved_home(envs, env, hops(scopes, name)), name) == closest_slot(
            envs,
            slots,
            env,
            name,
            scopes.len() + 1,
        ),
{
    lemma_closest_from(envs, slots, env, scopes, name, 0);
}

/// The evaluator looks a variable up in the environment that the resolver's
/// table names: with a depth recorded for the node, in the environment that
/// many environments outside the current one, and else in the global one.
pub proof fn lemma_lookup_goes_by_the_table(m: Machine, code: CodeView, id: usize, name: usize)
    requires
        m.envs.len() > 0,
    ensures
        m.home(code, id) == resolved_home(
            m.envs,
            m.env,
            match code.depth(m.unit, id) {
                Some(depth) => Some(depth as nat),
                None => None,
            },
        ),
        m.slot_in(m.home(code, id), name) == slot_of(m.envs, m.slots, m.home(code, id), name),
        m.lookup(code, id, name) == match m.slot_in(m.home(code, id), name) {
            Some(i) => Some(m.slots[i as int].value),
            None => None,
        },
{
}

/// What holds of every step: it never stops with `Pause`, and when it stops
/// with an error, both stacks are empty and the global environment is
/// current.
pub open spec fn orderly(step: Step) -> bool {
    match step.1 {
        Some(Action::Pause) => false,
        Some(Action::Failed(_)) => step.0.frames.len() == 0 && step.0.stack.len() == 0
            && step.0.env == 0,
        _ => true,
    }
}

proof fn lemma_call_is_orderly(m: Machine, code: CodeView, f: usize, argc: usize, line: usize, result: Option<Value>)
    ensures
        orderly(m.call(code, f, argc, line, result)),
{
    reveal(Machine::call);
}

proof fn lemma_invoke_is_orderly(m: Machine, code: CodeView, argc: usize, line: usize)
    ensures
        orderly(m.invoke(code, argc, line)),
{
    reveal(Machine::instantiate);
    match m.peek(argc as int) {
        Some(Value::Function(f)) => {
            lemma_call_is_orderly(m, code, f, argc, line, None);
        },
        Some(Value::Class(class)) => {
            if class < m.classes.len() && argc < m.stack.len() {
                let made = Machine {
                    instances: m.instances.push(Instance { class, fields: None }),
                    ..m
                };
                let instance = Value::Instance(m.instances.len() as usize);
                match find_method(m.classes, m.slots, class, SYM_INIT) {
                    Some(f) => {
                        if f < m.functions.len() {
                            let (bound_m, bound) = made.bind(f, instance);
                            lemma_call_is_orderly(bound_m, code, bound, argc, line, Some(instance));
                        }
                    },
                    None => {},
                }
            }
        },
        _ => {},
    }
}

proof fn lemma_run_is_orderly(m: Machine, code: CodeView, id: usize)
    ensures
        orderly(m.run(code, id)),
{
    reveal(Machine::run);
    reveal(Machine::super_method);
}

proof fn lemma_consume_is_orderly(m: Machine, frame: Frame, value: Value)
    ensures
        orderly(m.consume(frame, value)),
{
    reveal(Machine::consume);
    reveal(Machine::binary);
    reveal(Machine::unwind);
}

/// A step never stops with `Pause`, and a step that stops with an error
/// leaves nothing to be done: the rest of the program is dropped.
pub proof fn lemma_step_is_orderly(m: Machine, code: CodeView)
    ensures
        orderly(m.step(code)),
{
    if m.frames.len() > 0 {
        let rest = Machine { frames: m.frames.drop_last(), ..m };
        let frame = m.frames.last();
        reveal(Machine::perform);
        reveal(Machine::store);
        reveal(Machine::get_field);
        reveal(Machine::set_field);
        reveal(Machine::make_class);
        match frame {
            Frame::Run(id) => {
                lemma_run_is_orderly(rest, code, id);
            },
            Frame::Arguments(list, k, line) => {
                lemma_invoke_is_orderly(rest, code, list.len, line);
            },
            _ => {
                match rest.peek(0) {
                    Some(value) => {
                        lemma_consume_is_orderly(rest, frame, value);
                    },
                    None => {},
                }
            },
        }
    }
}

/// After a run-time error the run is over: the next step finds nothing to
/// do.
pub proof fn lemma_failure_ends_the_run(m: Machine, code: CodeView)
    requires
        m.step(code).1 matches Some(Action::Failed(_)),
    ensures
        m.step(code).0.step(code).1 == Some(Action::Finished),
{
    lemma_step_is_orderly(m, code);
}

/// A `return` is no error: the step that carries it out goes on silently.
pub proof fn lemma_return_is_no_error(m: Machine, value: Value)
    ensures
        m.consume(Frame::Return, value).1 is None,
{
    reveal(Machine::consume);
    reveal(Machine::unwind);
}

/// Pausing is not observable: a run that is paused when its fuel is used
/// up and then resumed does what a run with all of the fuel does.
pub proof fn lemma_pause_is_transparent(m: Machine, code: CodeView, first: nat, second: nat)
    ensures
        m.run_for(code, first + second) == match m.run_for(code, first).1 {
            Action::Pause => m.run_for(code, first).0.run_for(code, second),
            _ => m.run_for(code, first),
        },
    decreases first,
{
    if first > 0 {
        lemma_step_is_orderly(m, code);
        let (next, action) = m.step(code);
        if action is None {
            lemma_pause_is_transparent(next, code, (first - 1) as nat, second);
        }
    }
}

/// Taking a program in loses nothing that earlier programs have defined:
/// the environments, the slots and all other values stay as they are, and
/// the programs taken in before stay in place.
pub proof fn lemma_load_keeps_definitions(a: InterpreterView, p: ProgramView)
    ensures
        a.load(p).machine.envs == a.machine.envs,
        a.load(p).machine.slots == a.machine.slots,
        a.load(p).machine.functions == a.machine.functions,
        a.load(p).machine.classes == a.machine.classes,
        a.load(p).machine.instances == a.machine.instances,
        a.load(p).code.units.len() == a.code.units.len() + 1,
        forall|u: int| 0 <= u < a.code.units.len() ==> a.load(p).code.units[u] == a.code.units[u],
        forall|i: int|
            0 <= i < a.machine.strings.len() ==> a.load(p).machine.strings[i]
                == a.machine.strings[i],
{
}

/// A run is a function of the state, the programs and the fuel alone: two
/// interpreters in the same state that are given the same program do the
/// same.
pub proof fn lemma_runs_are_determined(
    a: InterpreterView,
    b: InterpreterView,
    p: ProgramView,
    q: ProgramView,
    fuel: nat,
)
    requires
        a == b,
        p == q,
    ensures
        a.load(p).run(fuel) == b.load(q).run(fuel),
{
}

proof fn lemma_params_keep_errors(links: Seq<usize>, params: List, k: nat, line: usize, id: usize, st: RState)
    ensures
        declare_params(links, params, k, line, id, st).errors.len() >= st.errors.len(),
    decreases params.len - k,
{
    if k < params.len {
        let name = links[params.start + k];
        lemma_params_keep_errors(
            links,
            params,
            k + 1,
            line,
            id,
            st.declare(name, line, id).define(name),
        );
    }
}

/// Resolving a node never loses an error that was found before.
#[verifier::spinoff_prover]
#[verifier::rlimit(60)]
pub proof fn lemma_node_keeps_errors(p: ProgramView, id: usize, st: RState)
    requires
        p.wf(),
        id < p.nodes.len(),
    ensures
        resolve_node(p, id, st).errors.len() >= st.errors.len(),
    decreases id, 2nat, 0nat,
{
    assert(node_in_order(p, id)) by {
        reveal(nodes_ok);
    }
    match p.nodes[id as int] {
        Node::Grouping { inner } => {
            lemma_node_keeps_errors(p, inner, st);
            assert(resolve_node(p, id, st).errors.len() >= st.errors.len()) by {
                reveal(resolve_node);
            }
        },
        Node::Unary { operand, .. } => {
            lemma_node_keeps_errors(p, operand, st);
            assert(resolve_node(p, id, st).errors.len() >= st.errors.len()) by {
                reveal(resolve_node);
            }
        },
        Node::Binary { left, right, .. } => {
            lemma_node_keeps_errors(p, left, st);
            lemma_node_keeps_errors(p, right, resolve_node(p, left, st));
            assert(resolve_node(p, id, st).errors.len() >= st.errors.len()) by {
                reveal(resolve_node);
            }
        },
        Node::Logical { left, right, .. } => {
            lemma_node_keeps_errors(p, left, st);
            lemma_node_keeps_errors(p, right, resolve_node(p, left, st));
            assert(resolve_node(p, id, st).errors.len() >= st.errors.len()) by {
                reveal(resolve_node);
            }
        },
        Node::Assign { value, .. } => {
            lemma_node_keeps_errors(p, value, st);
            assert(resolve_node(p, id, st).errors.len() >= st.errors.len()) by {
                reveal(resolve_node);
            }
        },
        Node::Call { callee, args, .. } => {
            lemma_node_keeps_errors(p, callee, st);
            lemma_list_keeps_errors(p, id, args, 0, resolve_node(p, callee, st));
            assert(resolve_node(p, id, st).errors.len() >= st.errors.len()) by {
                reveal(resolve_node);
                reveal(resolve_list);
            }
        },
        Node::GetField { object, .. } => {
            lemma_node_keeps_errors(p, object, st);
            assert(resolve_node(p, id, st).errors.len() >= st.errors.len()) by {
                reveal(resolve_node);
            }
        },
        Node::SetField { object, value, .. } => {
            lemma_node_keeps_errors(p, value, st);
            lemma_node_keeps_errors(p, object, resolve_node(p, value, st));
            assert(resolve_node(p, id, st).errors.len() >= st.errors.len()) by {
                reveal(resolve_node);
            }
        },
        Node::Expression { expr } => {
            lemma_node_keeps_errors(p, expr, st);
            assert(resolve_node(p, id, st).errors.len() >= st.errors.len()) by {
                reveal(resolve_node);
            }
        },
        Node::Print { expr } => {
            lemma_node_keeps_errors(p, expr, st);
            assert(resolve_node(p, id, st).errors.len() >= st.errors.len()) by {
                reveal(resolve_node);
            }
        },
        Node::Var { name, init, line } => {
            match init {
                Some(init) => {
                    lemma_node_keeps_errors(p, init, st.declare(name, line, id));
                },
                None => {},
            }
            assert(resolve_node(p, id, st).errors.len() >= st.errors.len()) by {
                reveal(resolve_node);
            }
        },
        Node::Block { body } => {
            lemma_list_keeps_errors(p, id, body, 0, st.begin());
            assert(resolve_node(p, id, st).errors.len() >= st.errors.len()) by {
                reveal(resolve_node);
                reveal(resolve_list);
            }
        },
        Node::If { cond, then_branch, else_branch } => {
            lemma_node_keeps_errors(p, cond, st);
            lemma_node_keeps_errors(p, then_branch, resolve_node(p, cond, st));
            match else_branch {
                Some(other) => {
                    lemma_node_keeps_errors(
                        p,
                        other,
                        resolve_node(p, then_branch, resolve_node(p, cond, st)),
                    );
                },
                None => {},
            }
            assert(resolve_node(p, id, st).errors.len() >= st.errors.len()) by {
                reveal(resolve_node);
            }
        },
        Node::While { cond, body } => {
            lemma_node_keeps_errors(p, cond, st);
            lemma_node_keeps_errors(p, body, resolve_node(p, cond, st));
            assert(resolve_node(p, id, st).errors.len() >= st.errors.len()) by {
                reveal(resolve_node);
            }
        },
        Node::Function { name, line, .. } => {
            lemma_function_keeps_errors(
                p,
                id,
                FunctionKind::Function,
                st.declare(name, line, id).define(name),
            );
            assert(resolve_node(p, id, st).errors.len() >= st.errors.len()) by {
                reveal(resolve_node);
                reveal(resolve_function);
            }
        },
        Node::Return { value, line } => {
            match value {
                Some(value) => {
                    lemma_node_keeps_errors(p, value, st.returning(true, line, id));
                },
                None => {},
            }
            assert(resolve_node(p, id, st).errors.len() >= st.errors.len()) by {
                reveal(resolve_node);
            }
        },
        Node::Class { .. } => {
            lemma_class_keeps_errors(p, id, st);
            assert(resolve_node(p, id, st).errors.len() >= st.errors.len()) by {
                reveal(resolve_node);
                reveal(resolve_class);
            }
        },
        _ => {
            assert(resolve_node(p, id, st).errors.len() >= st.errors.len()) by {
                reveal(resolve_node);
            }
        },
    }
}

proof fn lemma_list_keeps_errors(p: ProgramView, id: usize, list: List, k: nat, st: RState)
    requires
        p.wf(),
        id < p.nodes.len(),
        list_below(p.links, list, id as int),
    ensures
        resolve_list(p, id, list, k, st).errors.len() >= st.errors.len(),
    decreases id, 0nat, list.len - k,
{
    reveal(resolve_node);
    reveal(resolve_list);
    reveal(resolve_function);
    reveal(resolve_methods);
    reveal(resolve_class);
    if k < list.len {
        let child = p.links[list.start + k];
        lemma_node_keeps_errors(p, child, st);
        lemma_list_keeps_errors(p, id, list, k + 1, resolve_node(p, child, st));
    }
}

proof fn lemma_function_keeps_errors(p: ProgramView, id: usize, kind: FunctionKind, st: RState)
    requires
        p.wf(),
        id < p.nodes.len(),
    ensures
        resolve_function(p, id, kind, st).errors.len() >= st.errors.len(),
    decreases id, 1nat, 0nat,
{
    reveal(resolve_node);
    reveal(resolve_list);
    reveal(resolve_function);
    reveal(resolve_methods);
    reveal(resolve_class);
    assert(node_in_order(p, id)) by {
        reveal(nodes_ok);
    }
    match p.nodes[id as int] {
        Node::Function { params, body, line, .. } => {
            let opened = st.in_function(kind).begin();
            lemma_params_keep_errors(p.links, params, 0, line, id, opened);
            lemma_list_keeps_errors(
                p,
                id,
                body,
                0,
                declare_params(p.links, params, 0, line, id, opened),
            );
        },
        _ => {},
    }
}

proof fn lemma_methods_keep_errors(p: ProgramView, id: usize, list: List, k: nat, st: RState)
    requires
        p.wf(),
        id < p.nodes.len(),
        list_below(p.links, list, id as int),
    ensures
        resolve_methods(p, id, list, k, st).errors.len() >= st.errors.len(),
    decreases id, 0nat, list.len - k,
{
    reveal(resolve_node);
    reveal(resolve_list);
    reveal(resolve_function);
    reveal(resolve_methods);
    reveal(resolve_class);
    if k < list.len {
        let method = p.links[list.start + k];
        let kind = method_kind(p.nodes[method as int]);
        lemma_function_keeps_errors(p, method, kind, st);
        lemma_methods_keep_errors(p, id, list, k + 1, resolve_function(p, method, kind, st));
    }
}

proof fn lemma_class_keeps_errors(p: ProgramView, id: usize, st: RState)
    requires
        p.wf(),
        id < p.nodes.len(),
    ensures
        resolve_class(p, id, st).errors.len() >= st.errors.len(),
        p.nodes[id as int] matches Node::Class { name, superclass: Some(parent), .. }
            && names_variable(p.nodes[parent as int], name) ==> resolve_class(p, id, st).errors.len()
            > st.errors.len(),
    decreases id, 1nat, 0nat,
{
    reveal(resolve_node);
    reveal(resolve_list);
    reveal(resolve_function);
    reveal(resolve_methods);
    reveal(resolve_class);
    assert(node_in_order(p, id)) by {
        reveal(nodes_ok);
    }
    match p.nodes[id as int] {
        Node::Class { name, superclass, methods, line } => {
            let named = st.in_class(ClassKind::Class).declare(name, line, id).define(name);
            match superclass {
                Some(parent) => {
                    let checked = if names_variable(p.nodes[parent as int], name) {
                        named.error(ResolveErrorKind::InheritsFromItself, line, id)
                    } else {
                        named
                    };
                    let inherited = checked.in_class(ClassKind::Subclass);
                    lemma_node_keeps_errors(p, parent, inherited);
                    let outer = resolve_node(p, parent, inherited).begin().define(SYM_SUPER);
                    lemma_methods_keep_errors(p, id, methods, 0, outer.begin().define(SYM_THIS));
                },
                None => {
                    lemma_methods_keep_errors(p, id, methods, 0, named.begin().define(SYM_THIS));
                },
            }
        },
        _ => {},
    }
}

proof fn lemma_roots_keep_errors(p: ProgramView, k: nat, st: RState)
    requires
        p.wf(),
    ensures
        resolve_roots(p, k, st).errors.len() >= st.errors.len(),
    decreases p.roots.len() - k,
{
    if k < p.roots.len() {
        lemma_node_keeps_errors(p, p.roots[k as int], st);
        lemma_roots_keep_errors(p, k + 1, resolve_node(p, p.roots[k as int], st));
    }
}

proof fn lemma_roots_reject(p: ProgramView, from: nat, at: nat, st: RState)
    requires
        p.wf(),
        from <= at < p.roots.len(),
        inherits_from_itself(p, p.roots[at as int]),
    ensures
        resolve_roots(p, from, st).errors.len() > st.errors.len(),
    decreases at - from,
{
    let root = p.roots[from as int];
    let next = resolve_node(p, root, st);
    lemma_node_keeps_errors(p, root, st);
    if from == at {
        reveal(resolve_node);
        reveal(resolve_class);
        lemma_class_keeps_errors(p, root, st);
        lemma_roots_keep_errors(p, from + 1, next);
    } else {
        lemma_roots_reject(p, from + 1, at, next);
    }
}

/// The node `id` is a class whose superclass is a variable of the class's
/// own name.
pub open spec fn inherits_from_itself(p: ProgramView, id: usize) -> bool {
    p.nodes[id as int] matches Node::Class { name, superclass: Some(parent), .. }
        && names_variable(p.nodes[parent as int], name)
}

/// A program in which a top-level class names itself as its superclass does
/// not resolve.
pub proof fn lemma_self_inheritance_is_rejected(p: ProgramView, at: nat)
    requires
        p.wf(),
        at < p.roots.len(),
        inherits_from_itself(p, p.roots[at as int]),
    ensures
        spec_resolve(p) is Err,
{
    lemma_roots_reject(p, 0, at, RState::start(p.nodes.len()));
}

/// Writing a value into a slot moves no slot: every search finds what it
/// found before.
pub proof fn lemma_find_slot_ignores_values(
    slots: Seq<Slot>,
    at: int,
    value: Value,
    head: Option<usize>,
    name: usize,
)
    requires
        0 <= at < slots.len(),
    ensures
        find_slot(
            slots.update(at, Slot { name: slots[at].name, value, next: slots[at].next }),
            head,
            name,
        ) == find_slot(slots, head, name),
    decreases
            (match head {
                Some(i) => i + 1,
                None => 0,
            }),
{
    match head {
        Some(i) => {
            if i < slots.len() && slots[i as int].name != name {
                match slots[i as int].next {
                    Some(j) => {
                        if j < i {
                            lemma_find_slot_ignores_values(slots, at, value, Some(j), name);
                        }
                    },
                    None => {},
                }
            }
        },
        None => {},
    }
}

/// A variable holds what was last assigned to it, whoever reads it: after
/// an assignment to the variable used at a node, a lookup of that variable
/// gives the value assigned.
pub proof fn lemma_assigned_value_is_seen(m: Machine, code: CodeView, id: usize, name: usize, value: Value)
    requires
        m.assign(code, id, name, value) is Some,
    ensures
        m.assign(code, id, name, value)->0.lookup(code, id, name) == Some(value),
{
    let home = m.home(code, id);
    let e = home->0;
    let first = m.envs[e as int].first;
    lemma_find_slot_finds_the_name(m.slots, first, name);
    let at = find_slot(m.slots, first, name)->0;
    let after = m.assign(code, id, name, value)->0;
    lemma_find_slot_ignores_values(m.slots, at as int, value, first, name);
    assert(after.home(code, id) == home);
    assert(after.slot_in(home, name) == Some(at));
}

/// The slot that a search finds is in the table and has the name searched
/// for.
pub proof fn lemma_find_slot_finds_the_name(slots: Seq<Slot>, head: Option<usize>, name: usize)
    ensures
        find_slot(slots, head, name) matches Some(i) ==> i < slots.len() && slots[i as int].name
            == name,
    decreases
            (match head {
                Some(i) => i + 1,
                None => 0,
            }),
{
    match head {
        Some(i) => {
            if i < slots.len() && slots[i as int].name != name {
                match slots[i as int].next {
                    Some(j) => {
                        if j < i {
                            lemma_find_slot_finds_the_name(slots, Some(j), name);
                        }
                    },
                    None => {},
                }
            }
        },
        None => {},
    }
}

/// After a definition the environment has the variable, with the value it
/// was defined with.
pub proof fn lemma_defined_value_is_seen(m: Machine, env: usize, name: usize, value: Value)
    requires
        m.slots.len() <= usize::MAX,
        env < m.envs.len(),
    ensures
        m.define(env, name, value).slot_in(Some(env), name) matches Some(i) && m.define(
            env,
            name,
            value,
        ).slots[i as int].value == value,
{
    let first = m.envs[env as int].first;
    let after = m.define(env, name, value);
    lemma_find_slot_finds_the_name(m.slots, first, name);
    match find_slot(m.slots, first, name) {
        Some(i) => {
            lemma_find_slot_ignores_values(m.slots, i as int, value, first, name);
            assert(after.envs[env as int].first == first);
            assert(after.slot_in(Some(env), name) == Some(i));
        },
        None => {
            let at = m.slots.len() as usize;
            assert(after.envs[env as int].first == Some(at));
            assert(after.slots[at as int].name == name);
            assert(after.slot_in(Some(env), name) == Some(at));
        },
    }
}

/// A bound method sees its receiver: binding gives a function of the same
/// declaration whose closure lies inside that of the method and in which
/// `this` is the value that was bound.
pub proof fn lemma_bound_method_sees_receiver(m: Machine, f: usize, receiver: Value)
    requires
        m.fits(),
        f < m.functions.len(),
    ensures
        ({
            let (after, bound) = m.bind(f, receiver);
            let made = after.functions[bound as int];
            &&& bound < after.functions.len()
            &&& made.decl == m.functions[f as int].decl
            &&& made.unit == m.functions[f as int].unit
            &&& made.closure < after.envs.len()
            &&& after.envs[made.closure as int].parent == Some(m.functions[f as int].closure)
            &&& after.slot_in(Some(made.closure), SYM_THIS) matches Some(i) && after.slots[i as int].value
                == receiver
        }),
{
    let (scoped, env) = m.scope(m.functions[f as int].closure);
    lemma_defined_value_is_seen(scoped, env, SYM_THIS, receiver);
    let defined = scoped.define(env, SYM_THIS, receiver);
    let (after, bound) = m.bind(f, receiver);
    assert(after.slots == defined.slots);
    assert(after.envs == defined.envs);
    assert(after.functions[bound as int].closure == env);
}

/// A call with the wrong number of arguments is an error that names the
/// number expected and the number given, and it ends the run.
pub proof fn lemma_wrong_arity_is_an_error(m: Machine, code: CodeView, f: usize, argc: usize, line: usize)
    requires
        f < m.functions.len(),
        argc < m.stack.len(),
        code.node(m.functions[f as int].unit, m.functions[f as int].decl) matches Some(
            Node::Function { params, .. },
        ) && params.len != argc,
    ensures
        code.node(m.functions[f as int].unit, m.functions[f as int].decl) matches Some(
            Node::Function { params, .. },
        ) && m.call(code, f, argc, line, None) == m.fail(
            RuntimeErrorKind::Arity { expected: params.len, got: argc },
            line,
        ),
        m.call(code, f, argc, line, None).0.step(code).1 == Some(Action::Finished),
{
    reveal(Machine::call);
}

} // verus!
