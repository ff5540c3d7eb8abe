//! The syntax tree, stored flat: every node lives in one table and names its
//! children by their index, so that the index of a node is its identity.

use vstd::prelude::*;

verus! {

#[derive(Clone, Copy, Debug, PartialEq, Eq, Structural)]
pub enum UnaryOp {
    Negate,
    Not,
}

#[derive(Clone, Copy, Debug, PartialEq, Eq, Structural)]
pub enum BinaryOp {
    Add,
    Subtract,
    Multiply,
    Divide,
    Equal,
    NotEqual,
    Less,
    LessEqual,
    Greater,
    GreaterEqual,
}

#[derive(Clone, Copy, Debug, PartialEq, Eq, Structural)]
pub enum LogicalOp {
    And,
    Or,
}

/// A run of entries in the link table: the children of a block, the
/// arguments of a call, the methods of a class, or the parameter names of a
/// function.
#[derive(Clone, Copy, Debug, PartialEq, Eq, Structural)]
pub struct List {
    pub start: usize,
    pub len: usize,
}

/// One node of the syntax tree. Children are indices into the node table,
/// names are indices into the symbol table, literal texts are indices into
/// the text table.
#[allow(inconsistent_fields)]
#[derive(Clone, Copy, Debug, PartialEq, Eq)]
pub enum Node {
    Nil,
    Boolean { value: bool },
    Number { text: usize },
    Str { text: usize },
    Grouping { inner: usize },
    Unary { op: UnaryOp, operand: usize, line: usize },
    Binary { op: BinaryOp, left: usize, right: usize, line: usize },
    Logical { op: LogicalOp, left: usize, right: usize },
    Variable { name: usize, line: usize },
    Assign { name: usize, value: usize, line: usize },
    Call { callee: usize, args: List, line: usize },
    GetField { object: usize, name: usize, line: usize },
    SetField { object: usize, name: usize, value: usize, line: usize },
    This { line: usize },
    Super { method: usize, line: usize },
    Expression { expr: usize },
    Print { expr: usize },
    Var { name: usize, init: Option<usize>, line: usize },
    Block { body: List },
    If { cond: usize, then_branch: usize, else_branch: Option<usize> },
    While { cond: usize, body: usize },
    Function { name: usize, params: List, body: List, line: usize },
    Return { value: Option<usize>, line: usize },
    Class { name: usize, superclass: Option<usize>, methods: List, line: usize },
}

/// The symbol of the name `init`, in every symbol table.
pub const SYM_INIT: usize = 0;

/// The symbol of the name `this`, in every symbol table.
pub const SYM_THIS: usize = 1;

/// The symbol of the name `super`, in every symbol table.
pub const SYM_SUPER: usize = 2;

/// A parsed compilation unit.
#[derive(Debug)]
pub struct Program {
    /// The node table; a node's children stand before it.
    pub nodes: Vec<Node>,
    /// The link table that the lists of the nodes index.
    pub links: Vec<usize>,
    /// The names that occur, each once.
    pub symbols: Vec<String>,
    /// The texts of the string and number literals.
    pub texts: Vec<String>,
    /// The top-level statements, in source order.
    pub roots: Vec<usize>,
}

/// The mathematical content of a [`Program`].
pub struct ProgramView {
    pub nodes: Seq<Node>,
    pub links: Seq<usize>,
    pub symbols: Seq<Seq<char>>,
    pub texts: Seq<Seq<char>>,
    pub roots: Seq<usize>,
}

/// The contents of a sequence of strings, in order.
pub open spec fn string_views(strings: Seq<String>) -> Seq<Seq<char>> {
    strings.map_values(|s: String| s@)
}

pub proof fn lemma_string_views_push(strings: Seq<String>, s: String)
    ensures
        string_views(strings.push(s)) == string_views(strings).push(s@),
{
    assert(string_views(strings.push(s)) =~= string_views(strings).push(s@));
}

impl View for Program {
    type V = ProgramView;

    open spec fn view(&self) -> ProgramView {
        ProgramView {
            nodes: self.nodes@,
            links: self.links@,
            symbols: string_views(self.symbols@),
            texts: string_views(self.texts@),
            roots: self.roots@,
        }
    }
}

/// The three names that every symbol table starts with.
pub open spec fn reserved_symbols() -> Seq<Seq<char>> {
    seq!["init"@, "this"@, "super"@]
}

/// `symbols` starts with the reserved names, each at its own symbol.
pub open spec fn starts_reserved(symbols: Seq<Seq<char>>) -> bool {
    &&& symbols.len() >= 3
    &&& symbols[SYM_INIT as int] == "init"@
    &&& symbols[SYM_THIS as int] == "this"@
    &&& symbols[SYM_SUPER as int] == "super"@
}

/// `a` is `b` cut off at some length.
pub open spec fn extends<T>(a: Seq<T>, b: Seq<T>) -> bool {
    &&& a.len() <= b.len()
    &&& forall|i: int| 0 <= i < a.len() ==> a[i] == b[i]
}

/// `list` lies inside `links` and each of its entries is less than `bound`.
pub open spec fn list_below(links: Seq<usize>, list: List, bound: int) -> bool {
    &&& list.start + list.len <= links.len()
    &&& forall|k: int| 0 <= k < list.len ==> #[trigger] links[list.start + k] < bound
}

/// The node `node`, standing at index `at`, names only children before it,
/// and only symbols and texts that exist.
pub open spec fn node_ok(
    node: Node,
    at: int,
    links: Seq<usize>,
    symbols: int,
    texts: int,
) -> bool {
    match node {
        Node::Nil => true,
        Node::Boolean { .. } => true,
        Node::Number { text } => text < texts,
        Node::Str { text } => text < texts,
        Node::Grouping { inner } => inner < at,
        Node::Unary { operand, .. } => operand < at,
        Node::Binary { left, right, .. } => left < at && right < at,
        Node::Logical { left, right, .. } => left < at && right < at,
        Node::Variable { name, .. } => name < symbols,
        Node::Assign { name, value, .. } => name < symbols && value < at,
        Node::Call { callee, args, .. } => callee < at && list_below(links, args, at),
        Node::GetField { object, name, .. } => object < at && name < symbols,
        Node::SetField { object, name, value, .. } => object < at && name < symbols && value < at,
        Node::This { .. } => true,
        Node::Super { method, .. } => method < symbols,
        Node::Expression { expr } => expr < at,
        Node::Print { expr } => expr < at,
        Node::Var { name, init, .. } => name < symbols && (init matches Some(e) ==> e < at),
        Node::Block { body } => list_below(links, body, at),
        Node::If { cond, then_branch, else_branch } => cond < at && then_branch < at && (
        else_branch matches Some(e) ==> e < at),
        Node::While { cond, body } => cond < at && body < at,
        Node::Function { name, params, body, .. } => name < symbols && list_below(
            links,
            params,
            symbols,
        ) && list_below(links, body, at),
        Node::Return { value, .. } => value matches Some(e) ==> e < at,
        Node::Class { name, superclass, methods, .. } => name < symbols && (superclass matches Some(
            s,
        ) ==> s < at) && list_below(links, methods, at),
    }
}

/// Every node of `nodes` is in order.
#[verifier::opaque]
pub open spec fn nodes_ok(nodes: Seq<Node>, links: Seq<usize>, symbols: int, texts: int) -> bool {
    forall|i: int| 0 <= i < nodes.len() ==> node_ok(#[trigger] nodes[i], i, links, symbols, texts)
}

impl ProgramView {
    /// The program is well formed: children stand before their parents, all
    /// indices are in range, and the symbol table starts with the reserved
    /// names.
    pub open spec fn wf(self) -> bool {
        &&& nodes_ok(self.nodes, self.links, self.symbols.len() as int, self.texts.len() as int)
        &&& forall|r: int| 0 <= r < self.roots.len() ==> #[trigger] self.roots[r] < self.nodes.len()
        &&& starts_reserved(self.symbols)
    }
}

impl Program {
    pub open spec fn wf(&self) -> bool {
        self@.wf()
    }
}

/// A node stays in order when the link table is extended at its end and the
/// symbol and text tables grow.
pub proof fn lemma_node_ok_extends(
    node: Node,
    at: int,
    links: Seq<usize>,
    symbols: int,
    texts: int,
    links2: Seq<usize>,
    symbols2: int,
    texts2: int,
)
    requires
        node_ok(node, at, links, symbols, texts),
        extends(links, links2),
        symbols <= symbols2,
        texts <= texts2,
    ensures
        node_ok(node, at, links2, symbols2, texts2),
{
    assert forall|list: List, bound: int, bound2: int|
        list_below(links, list, bound) && bound <= bound2 implies list_below(
        links2,
        list,
        bound2,
    ) by {
        assert forall|k: int| 0 <= k < list.len implies #[trigger] links2[list.start + k]
            < bound2 by {
            assert(links2[list.start + k] == links[list.start + k]);
        }
    }
}

/// The node table stays in order when the link table is extended at its end
/// and the symbol and text tables grow.
pub proof fn lemma_nodes_ok_extends(
    nodes: Seq<Node>,
    links: Seq<usize>,
    symbols: int,
    texts: int,
    links2: Seq<usize>,
    symbols2: int,
    texts2: int,
)
    requires
        nodes_ok(nodes, links, symbols, texts),
        extends(links, links2),
        symbols <= symbols2,
        texts <= texts2,
    ensures
        nodes_ok(nodes, links2, symbols2, texts2),
{
    reveal(nodes_ok);
    assert forall|i: int| 0 <= i < nodes.len() implies node_ok(
        #[trigger] nodes[i],
        i,
        links2,
        symbols2,
        texts2,
    ) by {
        lemma_node_ok_extends(nodes[i], i, links, symbols, texts, links2, symbols2, texts2);
    }
}

/// The first index at or after `from` at which `symbols` holds `name`, or the
/// length of `symbols` when there is none.
pub open spec fn position_of(symbols: Seq<Seq<char>>, name: Seq<char>, from: int) -> int
    decreases symbols.len() - from,
{
    if from < 0 || from >= symbols.len() {
        symbols.len() as int
    } else if symbols[from] == name {
        from
    } else {
        position_of(symbols, name, from + 1)
    }
}

/// Looks `name` up in a symbol table.
pub fn find_symbol(symbols: &Vec<String>, name: &String) -> (at: usize)
    ensures
        at == position_of(string_views(symbols@), name@, 0),
        at <= symbols.len(),
{
    let mut i: usize = 0;
    while i < symbols.len()
        invariant
            i <= symbols.len(),
            position_of(string_views(symbols@), name@, i as int) == position_of(
                string_views(symbols@),
                name@,
                0,
            ),
        decreases symbols.len() - i,
    {
        if symbols[i] == *name {
            return i;
        }
        i = i + 1;
    }
    i
}

} // verus!
