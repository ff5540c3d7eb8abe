//! The parser: tokens to a syntax tree, by recursive descent, reporting every
//! syntax error it can find.
//!
//! The grammar, from the loosest binding to the tightest:
//!
//! ```text
//! program     -> declaration* EOF
//! declaration -> class | "fun" function | var | statement
//! class       -> "class" NAME ( "<" NAME )? "{" function* "}"
//! function    -> NAME "(" ( NAME ( "," NAME )* )? ")" "{" declaration* "}"
//! var         -> "var" NAME ( "=" expression )? ";"
//! statement   -> for | if | print | return | while | block | expression ";"
//! expression  -> assignment
//! assignment  -> ( call "." )? NAME "=" assignment | or
//! or          -> and ( "or" and )*
//! and         -> equality ( "and" equality )*
//! equality    -> comparison ( ( "!=" | "==" ) comparison )*
//! comparison  -> term ( ( ">" | ">=" | "<" | "<=" ) term )*
//! term        -> factor ( ( "-" | "+" ) factor )*
//! factor      -> unary ( ( "/" | "*" ) unary )*
//! unary       -> ( "!" | "-" ) unary | call
//! call        -> primary ( "(" ( expression ( "," expression )* )? ")" | "." NAME )*
//! primary     -> "true" | "false" | "nil" | "this" | NUMBER | STRING | NAME
//!              | "(" expression ")" | "super" "." NAME
//! ```
//!
//! What the parser computes is given by the `rule_*` functions, one for each
//! rule, over a [`PState`]: the tables built so far and the position in the
//! token sequence. A rule that calls another rule and then goes on takes the
//! state it gets back [`PState::from`] its own position: no rule ever moves
//! backwards, and writing it down keeps the definitions well founded.

use vstd::prelude::*;
use vstd::string::*;
use crate::ast::{
    find_symbol, position_of, lemma_nodes_ok_extends, lemma_string_views_push, list_below, node_ok,
    nodes_ok, reserved_symbols, starts_reserved, string_views, BinaryOp, List, LogicalOp, Node,
    Program, ProgramView, UnaryOp,
};
use crate::token::{token_views, Token, TokenKind, TokenView};

verus! {

/// What the parser expected and did not find.
#[derive(Clone, Copy, Debug, PartialEq, Eq, Structural)]
pub enum SyntaxErrorKind {
    /// A token of the given kind was expected.
    Expected(TokenKind),
    /// An expression was expected.
    ExpectedExpression,
    /// The left side of `=` is neither a variable nor a property.
    InvalidAssignmentTarget,
}

/// A syntax error: its kind, the index of the offending token, and that
/// token's line.
#[derive(Clone, Copy, Debug, PartialEq, Eq, Structural)]
pub struct SyntaxError {
    pub kind: SyntaxErrorKind,
    pub token: usize,
    pub line: usize,
}

impl SyntaxErrorKind {
    pub open spec fn description(self) -> Seq<char> {
        match self {
            SyntaxErrorKind::Expected(kind) => "Expect "@ + kind.spelling() + "."@,
            SyntaxErrorKind::ExpectedExpression => "Expect expression."@,
            SyntaxErrorKind::InvalidAssignmentTarget => "Invalid assignment target."@,
        }
    }
}

impl SyntaxError {
    /// The text of the diagnostic, without the line.
    pub fn message(&self) -> (text: String)
        ensures
            text@ == self.kind.description(),
    {
        match self.kind {
            SyntaxErrorKind::Expected(kind) => {
                let mut text = String::from_str("Expect ");
                text.append(kind.name().as_str());
                text.append(".");
                text
            },
            SyntaxErrorKind::ExpectedExpression => String::from_str("Expect expression."),
            SyntaxErrorKind::InvalidAssignmentTarget => String::from_str(
                "Invalid assignment target.",
            ),
        }
    }
}

/// The state of the parser: the tables built so far, the index of the next
/// token, and the errors reported so far.
pub struct PState {
    pub nodes: Seq<Node>,
    pub links: Seq<usize>,
    pub symbols: Seq<Seq<char>>,
    pub texts: Seq<Seq<char>>,
    pub pos: nat,
    pub errors: Seq<SyntaxError>,
}

pub type ParsedNode = (PState, Result<usize, SyntaxError>);

pub type ParsedItems = (PState, Result<Seq<usize>, SyntaxError>);

pub type ParsedOption = (PState, Result<Option<usize>, SyntaxError>);

pub type ParsedList = (PState, Result<List, SyntaxError>);

/// The text that a literal token stands for.
pub open spec fn literal_text(t: TokenView) -> Seq<char> {
    match t.literal {
        Some(text) => text,
        None => t.lexeme,
    }
}

/// The tokens at which a statement starts; error recovery stops in front of
/// them.
pub open spec fn starts_statement(kind: TokenKind) -> bool {
    kind == TokenKind::Class || kind == TokenKind::Fun || kind == TokenKind::Var || kind
        == TokenKind::For || kind == TokenKind::If || kind == TokenKind::While || kind
        == TokenKind::Print || kind == TokenKind::Return
}

/// Skips tokens from `pos` up to the next statement boundary: behind a
/// semicolon, or in front of a token that starts a statement.
pub open spec fn sync_from(tokens: Seq<TokenView>, pos: nat) -> nat
    decreases tokens.len() - pos,
{
    if pos >= tokens.len() || tokens[pos as int].kind == TokenKind::Eof || starts_statement(
        tokens[pos as int].kind,
    ) {
        pos
    } else if tokens[pos as int].kind == TokenKind::Semicolon {
        pos + 1
    } else {
        sync_from(tokens, pos + 1)
    }
}

/// Where parsing resumes after an error at `pos`: the offending token is
/// dropped, then tokens are skipped up to the next statement boundary.
pub open spec fn sync(tokens: Seq<TokenView>, pos: nat) -> nat {
    if pos >= tokens.len() || tokens[pos as int].kind == TokenKind::Eof {
        pos
    } else if tokens[pos as int].kind == TokenKind::Semicolon {
        pos + 1
    } else {
        sync_from(tokens, pos + 1)
    }
}

/// The operator that `kind` is at the given binding level: 1 for factors, 2
/// for terms, 3 for comparisons, 4 for equalities.
pub open spec fn binary_op_at(level: nat, kind: TokenKind) -> Option<BinaryOp> {
    if level == 1 {
        match kind {
            TokenKind::Star => Some(BinaryOp::Multiply),
            TokenKind::Slash => Some(BinaryOp::Divide),
            _ => None,
        }
    } else if level == 2 {
        match kind {
            TokenKind::Plus => Some(BinaryOp::Add),
            TokenKind::Minus => Some(BinaryOp::Subtract),
            _ => None,
        }
    } else if level == 3 {
        match kind {
            TokenKind::Less => Some(BinaryOp::Less),
            TokenKind::LessEqual => Some(BinaryOp::LessEqual),
            TokenKind::Greater => Some(BinaryOp::Greater),
            TokenKind::GreaterEqual => Some(BinaryOp::GreaterEqual),
            _ => None,
        }
    } else if level == 4 {
        match kind {
            TokenKind::EqualEqual => Some(BinaryOp::Equal),
            TokenKind::BangEqual => Some(BinaryOp::NotEqual),
            _ => None,
        }
    } else {
        None
    }
}

impl PState {
    /// The state before anything is parsed.
    pub open spec fn start() -> PState {
        PState {
            nodes: Seq::empty(),
            links: Seq::empty(),
            symbols: reserved_symbols(),
            texts: Seq::empty(),
            pos: 0,
            errors: Seq::empty(),
        }
    }

    /// The kind of the next token; past the end it is `Eof`.
    pub open spec fn kind(self, tokens: Seq<TokenView>) -> TokenKind {
        if self.pos < tokens.len() {
            tokens[self.pos as int].kind
        } else {
            TokenKind::Eof
        }
    }

    /// The line of the next token; past the end, that of the last token.
    pub open spec fn line(self, tokens: Seq<TokenView>) -> usize {
        if self.pos < tokens.len() {
            tokens[self.pos as int].line
        } else if tokens.len() > 0 {
            tokens[tokens.len() - 1].line
        } else {
            0
        }
    }

    /// The number of tokens not yet consumed.
    pub open spec fn left(self, tokens: Seq<TokenView>) -> nat {
        if self.pos <= tokens.len() {
            (tokens.len() - self.pos) as nat
        } else {
            0
        }
    }

    /// The state behind the next token; the end-of-file token is never
    /// consumed.
    pub open spec fn step(self, tokens: Seq<TokenView>) -> PState {
        if self.kind(tokens) != TokenKind::Eof {
            PState { pos: self.pos + 1, ..self }
        } else {
            self
        }
    }

    /// This state, at `pos` at least.
    pub open spec fn from(self, pos: nat) -> PState {
        if self.pos < pos {
            PState { pos, ..self }
        } else {
            self
        }
    }

    /// The error of kind `kind` at the next token.
    pub open spec fn fail(self, tokens: Seq<TokenView>, kind: SyntaxErrorKind) -> SyntaxError {
        SyntaxError { kind, token: self.pos as usize, line: self.line(tokens) }
    }

    /// Appends `node` to the node table and gives its index.
    pub open spec fn node(self, node: Node) -> (PState, usize) {
        (PState { nodes: self.nodes.push(node), ..self }, self.nodes.len() as usize)
    }

    /// Appends `items` to the link table and gives the list that spans them.
    pub open spec fn list(self, items: Seq<usize>) -> (PState, List) {
        (
            PState { links: self.links + items, ..self },
            List { start: self.links.len() as usize, len: items.len() as usize },
        )
    }

    /// Appends `text` to the text table and gives its index.
    pub open spec fn text(self, text: Seq<char>) -> (PState, usize) {
        (PState { texts: self.texts.push(text), ..self }, self.texts.len() as usize)
    }

    /// The symbol of `name`: its index in the symbol table, to which it is
    /// added when it is new.
    pub open spec fn intern(self, name: Seq<char>) -> (PState, usize) {
        let at = position_of(self.symbols, name, 0);
        if at < self.symbols.len() {
            (self, at as usize)
        } else {
            (PState { symbols: self.symbols.push(name), ..self }, self.symbols.len() as usize)
        }
    }

    /// Consumes a token of kind `kind` and gives its line, or fails.
    pub open spec fn expect(self, tokens: Seq<TokenView>, kind: TokenKind) -> ParsedNode {
        if self.kind(tokens) == kind {
            (self.step(tokens), Ok(self.line(tokens)))
        } else {
            (self, Err(self.fail(tokens, SyntaxErrorKind::Expected(kind))))
        }
    }

    /// Consumes an identifier and gives its symbol, or fails.
    pub open spec fn name(self, tokens: Seq<TokenView>) -> ParsedNode {
        if self.kind(tokens) == TokenKind::Identifier {
            let (next, symbol) = self.step(tokens).intern(tokens[self.pos as int].lexeme);
            (next, Ok(symbol))
        } else {
            (self, Err(self.fail(tokens, SyntaxErrorKind::Expected(TokenKind::Identifier))))
        }
    }

    /// Records `error` and skips to the next statement boundary.
    pub open spec fn recover(self, tokens: Seq<TokenView>, error: SyntaxError) -> PState {
        PState { errors: self.errors.push(error), pos: sync(tokens, self.pos), ..self }
    }
}

#[verifier::opaque]
pub open spec fn rule_primary(tokens: Seq<TokenView>, st: PState) -> ParsedNode
    decreases st.left(tokens), 19nat,
{
    let line = st.line(tokens);
    match st.kind(tokens) {
        TokenKind::False => {
            let (s1, id) = st.step(tokens).node(Node::Boolean { value: false });
            (s1, Ok(id))
        },
        TokenKind::True => {
            let (s1, id) = st.step(tokens).node(Node::Boolean { value: true });
            (s1, Ok(id))
        },
        TokenKind::Nil => {
            let (s1, id) = st.step(tokens).node(Node::Nil);
            (s1, Ok(id))
        },
        TokenKind::Number => {
            let (s1, text) = st.step(tokens).text(literal_text(tokens[st.pos as int]));
            let (s2, id) = s1.node(Node::Number { text });
            (s2, Ok(id))
        },
        TokenKind::Str => {
            let (s1, text) = st.step(tokens).text(literal_text(tokens[st.pos as int]));
            let (s2, id) = s1.node(Node::Str { text });
            (s2, Ok(id))
        },
        TokenKind::This => {
            let (s1, id) = st.step(tokens).node(Node::This { line });
            (s1, Ok(id))
        },
        TokenKind::Identifier => {
            let (s1, name) = st.step(tokens).intern(tokens[st.pos as int].lexeme);
            let (s2, id) = s1.node(Node::Variable { name, line });
            (s2, Ok(id))
        },
        TokenKind::Super => {
            let (s1, dot) = st.step(tokens).expect(tokens, TokenKind::Dot);
            match dot {
                Err(e) => (s1, Err(e)),
                Ok(_) => {
                    let (s2, method) = s1.name(tokens);
                    match method {
                        Err(e) => (s2, Err(e)),
                        Ok(method) => {
                            let (s3, id) = s2.node(Node::Super { method, line });
                            (s3, Ok(id))
                        },
                    }
                },
            }
        },
        TokenKind::LeftParen => {
            let (s1, inner) = rule_expression(tokens, st.step(tokens));
            match inner {
                Err(e) => (s1, Err(e)),
                Ok(inner) => {
                    let (s2, close) = s1.expect(tokens, TokenKind::RightParen);
                    match close {
                        Err(e) => (s2, Err(e)),
                        Ok(_) => {
                            let (s3, id) = s2.node(Node::Grouping { inner });
                            (s3, Ok(id))
                        },
                    }
                },
            }
        },
        _ => (st, Err(st.fail(tokens, SyntaxErrorKind::ExpectedExpression))),
    }
}

/// The arguments of a call, up to the closing parenthesis.
#[verifier::opaque]
pub open spec fn rule_args(tokens: Seq<TokenView>, st: PState, items: Seq<usize>) -> ParsedItems
    decreases st.left(tokens), 44nat,
{
    let (s1, arg) = rule_expression(tokens, st);
    match arg {
        Err(e) => (s1, Err(e)),
        Ok(arg) => {
            let s1 = s1.from(st.pos);
            if s1.kind(tokens) == TokenKind::Comma {
                rule_args(tokens, s1.step(tokens), items.push(arg))
            } else {
                (s1, Ok(items.push(arg)))
            }
        },
    }
}

/// The calls and property accesses that follow `callee`.
#[verifier::opaque]
pub open spec fn rule_call_rest(tokens: Seq<TokenView>, st: PState, callee: usize) -> ParsedNode
    decreases st.left(tokens), 0nat,
{
    let line = st.line(tokens);
    if st.kind(tokens) == TokenKind::LeftParen {
        let s1 = st.step(tokens);
        let (s2, args) = if s1.kind(tokens) == TokenKind::RightParen {
            (s1, Ok(Seq::<usize>::empty()))
        } else {
            rule_args(tokens, s1, Seq::empty())
        };
        match args {
            Err(e) => (s2, Err(e)),
            Ok(items) => {
                let (s3, close) = s2.from(s1.pos).expect(tokens, TokenKind::RightParen);
                match close {
                    Err(e) => (s3, Err(e)),
                    Ok(_) => {
                        let (s4, args) = s3.list(items);
                        let (s5, id) = s4.node(Node::Call { callee, args, line });
                        rule_call_rest(tokens, s5, id)
                    },
                }
            },
        }
    } else if st.kind(tokens) == TokenKind::Dot {
        let (s1, name) = st.step(tokens).name(tokens);
        match name {
            Err(e) => (s1, Err(e)),
            Ok(name) => {
                let (s2, id) = s1.node(Node::GetField { object: callee, name, line });
                rule_call_rest(tokens, s2, id)
            },
        }
    } else {
        (st, Ok(callee))
    }
}

#[verifier::opaque]
pub open spec fn rule_call(tokens: Seq<TokenView>, st: PState) -> ParsedNode
    decreases st.left(tokens), 20nat,
{
    let (s1, callee) = rule_primary(tokens, st);
    match callee {
        Err(e) => (s1, Err(e)),
        Ok(callee) => rule_call_rest(tokens, s1.from(st.pos), callee),
    }
}

#[verifier::opaque]
pub open spec fn rule_unary(tokens: Seq<TokenView>, st: PState) -> ParsedNode
    decreases st.left(tokens), 21nat,
{
    let line = st.line(tokens);
    if st.kind(tokens) == TokenKind::Bang || st.kind(tokens) == TokenKind::Minus {
        let op = if st.kind(tokens) == TokenKind::Bang {
            UnaryOp::Not
        } else {
            UnaryOp::Negate
        };
        let (s1, operand) = rule_unary(tokens, st.step(tokens));
        match operand {
            Err(e) => (s1, Err(e)),
            Ok(operand) => {
                let (s2, id) = s1.node(Node::Unary { op, operand, line });
                (s2, Ok(id))
            },
        }
    } else {
        rule_call(tokens, st)
    }
}

/// An operand of the binary operators of level `level`.
#[verifier::opaque]
pub open spec fn rule_operand(tokens: Seq<TokenView>, st: PState, level: nat) -> ParsedNode
    decreases st.left(tokens), 22nat + 2 * level,
{
    if level <= 1 {
        rule_unary(tokens, st)
    } else {
        rule_binary(tokens, st, (level - 1) as nat)
    }
}

/// The operators of level `level` and their right operands that follow
/// `left`; they associate to the left.
#[verifier::opaque]
pub open spec fn rule_binary_rest(
    tokens: Seq<TokenView>,
    st: PState,
    level: nat,
    left: usize,
) -> ParsedNode
    decreases st.left(tokens), 0nat,
{
    let line = st.line(tokens);
    match binary_op_at(level, st.kind(tokens)) {
        None => (st, Ok(left)),
        Some(op) => {
            let s1 = st.step(tokens);
            let (s2, right) = rule_operand(tokens, s1, level);
            match right {
                Err(e) => (s2, Err(e)),
                Ok(right) => {
                    let (s3, id) = s2.from(s1.pos).node(Node::Binary { op, left, right, line });
                    rule_binary_rest(tokens, s3, level, id)
                },
            }
        },
    }
}

/// A chain of binary operators of level `level`.
#[verifier::opaque]
pub open spec fn rule_binary(tokens: Seq<TokenView>, st: PState, level: nat) -> ParsedNode
    decreases st.left(tokens), 23nat + 2 * level,
{
    let (s1, left) = rule_operand(tokens, st, level);
    match left {
        Err(e) => (s1, Err(e)),
        Ok(left) => rule_binary_rest(tokens, s1.from(st.pos), level, left),
    }
}

#[verifier::opaque]
pub open spec fn rule_and_rest(tokens: Seq<TokenView>, st: PState, left: usize) -> ParsedNode
    decreases st.left(tokens), 0nat,
{
    if st.kind(tokens) == TokenKind::And {
        let s1 = st.step(tokens);
        let (s2, right) = rule_binary(tokens, s1, 4);
        match right {
            Err(e) => (s2, Err(e)),
            Ok(right) => {
                let (s3, id) = s2.from(s1.pos).node(
                    Node::Logical { op: LogicalOp::And, left, right },
                );
                rule_and_rest(tokens, s3, id)
            },
        }
    } else {
        (st, Ok(left))
    }
}

#[verifier::opaque]
pub open spec fn rule_and(tokens: Seq<TokenView>, st: PState) -> ParsedNode
    decreases st.left(tokens), 40nat,
{
    let (s1, left) = rule_binary(tokens, st, 4);
    match left {
        Err(e) => (s1, Err(e)),
        Ok(left) => rule_and_rest(tokens, s1.from(st.pos), left),
    }
}

#[verifier::opaque]
pub open spec fn rule_or_rest(tokens: Seq<TokenView>, st: PState, left: usize) -> ParsedNode
    decreases st.left(tokens), 0nat,
{
    if st.kind(tokens) == TokenKind::Or {
        let s1 = st.step(tokens);
        let (s2, right) = rule_and(tokens, s1);
        match right {
            Err(e) => (s2, Err(e)),
            Ok(right) => {
                let (s3, id) = s2.from(s1.pos).node(
                    Node::Logical { op: LogicalOp::Or, left, right },
                );
                rule_or_rest(tokens, s3, id)
            },
        }
    } else {
        (st, Ok(left))
    }
}

#[verifier::opaque]
pub open spec fn rule_or(tokens: Seq<TokenView>, st: PState) -> ParsedNode
    decreases st.left(tokens), 41nat,
{
    let (s1, left) = rule_and(tokens, st);
    match left {
        Err(e) => (s1, Err(e)),
        Ok(left) => rule_or_rest(tokens, s1.from(st.pos), left),
    }
}

/// The assignment of `value` to what the node `target` denotes, or `invalid`
/// when it denotes neither a variable nor a property.
pub open spec fn assign_to(st: PState, target: usize, value: usize, invalid: SyntaxError) -> ParsedNode {
    match st.nodes[target as int] {
        Node::Variable { name, line } => {
            let (s1, id) = st.node(Node::Assign { name, value, line });
            (s1, Ok(id))
        },
        Node::GetField { object, name, line } => {
            let (s1, id) = st.node(Node::SetField { object, name, value, line });
            (s1, Ok(id))
        },
        _ => (st, Err(invalid)),
    }
}

#[verifier::opaque]
pub open spec fn rule_assignment(tokens: Seq<TokenView>, st: PState) -> ParsedNode
    decreases st.left(tokens), 42nat,
{
    let (s1, target) = rule_or(tokens, st);
    match target {
        Err(e) => (s1, Err(e)),
        Ok(target) => {
            let s1 = s1.from(st.pos);
            if s1.kind(tokens) == TokenKind::Equal {
                let (s2, value) = rule_assignment(tokens, s1.step(tokens));
                match value {
                    Err(e) => (s2, Err(e)),
                    Ok(value) => assign_to(
                        s2,
                        target,
                        value,
                        s1.fail(tokens, SyntaxErrorKind::InvalidAssignmentTarget),
                    ),
                }
            } else {
                (s1, Ok(target))
            }
        },
    }
}

#[verifier::opaque]
pub open spec fn rule_expression(tokens: Seq<TokenView>, st: PState) -> ParsedNode
    decreases st.left(tokens), 43nat,
{
    rule_assignment(tokens, st)
}

/// The parameter names of a function, up to the closing parenthesis.
#[verifier::opaque]
pub open spec fn rule_params(tokens: Seq<TokenView>, st: PState, items: Seq<usize>) -> ParsedItems
    decreases st.left(tokens),
{
    let (s1, name) = st.name(tokens);
    match name {
        Err(e) => (s1, Err(e)),
        Ok(name) => {
            if s1.kind(tokens) == TokenKind::Comma {
                rule_params(tokens, s1.step(tokens), items.push(name))
            } else {
                (s1, Ok(items.push(name)))
            }
        },
    }
}

/// An expression, unless the next token is `stop`.
#[verifier::opaque]
pub open spec fn rule_optional_expression(
    tokens: Seq<TokenView>,
    st: PState,
    stop: TokenKind,
) -> ParsedOption
    decreases st.left(tokens), 65nat,
{
    if st.kind(tokens) == stop {
        (st, Ok(None))
    } else {
        let (s1, value) = rule_expression(tokens, st);
        match value {
            Err(e) => (s1, Err(e)),
            Ok(value) => (s1, Ok(Some(value))),
        }
    }
}

#[verifier::opaque]
pub open spec fn rule_expression_statement(tokens: Seq<TokenView>, st: PState) -> ParsedNode
    decreases st.left(tokens), 50nat,
{
    let (s1, expr) = rule_expression(tokens, st);
    match expr {
        Err(e) => (s1, Err(e)),
        Ok(expr) => {
            let (s2, semi) = s1.expect(tokens, TokenKind::Semicolon);
            match semi {
                Err(e) => (s2, Err(e)),
                Ok(_) => {
                    let (s3, id) = s2.node(Node::Expression { expr });
                    (s3, Ok(id))
                },
            }
        },
    }
}

#[verifier::opaque]
pub open spec fn rule_print(tokens: Seq<TokenView>, st: PState) -> ParsedNode
    decreases st.left(tokens), 51nat,
{
    let (s1, expr) = rule_expression(tokens, st.step(tokens));
    match expr {
        Err(e) => (s1, Err(e)),
        Ok(expr) => {
            let (s2, semi) = s1.expect(tokens, TokenKind::Semicolon);
            match semi {
                Err(e) => (s2, Err(e)),
                Ok(_) => {
                    let (s3, id) = s2.node(Node::Print { expr });
                    (s3, Ok(id))
                },
            }
        },
    }
}

#[verifier::opaque]
pub open spec fn rule_return(tokens: Seq<TokenView>, st: PState) -> ParsedNode
    decreases st.left(tokens), 52nat,
{
    let line = st.line(tokens);
    let (s1, value) = rule_optional_expression(tokens, st.step(tokens), TokenKind::Semicolon);
    match value {
        Err(e) => (s1, Err(e)),
        Ok(value) => {
            let (s2, semi) = s1.expect(tokens, TokenKind::Semicolon);
            match semi {
                Err(e) => (s2, Err(e)),
                Ok(_) => {
                    let (s3, id) = s2.node(Node::Return { value, line });
                    (s3, Ok(id))
                },
            }
        },
    }
}

#[verifier::opaque]
pub open spec fn rule_block(tokens: Seq<TokenView>, st: PState) -> ParsedNode
    decreases st.left(tokens), 53nat,
{
    let (s1, open) = st.expect(tokens, TokenKind::LeftBrace);
    match open {
        Err(e) => (s1, Err(e)),
        Ok(_) => {
            let (s2, body) = rule_block_body(tokens, s1);
            match body {
                Err(e) => (s2, Err(e)),
                Ok(body) => {
                    let (s3, id) = s2.node(Node::Block { body });
                    (s3, Ok(id))
                },
            }
        },
    }
}

#[verifier::opaque]
pub open spec fn rule_while(tokens: Seq<TokenView>, st: PState) -> ParsedNode
    decreases st.left(tokens), 54nat,
{
    let (s1, open) = st.step(tokens).expect(tokens, TokenKind::LeftParen);
    match open {
        Err(e) => (s1, Err(e)),
        Ok(_) => {
            let (s2, cond) = rule_expression(tokens, s1);
            match cond {
                Err(e) => (s2, Err(e)),
                Ok(cond) => {
                    let (s3, close) = s2.from(s1.pos).expect(tokens, TokenKind::RightParen);
                    match close {
                        Err(e) => (s3, Err(e)),
                        Ok(_) => {
                            let (s4, body) = rule_statement(tokens, s3);
                            match body {
                                Err(e) => (s4, Err(e)),
                                Ok(body) => {
                                    let (s5, id) = s4.node(Node::While { cond, body });
                                    (s5, Ok(id))
                                },
                            }
                        },
                    }
                },
            }
        },
    }
}

/// The branches of an `if`, behind the closing parenthesis of its condition.
#[verifier::opaque]
pub open spec fn rule_branches(tokens: Seq<TokenView>, st: PState, cond: usize) -> ParsedNode
    decreases st.left(tokens), 66nat,
{
    let (s1, then_branch) = rule_statement(tokens, st);
    match then_branch {
        Err(e) => (s1, Err(e)),
        Ok(then_branch) => {
            let s1 = s1.from(st.pos);
            if s1.kind(tokens) == TokenKind::Else {
                let (s2, other) = rule_statement(tokens, s1.step(tokens));
                match other {
                    Err(e) => (s2, Err(e)),
                    Ok(other) => {
                        let (s3, id) = s2.node(
                            Node::If { cond, then_branch, else_branch: Some(other) },
                        );
                        (s3, Ok(id))
                    },
                }
            } else {
                let (s2, id) = s1.node(Node::If { cond, then_branch, else_branch: None });
                (s2, Ok(id))
            }
        },
    }
}

#[verifier::opaque]
pub open spec fn rule_if(tokens: Seq<TokenView>, st: PState) -> ParsedNode
    decreases st.left(tokens), 55nat,
{
    let (s1, open) = st.step(tokens).expect(tokens, TokenKind::LeftParen);
    match open {
        Err(e) => (s1, Err(e)),
        Ok(_) => {
            let (s2, cond) = rule_expression(tokens, s1);
            match cond {
                Err(e) => (s2, Err(e)),
                Ok(cond) => {
                    let (s3, close) = s2.from(s1.pos).expect(tokens, TokenKind::RightParen);
                    match close {
                        Err(e) => (s3, Err(e)),
                        Ok(_) => rule_branches(tokens, s3, cond),
                    }
                },
            }
        },
    }
}

/// The first clause of a `for`: nothing, a variable declaration, or an
/// expression statement.
#[verifier::opaque]
pub open spec fn rule_for_init(tokens: Seq<TokenView>, st: PState) -> ParsedOption
    decreases st.left(tokens), 65nat,
{
    if st.kind(tokens) == TokenKind::Semicolon {
        (st.step(tokens), Ok(None))
    } else {
        let (s1, init) = if st.kind(tokens) == TokenKind::Var {
            rule_var(tokens, st)
        } else {
            rule_expression_statement(tokens, st)
        };
        match init {
            Err(e) => (s1, Err(e)),
            Ok(init) => (s1, Ok(Some(init))),
        }
    }
}

/// The loop that a `for` with these parts stands for: the body followed by
/// the increment, under a `while` on the condition (or on `true`), behind
/// the initializer.
pub open spec fn for_loop(
    st: PState,
    init: Option<usize>,
    cond: Option<usize>,
    step: Option<usize>,
    body: usize,
) -> (PState, usize) {
    let (s1, body) = match step {
        Some(step) => {
            let (a, after) = st.node(Node::Expression { expr: step });
            let (b, both) = a.list(seq![body, after]);
            b.node(Node::Block { body: both })
        },
        None => (st, body),
    };
    let (s2, cond) = match cond {
        Some(cond) => (s1, cond),
        None => s1.node(Node::Boolean { value: true }),
    };
    let (s3, looping) = s2.node(Node::While { cond, body });
    match init {
        Some(init) => {
            let (a, both) = s3.list(seq![init, looping]);
            a.node(Node::Block { body: both })
        },
        None => (s3, looping),
    }
}

/// The rest of a `for`, behind its initializer.
#[verifier::opaque]
pub open spec fn rule_for_rest(tokens: Seq<TokenView>, st: PState, init: Option<usize>) -> ParsedNode
    decreases st.left(tokens), 67nat,
{
    let (s1, cond) = rule_optional_expression(tokens, st, TokenKind::Semicolon);
    match cond {
        Err(e) => (s1, Err(e)),
        Ok(cond) => {
            let (s2, semi) = s1.from(st.pos).expect(tokens, TokenKind::Semicolon);
            match semi {
                Err(e) => (s2, Err(e)),
                Ok(_) => {
                    let (s3, step) = rule_optional_expression(tokens, s2, TokenKind::RightParen);
                    match step {
                        Err(e) => (s3, Err(e)),
                        Ok(step) => {
                            let (s4, close) = s3.from(s2.pos).expect(tokens, TokenKind::RightParen);
                            match close {
                                Err(e) => (s4, Err(e)),
                                Ok(_) => {
                                    let (s5, body) = rule_statement(tokens, s4);
                                    match body {
                                        Err(e) => (s5, Err(e)),
                                        Ok(body) => {
                                            let (s6, id) = for_loop(s5, init, cond, step, body);
                                            (s6, Ok(id))
                                        },
                                    }
                                },
                            }
                        },
                    }
                },
            }
        },
    }
}

#[verifier::opaque]
pub open spec fn rule_for(tokens: Seq<TokenView>, st: PState) -> ParsedNode
    decreases st.left(tokens), 56nat,
{
    let (s1, open) = st.step(tokens).expect(tokens, TokenKind::LeftParen);
    match open {
        Err(e) => (s1, Err(e)),
        Ok(_) => {
            let (s2, init) = rule_for_init(tokens, s1);
            match init {
                Err(e) => (s2, Err(e)),
                Ok(init) => rule_for_rest(tokens, s2.from(s1.pos), init),
            }
        },
    }
}

#[verifier::opaque]
pub open spec fn rule_var(tokens: Seq<TokenView>, st: PState) -> ParsedNode
    decreases st.left(tokens), 57nat,
{
    let line = st.line(tokens);
    let (s1, name) = st.step(tokens).name(tokens);
    match name {
        Err(e) => (s1, Err(e)),
        Ok(name) => {
            let (s2, init) = if s1.kind(tokens) == TokenKind::Equal {
                rule_optional_expression(tokens, s1.step(tokens), TokenKind::Eof)
            } else {
                (s1, Ok(None))
            };
            match init {
                Err(e) => (s2, Err(e)),
                Ok(init) => {
                    let (s3, semi) = s2.expect(tokens, TokenKind::Semicolon);
                    match semi {
                        Err(e) => (s3, Err(e)),
                        Ok(_) => {
                            let (s4, id) = s3.node(Node::Var { name, init, line });
                            (s4, Ok(id))
                        },
                    }
                },
            }
        },
    }
}

#[verifier::opaque]
pub open spec fn rule_statement(tokens: Seq<TokenView>, st: PState) -> ParsedNode
    decreases st.left(tokens), 58nat,
{
    match st.kind(tokens) {
        TokenKind::For => rule_for(tokens, st),
        TokenKind::If => rule_if(tokens, st),
        TokenKind::Print => rule_print(tokens, st),
        TokenKind::Return => rule_return(tokens, st),
        TokenKind::While => rule_while(tokens, st),
        TokenKind::LeftBrace => rule_block(tokens, st),
        _ => rule_expression_statement(tokens, st),
    }
}

/// A function from its name on: the name, the parameters and the body.
#[verifier::opaque]
pub open spec fn rule_function(tokens: Seq<TokenView>, st: PState) -> ParsedNode
    decreases st.left(tokens), 59nat,
{
    let line = st.line(tokens);
    let (s1, name) = st.name(tokens);
    match name {
        Err(e) => (s1, Err(e)),
        Ok(name) => {
            let (s2, open) = s1.expect(tokens, TokenKind::LeftParen);
            match open {
                Err(e) => (s2, Err(e)),
                Ok(_) => {
                    let (s3, params) = if s2.kind(tokens) == TokenKind::RightParen {
                        (s2, Ok(Seq::<usize>::empty()))
                    } else {
                        rule_params(tokens, s2, Seq::empty())
                    };
                    match params {
                        Err(e) => (s3, Err(e)),
                        Ok(params) => {
                            let (s4, close) = s3.from(s2.pos).expect(tokens, TokenKind::RightParen);
                            match close {
                                Err(e) => (s4, Err(e)),
                                Ok(_) => {
                                    let (s5, brace) = s4.expect(tokens, TokenKind::LeftBrace);
                                    match brace {
                                        Err(e) => (s5, Err(e)),
                                        Ok(_) => {
                                            let (s6, body) = rule_block_body(tokens, s5);
                                            match body {
                                                Err(e) => (s6, Err(e)),
                                                Ok(body) => {
                                                    let (s7, params) = s6.list(params);
                                                    let (s8, id) = s7.node(
                                                        Node::Function { name, params, body, line },
                                                    );
                                                    (s8, Ok(id))
                                                },
                                            }
                                        },
                                    }
                                },
                            }
                        },
                    }
                },
            }
        },
    }
}

/// The methods of a class, up to the closing brace.
#[verifier::opaque]
pub open spec fn rule_methods(tokens: Seq<TokenView>, st: PState, items: Seq<usize>) -> ParsedItems
    decreases st.left(tokens), 64nat,
{
    if st.kind(tokens) == TokenKind::RightBrace || st.kind(tokens) == TokenKind::Eof {
        (st, Ok(items))
    } else {
        let (s1, method) = rule_function(tokens, st);
        match method {
            Err(e) => (s1, Err(e)),
            Ok(method) => {
                if s1.pos > st.pos {
                    rule_methods(tokens, s1, items.push(method))
                } else {
                    (s1, Ok(items.push(method)))
                }
            },
        }
    }
}

/// The superclass clause of a class: nothing, or `<` and a name, which gives
/// a variable node.
pub open spec fn rule_superclass(tokens: Seq<TokenView>, st: PState) -> ParsedOption {
    if st.kind(tokens) == TokenKind::Less {
        let line = st.step(tokens).line(tokens);
        let (s1, name) = st.step(tokens).name(tokens);
        match name {
            Err(e) => (s1, Err(e)),
            Ok(name) => {
                let (s2, id) = s1.node(Node::Variable { name, line });
                (s2, Ok(Some(id)))
            },
        }
    } else {
        (st, Ok(None))
    }
}

#[verifier::opaque]
pub open spec fn rule_class(tokens: Seq<TokenView>, st: PState) -> ParsedNode
    decreases st.left(tokens), 60nat,
{
    let line = st.line(tokens);
    let (s1, name) = st.step(tokens).name(tokens);
    match name {
        Err(e) => (s1, Err(e)),
        Ok(name) => {
            let (s2, superclass) = rule_superclass(tokens, s1);
            match superclass {
                Err(e) => (s2, Err(e)),
                Ok(superclass) => {
                    let (s3, brace) = s2.expect(tokens, TokenKind::LeftBrace);
                    match brace {
                        Err(e) => (s3, Err(e)),
                        Ok(_) => {
                            let (s4, methods) = rule_methods(tokens, s3, Seq::empty());
                            match methods {
                                Err(e) => (s4, Err(e)),
                                Ok(methods) => {
                                    let (s5, close) = s4.expect(tokens, TokenKind::RightBrace);
                                    match close {
                                        Err(e) => (s5, Err(e)),
                                        Ok(_) => {
                                            let (s6, methods) = s5.list(methods);
                                            let (s7, id) = s6.node(
                                                Node::Class { name, superclass, methods, line },
                                            );
                                            (s7, Ok(id))
                                        },
                                    }
                                },
                            }
                        },
                    }
                },
            }
        },
    }
}

/// One declaration. On a syntax error the error is recorded, parsing resumes
/// at the next statement boundary, and no node is given.
#[verifier::opaque]
pub open spec fn rule_declaration(tokens: Seq<TokenView>, st: PState) -> (PState, Option<usize>)
    decreases st.left(tokens), 61nat,
{
    let (s1, found) = if st.kind(tokens) == TokenKind::Class {
        rule_class(tokens, st)
    } else if st.kind(tokens) == TokenKind::Fun {
        rule_function(tokens, st.step(tokens))
    } else if st.kind(tokens) == TokenKind::Var {
        rule_var(tokens, st)
    } else {
        rule_statement(tokens, st)
    };
    match found {
        Ok(id) => (s1, Some(id)),
        Err(e) => (s1.recover(tokens, e), None),
    }
}

/// Declarations up to the end of the tokens or, when `nested`, up to a
/// closing brace; `items` holds those found so far.
#[verifier::opaque]
pub open spec fn rule_items(
    tokens: Seq<TokenView>,
    st: PState,
    items: Seq<usize>,
    nested: bool,
) -> (PState, Seq<usize>)
    decreases st.left(tokens), 62nat,
{
    if st.kind(tokens) == TokenKind::Eof || (nested && st.kind(tokens) == TokenKind::RightBrace) {
        (st, items)
    } else {
        let (s1, found) = rule_declaration(tokens, st);
        let items = match found {
            Some(id) => items.push(id),
            None => items,
        };
        if s1.pos > st.pos {
            rule_items(tokens, s1, items, nested)
        } else {
            (s1, items)
        }
    }
}

/// The body of a block, behind its opening brace.
#[verifier::opaque]
pub open spec fn rule_block_body(tokens: Seq<TokenView>, st: PState) -> ParsedList
    decreases st.left(tokens), 63nat,
{
    let (s1, items) = rule_items(tokens, st, Seq::empty(), true);
    let (s2, close) = s1.expect(tokens, TokenKind::RightBrace);
    match close {
        Err(e) => (s2, Err(e)),
        Ok(_) => {
            let (s3, body) = s2.list(items);
            (s3, Ok(body))
        },
    }
}

/// The state of the parser behind the last declaration of `tokens`.
pub open spec fn parse_end(tokens: Seq<TokenView>) -> PState {
    rule_items(tokens, PState::start(), Seq::empty(), false).0
}

/// The program that `tokens` spell, and the syntax errors in them.
pub open spec fn spec_parse(tokens: Seq<TokenView>) -> (ProgramView, Seq<SyntaxError>) {
    let (st, roots) = rule_items(tokens, PState::start(), Seq::empty(), false);
    (
        ProgramView {
            nodes: st.nodes,
            links: st.links,
            symbols: st.symbols,
            texts: st.texts,
            roots,
        },
        st.errors,
    )
}

/// The working state of the parser.
struct Parser {
    nodes: Vec<Node>,
    links: Vec<usize>,
    symbols: Vec<String>,
    texts: Vec<String>,
    pos: usize,
    errors: Vec<SyntaxError>,
}

impl View for Parser {
    type V = PState;

    closed spec fn view(&self) -> PState {
        PState {
            nodes: self.nodes@,
            links: self.links@,
            symbols: string_views(self.symbols@),
            texts: string_views(self.texts@),
            pos: self.pos as nat,
            errors: self.errors@,
        }
    }
}

/// The tables of `st` are in order.
pub open spec fn tables_ok(st: PState) -> bool {
    &&& nodes_ok(st.nodes, st.links, st.symbols.len() as int, st.texts.len() as int)
    &&& starts_reserved(st.symbols)
}

/// Between `before` and `after` the parser has not moved backwards and no
/// table has shrunk.
pub open spec fn moved(before: PState, after: PState) -> bool {
    &&& after.pos >= before.pos
    &&& after.nodes.len() >= before.nodes.len()
    &&& after.symbols.len() >= before.symbols.len()
}

/// `moved`, and on success the parser has consumed a token and the node it
/// gives exists.
pub open spec fn parsed(before: PState, after: PState, r: Result<usize, SyntaxError>) -> bool {
    &&& moved(before, after)
    &&& r matches Ok(id) ==> id < after.nodes.len() && after.pos > before.pos
}

/// The items that a parsed list holds, as the rules give them.
pub open spec fn items_of(r: Result<Vec<usize>, SyntaxError>) -> Result<Seq<usize>, SyntaxError> {
    match r {
        Ok(items) => Ok(items@),
        Err(e) => Err(e),
    }
}

fn literal_of(token: &Token) -> (text: String)
    ensures
        text@ == literal_text(token@),
{
    match &token.literal {
        Some(text) => text.clone(),
        None => token.lexeme.clone(),
    }
}

fn binary_op(level: u8, kind: TokenKind) -> (op: Option<BinaryOp>)
    ensures
        op == binary_op_at(level as nat, kind),
{
    if level == 1 {
        match kind {
            TokenKind::Star => Some(BinaryOp::Multiply),
            TokenKind::Slash => Some(BinaryOp::Divide),
            _ => None,
        }
    } else if level == 2 {
        match kind {
            TokenKind::Plus => Some(BinaryOp::Add),
            TokenKind::Minus => Some(BinaryOp::Subtract),
            _ => None,
        }
    } else if level == 3 {
        match kind {
            TokenKind::Less => Some(BinaryOp::Less),
            TokenKind::LessEqual => Some(BinaryOp::LessEqual),
            TokenKind::Greater => Some(BinaryOp::Greater),
            TokenKind::GreaterEqual => Some(BinaryOp::GreaterEqual),
            _ => None,
        }
    } else if level == 4 {
        match kind {
            TokenKind::EqualEqual => Some(BinaryOp::Equal),
            TokenKind::BangEqual => Some(BinaryOp::NotEqual),
            _ => None,
        }
    } else {
        None
    }
}

fn is_statement_start(kind: TokenKind) -> (r: bool)
    ensures
        r == starts_statement(kind),
{
    match kind {
        TokenKind::Class | TokenKind::Fun | TokenKind::Var | TokenKind::For | TokenKind::If
        | TokenKind::While | TokenKind::Print | TokenKind::Return => true,
        _ => false,
    }
}

fn skip_to_boundary(tokens: &Vec<Token>, pos: usize) -> (r: usize)
    requires
        pos <= tokens.len(),
    ensures
        r == sync_from(token_views(tokens@), pos as nat),
        pos <= r <= tokens.len(),
{
    let ghost tv = token_views(tokens@);
    let mut i: usize = pos;
    while i < tokens.len()
        invariant
            pos <= i <= tokens.len(),
            tv == token_views(tokens@),
            sync_from(tv, i as nat) == sync_from(tv, pos as nat),
        decreases tokens.len() - i,
    {
        let kind = tokens[i].kind;
        if kind == TokenKind::Eof || is_statement_start(kind) {
            return i;
        }
        if kind == TokenKind::Semicolon {
            return i + 1;
        }
        i = i + 1;
    }
    i
}

impl Parser {
    spec fn inv(&self, tokens: Seq<TokenView>) -> bool {
        tables_ok(self@) && self.pos <= tokens.len()
    }

    fn kind(&self, tokens: &Vec<Token>) -> (k: TokenKind)
        ensures
            k == self@.kind(token_views(tokens@)),
    {
        if self.pos < tokens.len() {
            tokens[self.pos].kind
        } else {
            TokenKind::Eof
        }
    }

    fn line(&self, tokens: &Vec<Token>) -> (l: usize)
        ensures
            l == self@.line(token_views(tokens@)),
    {
        if self.pos < tokens.len() {
            tokens[self.pos].line
        } else if tokens.len() > 0 {
            tokens[tokens.len() - 1].line
        } else {
            0
        }
    }

    fn step(&mut self, tokens: &Vec<Token>)
        requires
            old(self).inv(token_views(tokens@)),
        ensures
            final(self).inv(token_views(tokens@)),
            final(self)@ == old(self)@.step(token_views(tokens@)),
            moved(old(self)@, final(self)@),
    {
        if self.pos < tokens.len() && tokens[self.pos].kind != TokenKind::Eof {
            self.pos = self.pos + 1;
        }
    }

    fn fail(&self, tokens: &Vec<Token>, kind: SyntaxErrorKind) -> (e: SyntaxError)
        ensures
            e == self@.fail(token_views(tokens@), kind),
    {
        SyntaxError { kind, token: self.pos, line: self.line(tokens) }
    }

    fn expect(&mut self, tokens: &Vec<Token>, kind: TokenKind) -> (r: Result<usize, SyntaxError>)
        requires
            old(self).inv(token_views(tokens@)),
        ensures
            final(self).inv(token_views(tokens@)),
            (final(self)@, r) == old(self)@.expect(token_views(tokens@), kind),
            moved(old(self)@, final(self)@),
            final(self)@.nodes == old(self)@.nodes,
            r is Ok && kind != TokenKind::Eof ==> final(self)@.pos > old(self)@.pos,
    {
        if self.kind(tokens) == kind {
            let line = self.line(tokens);
            self.step(tokens);
            Ok(line)
        } else {
            Err(self.fail(tokens, SyntaxErrorKind::Expected(kind)))
        }
    }

    fn intern(&mut self, name: &String) -> (id: usize)
        requires
            tables_ok(old(self)@),
        ensures
            tables_ok(final(self)@),
            (final(self)@, id) == old(self)@.intern(name@),
            id < final(self)@.symbols.len(),
            moved(old(self)@, final(self)@),
            final(self).pos == old(self).pos,
            final(self)@.nodes == old(self)@.nodes,
    {
        let at = find_symbol(&self.symbols, name);
        if at < self.symbols.len() {
            at
        } else {
            proof {
                lemma_string_views_push(self.symbols@, *name);
                lemma_nodes_ok_extends(
                    self@.nodes,
                    self@.links,
                    self@.symbols.len() as int,
                    self@.texts.len() as int,
                    self@.links,
                    (self@.symbols.len() + 1) as int,
                    self@.texts.len() as int,
                );
            }
            self.symbols.push(name.clone());
            at
        }
    }

    fn text(&mut self, text: String) -> (id: usize)
        requires
            tables_ok(old(self)@),
        ensures
            tables_ok(final(self)@),
            (final(self)@, id) == old(self)@.text(text@),
            id < final(self)@.texts.len(),
            moved(old(self)@, final(self)@),
            final(self).pos == old(self).pos,
            final(self)@.nodes == old(self)@.nodes,
    {
        proof {
            lemma_string_views_push(self.texts@, text);
            lemma_nodes_ok_extends(
                self@.nodes,
                self@.links,
                self@.symbols.len() as int,
                self@.texts.len() as int,
                self@.links,
                self@.symbols.len() as int,
                (self@.texts.len() + 1) as int,
            );
        }
        let id = self.texts.len();
        self.texts.push(text);
        id
    }

    fn node(&mut self, node: Node) -> (id: usize)
        requires
            tables_ok(old(self)@),
            node_ok(
                node,
                old(self)@.nodes.len() as int,
                old(self)@.links,
                old(self)@.symbols.len() as int,
                old(self)@.texts.len() as int,
            ),
        ensures
            tables_ok(final(self)@),
            (final(self)@, id) == old(self)@.node(node),
            id < final(self)@.nodes.len(),
            moved(old(self)@, final(self)@),
            final(self).pos == old(self).pos,
    {
        proof {
            reveal(nodes_ok);
        }
        let id = self.nodes.len();
        self.nodes.push(node);
        id
    }

    fn list(&mut self, items: &Vec<usize>) -> (list: List)
        requires
            tables_ok(old(self)@),
        ensures
            tables_ok(final(self)@),
            (final(self)@, list) == old(self)@.list(items@),
            moved(old(self)@, final(self)@),
            final(self).pos == old(self).pos,
            final(self)@.nodes == old(self)@.nodes,
            forall|bound: int|
                (forall|k: int| 0 <= k < items@.len() ==> #[trigger] items@[k] < bound)
                    ==> list_below(final(self)@.links, list, bound),
    {
        let start = self.links.len();
        let ghost before = self.links@;
        let mut i: usize = 0;
        while i < items.len()
            invariant
                i <= items.len(),
                self.links@ == before + items@.take(i as int),
                self.nodes@ == old(self).nodes@,
                self.symbols@ == old(self).symbols@,
                self.texts@ == old(self).texts@,
                self.errors@ == old(self).errors@,
                self.pos == old(self).pos,
            decreases items.len() - i,
        {
            self.links.push(items[i]);
            i = i + 1;
            assert(self.links@ =~= before + items@.take(i as int));
        }
        assert(items@.take(items@.len() as int) =~= items@);
        let list = List { start, len: items.len() };
        proof {
            lemma_nodes_ok_extends(
                self@.nodes,
                before,
                self@.symbols.len() as int,
                self@.texts.len() as int,
                self.links@,
                self@.symbols.len() as int,
                self@.texts.len() as int,
            );
            assert forall|bound: int|
                (forall|k: int| 0 <= k < items@.len() ==> #[trigger] items@[k] < bound)
                    implies list_below(self@.links, list, bound) by {
                assert forall|k: int| 0 <= k < list.len implies #[trigger] self@.links[list.start
                    + k] < bound by {
                    assert(self@.links[list.start + k] == items@[k]);
                }
            }
        }
        list
    }

    fn name(&mut self, tokens: &Vec<Token>) -> (r: Result<usize, SyntaxError>)
        requires
            old(self).inv(token_views(tokens@)),
        ensures
            final(self).inv(token_views(tokens@)),
            (final(self)@, r) == old(self)@.name(token_views(tokens@)),
            moved(old(self)@, final(self)@),
            final(self)@.nodes == old(self)@.nodes,
            r matches Ok(symbol) ==> symbol < final(self)@.symbols.len() && final(self)@.pos > old(
                self,
            )@.pos,
    {
        if self.kind(tokens) == TokenKind::Identifier {
            let at = self.pos;
            self.step(tokens);
            Ok(self.intern(&tokens[at].lexeme))
        } else {
            Err(self.fail(tokens, SyntaxErrorKind::Expected(TokenKind::Identifier)))
        }
    }

    fn recover(&mut self, tokens: &Vec<Token>, error: SyntaxError)
        requires
            old(self).inv(token_views(tokens@)),
        ensures
            final(self).inv(token_views(tokens@)),
            final(self)@ == old(self)@.recover(token_views(tokens@), error),
            moved(old(self)@, final(self)@),
            final(self)@.nodes == old(self)@.nodes,
            old(self)@.kind(token_views(tokens@)) != TokenKind::Eof ==> final(self)@.pos > old(
                self,
            )@.pos,
    {
        self.errors.push(error);
        if self.pos < tokens.len() {
            let kind = tokens[self.pos].kind;
            if kind == TokenKind::Semicolon {
                self.pos = self.pos + 1;
            } else if kind != TokenKind::Eof {
                self.pos = skip_to_boundary(tokens, self.pos + 1);
            }
        }
    }

    #[verifier::loop_isolation(false)]
    fn params(&mut self, tokens: &Vec<Token>) -> (r: Result<Vec<usize>, SyntaxError>)
        requires
            old(self).inv(token_views(tokens@)),
        ensures
            final(self).inv(token_views(tokens@)),
            (final(self)@, items_of(r))
                == rule_params(token_views(tokens@), old(self)@, Seq::empty()),
            moved(old(self)@, final(self)@),
            final(self)@.nodes == old(self)@.nodes,
            r matches Ok(items) ==> final(self)@.pos > old(self)@.pos && forall|k: int|
                0 <= k < items@.len() ==> #[trigger] items@[k] < final(self)@.symbols.len(),
    {
        let ghost tv = token_views(tokens@);
        let mut items: Vec<usize> = Vec::new();
        loop
            invariant
                self.inv(tv),
                moved(old(self)@, self@),
                self@.nodes == old(self)@.nodes,
                forall|k: int| 0 <= k < items@.len() ==> #[trigger] items@[k] < self@.symbols.len(),
                rule_params(tv, self@, items@) == rule_params(tv, old(self)@, Seq::empty()),
            decreases self@.left(tv),
        {
            let ghost before = self@;
            let ghost found = items@;
            let stop: Option<Result<(), SyntaxError>> = match self.name(tokens) {
                Err(e) => Some(Err(e)),
                Ok(name) => {
                    items.push(name);
                    if self.kind(tokens) == TokenKind::Comma {
                        self.step(tokens);
                        None
                    } else {
                        Some(Ok(()))
                    }
                },
            };
            proof {
                assert(match stop {
                    None => rule_params(tv, self@, items@) == rule_params(tv, before, found),
                    Some(Ok(_)) => (self@, Ok::<Seq<usize>, SyntaxError>(items@))
                        == rule_params(tv, before, found),
                    Some(Err(e)) => (self@, Err::<Seq<usize>, SyntaxError>(e))
                        == rule_params(tv, before, found),
                }) by {
                    reveal(rule_params);
                }
            }
            match stop {
                Some(Ok(_)) => {
                    return Ok(items);
                },
                Some(Err(e)) => {
                    return Err(e);
                },
                None => {},
            }
        }
    }

    fn primary(&mut self, tokens: &Vec<Token>) -> (r: Result<usize, SyntaxError>)
        requires
            old(self).inv(token_views(tokens@)),
        ensures
            final(self).inv(token_views(tokens@)),
            (final(self)@, r) == rule_primary(token_views(tokens@), old(self)@),
            parsed(old(self)@, final(self)@, r),
        decreases old(self)@.left(token_views(tokens@)), 19nat,
    {
        let ghost tv = token_views(tokens@);
        let r = {
            let line = self.line(tokens);
            let at = self.pos;
            match self.kind(tokens) {
                TokenKind::False => {
                    self.step(tokens);
                    Ok(self.node(Node::Boolean { value: false }))
                },
                TokenKind::True => {
                    self.step(tokens);
                    Ok(self.node(Node::Boolean { value: true }))
                },
                TokenKind::Nil => {
                    self.step(tokens);
                    Ok(self.node(Node::Nil))
                },
                TokenKind::Number => {
                    self.step(tokens);
                    let text = self.text(literal_of(&tokens[at]));
                    Ok(self.node(Node::Number { text }))
                },
                TokenKind::Str => {
                    self.step(tokens);
                    let text = self.text(literal_of(&tokens[at]));
                    Ok(self.node(Node::Str { text }))
                },
                TokenKind::This => {
                    self.step(tokens);
                    Ok(self.node(Node::This { line }))
                },
                TokenKind::Identifier => {
                    self.step(tokens);
                    let name = self.intern(&tokens[at].lexeme);
                    Ok(self.node(Node::Variable { name, line }))
                },
                TokenKind::Super => {
                    self.step(tokens);
                    match self.expect(tokens, TokenKind::Dot) {
                        Err(e) => Err(e),
                        Ok(_) => match self.name(tokens) {
                            Err(e) => Err(e),
                            Ok(method) => Ok(self.node(Node::Super { method, line })),
                        },
                    }
                },
                TokenKind::LeftParen => {
                    self.step(tokens);
                    match self.expression(tokens) {
                        Err(e) => Err(e),
                        Ok(inner) => match self.expect(tokens, TokenKind::RightParen) {
                            Err(e) => Err(e),
                            Ok(_) => Ok(self.node(Node::Grouping { inner })),
                        },
                    }
                },
                _ => Err(self.fail(tokens, SyntaxErrorKind::ExpectedExpression)),
            }
        };
        proof {
            assert((self@, r) == rule_primary(tv, old(self)@)) by {
                reveal(rule_primary);
                reveal(rule_expression);
            }
        }
        r
    }

    #[verifier::loop_isolation(false)]
    fn args(&mut self, tokens: &Vec<Token>) -> (r: Result<Vec<usize>, SyntaxError>)
        requires
            old(self).inv(token_views(tokens@)),
        ensures
            final(self).inv(token_views(tokens@)),
            (final(self)@, items_of(r))
                == rule_args(token_views(tokens@), old(self)@, Seq::empty()),
            moved(old(self)@, final(self)@),
            r matches Ok(items) ==> final(self)@.pos > old(self)@.pos && forall|k: int|
                0 <= k < items@.len() ==> #[trigger] items@[k] < final(self)@.nodes.len(),
        decreases old(self)@.left(token_views(tokens@)), 44nat,
    {
        let ghost tv = token_views(tokens@);
        let mut items: Vec<usize> = Vec::new();
        loop
            invariant
                self.inv(tv),
                moved(old(self)@, self@),
                forall|k: int| 0 <= k < items@.len() ==> #[trigger] items@[k] < self@.nodes.len(),
                rule_args(tv, self@, items@) == rule_args(tv, old(self)@, Seq::empty()),
            decreases self@.left(tv),
        {
            let ghost before = self@;
            let ghost found = items@;
            let stop: Option<Result<(), SyntaxError>> = match self.expression(tokens) {
                Err(e) => Some(Err(e)),
                Ok(arg) => {
                    items.push(arg);
                    if self.kind(tokens) == TokenKind::Comma {
                        self.step(tokens);
                        None
                    } else {
                        Some(Ok(()))
                    }
                },
            };
            proof {
                assert(match stop {
                    None => rule_args(tv, self@, items@) == rule_args(tv, before, found),
                    Some(Ok(_)) => (self@, Ok::<Seq<usize>, SyntaxError>(items@))
                        == rule_args(tv, before, found),
                    Some(Err(e)) => (self@, Err::<Seq<usize>, SyntaxError>(e))
                        == rule_args(tv, before, found),
                }) by {
                    reveal(rule_args);
                    reveal(rule_expression);
                }
            }
            match stop {
                Some(Ok(_)) => {
                    return Ok(items);
                },
                Some(Err(e)) => {
                    return Err(e);
                },
                None => {},
            }
        }
    }

    #[verifier::loop_isolation(false)]
    fn call(&mut self, tokens: &Vec<Token>) -> (r: Result<usize, SyntaxError>)
        requires
            old(self).inv(token_views(tokens@)),
        ensures
            final(self).inv(token_views(tokens@)),
            (final(self)@, r) == rule_call(token_views(tokens@), old(self)@),
            parsed(old(self)@, final(self)@, r),
        decreases old(self)@.left(token_views(tokens@)), 20nat,
    {
        let ghost tv = token_views(tokens@);
        let first = self.primary(tokens);
        proof {
            assert(match first {
                Ok(callee) => rule_call_rest(tv, self@, callee) == rule_call(tv, old(self)@),
                Err(e) => (self@, first) == rule_call(tv, old(self)@),
            }) by {
                reveal(rule_call_rest);
                reveal(rule_call);
                reveal(rule_primary);
            }
        }
        let mut callee = match first {
            Ok(callee) => callee,
            Err(e) => {
                return Err(e);
            },
        };
        loop
            invariant
                self.inv(tv),
                moved(old(self)@, self@),
                self@.pos > old(self)@.pos,
                callee < self@.nodes.len(),
                rule_call_rest(tv, self@, callee) == rule_call(tv, old(self)@),
            decreases self@.left(tv),
        {
            let ghost before = self@;
            let ghost acc = callee;
            let line = self.line(tokens);
            let kind = self.kind(tokens);
            let stop: Option<Result<usize, SyntaxError>> = if kind == TokenKind::LeftParen {
                self.step(tokens);
                let found = if self.kind(tokens) == TokenKind::RightParen {
                    Ok(Vec::new())
                } else {
                    self.args(tokens)
                };
                match found {
                    Err(e) => Some(Err(e)),
                    Ok(items) => match self.expect(tokens, TokenKind::RightParen) {
                        Err(e) => Some(Err(e)),
                        Ok(_) => {
                            let args = self.list(&items);
                            callee = self.node(Node::Call { callee, args, line });
                            None
                        },
                    },
                }
            } else if kind == TokenKind::Dot {
                self.step(tokens);
                match self.name(tokens) {
                    Err(e) => Some(Err(e)),
                    Ok(name) => {
                        callee = self.node(Node::GetField { object: callee, name, line });
                        None
                    },
                }
            } else {
                Some(Ok(callee))
            };
            proof {
                assert(match stop {
                    None => rule_call_rest(tv, self@, callee) == rule_call_rest(tv, before, acc),
                    Some(r) => (self@, r) == rule_call_rest(tv, before, acc),
                }) by {
                    reveal(rule_call_rest);
                    reveal(rule_args);
                }
            }
            match stop {
                Some(r) => {
                    return r;
                },
                None => {},
            }
        }
    }

    fn unary(&mut self, tokens: &Vec<Token>) -> (r: Result<usize, SyntaxError>)
        requires
            old(self).inv(token_views(tokens@)),
        ensures
            final(self).inv(token_views(tokens@)),
            (final(self)@, r) == rule_unary(token_views(tokens@), old(self)@),
            parsed(old(self)@, final(self)@, r),
        decreases old(self)@.left(token_views(tokens@)), 21nat,
    {
        let ghost tv = token_views(tokens@);
        let r = {
            let line = self.line(tokens);
            let kind = self.kind(tokens);
            if kind == TokenKind::Bang || kind == TokenKind::Minus {
                let op = if kind == TokenKind::Bang {
                    UnaryOp::Not
                } else {
                    UnaryOp::Negate
                };
                self.step(tokens);
                match self.unary(tokens) {
                    Err(e) => Err(e),
                    Ok(operand) => Ok(self.node(Node::Unary { op, operand, line })),
                }
            } else {
                self.call(tokens)
            }
        };
        proof {
            assert((self@, r) == rule_unary(tv, old(self)@)) by {
                reveal(rule_unary);
                reveal(rule_call);
            }
        }
        r
    }

    fn operand(&mut self, tokens: &Vec<Token>, level: u8) -> (r: Result<usize, SyntaxError>)
        requires
            old(self).inv(token_views(tokens@)),
        ensures
            final(self).inv(token_views(tokens@)),
            (final(self)@, r) == rule_operand(token_views(tokens@), old(self)@, level as nat),
            parsed(old(self)@, final(self)@, r),
        decreases old(self)@.left(token_views(tokens@)), 22nat + 2 * level,
    {
        let ghost tv = token_views(tokens@);
        let r = {
            if level <= 1 {
                self.unary(tokens)
            } else {
                self.binary(tokens, level - 1)
            }
        };
        proof {
            assert((self@, r) == rule_operand(tv, old(self)@, level as nat)) by {
                reveal(rule_operand);
                reveal(rule_unary);
                reveal(rule_binary);
            }
        }
        r
    }

    #[verifier::loop_isolation(false)]
    fn binary(&mut self, tokens: &Vec<Token>, level: u8) -> (r: Result<usize, SyntaxError>)
        requires
            old(self).inv(token_views(tokens@)),
        ensures
            final(self).inv(token_views(tokens@)),
            (final(self)@, r) == rule_binary(token_views(tokens@), old(self)@, level as nat),
            parsed(old(self)@, final(self)@, r),
        decreases old(self)@.left(token_views(tokens@)), 23nat + 2 * level,
    {
        let ghost tv = token_views(tokens@);
        let first = self.operand(tokens, level);
        proof {
            assert(match first {
                Ok(left) => rule_binary_rest(tv, self@, level as nat, left)
                    == rule_binary(tv, old(self)@, level as nat),
                Err(e) => (self@, first) == rule_binary(tv, old(self)@, level as nat),
            }) by {
                reveal(rule_binary_rest);
                reveal(rule_binary);
                reveal(rule_operand);
            }
        }
        let mut left = match first {
            Ok(left) => left,
            Err(e) => {
                return Err(e);
            },
        };
        loop
            invariant
                self.inv(tv),
                moved(old(self)@, self@),
                self@.pos > old(self)@.pos,
                left < self@.nodes.len(),
                rule_binary_rest(tv, self@, level as nat, left)
                    == rule_binary(tv, old(self)@, level as nat),
            decreases self@.left(tv),
        {
            let ghost before = self@;
            let ghost acc = left;
            let line = self.line(tokens);
            let stop: Option<Result<usize, SyntaxError>> = match binary_op(level, self.kind(tokens)) {
                None => Some(Ok(left)),
                Some(op) => {
                    self.step(tokens);
                    match self.operand(tokens, level) {
                        Err(e) => Some(Err(e)),
                        Ok(right) => {
                            left = self.node(Node::Binary { op, left, right, line });
                            None
                        },
                    }
                },
            };
            proof {
                assert(match stop {
                    None => rule_binary_rest(tv, self@, level as nat, left)
                        == rule_binary_rest(tv, before, level as nat, acc),
                    Some(r) => (self@, r) == rule_binary_rest(tv, before, level as nat, acc),
                }) by {
                    reveal(rule_binary_rest);
                    reveal(rule_operand);
                }
            }
            match stop {
                Some(r) => {
                    return r;
                },
                None => {},
            }
        }
    }

    #[verifier::loop_isolation(false)]
    fn and(&mut self, tokens: &Vec<Token>) -> (r: Result<usize, SyntaxError>)
        requires
            old(self).inv(token_views(tokens@)),
        ensures
            final(self).inv(token_views(tokens@)),
            (final(self)@, r) == rule_and(token_views(tokens@), old(self)@),
            parsed(old(self)@, final(self)@, r),
        decreases old(self)@.left(token_views(tokens@)), 40nat,
    {
        let ghost tv = token_views(tokens@);
        let first = self.binary(tokens, 4);
        proof {
            assert(match first {
                Ok(left) => rule_and_rest(tv, self@, left) == rule_and(tv, old(self)@),
                Err(e) => (self@, first) == rule_and(tv, old(self)@),
            }) by {
                reveal(rule_and_rest);
                reveal(rule_and);
                reveal(rule_binary);
            }
        }
        let mut left = match first {
            Ok(left) => left,
            Err(e) => {
                return Err(e);
            },
        };
        loop
            invariant
                self.inv(tv),
                moved(old(self)@, self@),
                self@.pos > old(self)@.pos,
                left < self@.nodes.len(),
                rule_and_rest(tv, self@, left) == rule_and(tv, old(self)@),
            decreases self@.left(tv),
        {
            let ghost before = self@;
            let ghost acc = left;
            let line = self.line(tokens);
            let stop: Option<Result<usize, SyntaxError>> = if self.kind(tokens) == TokenKind::And {
                self.step(tokens);
                match self.binary(tokens, 4) {
                    Err(e) => Some(Err(e)),
                    Ok(right) => {
                        left = self.node(Node::Logical { op: LogicalOp::And, left, right });
                        None
                    },
                }
            } else {
                Some(Ok(left))
            };
            proof {
                assert(match stop {
                    None => rule_and_rest(tv, self@, left) == rule_and_rest(tv, before, acc),
                    Some(r) => (self@, r) == rule_and_rest(tv, before, acc),
                }) by {
                    reveal(rule_and_rest);
                    reveal(rule_binary);
                }
            }
            match stop {
                Some(r) => {
                    return r;
                },
                None => {},
            }
        }
    }

    #[verifier::loop_isolation(false)]
    fn or(&mut self, tokens: &Vec<Token>) -> (r: Result<usize, SyntaxError>)
        requires
            old(self).inv(token_views(tokens@)),
        ensures
            final(self).inv(token_views(tokens@)),
            (final(self)@, r) == rule_or(token_views(tokens@), old(self)@),
            parsed(old(self)@, final(self)@, r),
        decreases old(self)@.left(token_views(tokens@)), 41nat,
    {
        let ghost tv = token_views(tokens@);
        let first = self.and(tokens);
        proof {
            assert(match first {
                Ok(left) => rule_or_rest(tv, self@, left) == rule_or(tv, old(self)@),
                Err(e) => (self@, first) == rule_or(tv, old(self)@),
            }) by {
                reveal(rule_or_rest);
                reveal(rule_or);
                reveal(rule_and);
            }
        }
        let mut left = match first {
            Ok(left) => left,
            Err(e) => {
                return Err(e);
            },
        };
        loop
            invariant
                self.inv(tv),
                moved(old(self)@, self@),
                self@.pos > old(self)@.pos,
                left < self@.nodes.len(),
                rule_or_rest(tv, self@, left) == rule_or(tv, old(self)@),
            decreases self@.left(tv),
        {
            let ghost before = self@;
            let ghost acc = left;
            let line = self.line(tokens);
            let stop: Option<Result<usize, SyntaxError>> = if self.kind(tokens) == TokenKind::Or {
                self.step(tokens);
                match self.and(tokens) {
                    Err(e) => Some(Err(e)),
                    Ok(right) => {
                        left = self.node(Node::Logical { op: LogicalOp::Or, left, right });
                        None
                    },
                }
            } else {
                Some(Ok(left))
            };
            proof {
                assert(match stop {
                    None => rule_or_rest(tv, self@, left) == rule_or_rest(tv, before, acc),
                    Some(r) => (self@, r) == rule_or_rest(tv, before, acc),
                }) by {
                    reveal(rule_or_rest);
                    reveal(rule_and);
                }
            }
            match stop {
                Some(r) => {
                    return r;
                },
                None => {},
            }
        }
    }

    fn assign(&mut self, target: usize, value: usize, invalid: SyntaxError) -> (r: Result<
        usize,
        SyntaxError,
    >)
        requires
            tables_ok(old(self)@),
            target < old(self)@.nodes.len(),
            value < old(self)@.nodes.len(),
        ensures
            tables_ok(final(self)@),
            (final(self)@, r) == assign_to(old(self)@, target, value, invalid),
            moved(old(self)@, final(self)@),
            final(self).pos == old(self).pos,
            r matches Ok(id) ==> id < final(self)@.nodes.len(),
    {
        proof {
            reveal(nodes_ok);
        }
        match self.nodes[target] {
            Node::Variable { name, line } => Ok(self.node(Node::Assign { name, value, line })),
            Node::GetField { object, name, line } => Ok(
                self.node(Node::SetField { object, name, value, line }),
            ),
            _ => Err(invalid),
        }
    }

    fn assignment(&mut self, tokens: &Vec<Token>) -> (r: Result<usize, SyntaxError>)
        requires
            old(self).inv(token_views(tokens@)),
        ensures
            final(self).inv(token_views(tokens@)),
            (final(self)@, r) == rule_assignment(token_views(tokens@), old(self)@),
            parsed(old(self)@, final(self)@, r),
        decreases old(self)@.left(token_views(tokens@)), 42nat,
    {
        let ghost tv = token_views(tokens@);
        let r = {
            match self.or(tokens) {
                Err(e) => Err(e),
                Ok(target) => {
                    if self.kind(tokens) == TokenKind::Equal {
                        let invalid = self.fail(tokens, SyntaxErrorKind::InvalidAssignmentTarget);
                        self.step(tokens);
                        match self.assignment(tokens) {
                            Err(e) => Err(e),
                            Ok(value) => self.assign(target, value, invalid),
                        }
                    } else {
                        Ok(target)
                    }
                },
            }
        };
        proof {
            assert((self@, r) == rule_assignment(tv, old(self)@)) by {
                reveal(rule_assignment);
                reveal(rule_or);
            }
        }
        r
    }

    fn expression(&mut self, tokens: &Vec<Token>) -> (r: Result<usize, SyntaxError>)
        requires
            old(self).inv(token_views(tokens@)),
        ensures
            final(self).inv(token_views(tokens@)),
            (final(self)@, r) == rule_expression(token_views(tokens@), old(self)@),
            parsed(old(self)@, final(self)@, r),
        decreases old(self)@.left(token_views(tokens@)), 43nat,
    {
        let ghost tv = token_views(tokens@);
        let r = {
            self.assignment(tokens)
        };
        proof {
            assert((self@, r) == rule_expression(tv, old(self)@)) by {
                reveal(rule_expression);
                reveal(rule_assignment);
            }
        }
        r
    }

    fn optional_expression(&mut self, tokens: &Vec<Token>, stop: TokenKind) -> (r: Result<
        Option<usize>,
        SyntaxError,
    >)
        requires
            old(self).inv(token_views(tokens@)),
        ensures
            final(self).inv(token_views(tokens@)),
            (final(self)@, r) == rule_optional_expression(token_views(tokens@), old(self)@, stop),
            moved(old(self)@, final(self)@),
            r matches Ok(Some(id)) ==> id < final(self)@.nodes.len() && final(self)@.pos > old(
                self,
            )@.pos,
    {
        let ghost tv = token_views(tokens@);
        let r = if self.kind(tokens) == stop {
            Ok(None)
        } else {
            match self.expression(tokens) {
                Err(e) => Err(e),
                Ok(value) => Ok(Some(value)),
            }
        };
        proof {
            assert((self@, r) == rule_optional_expression(tv, old(self)@, stop)) by {
                reveal(rule_optional_expression);
                reveal(rule_expression);
            }
        }
        r
    }

    fn expression_statement(&mut self, tokens: &Vec<Token>) -> (r: Result<usize, SyntaxError>)
        requires
            old(self).inv(token_views(tokens@)),
        ensures
            final(self).inv(token_views(tokens@)),
            (final(self)@, r) == rule_expression_statement(token_views(tokens@), old(self)@),
            parsed(old(self)@, final(self)@, r),
        decreases old(self)@.left(token_views(tokens@)), 50nat,
    {
        let ghost tv = token_views(tokens@);
        let r = {
            match self.expression(tokens) {
                Err(e) => Err(e),
                Ok(expr) => match self.expect(tokens, TokenKind::Semicolon) {
                    Err(e) => Err(e),
                    Ok(_) => Ok(self.node(Node::Expression { expr })),
                },
            }
        };
        proof {
            assert((self@, r) == rule_expression_statement(tv, old(self)@)) by {
                reveal(rule_expression_statement);
                reveal(rule_expression);
            }
        }
        r
    }

    fn print_statement(&mut self, tokens: &Vec<Token>) -> (r: Result<usize, SyntaxError>)
        requires
            old(self).inv(token_views(tokens@)),
        ensures
            final(self).inv(token_views(tokens@)),
            (final(self)@, r) == rule_print(token_views(tokens@), old(self)@),
            parsed(old(self)@, final(self)@, r),
        decreases old(self)@.left(token_views(tokens@)), 51nat,
    {
        let ghost tv = token_views(tokens@);
        let r = {
            self.step(tokens);
            match self.expression(tokens) {
                Err(e) => Err(e),
                Ok(expr) => match self.expect(tokens, TokenKind::Semicolon) {
                    Err(e) => Err(e),
                    Ok(_) => Ok(self.node(Node::Print { expr })),
                },
            }
        };
        proof {
            assert((self@, r) == rule_print(tv, old(self)@)) by {
                reveal(rule_print);
                reveal(rule_expression);
            }
        }
        r
    }

    fn return_statement(&mut self, tokens: &Vec<Token>) -> (r: Result<usize, SyntaxError>)
        requires
            old(self).inv(token_views(tokens@)),
        ensures
            final(self).inv(token_views(tokens@)),
            (final(self)@, r) == rule_return(token_views(tokens@), old(self)@),
            parsed(old(self)@, final(self)@, r),
        decreases old(self)@.left(token_views(tokens@)), 52nat,
    {
        let ghost tv = token_views(tokens@);
        let r = {
            let line = self.line(tokens);
            self.step(tokens);
            match self.optional_expression(tokens, TokenKind::Semicolon) {
                Err(e) => Err(e),
                Ok(value) => match self.expect(tokens, TokenKind::Semicolon) {
                    Err(e) => Err(e),
                    Ok(_) => Ok(self.node(Node::Return { value, line })),
                },
            }
        };
        proof {
            assert((self@, r) == rule_return(tv, old(self)@)) by {
                reveal(rule_return);
            }
        }
        r
    }

    fn block(&mut self, tokens: &Vec<Token>) -> (r: Result<usize, SyntaxError>)
        requires
            old(self).inv(token_views(tokens@)),
        ensures
            final(self).inv(token_views(tokens@)),
            (final(self)@, r) == rule_block(token_views(tokens@), old(self)@),
            parsed(old(self)@, final(self)@, r),
        decreases old(self)@.left(token_views(tokens@)), 53nat,
    {
        let ghost tv = token_views(tokens@);
        let r = {
            match self.expect(tokens, TokenKind::LeftBrace) {
                Err(e) => Err(e),
                Ok(_) => match self.block_body(tokens) {
                    Err(e) => Err(e),
                    Ok(body) => Ok(self.node(Node::Block { body })),
                },
            }
        };
        proof {
            assert((self@, r) == rule_block(tv, old(self)@)) by {
                reveal(rule_block);
                reveal(rule_block_body);
            }
        }
        r
    }

    fn while_statement(&mut self, tokens: &Vec<Token>) -> (r: Result<usize, SyntaxError>)
        requires
            old(self).inv(token_views(tokens@)),
        ensures
            final(self).inv(token_views(tokens@)),
            (final(self)@, r) == rule_while(token_views(tokens@), old(self)@),
            parsed(old(self)@, final(self)@, r),
        decreases old(self)@.left(token_views(tokens@)), 54nat,
    {
        let ghost tv = token_views(tokens@);
        let r = {
            self.step(tokens);
            match self.expect(tokens, TokenKind::LeftParen) {
                Err(e) => Err(e),
                Ok(_) => match self.expression(tokens) {
                    Err(e) => Err(e),
                    Ok(cond) => match self.expect(tokens, TokenKind::RightParen) {
                        Err(e) => Err(e),
                        Ok(_) => match self.statement(tokens) {
                            Err(e) => Err(e),
                            Ok(body) => Ok(self.node(Node::While { cond, body })),
                        },
                    },
                },
            }
        };
        proof {
            assert((self@, r) == rule_while(tv, old(self)@)) by {
                reveal(rule_while);
                reveal(rule_expression);
                reveal(rule_statement);
            }
        }
        r
    }

    fn branches(&mut self, tokens: &Vec<Token>, cond: usize) -> (r: Result<usize, SyntaxError>)
        requires
            old(self).inv(token_views(tokens@)),
            cond < old(self)@.nodes.len(),
        ensures
            final(self).inv(token_views(tokens@)),
            (final(self)@, r) == rule_branches(token_views(tokens@), old(self)@, cond),
            parsed(old(self)@, final(self)@, r),
        decreases old(self)@.left(token_views(tokens@)), 66nat,
    {
        let ghost tv = token_views(tokens@);
        let r = {
            match self.statement(tokens) {
                Err(e) => Err(e),
                Ok(then_branch) => {
                    if self.kind(tokens) == TokenKind::Else {
                        self.step(tokens);
                        match self.statement(tokens) {
                            Err(e) => Err(e),
                            Ok(other) => Ok(
                                self.node(Node::If { cond, then_branch, else_branch: Some(other) }),
                            ),
                        }
                    } else {
                        Ok(self.node(Node::If { cond, then_branch, else_branch: None }))
                    }
                },
            }
        };
        proof {
            assert((self@, r) == rule_branches(tv, old(self)@, cond)) by {
                reveal(rule_branches);
                reveal(rule_statement);
            }
        }
        r
    }

    fn if_statement(&mut self, tokens: &Vec<Token>) -> (r: Result<usize, SyntaxError>)
        requires
            old(self).inv(token_views(tokens@)),
        ensures
            final(self).inv(token_views(tokens@)),
            (final(self)@, r) == rule_if(token_views(tokens@), old(self)@),
            parsed(old(self)@, final(self)@, r),
        decreases old(self)@.left(token_views(tokens@)), 55nat,
    {
        let ghost tv = token_views(tokens@);
        let r = {
            self.step(tokens);
            match self.expect(tokens, TokenKind::LeftParen) {
                Err(e) => Err(e),
                Ok(_) => match self.expression(tokens) {
                    Err(e) => Err(e),
                    Ok(cond) => match self.expect(tokens, TokenKind::RightParen) {
                        Err(e) => Err(e),
                        Ok(_) => self.branches(tokens, cond),
                    },
                },
            }
        };
        proof {
            assert((self@, r) == rule_if(tv, old(self)@)) by {
                reveal(rule_if);
                reveal(rule_expression);
                reveal(rule_branches);
            }
        }
        r
    }

    fn for_init(&mut self, tokens: &Vec<Token>) -> (r: Result<Option<usize>, SyntaxError>)
        requires
            old(self).inv(token_views(tokens@)),
        ensures
            final(self).inv(token_views(tokens@)),
            (final(self)@, r) == rule_for_init(token_views(tokens@), old(self)@),
            moved(old(self)@, final(self)@),
            r matches Ok(Some(id)) ==> id < final(self)@.nodes.len(),
        decreases old(self)@.left(token_views(tokens@)), 65nat,
    {
        let ghost tv = token_views(tokens@);
        let r = if self.kind(tokens) == TokenKind::Semicolon {
            self.step(tokens);
            Ok(None)
        } else {
            let init = if self.kind(tokens) == TokenKind::Var {
                self.var(tokens)
            } else {
                self.expression_statement(tokens)
            };
            match init {
                Err(e) => Err(e),
                Ok(init) => Ok(Some(init)),
            }
        };
        proof {
            assert((self@, r) == rule_for_init(tv, old(self)@)) by {
                reveal(rule_for_init);
                reveal(rule_var);
                reveal(rule_expression_statement);
            }
        }
        r
    }

    fn for_loop(
        &mut self,
        init: Option<usize>,
        cond: Option<usize>,
        step: Option<usize>,
        body: usize,
    ) -> (id: usize)
        requires
            tables_ok(old(self)@),
            body < old(self)@.nodes.len(),
            init matches Some(i) ==> i < old(self)@.nodes.len(),
            cond matches Some(c) ==> c < old(self)@.nodes.len(),
            step matches Some(s) ==> s < old(self)@.nodes.len(),
        ensures
            tables_ok(final(self)@),
            (final(self)@, id) == for_loop(old(self)@, init, cond, step, body),
            moved(old(self)@, final(self)@),
            final(self).pos == old(self).pos,
            id < final(self)@.nodes.len(),
    {
        let body = match step {
            Some(step) => {
                let after = self.node(Node::Expression { expr: step });
                let mut pair: Vec<usize> = Vec::new();
                pair.push(body);
                pair.push(after);
                assert(pair@ =~= seq![body, after]);
                let both = self.list(&pair);
                self.node(Node::Block { body: both })
            },
            None => body,
        };
        let cond = match cond {
            Some(cond) => cond,
            None => self.node(Node::Boolean { value: true }),
        };
        let looping = self.node(Node::While { cond, body });
        match init {
            Some(init) => {
                let mut pair: Vec<usize> = Vec::new();
                pair.push(init);
                pair.push(looping);
                assert(pair@ =~= seq![init, looping]);
                let both = self.list(&pair);
                self.node(Node::Block { body: both })
            },
            None => looping,
        }
    }

    fn for_rest(&mut self, tokens: &Vec<Token>, init: Option<usize>) -> (r: Result<usize, SyntaxError>)
        requires
            old(self).inv(token_views(tokens@)),
            init matches Some(i) ==> i < old(self)@.nodes.len(),
        ensures
            final(self).inv(token_views(tokens@)),
            (final(self)@, r) == rule_for_rest(token_views(tokens@), old(self)@, init),
            parsed(old(self)@, final(self)@, r),
        decreases old(self)@.left(token_views(tokens@)), 67nat,
    {
        let ghost tv = token_views(tokens@);
        let r = {
            match self.optional_expression(tokens, TokenKind::Semicolon) {
                Err(e) => Err(e),
                Ok(cond) => match self.expect(tokens, TokenKind::Semicolon) {
                    Err(e) => Err(e),
                    Ok(_) => match self.optional_expression(tokens, TokenKind::RightParen) {
                        Err(e) => Err(e),
                        Ok(step) => match self.expect(tokens, TokenKind::RightParen) {
                            Err(e) => Err(e),
                            Ok(_) => match self.statement(tokens) {
                                Err(e) => Err(e),
                                Ok(body) => Ok(self.for_loop(init, cond, step, body)),
                            },
                        },
                    },
                },
            }
        };
        proof {
            assert((self@, r) == rule_for_rest(tv, old(self)@, init)) by {
                reveal(rule_for_rest);
                reveal(rule_statement);
            }
        }
        r
    }

    fn for_statement(&mut self, tokens: &Vec<Token>) -> (r: Result<usize, SyntaxError>)
        requires
            old(self).inv(token_views(tokens@)),
        ensures
            final(self).inv(token_views(tokens@)),
            (final(self)@, r) == rule_for(token_views(tokens@), old(self)@),
            parsed(old(self)@, final(self)@, r),
        decreases old(self)@.left(token_views(tokens@)), 56nat,
    {
        let ghost tv = token_views(tokens@);
        let r = {
            self.step(tokens);
            match self.expect(tokens, TokenKind::LeftParen) {
                Err(e) => Err(e),
                Ok(_) => match self.for_init(tokens) {
                    Err(e) => Err(e),
                    Ok(init) => self.for_rest(tokens, init),
                },
            }
        };
        proof {
            assert((self@, r) == rule_for(tv, old(self)@)) by {
                reveal(rule_for);
                reveal(rule_for_init);
                reveal(rule_for_rest);
            }
        }
        r
    }

    fn var(&mut self, tokens: &Vec<Token>) -> (r: Result<usize, SyntaxError>)
        requires
            old(self).inv(token_views(tokens@)),
        ensures
            final(self).inv(token_views(tokens@)),
            (final(self)@, r) == rule_var(token_views(tokens@), old(self)@),
            parsed(old(self)@, final(self)@, r),
        decreases old(self)@.left(token_views(tokens@)), 57nat,
    {
        let ghost tv = token_views(tokens@);
        let r = {
            let line = self.line(tokens);
            self.step(tokens);
            match self.name(tokens) {
                Err(e) => Err(e),
                Ok(name) => {
                    let init = if self.kind(tokens) == TokenKind::Equal {
                        self.step(tokens);
                        self.optional_expression(tokens, TokenKind::Eof)
                    } else {
                        Ok(None)
                    };
                    match init {
                        Err(e) => Err(e),
                        Ok(init) => match self.expect(tokens, TokenKind::Semicolon) {
                            Err(e) => Err(e),
                            Ok(_) => Ok(self.node(Node::Var { name, init, line })),
                        },
                    }
                },
            }
        };
        proof {
            assert((self@, r) == rule_var(tv, old(self)@)) by {
                reveal(rule_var);
            }
        }
        r
    }

    fn statement(&mut self, tokens: &Vec<Token>) -> (r: Result<usize, SyntaxError>)
        requires
            old(self).inv(token_views(tokens@)),
        ensures
            final(self).inv(token_views(tokens@)),
            (final(self)@, r) == rule_statement(token_views(tokens@), old(self)@),
            parsed(old(self)@, final(self)@, r),
        decreases old(self)@.left(token_views(tokens@)), 58nat,
    {
        let ghost tv = token_views(tokens@);
        let r = {
            match self.kind(tokens) {
                TokenKind::For => self.for_statement(tokens),
                TokenKind::If => self.if_statement(tokens),
                TokenKind::Print => self.print_statement(tokens),
                TokenKind::Return => self.return_statement(tokens),
                TokenKind::While => self.while_statement(tokens),
                TokenKind::LeftBrace => self.block(tokens),
                _ => self.expression_statement(tokens),
            }
        };
        proof {
            assert((self@, r) == rule_statement(tv, old(self)@)) by {
                reveal(rule_statement);
                reveal(rule_for);
                reveal(rule_if);
                reveal(rule_print);
                reveal(rule_return);
                reveal(rule_while);
                reveal(rule_block);
                reveal(rule_expression_statement);
            }
        }
        r
    }

    fn function(&mut self, tokens: &Vec<Token>) -> (r: Result<usize, SyntaxError>)
        requires
            old(self).inv(token_views(tokens@)),
        ensures
            final(self).inv(token_views(tokens@)),
            (final(self)@, r) == rule_function(token_views(tokens@), old(self)@),
            parsed(old(self)@, final(self)@, r),
        decreases old(self)@.left(token_views(tokens@)), 59nat,
    {
        let ghost tv = token_views(tokens@);
        let r = {
            let line = self.line(tokens);
            match self.name(tokens) {
                Err(e) => Err(e),
                Ok(name) => match self.expect(tokens, TokenKind::LeftParen) {
                    Err(e) => Err(e),
                    Ok(_) => {
                        let found = if self.kind(tokens) == TokenKind::RightParen {
                            Ok(Vec::new())
                        } else {
                            self.params(tokens)
                        };
                        match found {
                            Err(e) => Err(e),
                            Ok(names) => match self.expect(tokens, TokenKind::RightParen) {
                                Err(e) => Err(e),
                                Ok(_) => match self.expect(tokens, TokenKind::LeftBrace) {
                                    Err(e) => Err(e),
                                    Ok(_) => match self.block_body(tokens) {
                                        Err(e) => Err(e),
                                        Ok(body) => {
                                            let params = self.list(&names);
                                            Ok(
                                                self.node(
                                                    Node::Function { name, params, body, line },
                                                ),
                                            )
                                        },
                                    },
                                },
                            },
                        }
                    },
                },
            }
        };
        proof {
            assert((self@, r) == rule_function(tv, old(self)@)) by {
                reveal(rule_function);
                reveal(rule_params);
                reveal(rule_block_body);
            }
        }
        r
    }

    #[verifier::loop_isolation(false)]
    fn methods(&mut self, tokens: &Vec<Token>) -> (r: Result<Vec<usize>, SyntaxError>)
        requires
            old(self).inv(token_views(tokens@)),
        ensures
            final(self).inv(token_views(tokens@)),
            (final(self)@, items_of(r))
                == rule_methods(token_views(tokens@), old(self)@, Seq::empty()),
            moved(old(self)@, final(self)@),
            r matches Ok(items) ==> forall|k: int|
                0 <= k < items@.len() ==> #[trigger] items@[k] < final(self)@.nodes.len(),
        decreases old(self)@.left(token_views(tokens@)), 64nat,
    {
        let ghost tv = token_views(tokens@);
        let mut items: Vec<usize> = Vec::new();
        loop
            invariant
                self.inv(tv),
                moved(old(self)@, self@),
                forall|k: int| 0 <= k < items@.len() ==> #[trigger] items@[k] < self@.nodes.len(),
                rule_methods(tv, self@, items@) == rule_methods(tv, old(self)@, Seq::empty()),
            decreases self@.left(tv),
        {
            let ghost before = self@;
            let ghost found = items@;
            let kind = self.kind(tokens);
            let stop: Option<Result<(), SyntaxError>> = if kind == TokenKind::RightBrace || kind
                == TokenKind::Eof {
                Some(Ok(()))
            } else {
                match self.function(tokens) {
                    Err(e) => Some(Err(e)),
                    Ok(method) => {
                        items.push(method);
                        None
                    },
                }
            };
            proof {
                assert(match stop {
                    None => rule_methods(tv, self@, items@) == rule_methods(tv, before, found),
                    Some(Ok(_)) => (self@, Ok::<Seq<usize>, SyntaxError>(items@))
                        == rule_methods(tv, before, found),
                    Some(Err(e)) => (self@, Err::<Seq<usize>, SyntaxError>(e))
                        == rule_methods(tv, before, found),
                }) by {
                    reveal(rule_methods);
                    reveal(rule_function);
                }
            }
            match stop {
                Some(Ok(_)) => {
                    return Ok(items);
                },
                Some(Err(e)) => {
                    return Err(e);
                },
                None => {},
            }
        }
    }

    fn superclass(&mut self, tokens: &Vec<Token>) -> (r: Result<Option<usize>, SyntaxError>)
        requires
            old(self).inv(token_views(tokens@)),
        ensures
            final(self).inv(token_views(tokens@)),
            (final(self)@, r) == rule_superclass(token_views(tokens@), old(self)@),
            moved(old(self)@, final(self)@),
            r matches Ok(Some(id)) ==> id < final(self)@.nodes.len(),
    {
        if self.kind(tokens) == TokenKind::Less {
            self.step(tokens);
            let line = self.line(tokens);
            match self.name(tokens) {
                Err(e) => Err(e),
                Ok(name) => Ok(Some(self.node(Node::Variable { name, line }))),
            }
        } else {
            Ok(None)
        }
    }

    fn class(&mut self, tokens: &Vec<Token>) -> (r: Result<usize, SyntaxError>)
        requires
            old(self).inv(token_views(tokens@)),
        ensures
            final(self).inv(token_views(tokens@)),
            (final(self)@, r) == rule_class(token_views(tokens@), old(self)@),
            parsed(old(self)@, final(self)@, r),
        decreases old(self)@.left(token_views(tokens@)), 60nat,
    {
        let ghost tv = token_views(tokens@);
        let r = {
            let line = self.line(tokens);
            self.step(tokens);
            match self.name(tokens) {
                Err(e) => Err(e),
                Ok(name) => match self.superclass(tokens) {
                    Err(e) => Err(e),
                    Ok(superclass) => match self.expect(tokens, TokenKind::LeftBrace) {
                        Err(e) => Err(e),
                        Ok(_) => match self.methods(tokens) {
                            Err(e) => Err(e),
                            Ok(found) => match self.expect(tokens, TokenKind::RightBrace) {
                                Err(e) => Err(e),
                                Ok(_) => {
                                    let methods = self.list(&found);
                                    Ok(
                                        self.node(
                                            Node::Class { name, superclass, methods, line },
                                        ),
                                    )
                                },
                            },
                        },
                    },
                },
            }
        };
        proof {
            assert((self@, r) == rule_class(tv, old(self)@)) by {
                reveal(rule_class);
                reveal(rule_methods);
            }
        }
        r
    }

    fn declaration(&mut self, tokens: &Vec<Token>) -> (r: Option<usize>)
        requires
            old(self).inv(token_views(tokens@)),
        ensures
            final(self).inv(token_views(tokens@)),
            (final(self)@, r) == rule_declaration(token_views(tokens@), old(self)@),
            moved(old(self)@, final(self)@),
            r matches Some(id) ==> id < final(self)@.nodes.len(),
            old(self)@.kind(token_views(tokens@)) != TokenKind::Eof ==> final(self)@.pos > old(
                self,
            )@.pos,
        decreases old(self)@.left(token_views(tokens@)), 61nat,
    {
        let ghost tv = token_views(tokens@);
        let kind = self.kind(tokens);
        let found = if kind == TokenKind::Class {
            self.class(tokens)
        } else if kind == TokenKind::Fun {
            self.step(tokens);
            self.function(tokens)
        } else if kind == TokenKind::Var {
            self.var(tokens)
        } else {
            self.statement(tokens)
        };
        let r = match found {
            Ok(id) => Some(id),
            Err(e) => {
                self.recover(tokens, e);
                None
            },
        };
        proof {
            assert((self@, r) == rule_declaration(tv, old(self)@)) by {
                reveal(rule_declaration);
                reveal(rule_class);
                reveal(rule_function);
                reveal(rule_var);
                reveal(rule_statement);
            }
        }
        r
    }

    #[verifier::loop_isolation(false)]
    fn items(&mut self, tokens: &Vec<Token>, nested: bool) -> (r: Vec<usize>)
        requires
            old(self).inv(token_views(tokens@)),
        ensures
            final(self).inv(token_views(tokens@)),
            (final(self)@, r@)
                == rule_items(token_views(tokens@), old(self)@, Seq::empty(), nested),
            moved(old(self)@, final(self)@),
            forall|k: int| 0 <= k < r@.len() ==> #[trigger] r@[k] < final(self)@.nodes.len(),
            final(self)@.kind(token_views(tokens@)) == TokenKind::Eof || (nested && final(self)@.kind(
                token_views(tokens@),
            ) == TokenKind::RightBrace),
        decreases old(self)@.left(token_views(tokens@)), 62nat,
    {
        let ghost tv = token_views(tokens@);
        let mut items: Vec<usize> = Vec::new();
        loop
            invariant
                self.inv(tv),
                moved(old(self)@, self@),
                forall|k: int| 0 <= k < items@.len() ==> #[trigger] items@[k] < self@.nodes.len(),
                rule_items(tv, self@, items@, nested)
                    == rule_items(tv, old(self)@, Seq::empty(), nested),
            decreases self@.left(tv),
        {
            let ghost before = self@;
            let ghost found = items@;
            let kind = self.kind(tokens);
            let stop = kind == TokenKind::Eof || (nested && kind == TokenKind::RightBrace);
            if !stop {
                match self.declaration(tokens) {
                    Some(id) => {
                        items.push(id);
                    },
                    None => {},
                }
            }
            proof {
                assert(if stop {
                    (self@, items@) == rule_items(tv, before, found, nested)
                } else {
                    rule_items(tv, self@, items@, nested) == rule_items(tv, before, found, nested)
                }) by {
                    reveal(rule_items);
                    reveal(rule_declaration);
                }
            }
            if stop {
                return items;
            }
        }
    }

    fn block_body(&mut self, tokens: &Vec<Token>) -> (r: Result<List, SyntaxError>)
        requires
            old(self).inv(token_views(tokens@)),
        ensures
            final(self).inv(token_views(tokens@)),
            (final(self)@, r) == rule_block_body(token_views(tokens@), old(self)@),
            moved(old(self)@, final(self)@),
            r matches Ok(body) ==> final(self)@.pos > old(self)@.pos && list_below(
                final(self)@.links,
                body,
                final(self)@.nodes.len() as int,
            ),
        decreases old(self)@.left(token_views(tokens@)), 63nat,
    {
        let ghost tv = token_views(tokens@);
        let items = self.items(tokens, true);
        let r = match self.expect(tokens, TokenKind::RightBrace) {
            Err(e) => Err(e),
            Ok(_) => Ok(self.list(&items)),
        };
        proof {
            assert((self@, r) == rule_block_body(tv, old(self)@)) by {
                reveal(rule_block_body);
                reveal(rule_items);
            }
        }
        r
    }
}

/// Parses a token sequence into a program.
///
/// Every syntax error found is reported: after an error the parser drops
/// tokens up to the next statement boundary and goes on, so the statement in
/// error gives no node. The program that comes back is well formed, and each
/// of its nodes is identified by its index in the node table. The parser
/// reads all of its input: it stops at the end-of-file token or, where there
/// is none, behind the last token.
pub fn parse(tokens: &Vec<Token>) -> (r: (Program, Vec<SyntaxError>))
    ensures
        r.0@ == spec_parse(token_views(tokens@)).0,
        r.1@ == spec_parse(token_views(tokens@)).1,
        r.0.wf(),
        parse_end(token_views(tokens@)).kind(token_views(tokens@)) == TokenKind::Eof,
{
    let mut symbols: Vec<String> = Vec::new();
    symbols.push(String::from_str("init"));
    symbols.push(String::from_str("this"));
    symbols.push(String::from_str("super"));
    let mut parser = Parser {
        nodes: Vec::new(),
        links: Vec::new(),
        symbols,
        texts: Vec::new(),
        pos: 0,
        errors: Vec::new(),
    };
    proof {
        reveal(nodes_ok);
        assert(parser@.symbols =~= reserved_symbols());
        assert(parser@.texts =~= Seq::<Seq<char>>::empty());
        assert(parser@ == PState::start());
    }
    let roots = parser.items(tokens, false);
    let program = Program {
        nodes: parser.nodes,
        links: parser.links,
        symbols: parser.symbols,
        texts: parser.texts,
        roots,
    };
    (program, parser.errors)
}

} // verus!
