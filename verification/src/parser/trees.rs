//! What the trees of the grammar look like: for each rule, the relation
//! between a run of tokens and the tree that the rule makes of it.
//!
//! A tree covers the tokens from an index `pos` up to, and without, an
//! index `end`. The relations follow the grammar rule by rule; they say
//! which tokens stand where, what each node holds, over which bytes its
//! span runs, and that the slots for types are empty except at literals.

use vstd::prelude::*;
use crate::parser::ast::{
    BinaryExpKind,
    BlockStmt,
    CallExp,
    ClassDecl,
    Decl,
    Exp,
    ExpKind,
    FnDecl,
    FormalDecl,
    Id,
    LineStmt,
    LineStmtKind,
    Loc,
    LocKind,
    PrimType,
    Program,
    Stmt,
    Type,
    TypeKind,
    UnaryExpKind,
    VarDecl,
};
use crate::parser::grammar::Tok;
use crate::parser::rules::{codes_of, lemma_codes_len, on};
use crate::scanner::tokens::TokenType;
use crate::span::Span;

verus! {

/// Whether the token at `pos` is of the same variant as `t`.
#[verifier::opaque]
pub open spec fn kind_at(toks: Seq<Tok>, pos: int, t: TokenType) -> bool {
    0 <= pos < toks.len() && on(codes_of(toks), pos, t)
}

/// The bytes from the start of the token at `pos` to the end of the token
/// before `end`.
pub open spec fn extent(toks: Seq<Tok>, pos: int, end: int) -> Span {
    Span::spec_new(toks[pos].0, toks[end - 1].2)
}

/// Whether the tokens `pos..end` lie within the text and are at least one.
pub open spec fn run(toks: Seq<Tok>, pos: int, end: int) -> bool {
    0 <= pos < end <= toks.len()
}

/// `Id`: one identifier token, whose name the node holds.
#[verifier::opaque]
pub open spec fn id_tree(toks: Seq<Tok>, pos: int, end: int, id: Id) -> bool {
    &&& run(toks, pos, end)
    &&& end == pos + 1
    &&& toks[pos].1 matches TokenType::ID(name) && id.name == name
    &&& id.span == extent(toks, pos, end)
    &&& id.id_type is None
}

/// `Loc`: identifiers joined by `--`, nested to the left.
#[verifier::opaque]
pub open spec fn loc_tree(toks: Seq<Tok>, pos: int, end: int, l: Loc) -> bool
    decreases l,
{
    &&& run(toks, pos, end)
    &&& l.span == extent(toks, pos, end)
    &&& l.loc_type is None
    &&& match *l.kind {
        LocKind::Id(id) => id_tree(toks, pos, end, *id),
        LocKind::Loc { base_class, field_name } => {
            &&& pos < end - 2
            &&& loc_tree(toks, pos, end - 2, *base_class)
            &&& kind_at(toks, end - 2, TokenType::POSTDEC)
            &&& id_tree(toks, end - 1, end, *field_name)
        },
    }
}

/// The primitive type that the token at `pos` names, if it names one.
pub open spec fn prim_at(toks: Seq<Tok>, pos: int) -> Option<PrimType> {
    if kind_at(toks, pos, TokenType::INT) {
        Some(PrimType::Int)
    } else if kind_at(toks, pos, TokenType::BOOL) {
        Some(PrimType::Bool)
    } else if kind_at(toks, pos, TokenType::VOID) {
        Some(PrimType::Void)
    } else {
        None
    }
}

/// Where a type that starts at `pos` ends: after two tokens if it starts
/// with `perfect`, after one otherwise.
pub open spec fn type_end(toks: Seq<Tok>, pos: int) -> int {
    if kind_at(toks, pos, TokenType::PERFECT) {
        pos + 2
    } else {
        pos + 1
    }
}

/// `Type`: the name of a primitive type or of a class, write-once when
/// `perfect` stands before it.
pub open spec fn type_tree(toks: Seq<Tok>, pos: int, end: int, t: Type) -> bool {
    &&& run(toks, pos, end)
    &&& end == type_end(toks, pos)
    &&& t.perfect == kind_at(toks, pos, TokenType::PERFECT)
    &&& match *t.kind {
        TypeKind::Prim(p) => prim_at(toks, end - 1) == Some(p),
        TypeKind::Class(id) => id_tree(toks, end - 1, end, *id),
    }
}

/// A literal: one token; the node holds its value and its type.
pub open spec fn literal_tree(toks: Seq<Tok>, pos: int, end: int, e: Exp) -> bool {
    &&& run(toks, pos, end)
    &&& end == pos + 1
    &&& e.span == extent(toks, pos, end)
    &&& match toks[pos].1 {
        TokenType::INTLITERAL(n) => *e.kind == ExpKind::IntLit(n) && e.expr_type == Some(
            Box::new(Type::spec_prim(PrimType::Int)),
        ),
        TokenType::STRINGLITERAL(s) => *e.kind == ExpKind::StrLit(s) && e.expr_type == Some(
            Box::new(Type::spec_prim(PrimType::String)),
        ),
        TokenType::TRUE => *e.kind == ExpKind::True && e.expr_type == Some(
            Box::new(Type::spec_prim(PrimType::Bool)),
        ),
        TokenType::FALSE => *e.kind == ExpKind::False && e.expr_type == Some(
            Box::new(Type::spec_prim(PrimType::Bool)),
        ),
        TokenType::MAGIC => *e.kind == ExpKind::Magic && e.expr_type == Some(
            Box::new(Type::spec_prim(PrimType::Bool)),
        ),
        _ => false,
    }
}

/// Whether `e` is a binary operation of the kind `kind` that spans the
/// tokens `pos..end`, with empty slots.
pub open spec fn binary_node(toks: Seq<Tok>, pos: int, end: int, e: Exp, kind: BinaryExpKind) -> bool {
    &&& run(toks, pos, end)
    &&& e.expr_type is None
    &&& e.span == extent(toks, pos, end)
    &&& *e.kind matches ExpKind::BinaryExp(b) && b.expr_type is None && b.span == extent(
        toks,
        pos,
        end,
    ) && *b.kind == kind
}

/// The left operand of a binary operation.
pub open spec fn left(e: Exp) -> Exp {
    *(*e.kind)->BinaryExp_0.lhs
}

/// The right operand of a binary operation.
pub open spec fn right(e: Exp) -> Exp {
    *(*e.kind)->BinaryExp_0.rhs
}

/// Whether `e` is a unary operation of the kind `kind` that spans the
/// tokens `pos..end`, with empty slots.
pub open spec fn unary_node(toks: Seq<Tok>, pos: int, end: int, e: Exp, kind: UnaryExpKind) -> bool {
    &&& run(toks, pos, end)
    &&& e.expr_type is None
    &&& e.span == extent(toks, pos, end)
    &&& *e.kind matches ExpKind::UnaryExp(u) && u.expr_type is None && u.span == extent(
        toks,
        pos,
        end,
    ) && *u.kind == kind
}

/// The operand of a unary operation.
pub open spec fn operand(e: Exp) -> Exp {
    *(*e.kind)->UnaryExp_0.exp
}

/// Whether the token at `pos` is `*` or `/`, and for which operation it
/// stands.
pub open spec fn scaling_at(toks: Seq<Tok>, pos: int) -> Option<BinaryExpKind> {
    if kind_at(toks, pos, TokenType::STAR) {
        Some(BinaryExpKind::Times)
    } else if kind_at(toks, pos, TokenType::SLASH) {
        Some(BinaryExpKind::Divide)
    } else {
        None
    }
}

/// Whether the token at `pos` is `+` or `-`, and for which operation it
/// stands.
pub open spec fn adding_at(toks: Seq<Tok>, pos: int) -> Option<BinaryExpKind> {
    if kind_at(toks, pos, TokenType::CROSS) {
        Some(BinaryExpKind::Plus)
    } else if kind_at(toks, pos, TokenType::DASH) {
        Some(BinaryExpKind::Minus)
    } else {
        None
    }
}

/// The comparison that the token at `pos` stands for, if it stands for
/// one.
pub open spec fn relation_at(toks: Seq<Tok>, pos: int) -> Option<BinaryExpKind> {
    if kind_at(toks, pos, TokenType::EQUALS) {
        Some(BinaryExpKind::Equals)
    } else if kind_at(toks, pos, TokenType::NOTEQUALS) {
        Some(BinaryExpKind::NotEquals)
    } else if kind_at(toks, pos, TokenType::GREATER) {
        Some(BinaryExpKind::Greater)
    } else if kind_at(toks, pos, TokenType::GREATEREQ) {
        Some(BinaryExpKind::GreaterEq)
    } else if kind_at(toks, pos, TokenType::LESS) {
        Some(BinaryExpKind::Less)
    } else if kind_at(toks, pos, TokenType::LESSEQ) {
        Some(BinaryExpKind::LessEq)
    } else {
        None
    }
}

/// `CallExp`: the callee, and the actuals between parentheses.
#[verifier::opaque]
pub open spec fn call_tree(toks: Seq<Tok>, pos: int, end: int, c: CallExp) -> bool
    decreases end - pos, 0int,
{
    &&& run(toks, pos, end)
    &&& c.span == extent(toks, pos, end)
    &&& c.fn_type is None
    &&& kind_at(toks, end - 1, TokenType::RPAREN)
    &&& exists|q: int|
        {
            &&& pos < q < end - 1
            &&& loc_tree(toks, pos, q, *c.name)
            &&& #[trigger] kind_at(toks, q, TokenType::LPAREN)
            &&& if c.args@.len() == 0 {
                q + 1 == end - 1
            } else {
                actuals_tree(toks, q + 1, end - 1, c.args@)
            }
        }
}

/// `ActualsList`: one expression or more, with commas between them.
#[verifier::opaque]
pub open spec fn actuals_tree(toks: Seq<Tok>, pos: int, end: int, args: Seq<Box<Exp>>) -> bool
    decreases end - pos, 8int,
{
    &&& run(toks, pos, end)
    &&& args.len() > 0
    &&& if args.len() == 1 {
        exp_tree(toks, pos, end, *args[0])
    } else {
        exists|mid: int|
            {
                &&& pos < mid < end - 1
                &&& actuals_tree(toks, pos, mid, args.drop_last())
                &&& #[trigger] kind_at(toks, mid, TokenType::COMMA)
                &&& exp_tree(toks, mid + 1, end, *args.last())
            }
    }
}

/// `Term`: a literal, an expression between parentheses (whose tree is
/// that of the expression), a location or a call.
#[verifier::opaque]
pub open spec fn term_tree(toks: Seq<Tok>, pos: int, end: int, e: Exp) -> bool
    decreases end - pos, 1int,
{
    &&& run(toks, pos, end)
    &&& {
        ||| literal_tree(toks, pos, end, e)
        ||| {
            &&& kind_at(toks, pos, TokenType::LPAREN)
            &&& kind_at(toks, end - 1, TokenType::RPAREN)
            &&& pos + 1 < end - 1
            &&& exp_tree(toks, pos + 1, end - 1, e)
        }
        ||| {
            &&& e.expr_type is None
            &&& e.span == extent(toks, pos, end)
            &&& match *e.kind {
                ExpKind::Loc(l) => loc_tree(toks, pos, end, *l),
                ExpKind::CallExp(c) => call_tree(toks, pos, end, *c),
                _ => false,
            }
        }
    }
}

/// `Unary`: `!` before a unary expression, `-` before a term, or a term.
#[verifier::opaque]
pub open spec fn unary_tree(toks: Seq<Tok>, pos: int, end: int, e: Exp) -> bool
    decreases end - pos, 2int,
{
    &&& run(toks, pos, end)
    &&& {
        ||| term_tree(toks, pos, end, e)
        ||| {
            &&& unary_node(toks, pos, end, e, UnaryExpKind::Not)
            &&& kind_at(toks, pos, TokenType::NOT)
            &&& pos + 1 < end
            &&& unary_tree(toks, pos + 1, end, operand(e))
        }
        ||| {
            &&& unary_node(toks, pos, end, e, UnaryExpKind::Neg)
            &&& kind_at(toks, pos, TokenType::DASH)
            &&& pos + 1 < end
            &&& term_tree(toks, pos + 1, end, operand(e))
        }
    }
}

/// `Prod`: unary expressions with `*` or `/` between them, nested to the
/// left.
#[verifier::opaque]
pub open spec fn prod_tree(toks: Seq<Tok>, pos: int, end: int, e: Exp) -> bool
    decreases end - pos, 3int,
{
    &&& run(toks, pos, end)
    &&& {
        ||| unary_tree(toks, pos, end, e)
        ||| exists|mid: int|
            {
                &&& pos < mid < end - 1
                &&& prod_tree(toks, pos, mid, left(e))
                &&& #[trigger] scaling_at(toks, mid) matches Some(kind) && binary_node(
                    toks,
                    pos,
                    end,
                    e,
                    kind,
                )
                &&& unary_tree(toks, mid + 1, end, right(e))
            }
    }
}

/// `Sum`: products with `+` or `-` between them, nested to the left.
#[verifier::opaque]
pub open spec fn sum_tree(toks: Seq<Tok>, pos: int, end: int, e: Exp) -> bool
    decreases end - pos, 4int,
{
    &&& run(toks, pos, end)
    &&& {
        ||| prod_tree(toks, pos, end, e)
        ||| exists|mid: int|
            {
                &&& pos < mid < end - 1
                &&& sum_tree(toks, pos, mid, left(e))
                &&& #[trigger] adding_at(toks, mid) matches Some(kind) && binary_node(
                    toks,
                    pos,
                    end,
                    e,
                    kind,
                )
                &&& prod_tree(toks, mid + 1, end, right(e))
            }
    }
}

/// `Cmp`: a sum, or two sums with a comparison between them.
#[verifier::opaque]
pub open spec fn relation_tree(toks: Seq<Tok>, pos: int, end: int, e: Exp) -> bool
    decreases end - pos, 5int,
{
    &&& run(toks, pos, end)
    &&& {
        ||| sum_tree(toks, pos, end, e)
        ||| exists|mid: int|
            {
                &&& pos < mid < end - 1
                &&& sum_tree(toks, pos, mid, left(e))
                &&& #[trigger] relation_at(toks, mid) matches Some(kind) && binary_node(
                    toks,
                    pos,
                    end,
                    e,
                    kind,
                )
                &&& sum_tree(toks, mid + 1, end, right(e))
            }
    }
}

/// `And`: comparisons with `and` between them, nested to the left.
#[verifier::opaque]
pub open spec fn and_tree(toks: Seq<Tok>, pos: int, end: int, e: Exp) -> bool
    decreases end - pos, 6int,
{
    &&& run(toks, pos, end)
    &&& {
        ||| relation_tree(toks, pos, end, e)
        ||| exists|mid: int|
            {
                &&& pos < mid < end - 1
                &&& and_tree(toks, pos, mid, left(e))
                &&& #[trigger] kind_at(toks, mid, TokenType::AND)
                &&& binary_node(toks, pos, end, e, BinaryExpKind::And)
                &&& relation_tree(toks, mid + 1, end, right(e))
            }
    }
}

/// `Exp`: conjunctions with `or` between them, nested to the left.
#[verifier::opaque]
pub open spec fn exp_tree(toks: Seq<Tok>, pos: int, end: int, e: Exp) -> bool
    decreases end - pos, 7int,
{
    &&& run(toks, pos, end)
    &&& {
        ||| and_tree(toks, pos, end, e)
        ||| exists|mid: int|
            {
                &&& pos < mid < end - 1
                &&& exp_tree(toks, pos, mid, left(e))
                &&& #[trigger] kind_at(toks, mid, TokenType::OR)
                &&& binary_node(toks, pos, end, e, BinaryExpKind::Or)
                &&& and_tree(toks, mid + 1, end, right(e))
            }
    }
}

/// What a line statement of the kind `kind` asks of the tokens
/// `pos..end`.
pub open spec fn line_kind_tree(toks: Seq<Tok>, pos: int, end: int, kind: LineStmtKind) -> bool {
    match kind {
        LineStmtKind::Assign { dest, src } => exists|q: int|
            {
                &&& pos < q < end - 1
                &&& loc_tree(toks, pos, q, *dest)
                &&& #[trigger] kind_at(toks, q, TokenType::ASSIGN)
                &&& exp_tree(toks, q + 1, end, *src)
            },
        LineStmtKind::PostDec { loc } => {
            &&& pos < end - 1
            &&& loc_tree(toks, pos, end - 1, *loc)
            &&& kind_at(toks, end - 1, TokenType::POSTDEC)
        },
        LineStmtKind::PostInc { loc } => {
            &&& pos < end - 1
            &&& loc_tree(toks, pos, end - 1, *loc)
            &&& kind_at(toks, end - 1, TokenType::POSTINC)
        },
        LineStmtKind::Give { output } => {
            &&& kind_at(toks, pos, TokenType::GIVE)
            &&& exp_tree(toks, pos + 1, end, *output)
        },
        LineStmtKind::Take { recipient } => {
            &&& kind_at(toks, pos, TokenType::TAKE)
            &&& loc_tree(toks, pos + 1, end, *recipient)
        },
        LineStmtKind::Return { result } => {
            &&& kind_at(toks, pos, TokenType::RETURN)
            &&& match result {
                Some(e) => exp_tree(toks, pos + 1, end, *e),
                None => end == pos + 1,
            }
        },
        LineStmtKind::Exit => kind_at(toks, pos, TokenType::EXIT) && end == pos + 1,
        LineStmtKind::Call(c) => call_tree(toks, pos, end, *c),
    }
}

/// `LineStmt`: a statement of one line, without the semicolon after it.
#[verifier::opaque]
pub open spec fn line_tree(toks: Seq<Tok>, pos: int, end: int, s: LineStmt) -> bool {
    &&& run(toks, pos, end)
    &&& s.span == extent(toks, pos, end)
    &&& line_kind_tree(toks, pos, end, *s.kind)
}

/// `VarDecl`: a name, a colon, a type, an initial value after `=` if
/// there is one, and a semicolon.
#[verifier::opaque]
pub open spec fn var_decl_tree(toks: Seq<Tok>, pos: int, end: int, v: VarDecl) -> bool {
    let after = type_end(toks, pos + 2);
    &&& run(toks, pos, end)
    &&& id_tree(toks, pos, pos + 1, *v.id)
    &&& kind_at(toks, pos + 1, TokenType::COLON)
    &&& type_tree(toks, pos + 2, after, *v.var_type)
    &&& kind_at(toks, end - 1, TokenType::SEMICOL)
    &&& match v.init_val {
        Some(e) => kind_at(toks, after, TokenType::ASSIGN) && exp_tree(toks, after + 1, end - 1, *e),
        None => after == end - 1,
    }
}

/// `FormalDecl`: a name, a colon and a type.
#[verifier::opaque]
pub open spec fn formal_tree(toks: Seq<Tok>, pos: int, end: int, f: FormalDecl) -> bool {
    &&& run(toks, pos, end)
    &&& match f {
        FormalDecl::FormalDecl { id, formal_type } => {
            &&& id_tree(toks, pos, pos + 1, *id)
            &&& kind_at(toks, pos + 1, TokenType::COLON)
            &&& type_tree(toks, pos + 2, end, *formal_type)
        },
        FormalDecl::VarDecl(_) => false,
    }
}

/// `FormalsList`: no formal, or formals with commas between them.
#[verifier::opaque]
pub open spec fn formals_tree(toks: Seq<Tok>, pos: int, end: int, fs: Seq<Box<FormalDecl>>) -> bool
    decreases fs.len(),
{
    &&& 0 <= pos <= end <= toks.len()
    &&& if fs.len() == 0 {
        pos == end
    } else if fs.len() == 1 {
        formal_tree(toks, pos, end, *fs[0])
    } else {
        exists|mid: int|
            {
                &&& pos < mid < end - 1
                &&& formals_tree(toks, pos, mid, fs.drop_last())
                &&& #[trigger] kind_at(toks, mid, TokenType::COMMA)
                &&& formal_tree(toks, mid + 1, end, *fs.last())
            }
    }
}

/// A statement list between braces.
#[verifier::opaque]
pub open spec fn body_tree(toks: Seq<Tok>, pos: int, end: int, ss: Seq<Box<Stmt>>) -> bool
    decreases end - pos, 0int,
{
    &&& 0 <= pos
    &&& pos + 2 <= end <= toks.len()
    &&& kind_at(toks, pos, TokenType::LCURLY)
    &&& kind_at(toks, end - 1, TokenType::RCURLY)
    &&& stmts_tree(toks, pos + 1, end - 1, ss)
}

/// `BlockStmt`: `while` or `if`, a condition between parentheses and a
/// body; after the body of an `if` there may be `else` and a second body.
#[verifier::opaque]
pub open spec fn block_tree(toks: Seq<Tok>, pos: int, end: int, b: BlockStmt) -> bool
    decreases end - pos, 1int,
{
    &&& run(toks, pos, end)
    &&& kind_at(toks, pos + 1, TokenType::LPAREN)
    &&& match b {
        BlockStmt::While { cond, body } => {
            &&& kind_at(toks, pos, TokenType::WHILE)
            &&& exists|q: int|
                {
                    &&& pos + 2 < q < end
                    &&& exp_tree(toks, pos + 2, q, *cond)
                    &&& #[trigger] kind_at(toks, q, TokenType::RPAREN)
                    &&& body_tree(toks, q + 1, end, body@)
                }
        },
        BlockStmt::If { cond, body } => {
            &&& kind_at(toks, pos, TokenType::IF)
            &&& exists|q: int|
                {
                    &&& pos + 2 < q < end
                    &&& exp_tree(toks, pos + 2, q, *cond)
                    &&& #[trigger] kind_at(toks, q, TokenType::RPAREN)
                    &&& body_tree(toks, q + 1, end, body@)
                }
        },
        BlockStmt::IfElse { cond, true_branch, false_branch } => {
            &&& kind_at(toks, pos, TokenType::IF)
            &&& exists|q: int, m: int|
                {
                    &&& pos + 2 < q < m < end
                    &&& exp_tree(toks, pos + 2, q, *cond)
                    &&& #[trigger] kind_at(toks, q, TokenType::RPAREN)
                    &&& body_tree(toks, q + 1, m, true_branch@)
                    &&& #[trigger] kind_at(toks, m, TokenType::ELSE)
                    &&& body_tree(toks, m + 1, end, false_branch@)
                }
        },
    }
}

/// One statement of a statement list: a block statement, a line statement
/// with its semicolon, or a variable declaration.
#[verifier::opaque]
pub open spec fn stmt_tree(toks: Seq<Tok>, pos: int, end: int, s: Stmt) -> bool
    decreases end - pos, 2int,
{
    &&& run(toks, pos, end)
    &&& match s {
        Stmt::Block(b) => block_tree(toks, pos, end, *b),
        Stmt::Line(l) => line_tree(toks, pos, end - 1, *l) && kind_at(
            toks,
            end - 1,
            TokenType::SEMICOL,
        ),
        Stmt::VarDecl(v) => var_decl_tree(toks, pos, end, *v),
    }
}

/// `StmtList`: statements one after the other.
#[verifier::opaque]
pub open spec fn stmts_tree(toks: Seq<Tok>, pos: int, end: int, ss: Seq<Box<Stmt>>) -> bool
    decreases end - pos, 3int,
{
    &&& 0 <= pos <= end <= toks.len()
    &&& if ss.len() == 0 {
        pos == end
    } else {
        exists|mid: int|
            {
                &&& pos <= mid
                &&& #[trigger] run(toks, mid, end)
                &&& stmts_tree(toks, pos, mid, ss.drop_last())
                &&& stmt_tree(toks, mid, end, *ss.last())
            }
    }
}

/// `FnDecl`: a name, a colon, the formals between parentheses, the type
/// of the result and the body.
#[verifier::opaque]
pub open spec fn fn_decl_tree(toks: Seq<Tok>, pos: int, end: int, f: FnDecl) -> bool {
    &&& run(toks, pos, end)
    &&& id_tree(toks, pos, pos + 1, *f.id)
    &&& kind_at(toks, pos + 1, TokenType::COLON)
    &&& kind_at(toks, pos + 2, TokenType::LPAREN)
    &&& exists|q: int|
        {
            &&& pos + 3 <= q
            &&& formals_tree(toks, pos + 3, q, f.args@)
            &&& #[trigger] kind_at(toks, q, TokenType::RPAREN)
            &&& type_tree(toks, q + 1, type_end(toks, q + 1), *f.ret)
            &&& body_tree(toks, type_end(toks, q + 1), end, f.body@)
        }
}

/// One member of a class: a variable or a function.
pub open spec fn member_tree(toks: Seq<Tok>, pos: int, end: int, d: Decl) -> bool {
    match d {
        Decl::VarDecl(v) => var_decl_tree(toks, pos, end, *v),
        Decl::FnDecl(f) => fn_decl_tree(toks, pos, end, *f),
        Decl::ClassDecl(_) => false,
    }
}

/// `ClassBody`: members one after the other.
#[verifier::opaque]
pub open spec fn members_tree(toks: Seq<Tok>, pos: int, end: int, ms: Seq<Box<Decl>>) -> bool
    decreases ms.len(),
{
    &&& 0 <= pos <= end <= toks.len()
    &&& if ms.len() == 0 {
        pos == end
    } else {
        exists|mid: int|
            {
                &&& pos <= mid
                &&& #[trigger] run(toks, mid, end)
                &&& members_tree(toks, pos, mid, ms.drop_last())
                &&& member_tree(toks, mid, end, *ms.last())
            }
    }
}

/// `ClassDecl`: a name, a colon, `class`, the members between braces and
/// a semicolon.
#[verifier::opaque]
pub open spec fn class_decl_tree(toks: Seq<Tok>, pos: int, end: int, c: ClassDecl) -> bool {
    &&& run(toks, pos, end)
    &&& pos + 4 <= end - 2
    &&& id_tree(toks, pos, pos + 1, *c.id)
    &&& kind_at(toks, pos + 1, TokenType::COLON)
    &&& kind_at(toks, pos + 2, TokenType::CLASS)
    &&& kind_at(toks, pos + 3, TokenType::LCURLY)
    &&& members_tree(toks, pos + 4, end - 2, c.member_f@)
    &&& kind_at(toks, end - 2, TokenType::RCURLY)
    &&& kind_at(toks, end - 1, TokenType::SEMICOL)
}

/// `Decl`: a variable, a class or a function.
pub open spec fn decl_tree(toks: Seq<Tok>, pos: int, end: int, d: Decl) -> bool {
    match d {
        Decl::VarDecl(v) => var_decl_tree(toks, pos, end, *v),
        Decl::FnDecl(f) => fn_decl_tree(toks, pos, end, *f),
        Decl::ClassDecl(c) => class_decl_tree(toks, pos, end, *c),
    }
}

/// Declarations one after the other.
#[verifier::opaque]
pub open spec fn decls_tree(toks: Seq<Tok>, pos: int, end: int, ds: Seq<Box<Decl>>) -> bool
    decreases ds.len(),
{
    &&& 0 <= pos <= end <= toks.len()
    &&& if ds.len() == 0 {
        pos == end
    } else {
        exists|mid: int|
            {
                &&& pos <= mid
                &&& #[trigger] run(toks, mid, end)
                &&& decls_tree(toks, pos, mid, ds.drop_last())
                &&& decl_tree(toks, mid, end, *ds.last())
            }
    }
}

/// `Program`: the declarations of the program, one after the other.
pub open spec fn program_tree(toks: Seq<Tok>, pos: int, end: int, p: Program) -> bool {
    decls_tree(toks, pos, end, p.globals@)
}

/// A token is of the variant of `t` when its code is that of `t`.
pub proof fn lemma_kind_at(toks: Seq<Tok>, pos: int, t: TokenType)
    ensures
        kind_at(toks, pos, t) == on(codes_of(toks), pos, t),
        kind_at(toks, pos, t) ==> 0 <= pos < toks.len(),
{
    reveal(kind_at);
    lemma_codes_len(toks);
}

/// An identifier token is an identifier of its name.
pub proof fn lemma_id(toks: Seq<Tok>, pos: int, id: Id)
    requires
        0 <= pos < toks.len(),
        toks[pos].1 matches TokenType::ID(name) && id.name == name,
        id.span == extent(toks, pos, pos + 1),
        id.id_type is None,
    ensures
        id_tree(toks, pos, pos + 1, id),
{
    reveal(id_tree);
}

/// An identifier is a location.
pub proof fn lemma_loc_id(toks: Seq<Tok>, pos: int, end: int, l: Loc)
    requires
        l.span == extent(toks, pos, end),
        l.loc_type is None,
        *l.kind matches LocKind::Id(id) && id_tree(toks, pos, end, *id),
    ensures
        loc_tree(toks, pos, end, l),
{
    reveal(kind_at);
    reveal(id_tree);
    reveal(loc_tree);
}

/// A location, `--` and an identifier are a location.
pub proof fn lemma_loc_more(toks: Seq<Tok>, pos: int, end: int, l: Loc)
    requires
        l.span == extent(toks, pos, end),
        l.loc_type is None,
        kind_at(toks, end - 2, TokenType::POSTDEC),
        *l.kind matches LocKind::Loc { base_class, field_name } && loc_tree(
            toks,
            pos,
            end - 2,
            *base_class,
        ) && id_tree(toks, end - 1, end, *field_name),
    ensures
        loc_tree(toks, pos, end, l),
{
    reveal(kind_at);
    reveal(id_tree);
    reveal(loc_tree);
}

/// A location covers at least one token of the text.
pub proof fn lemma_loc_run(toks: Seq<Tok>, pos: int, end: int, l: Loc)
    requires
        loc_tree(toks, pos, end, l),
    ensures
        run(toks, pos, end),
{
    reveal(loc_tree);
}

/// A call covers at least one token of the text.
pub proof fn lemma_call_run(toks: Seq<Tok>, pos: int, end: int, c: CallExp)
    requires
        call_tree(toks, pos, end, c),
    ensures
        run(toks, pos, end),
{
    reveal(call_tree);
}

/// A call is made of its callee, an opening parenthesis, its actuals and
/// a closing parenthesis.
pub proof fn lemma_call(toks: Seq<Tok>, pos: int, q: int, end: int, c: CallExp)
    requires
        pos < q < end - 1,
        end <= toks.len(),
        loc_tree(toks, pos, q, *c.name),
        kind_at(toks, q, TokenType::LPAREN),
        kind_at(toks, end - 1, TokenType::RPAREN),
        c.span == extent(toks, pos, end),
        c.fn_type is None,
        if c.args@.len() == 0 {
            q + 1 == end - 1
        } else {
            actuals_tree(toks, q + 1, end - 1, c.args@)
        },
    ensures
        call_tree(toks, pos, end, c),
{
    reveal(call_tree);
    reveal(actuals_tree);
    reveal(loc_tree);
}

/// One expression is a list of actuals.
pub proof fn lemma_actuals_one(toks: Seq<Tok>, pos: int, end: int, args: Seq<Box<Exp>>)
    requires
        args.len() == 1,
        exp_tree(toks, pos, end, *args[0]),
    ensures
        actuals_tree(toks, pos, end, args),
{
    reveal(actuals_tree);
    reveal(exp_tree);
}

/// A list of actuals, a comma and an expression are a list of actuals.
pub proof fn lemma_actuals_more(toks: Seq<Tok>, pos: int, mid: int, end: int, args: Seq<Box<Exp>>)
    requires
        args.len() > 1,
        actuals_tree(toks, pos, mid, args.drop_last()),
        kind_at(toks, mid, TokenType::COMMA),
        exp_tree(toks, mid + 1, end, *args.last()),
    ensures
        actuals_tree(toks, pos, end, args),
{
    reveal(actuals_tree);
    reveal(exp_tree);
}

/// A literal is a term.
pub proof fn lemma_term_literal(toks: Seq<Tok>, pos: int, end: int, e: Exp)
    requires
        literal_tree(toks, pos, end, e),
    ensures
        term_tree(toks, pos, end, e),
{
    reveal(term_tree);
}

/// An expression between parentheses is a term, with the tree of the
/// expression.
pub proof fn lemma_term_nested(toks: Seq<Tok>, pos: int, end: int, e: Exp)
    requires
        kind_at(toks, pos, TokenType::LPAREN),
        kind_at(toks, end - 1, TokenType::RPAREN),
        exp_tree(toks, pos + 1, end - 1, e),
    ensures
        term_tree(toks, pos, end, e),
{
    reveal(kind_at);
    reveal(id_tree);
    reveal(term_tree);
    reveal(exp_tree);
}

/// A location is a term.
pub proof fn lemma_term_loc(toks: Seq<Tok>, pos: int, end: int, e: Exp)
    requires
        e.expr_type is None,
        e.span == extent(toks, pos, end),
        *e.kind matches ExpKind::Loc(l) && loc_tree(toks, pos, end, *l),
    ensures
        term_tree(toks, pos, end, e),
{
    reveal(term_tree);
    reveal(loc_tree);
}

/// A call is a term.
pub proof fn lemma_term_call(toks: Seq<Tok>, pos: int, end: int, e: Exp)
    requires
        e.expr_type is None,
        e.span == extent(toks, pos, end),
        *e.kind matches ExpKind::CallExp(c) && call_tree(toks, pos, end, *c),
    ensures
        term_tree(toks, pos, end, e),
{
    reveal(term_tree);
    reveal(call_tree);
}

/// A term is a unary expression.
pub proof fn lemma_unary_term(toks: Seq<Tok>, pos: int, end: int, e: Exp)
    requires
        term_tree(toks, pos, end, e),
    ensures
        unary_tree(toks, pos, end, e),
{
    reveal(unary_tree);
    reveal(term_tree);
}

/// `!` before a unary expression is a unary expression.
pub proof fn lemma_unary_not(toks: Seq<Tok>, pos: int, end: int, e: Exp)
    requires
        kind_at(toks, pos, TokenType::NOT),
        unary_node(toks, pos, end, e, UnaryExpKind::Not),
        unary_tree(toks, pos + 1, end, operand(e)),
    ensures
        unary_tree(toks, pos, end, e),
{
    reveal(unary_tree);
}

/// `-` before a term is a unary expression.
pub proof fn lemma_unary_neg(toks: Seq<Tok>, pos: int, end: int, e: Exp)
    requires
        kind_at(toks, pos, TokenType::DASH),
        unary_node(toks, pos, end, e, UnaryExpKind::Neg),
        term_tree(toks, pos + 1, end, operand(e)),
    ensures
        unary_tree(toks, pos, end, e),
{
    reveal(unary_tree);
    reveal(term_tree);
}

/// A unary expression is a product.
pub proof fn lemma_prod_unary(toks: Seq<Tok>, pos: int, end: int, e: Exp)
    requires
        unary_tree(toks, pos, end, e),
    ensures
        prod_tree(toks, pos, end, e),
{
    reveal(prod_tree);
    reveal(unary_tree);
}

/// A product, `*` or `/`, and a unary expression are a product.
pub proof fn lemma_prod_more(toks: Seq<Tok>, pos: int, mid: int, end: int, e: Exp)
    requires
        prod_tree(toks, pos, mid, left(e)),
        scaling_at(toks, mid) matches Some(kind) && binary_node(toks, pos, end, e, kind),
        unary_tree(toks, mid + 1, end, right(e)),
    ensures
        prod_tree(toks, pos, end, e),
{
    reveal(prod_tree);
    reveal(unary_tree);
}

/// A product is a sum.
pub proof fn lemma_sum_prod(toks: Seq<Tok>, pos: int, end: int, e: Exp)
    requires
        prod_tree(toks, pos, end, e),
    ensures
        sum_tree(toks, pos, end, e),
{
    reveal(sum_tree);
    reveal(prod_tree);
}

/// A sum, `+` or `-`, and a product are a sum.
pub proof fn lemma_sum_more(toks: Seq<Tok>, pos: int, mid: int, end: int, e: Exp)
    requires
        sum_tree(toks, pos, mid, left(e)),
        adding_at(toks, mid) matches Some(kind) && binary_node(toks, pos, end, e, kind),
        prod_tree(toks, mid + 1, end, right(e)),
    ensures
        sum_tree(toks, pos, end, e),
{
    reveal(sum_tree);
    reveal(prod_tree);
}

/// A sum is a comparison.
pub proof fn lemma_relation_sum(toks: Seq<Tok>, pos: int, end: int, e: Exp)
    requires
        sum_tree(toks, pos, end, e),
    ensures
        relation_tree(toks, pos, end, e),
{
    reveal(relation_tree);
    reveal(sum_tree);
}

/// Two sums with a comparison between them are a comparison.
pub proof fn lemma_relation_more(toks: Seq<Tok>, pos: int, mid: int, end: int, e: Exp)
    requires
        sum_tree(toks, pos, mid, left(e)),
        relation_at(toks, mid) matches Some(kind) && binary_node(toks, pos, end, e, kind),
        sum_tree(toks, mid + 1, end, right(e)),
    ensures
        relation_tree(toks, pos, end, e),
{
    reveal(relation_tree);
    reveal(sum_tree);
}

/// A comparison is a conjunction.
pub proof fn lemma_and_relation(toks: Seq<Tok>, pos: int, end: int, e: Exp)
    requires
        relation_tree(toks, pos, end, e),
    ensures
        and_tree(toks, pos, end, e),
{
    reveal(and_tree);
    reveal(relation_tree);
}

/// A conjunction, `and` and a comparison are a conjunction.
pub proof fn lemma_and_more(toks: Seq<Tok>, pos: int, mid: int, end: int, e: Exp)
    requires
        and_tree(toks, pos, mid, left(e)),
        kind_at(toks, mid, TokenType::AND),
        binary_node(toks, pos, end, e, BinaryExpKind::And),
        relation_tree(toks, mid + 1, end, right(e)),
    ensures
        and_tree(toks, pos, end, e),
{
    reveal(and_tree);
    reveal(relation_tree);
}

/// A conjunction is an expression.
pub proof fn lemma_exp_and(toks: Seq<Tok>, pos: int, end: int, e: Exp)
    requires
        and_tree(toks, pos, end, e),
    ensures
        exp_tree(toks, pos, end, e),
{
    reveal(exp_tree);
    reveal(and_tree);
}

/// An expression, `or` and a conjunction are an expression.
pub proof fn lemma_exp_more(toks: Seq<Tok>, pos: int, mid: int, end: int, e: Exp)
    requires
        exp_tree(toks, pos, mid, left(e)),
        kind_at(toks, mid, TokenType::OR),
        binary_node(toks, pos, end, e, BinaryExpKind::Or),
        and_tree(toks, mid + 1, end, right(e)),
    ensures
        exp_tree(toks, pos, end, e),
{
    reveal(exp_tree);
    reveal(and_tree);
}

/// One formal is a list of formals.
pub proof fn lemma_formals_one(toks: Seq<Tok>, pos: int, end: int, fs: Seq<Box<FormalDecl>>)
    requires
        fs.len() == 1,
        formal_tree(toks, pos, end, *fs[0]),
    ensures
        formals_tree(toks, pos, end, fs),
{
    reveal(formals_tree);
    reveal(formal_tree);
}

/// No formal is a list of formals.
pub proof fn lemma_formals_none(toks: Seq<Tok>, pos: int, fs: Seq<Box<FormalDecl>>)
    requires
        fs.len() == 0,
        0 <= pos <= toks.len(),
    ensures
        formals_tree(toks, pos, pos, fs),
{
    reveal(formals_tree);
}

/// A list of formals, a comma and a formal are a list of formals.
pub proof fn lemma_formals_more(
    toks: Seq<Tok>,
    pos: int,
    mid: int,
    end: int,
    fs: Seq<Box<FormalDecl>>,
)
    requires
        fs.len() > 1,
        pos < mid,
        formals_tree(toks, pos, mid, fs.drop_last()),
        kind_at(toks, mid, TokenType::COMMA),
        formal_tree(toks, mid + 1, end, *fs.last()),
    ensures
        formals_tree(toks, pos, end, fs),
{
    reveal(formals_tree);
    reveal(formal_tree);
}

/// No statement is a statement list.
pub proof fn lemma_stmts_none(toks: Seq<Tok>, pos: int, ss: Seq<Box<Stmt>>)
    requires
        ss.len() == 0,
        0 <= pos <= toks.len(),
    ensures
        stmts_tree(toks, pos, pos, ss),
{
    reveal(stmts_tree);
}

/// A statement list and a statement are a statement list.
pub proof fn lemma_stmts_more(toks: Seq<Tok>, pos: int, mid: int, end: int, ss: Seq<Box<Stmt>>)
    requires
        ss.len() > 0,
        stmts_tree(toks, pos, mid, ss.drop_last()),
        stmt_tree(toks, mid, end, *ss.last()),
    ensures
        stmts_tree(toks, pos, end, ss),
{
    reveal(stmts_tree);
    reveal(stmt_tree);
    assert(run(toks, mid, end));
}

/// A statement list between braces is a body.
pub proof fn lemma_body(toks: Seq<Tok>, pos: int, end: int, ss: Seq<Box<Stmt>>)
    requires
        kind_at(toks, pos, TokenType::LCURLY),
        kind_at(toks, end - 1, TokenType::RCURLY),
        stmts_tree(toks, pos + 1, end - 1, ss),
    ensures
        body_tree(toks, pos, end, ss),
{
    reveal(kind_at);
    reveal(id_tree);
    reveal(body_tree);
    reveal(stmts_tree);
}

/// `while`, a condition between parentheses and a body are a block
/// statement.
pub proof fn lemma_block_while(toks: Seq<Tok>, pos: int, q: int, end: int, b: BlockStmt)
    requires
        kind_at(toks, pos, TokenType::WHILE),
        kind_at(toks, pos + 1, TokenType::LPAREN),
        kind_at(toks, q, TokenType::RPAREN),
        b matches BlockStmt::While { cond, body } && exp_tree(toks, pos + 2, q, *cond) && body_tree(
            toks,
            q + 1,
            end,
            body@,
        ),
    ensures
        block_tree(toks, pos, end, b),
{
    reveal(kind_at);
    reveal(id_tree);
    reveal(block_tree);
    reveal(body_tree);
    reveal(exp_tree);
}

/// `if`, a condition between parentheses and a body are a block
/// statement.
pub proof fn lemma_block_if(toks: Seq<Tok>, pos: int, q: int, end: int, b: BlockStmt)
    requires
        kind_at(toks, pos, TokenType::IF),
        kind_at(toks, pos + 1, TokenType::LPAREN),
        kind_at(toks, q, TokenType::RPAREN),
        b matches BlockStmt::If { cond, body } && exp_tree(toks, pos + 2, q, *cond) && body_tree(
            toks,
            q + 1,
            end,
            body@,
        ),
    ensures
        block_tree(toks, pos, end, b),
{
    reveal(kind_at);
    reveal(id_tree);
    reveal(block_tree);
    reveal(body_tree);
    reveal(exp_tree);
}

/// `if`, a condition between parentheses, a body, `else` and a body are
/// a block statement.
pub proof fn lemma_block_if_else(toks: Seq<Tok>, pos: int, q: int, m: int, end: int, b: BlockStmt)
    requires
        kind_at(toks, pos, TokenType::IF),
        kind_at(toks, pos + 1, TokenType::LPAREN),
        kind_at(toks, q, TokenType::RPAREN),
        kind_at(toks, m, TokenType::ELSE),
        b matches BlockStmt::IfElse { cond, true_branch, false_branch } && exp_tree(
            toks,
            pos + 2,
            q,
            *cond,
        ) && body_tree(toks, q + 1, m, true_branch@) && body_tree(toks, m + 1, end, false_branch@),
    ensures
        block_tree(toks, pos, end, b),
{
    reveal(kind_at);
    reveal(id_tree);
    reveal(block_tree);
    reveal(body_tree);
    reveal(exp_tree);
}

/// A block statement is a statement.
pub proof fn lemma_stmt_block(toks: Seq<Tok>, pos: int, end: int, s: Stmt)
    requires
        s matches Stmt::Block(b) && block_tree(toks, pos, end, *b),
    ensures
        stmt_tree(toks, pos, end, s),
{
    reveal(stmt_tree);
    reveal(block_tree);
}

/// A line statement and a semicolon are a statement.
pub proof fn lemma_stmt_line(toks: Seq<Tok>, pos: int, end: int, s: Stmt)
    requires
        end <= toks.len(),
        kind_at(toks, end - 1, TokenType::SEMICOL),
        s matches Stmt::Line(l) && line_tree(toks, pos, end - 1, *l),
    ensures
        stmt_tree(toks, pos, end, s),
{
    reveal(stmt_tree);
    reveal(line_tree);
}

/// A variable declaration is a statement.
pub proof fn lemma_stmt_var_decl(toks: Seq<Tok>, pos: int, end: int, s: Stmt)
    requires
        s matches Stmt::VarDecl(v) && var_decl_tree(toks, pos, end, *v),
    ensures
        stmt_tree(toks, pos, end, s),
{
    reveal(stmt_tree);
    reveal(var_decl_tree);
}

/// A line statement covers at least one token of the text, and its span
/// runs over the tokens that it covers.
pub proof fn lemma_line(toks: Seq<Tok>, pos: int, end: int, s: LineStmt)
    requires
        run(toks, pos, end),
        s.span == extent(toks, pos, end),
        line_kind_tree(toks, pos, end, *s.kind),
    ensures
        line_tree(toks, pos, end, s),
{
    reveal(line_tree);
}

/// A name, a colon, a type and a semicolon are a variable declaration
/// without an initial value.
pub proof fn lemma_var_decl_plain(toks: Seq<Tok>, pos: int, end: int, v: VarDecl)
    requires
        id_tree(toks, pos, pos + 1, *v.id),
        kind_at(toks, pos + 1, TokenType::COLON),
        type_tree(toks, pos + 2, end - 1, *v.var_type),
        kind_at(toks, end - 1, TokenType::SEMICOL),
        v.init_val is None,
    ensures
        var_decl_tree(toks, pos, end, v),
{
    reveal(kind_at);
    reveal(id_tree);
    reveal(var_decl_tree);
}

/// A name, a colon, a type, `=`, an expression and a semicolon are a
/// variable declaration with an initial value.
pub proof fn lemma_var_decl_init(toks: Seq<Tok>, pos: int, after: int, end: int, v: VarDecl)
    requires
        id_tree(toks, pos, pos + 1, *v.id),
        kind_at(toks, pos + 1, TokenType::COLON),
        type_tree(toks, pos + 2, after, *v.var_type),
        kind_at(toks, after, TokenType::ASSIGN),
        v.init_val matches Some(e) && exp_tree(toks, after + 1, end - 1, *e),
        kind_at(toks, end - 1, TokenType::SEMICOL),
    ensures
        var_decl_tree(toks, pos, end, v),
{
    reveal(kind_at);
    reveal(id_tree);
    reveal(var_decl_tree);
    reveal(exp_tree);
}

/// A name, a colon and a type are a formal.
pub proof fn lemma_formal(toks: Seq<Tok>, pos: int, end: int, f: FormalDecl)
    requires
        f matches FormalDecl::FormalDecl { id, formal_type } && id_tree(toks, pos, pos + 1, *id)
            && type_tree(toks, pos + 2, end, *formal_type),
        kind_at(toks, pos + 1, TokenType::COLON),
    ensures
        formal_tree(toks, pos, end, f),
{
    reveal(kind_at);
    reveal(id_tree);
    reveal(formal_tree);
}

/// A name, a colon, formals between parentheses, a type and a body are a
/// function declaration.
pub proof fn lemma_fn_decl(toks: Seq<Tok>, pos: int, q: int, after: int, end: int, f: FnDecl)
    requires
        id_tree(toks, pos, pos + 1, *f.id),
        kind_at(toks, pos + 1, TokenType::COLON),
        kind_at(toks, pos + 2, TokenType::LPAREN),
        formals_tree(toks, pos + 3, q, f.args@),
        kind_at(toks, q, TokenType::RPAREN),
        type_tree(toks, q + 1, after, *f.ret),
        body_tree(toks, after, end, f.body@),
    ensures
        fn_decl_tree(toks, pos, end, f),
{
    reveal(kind_at);
    reveal(id_tree);
    reveal(fn_decl_tree);
    reveal(formals_tree);
    reveal(body_tree);
}

/// A name, a colon, `class`, members between braces and a semicolon are
/// a class declaration.
pub proof fn lemma_class_decl(toks: Seq<Tok>, pos: int, end: int, c: ClassDecl)
    requires
        id_tree(toks, pos, pos + 1, *c.id),
        kind_at(toks, pos + 1, TokenType::COLON),
        kind_at(toks, pos + 2, TokenType::CLASS),
        kind_at(toks, pos + 3, TokenType::LCURLY),
        members_tree(toks, pos + 4, end - 2, c.member_f@),
        kind_at(toks, end - 2, TokenType::RCURLY),
        kind_at(toks, end - 1, TokenType::SEMICOL),
    ensures
        class_decl_tree(toks, pos, end, c),
{
    reveal(kind_at);
    reveal(id_tree);
    reveal(class_decl_tree);
    reveal(members_tree);
}

/// No member is a class body.
pub proof fn lemma_members_none(toks: Seq<Tok>, pos: int, ms: Seq<Box<Decl>>)
    requires
        ms.len() == 0,
        0 <= pos <= toks.len(),
    ensures
        members_tree(toks, pos, pos, ms),
{
    reveal(members_tree);
}

/// A class body and a member are a class body.
pub proof fn lemma_members_more(toks: Seq<Tok>, pos: int, mid: int, end: int, ms: Seq<Box<Decl>>)
    requires
        ms.len() > 0,
        run(toks, mid, end),
        members_tree(toks, pos, mid, ms.drop_last()),
        member_tree(toks, mid, end, *ms.last()),
    ensures
        members_tree(toks, pos, end, ms),
{
    reveal(members_tree);
}

/// No declaration is a list of declarations.
pub proof fn lemma_decls_none(toks: Seq<Tok>, pos: int, ds: Seq<Box<Decl>>)
    requires
        ds.len() == 0,
        0 <= pos <= toks.len(),
    ensures
        decls_tree(toks, pos, pos, ds),
{
    reveal(decls_tree);
}

/// Declarations and a declaration are declarations.
pub proof fn lemma_decls_more(toks: Seq<Tok>, pos: int, mid: int, end: int, ds: Seq<Box<Decl>>)
    requires
        ds.len() > 0,
        run(toks, mid, end),
        decls_tree(toks, pos, mid, ds.drop_last()),
        decl_tree(toks, mid, end, *ds.last()),
    ensures
        decls_tree(toks, pos, end, ds),
{
    reveal(decls_tree);
}

} // verus!
