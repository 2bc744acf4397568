//! The grammar of the language, as one recursive-descent parser for each of
//! its rules. Each parser stops where its rule's recognizer says an
//! instance of the rule ends, fails where the recognizer says it goes wrong,
//! and builds the tree that the rule makes of the tokens it takes in.
//!
//! ```text
//! Program     ::= Decl*
//! Decl        ::= VarDecl | ClassDecl | FnDecl
//! VarDecl     ::= Id ":" Type ("=" Exp)? ";"
//! Type        ::= "perfect"? (PrimType | Id)
//! PrimType    ::= "int" | "bool" | "void"
//! ClassDecl   ::= Id ":" "class" "{" ClassBody "}" ";"
//! ClassBody   ::= (VarDecl | FnDecl)*
//! FnDecl      ::= Id ":" "(" FormalsList ")" Type "{" StmtList "}"
//! FormalsList ::= (FormalDecl ("," FormalDecl)*)?
//! FormalDecl  ::= Id ":" Type
//! StmtList    ::= (VarDecl | LineStmt ";" | BlockStmt)*
//! BlockStmt   ::= "while" "(" Exp ")" "{" StmtList "}"
//!               | "if" "(" Exp ")" "{" StmtList "}" ("else" "{" StmtList "}")?
//! LineStmt    ::= Loc "=" Exp | Loc "--" | Loc "++" | "give" Exp | "take" Loc
//!               | "return" Exp? | EXIT | CallExp
//! Exp         ::= And ("or" And)*
//! And         ::= Cmp ("and" Cmp)*
//! Cmp         ::= Sum (("==" | "!=" | ">" | ">=" | "<" | "<=") Sum)?
//! Sum         ::= Prod (("+" | "-") Prod)*
//! Prod        ::= Unary (("*" | "/") Unary)*
//! Unary       ::= "!" Unary | "-" Term | Term
//! Term        ::= Loc | INTLITERAL | STRINGLITERAL | "true" | "false" | MAGIC
//!               | "(" Exp ")" | CallExp
//! CallExp     ::= Loc "(" ActualsList? ")"
//! ActualsList ::= Exp ("," Exp)*
//! Loc         ::= Id ("--" Id)*
//! ```

use vstd::prelude::*;
use vstd::string::*;
use crate::parser::ast::{
    BinaryExp,
    BinaryExpKind,
    BlockStmt,
    CallExp,
    ClassDecl,
    Decl,
    Exp,
    ExpKind,
    FnDecl,
    FormalDecl,
    Id,
    LineStmt,
    LineStmtKind,
    Loc,
    LocKind,
    PrimType,
    Program,
    Stmt,
    Type,
    TypeKind,
    UnaryExp,
    UnaryExpKind,
    VarDecl,
};
use crate::parser::rules::{
    codes_of,
    lemma_codes,
    lemma_codes_len,
    on,
    on_comparison,
    on_id,
    on_literal,
    rec_actuals,
    rec_actuals_rest,
    rec_and,
    rec_and_rest,
    rec_block_stmt,
    rec_body,
    rec_call,
    rec_call_rest,
    rec_class_body,
    rec_class_decl,
    rec_relation,
    rec_decl,
    rec_exp,
    rec_fn_decl,
    rec_formal_decl,
    rec_formals_list,
    rec_formals_rest,
    rec_id,
    rec_line_stmt,
    rec_loc,
    rec_loc_rest,
    rec_member,
    rec_or_rest,
    rec_prim_type,
    rec_prod,
    rec_prod_rest,
    rec_program,
    rec_stmt,
    rec_stmt_list,
    rec_sum,
    rec_sum_rest,
    rec_term,
    rec_token,
    rec_type,
    rec_unary,
    rec_var_decl,
    Recognized,
};
use crate::parser::trees::{
    actuals_tree,
    and_tree,
    binary_node,
    call_tree,
    exp_tree,
    id_tree,
    kind_at,
    left,
    lemma_actuals_more,
    lemma_actuals_one,
    block_tree,
    body_tree,
    class_decl_tree,
    decl_tree,
    decls_tree,
    fn_decl_tree,
    formal_tree,
    formals_tree,
    lemma_block_if,
    lemma_block_if_else,
    lemma_block_while,
    lemma_body,
    lemma_class_decl,
    lemma_fn_decl,
    lemma_formal,
    lemma_line,
    lemma_var_decl_init,
    lemma_var_decl_plain,
    lemma_decls_more,
    lemma_decls_none,
    lemma_id,
    lemma_kind_at,
    lemma_formals_more,
    lemma_formals_none,
    lemma_formals_one,
    lemma_members_more,
    lemma_members_none,
    lemma_stmt_block,
    lemma_stmt_line,
    lemma_stmt_var_decl,
    lemma_stmts_more,
    lemma_stmts_none,
    line_kind_tree,
    line_tree,
    member_tree,
    members_tree,
    program_tree,
    run,
    stmt_tree,
    stmts_tree,
    var_decl_tree,
    lemma_and_more,
    lemma_and_relation,
    lemma_call,
    lemma_call_run,
    lemma_loc_run,
    lemma_loc_id,
    lemma_loc_more,
    lemma_exp_and,
    lemma_exp_more,
    lemma_prod_more,
    lemma_prod_unary,
    lemma_relation_more,
    lemma_relation_sum,
    lemma_sum_more,
    lemma_sum_prod,
    lemma_term_call,
    lemma_term_literal,
    lemma_term_loc,
    lemma_term_nested,
    lemma_unary_neg,
    lemma_unary_not,
    lemma_unary_term,
    literal_tree,
    loc_tree,
    prim_at,
    prod_tree,
    relation_at,
    relation_tree,
    right,
    sum_tree,
    term_tree,
    type_tree,
    unary_tree,
};
use crate::scanner::lexer::{lexemes_of, Lexer, Spanned};
use crate::scanner::tokens::{LexingError, TokenType};
use crate::span::Span;

verus! {

/// A token with the byte offsets of its start and of its end.
pub type Tok = (usize, TokenType, usize);

/// Why a text is not in the language.
#[derive(Debug, PartialEq)]
pub enum ParseError {
    /// The text ended where more was needed; `location` is the byte offset
    /// of the end of the last token.
    UnrecognizedEof { location: usize },
    /// This token cannot stand where it stands.
    UnrecognizedToken { token: Tok },
    /// The rule was complete before this token.
    ExtraToken { token: Tok },
    /// The lexer raised this error.
    User { error: LexingError },
}

/// A parsed item together with the index of the first token after it.
pub type Parsed<T> = Result<(T, usize), ParseError>;

/// Whether the result, if it is a success, stops within the tokens and at
/// or after `pos`.
pub open spec fn within<T>(r: Parsed<T>, toks: Seq<Tok>, pos: usize) -> bool {
    r matches Ok(p) ==> pos <= p.1 <= toks.len()
}

/// Whether the result, if it is a success, stops within the tokens and
/// after `pos`.
pub open spec fn advances<T>(r: Parsed<T>, toks: Seq<Tok>, pos: usize) -> bool {
    r matches Ok(p) ==> pos < p.1 <= toks.len()
}

/// The error for a rule that goes wrong at the token of the index `e`:
/// that token, or the end of the text when there is no such token.
pub open spec fn error_at(toks: Seq<Tok>, e: int) -> ParseError {
    if 0 <= e < toks.len() {
        ParseError::UnrecognizedToken { token: toks[e] }
    } else {
        ParseError::UnrecognizedEof {
            location: if toks.len() > 0 {
                toks.last().2
            } else {
                0
            },
        }
    }
}

/// Whether a parse did what the rule asks for: stopped where an instance
/// of the rule ends, or failed with the error for the token at which the
/// rule goes wrong.
pub open spec fn agrees<T>(r: Parsed<T>, toks: Seq<Tok>, want: Recognized) -> bool {
    match want {
        Ok(q) => r matches Ok(p) && p.1 == q,
        Err(e) => r matches Err(x) && x == error_at(toks, e),
    }
}

/// Whether the token at `pos` is of the same variant as `t`.
pub fn at(toks: &Vec<Tok>, pos: usize, t: &TokenType) -> (b: bool)
    ensures
        b == on(codes_of(toks@), pos as int, *t),
        b == kind_at(toks@, pos as int, *t),
        b ==> pos < toks@.len(),
        toks@.len() <= usize::MAX,
        codes_of(toks@).len() == toks@.len(),
{
    proof {
        lemma_kind_at(toks@, pos as int, *t);
        lemma_codes(toks@);
    }
    pos < toks.len() && toks[pos].1.same_kind(t)
}

/// Whether the token at `pos` is an identifier.
pub fn at_id(toks: &Vec<Tok>, pos: usize) -> (b: bool)
    ensures
        b == on_id(codes_of(toks@), pos as int),
        b ==> pos < toks@.len() && toks@[pos as int].1 is ID,
        toks@.len() <= usize::MAX,
        codes_of(toks@).len() == toks@.len(),
{
    proof {
        lemma_codes(toks@);
    }
    if pos < toks.len() {
        match &toks[pos].1 {
            TokenType::ID(_) => true,
            _ => false,
        }
    } else {
        false
    }
}

/// The error for the token at `pos`, or for the end of the text when there
/// is none.
pub fn unexpected(toks: &Vec<Tok>, pos: usize) -> (e: ParseError)
    ensures
        e == error_at(toks@, pos as int),
{
    if pos < toks.len() {
        let t = &toks[pos];
        ParseError::UnrecognizedToken { token: (t.0, t.1.copy(), t.2) }
    } else if toks.len() > 0 {
        ParseError::UnrecognizedEof { location: toks[toks.len() - 1].2 }
    } else {
        ParseError::UnrecognizedEof { location: 0 }
    }
}

/// Steps over the token at `pos` if it is of the same variant as `t`.
pub fn expect(toks: &Vec<Tok>, pos: usize, t: &TokenType) -> (r: Result<usize, ParseError>)
    ensures
        match rec_token(codes_of(toks@), pos as int, *t) {
            Ok(q) => r == Ok::<usize, ParseError>(q as usize) && q == pos + 1 && q <= toks@.len(),
            Err(e) => r == Err::<usize, ParseError>(error_at(toks@, e)),
        },
        r is Ok <==> kind_at(toks@, pos as int, *t),
        r matches Ok(q) ==> q == pos + 1,
        toks@.len() <= usize::MAX,
        codes_of(toks@).len() == toks@.len(),
{
    if at(toks, pos, t) {
        Ok(pos + 1)
    } else {
        Err(unexpected(toks, pos))
    }
}

/// The byte offset at which the token at `pos` starts; for the end of the
/// text, that at which the last token ends.
pub fn start_of(toks: &Vec<Tok>, pos: usize) -> (l: usize)
    ensures
        l == (if pos < toks@.len() {
            toks@[pos as int].0
        } else if toks@.len() > 0 {
            toks@.last().2
        } else {
            0
        }),
{
    if pos < toks.len() {
        toks[pos].0
    } else if toks.len() > 0 {
        toks[toks.len() - 1].2
    } else {
        0
    }
}

/// The byte offset at which the token before `pos` ends.
pub fn end_before(toks: &Vec<Tok>, pos: usize) -> (r: usize)
    ensures
        r == (if 0 < pos <= toks@.len() {
            toks@[pos - 1].2
        } else {
            0
        }),
{
    if 0 < pos && pos <= toks.len() {
        toks[pos - 1].2
    } else {
        0
    }
}

/// `Id ::= ID`
#[verifier::spinoff_prover]
pub fn parse_id(toks: &Vec<Tok>, pos: usize) -> (r: Parsed<Box<Id>>)
    ensures
        advances(r, toks@, pos),
        agrees(r, toks@, rec_id(codes_of(toks@), pos as int)),
        r matches Ok(p) ==> p.1 == pos + 1 && id_tree(toks@, pos as int, p.1 as int, *p.0),
{
    proof {
        lemma_codes_len(toks@);
    }
    if at_id(toks, pos) {
        match &toks[pos].1 {
            TokenType::ID(name) => {
                let id = Id {
                    name: name.clone(),
                    span: Span::new(toks[pos].0, toks[pos].2),
                    id_type: None,
                };
                proof {
                    lemma_id(toks@, pos as int, id);
                }
                return Ok((Box::new(id), pos + 1));
            },
            _ => {},
        }
    }
    return Err(unexpected(toks, pos));
}

/// `Loc ::= Id ("--" Id)*`
#[verifier::spinoff_prover]
pub fn parse_loc(toks: &Vec<Tok>, pos: usize) -> (r: Parsed<Box<Loc>>)
    ensures
        advances(r, toks@, pos),
        agrees(r, toks@, rec_loc(codes_of(toks@), pos as int)),
        r matches Ok(p) ==> loc_tree(toks@, pos as int, p.1 as int, *p.0),
{
    proof {
        lemma_codes_len(toks@);
    }
    let ghost c = codes_of(toks@);
    let (first, mut q) = parse_id(toks, pos)?;
    let l = start_of(toks, pos);
    let mut loc = Box::new(
        Loc { span: Span::new(l, end_before(toks, q)), loc_type: None, kind: Box::new(LocKind::Id(first)) },
    );
    proof {
        lemma_loc_id(toks@, pos as int, q as int, *loc);
    }
    while at(toks, q, &TokenType::POSTDEC) && at_id(toks, q + 1)
        invariant
            pos < q <= toks@.len(),
            c == codes_of(toks@),
            c.len() == toks@.len(),
            rec_loc_rest(c, q as int) == rec_loc(c, pos as int),
            l == toks@[pos as int].0,
            loc_tree(toks@, pos as int, q as int, *loc),
        decreases toks@.len() - q,
    {
        match parse_id(toks, q + 1) {
            Ok((field, q2)) => {
                loc = Box::new(
                    Loc {
                        span: Span::new(l, end_before(toks, q2)),
                        loc_type: None,
                        kind: Box::new(LocKind::Loc { base_class: loc, field_name: field }),
                    },
                );
                proof {
                    lemma_loc_more(toks@, pos as int, q2 as int, *loc);
                }
                q = q2;
            },
            Err(e) => {
                return Err(e);
            },
        }
    }
    return Ok((loc, q));
}

/// `PrimType ::= "int" | "bool" | "void"`
#[verifier::spinoff_prover]
pub fn parse_prim_type(toks: &Vec<Tok>, pos: usize) -> (r: Parsed<PrimType>)
    ensures
        advances(r, toks@, pos),
        agrees(r, toks@, rec_prim_type(codes_of(toks@), pos as int)),
        r matches Ok(p) ==> prim_at(toks@, pos as int) == Some(p.0),
{
    proof {
        lemma_codes_len(toks@);
    }
    if at(toks, pos, &TokenType::INT) {
        return Ok((PrimType::Int, pos + 1));
    } else if at(toks, pos, &TokenType::BOOL) {
        return Ok((PrimType::Bool, pos + 1));
    } else if at(toks, pos, &TokenType::VOID) {
        return Ok((PrimType::Void, pos + 1));
    } else {
        return Err(unexpected(toks, pos));
    }
}

/// `Type ::= "perfect"? (PrimType | Id)`
#[verifier::spinoff_prover]
pub fn parse_type(toks: &Vec<Tok>, pos: usize) -> (r: Parsed<Box<Type>>)
    ensures
        advances(r, toks@, pos),
        agrees(r, toks@, rec_type(codes_of(toks@), pos as int)),
        r matches Ok(p) ==> type_tree(toks@, pos as int, p.1 as int, *p.0),
{
    proof {
        lemma_codes_len(toks@);
    }
    let perfect = at(toks, pos, &TokenType::PERFECT);
    let q = if perfect {
        pos + 1
    } else {
        pos
    };
    if at_id(toks, q) {
        let (id, q2) = parse_id(toks, q)?;
        return Ok((Type::new(TypeKind::Class(id), perfect), q2));
    } else {
        let (p, q2) = parse_prim_type(toks, q)?;
        return Ok((Type::new(TypeKind::Prim(p), perfect), q2));
    }
}

/// Whether the token at `pos` is a literal.
pub fn at_literal(toks: &Vec<Tok>, pos: usize) -> (b: bool)
    ensures
        b == on_literal(codes_of(toks@), pos as int),
        b ==> pos < toks@.len(),
        toks@.len() <= usize::MAX,
        codes_of(toks@).len() == toks@.len(),
{
    proof {
        lemma_codes(toks@);
    }
    if pos < toks.len() {
        match &toks[pos].1 {
            TokenType::INTLITERAL(_) => true,
            TokenType::STRINGLITERAL(_) => true,
            TokenType::TRUE => true,
            TokenType::FALSE => true,
            TokenType::MAGIC => true,
            _ => false,
        }
    } else {
        false
    }
}

/// The term that is the location `loc`, which covers the tokens
/// `pos..end`.
pub fn loc_term(toks: &Vec<Tok>, pos: usize, end: usize, loc: Box<Loc>) -> (e: Box<Exp>)
    requires
        loc_tree(toks@, pos as int, end as int, *loc),
    ensures
        term_tree(toks@, pos as int, end as int, *e),
{
    proof {
        lemma_loc_run(toks@, pos as int, end as int, *loc);
    }
    let e = Exp::new(ExpKind::new(ExpKind::Loc(loc)), start_of(toks, pos), end_before(toks, end));
    proof {
        lemma_term_loc(toks@, pos as int, end as int, *e);
    }
    e
}

/// The term that is the call `call`, which covers the tokens `pos..end`.
pub fn call_term(toks: &Vec<Tok>, pos: usize, end: usize, call: Box<CallExp>) -> (e: Box<Exp>)
    requires
        call_tree(toks@, pos as int, end as int, *call),
    ensures
        term_tree(toks@, pos as int, end as int, *e),
{
    proof {
        lemma_call_run(toks@, pos as int, end as int, *call);
    }
    let e = Exp::new(ExpKind::new(ExpKind::CallExp(call)), start_of(toks, pos), end_before(toks, end));
    proof {
        lemma_term_call(toks@, pos as int, end as int, *e);
    }
    e
}

/// The call of `name`, which covers the tokens `start..pos`, with the
/// actuals `args` between the parentheses at `pos` and before `end`.
pub fn call_node(toks: &Vec<Tok>, start: usize, pos: usize, end: usize, name: Box<Loc>, args: Vec<
    Box<Exp>,
>) -> (c: Box<CallExp>)
    requires
        start < pos < end - 1,
        end <= toks@.len(),
        loc_tree(toks@, start as int, pos as int, *name),
        kind_at(toks@, pos as int, TokenType::LPAREN),
        kind_at(toks@, end - 1, TokenType::RPAREN),
        if args@.len() == 0 {
            pos + 1 == end - 1
        } else {
            actuals_tree(toks@, pos + 1, end - 1, args@)
        },
    ensures
        call_tree(toks@, start as int, end as int, *c),
{
    let call = CallExp {
        name,
        args,
        fn_type: None,
        span: Span::new(start_of(toks, start), end_before(toks, end)),
    };
    proof {
        lemma_call(toks@, start as int, pos as int, end as int, call);
    }
    Box::new(call)
}

/// The expression of the literal at `pos`, which carries its type.
pub fn literal(toks: &Vec<Tok>, pos: usize) -> (e: Box<Exp>)
    requires
        on_literal(codes_of(toks@), pos as int),
    ensures
        term_tree(toks@, pos as int, pos + 1, *e),
{
    let e = literal_node(toks, pos);
    proof {
        lemma_term_literal(toks@, pos as int, pos + 1, *e);
    }
    e
}

/// The node of the literal at `pos`.
pub fn literal_node(toks: &Vec<Tok>, pos: usize) -> (e: Box<Exp>)
    requires
        on_literal(codes_of(toks@), pos as int),
    ensures
        literal_tree(toks@, pos as int, pos + 1, *e),
{
    proof {
        lemma_codes(toks@);
    }
    let l = toks[pos].0;
    let e = toks[pos].2;
    match &toks[pos].1 {
        TokenType::INTLITERAL(n) => Exp::new_with_type(
            ExpKind::new(ExpKind::IntLit(*n)),
            PrimType::Int,
            l,
            e,
        ),
        TokenType::STRINGLITERAL(s) => Exp::new_with_type(
            ExpKind::new(ExpKind::StrLit(s.clone())),
            PrimType::String,
            l,
            e,
        ),
        TokenType::TRUE => Exp::new_with_type(ExpKind::new(ExpKind::True), PrimType::Bool, l, e),
        TokenType::FALSE => Exp::new_with_type(ExpKind::new(ExpKind::False), PrimType::Bool, l, e),
        _ => Exp::new_with_type(ExpKind::new(ExpKind::Magic), PrimType::Bool, l, e),
    }
}

/// `Term` (see the grammar at the head of the file)
#[verifier::spinoff_prover]
pub fn parse_term(toks: &Vec<Tok>, pos: usize) -> (r: Parsed<Box<Exp>>)
    ensures
        advances(r, toks@, pos),
        agrees(r, toks@, rec_term(codes_of(toks@), pos as int)),
        r matches Ok(p) ==> term_tree(toks@, pos as int, p.1 as int, *p.0),
    decreases toks@.len() - pos, 1int,
{
    proof {
        lemma_codes_len(toks@);
    }
    if at_literal(toks, pos) {
        return Ok((literal(toks, pos), pos + 1));
    } else if at(toks, pos, &TokenType::LPAREN) {
        let (inner, q) = parse_exp(toks, pos + 1)?;
        let q2 = expect(toks, q, &TokenType::RPAREN)?;
        proof {
            lemma_term_nested(toks@, pos as int, q2 as int, *inner);
        }
        return Ok((inner, q2));
    } else if at_id(toks, pos) {
        let (loc, q) = parse_loc(toks, pos)?;
        if at(toks, q, &TokenType::LPAREN) {
            let (call, q2) = parse_call_rest(toks, pos, loc, q)?;
            return Ok((call_term(toks, pos, q2, call), q2));
        } else {
            return Ok((loc_term(toks, pos, q, loc), q));
        }
    } else {
        return Err(unexpected(toks, pos));
    }
}

/// The rest of a call whose callee `name` starts at `start` and ends before
/// `pos`, where the token at `pos` is the opening parenthesis.
#[verifier::spinoff_prover]
pub fn parse_call_rest(toks: &Vec<Tok>, start: usize, name: Box<Loc>, pos: usize) -> (r: Parsed<
    Box<CallExp>,
>)
    requires
        start < pos,
        loc_tree(toks@, start as int, pos as int, *name),
    ensures
        advances(r, toks@, pos),
        agrees(r, toks@, rec_call_rest(codes_of(toks@), pos as int)),
        r matches Ok(p) ==> call_tree(toks@, start as int, p.1 as int, *p.0),
    decreases toks@.len() - pos, 0int,
{
    proof {
        lemma_codes_len(toks@);
    }
    if !at(toks, pos, &TokenType::LPAREN) {
        return Err(unexpected(toks, pos));
    }
    let q = pos + 1;
    if at(toks, q, &TokenType::RPAREN) {
        let args: Vec<Box<Exp>> = Vec::new();
        return Ok((call_node(toks, start, pos, q + 1, name, args), q + 1));
    } else {
        let (args, q2) = parse_actuals(toks, q)?;
        let q3 = expect(toks, q2, &TokenType::RPAREN)?;
        return Ok((call_node(toks, start, pos, q3, name, args), q3));
    }
}

/// `ActualsList ::= Exp ("," Exp)*`
#[verifier::spinoff_prover]
pub fn parse_actuals(toks: &Vec<Tok>, pos: usize) -> (r: Parsed<Vec<Box<Exp>>>)
    ensures
        advances(r, toks@, pos),
        agrees(r, toks@, rec_actuals(codes_of(toks@), pos as int)),
        r matches Ok(p) ==> p.0@.len() > 0 && actuals_tree(toks@, pos as int, p.1 as int, p.0@),
    decreases toks@.len() - pos, 8int,
{
    proof {
        lemma_codes_len(toks@);
    }
    let ghost c = codes_of(toks@);
    let mut args: Vec<Box<Exp>> = Vec::new();
    let (first, mut q) = parse_exp(toks, pos)?;
    args.push(first);
    proof {
        lemma_actuals_one(toks@, pos as int, q as int, args@);
    }
    while at(toks, q, &TokenType::COMMA)
        invariant
            pos < q <= toks@.len(),
            c == codes_of(toks@),
            c.len() == toks@.len(),
            rec_actuals_rest(c, q as int) == rec_actuals(c, pos as int),
            args@.len() > 0,
            actuals_tree(toks@, pos as int, q as int, args@),
        decreases toks@.len() - q,
    {
        match parse_exp(toks, q + 1) {
            Ok((e, q2)) => {
                let ghost before = args@;
                args.push(e);
                proof {
                    assert(args@.drop_last() =~= before);
                    lemma_actuals_more(toks@, pos as int, q as int, q2 as int, args@);
                }
                q = q2;
            },
            Err(e) => {
                return Err(e);
            },
        }
    }
    return Ok((args, q));
}

/// `CallExp ::= Loc "(" ActualsList? ")"`
#[verifier::spinoff_prover]
pub fn parse_call(toks: &Vec<Tok>, pos: usize) -> (r: Parsed<Box<CallExp>>)
    ensures
        advances(r, toks@, pos),
        agrees(r, toks@, rec_call(codes_of(toks@), pos as int)),
        r matches Ok(p) ==> call_tree(toks@, pos as int, p.1 as int, *p.0),
{
    proof {
        lemma_codes_len(toks@);
    }
    let (loc, q) = parse_loc(toks, pos)?;
    parse_call_rest(toks, pos, loc, q)
}

/// `Unary ::= "!" Unary | "-" Term | Term`
#[verifier::spinoff_prover]
pub fn parse_unary(toks: &Vec<Tok>, pos: usize) -> (r: Parsed<Box<Exp>>)
    ensures
        advances(r, toks@, pos),
        agrees(r, toks@, rec_unary(codes_of(toks@), pos as int)),
        r matches Ok(p) ==> unary_tree(toks@, pos as int, p.1 as int, *p.0),
    decreases toks@.len() - pos, 2int,
{
    proof {
        lemma_codes_len(toks@);
    }
    if at(toks, pos, &TokenType::NOT) {
        let (inner, q) = parse_unary(toks, pos + 1)?;
        let l = start_of(toks, pos);
        let r = end_before(toks, q);
        let u = UnaryExp::new(inner, UnaryExpKind::Not, l, r);
        let e = Exp::new(ExpKind::new(ExpKind::UnaryExp(u)), l, r);
        proof {
            lemma_unary_not(toks@, pos as int, q as int, *e);
        }
        return Ok((e, q));
    } else if at(toks, pos, &TokenType::DASH) {
        let (inner, q) = parse_term(toks, pos + 1)?;
        let l = start_of(toks, pos);
        let r = end_before(toks, q);
        let u = UnaryExp::new(inner, UnaryExpKind::Neg, l, r);
        let e = Exp::new(ExpKind::new(ExpKind::UnaryExp(u)), l, r);
        proof {
            lemma_unary_neg(toks@, pos as int, q as int, *e);
        }
        return Ok((e, q));
    } else {
        let (e, q) = parse_term(toks, pos)?;
        proof {
            lemma_unary_term(toks@, pos as int, q as int, *e);
        }
        return Ok((e, q));
    }
}

/// The binary expression `lhs kind rhs`, from the token at `start` to the
/// token before `stop`.
pub fn binary(toks: &Vec<Tok>, start: usize, stop: usize, lhs: Box<Exp>, kind: BinaryExpKind, rhs: Box<
    Exp,
>) -> (e: Box<Exp>)
    requires
        start < stop <= toks@.len(),
    ensures
        binary_node(toks@, start as int, stop as int, *e, kind),
        left(*e) == *lhs,
        right(*e) == *rhs,
{
    let l = start_of(toks, start);
    let r = end_before(toks, stop);
    let b = BinaryExp::new(lhs, rhs, kind, l, r);
    Exp::new(ExpKind::new(ExpKind::BinaryExp(b)), l, r)
}

/// `Prod ::= Unary (("*" | "/") Unary)*`
#[verifier::spinoff_prover]
pub fn parse_prod(toks: &Vec<Tok>, pos: usize) -> (r: Parsed<Box<Exp>>)
    ensures
        advances(r, toks@, pos),
        agrees(r, toks@, rec_prod(codes_of(toks@), pos as int)),
        r matches Ok(p) ==> prod_tree(toks@, pos as int, p.1 as int, *p.0),
    decreases toks@.len() - pos, 3int,
{
    proof {
        lemma_codes_len(toks@);
    }
    let ghost c = codes_of(toks@);
    let (mut lhs, mut q) = parse_unary(toks, pos)?;
    proof {
        lemma_prod_unary(toks@, pos as int, q as int, *lhs);
    }
    while at(toks, q, &TokenType::STAR) || at(toks, q, &TokenType::SLASH)
        invariant
            pos < q <= toks@.len(),
            c == codes_of(toks@),
            c.len() == toks@.len(),
            rec_prod_rest(c, q as int) == rec_prod(c, pos as int),
            prod_tree(toks@, pos as int, q as int, *lhs),
        decreases toks@.len() - q,
    {
        let kind = if at(toks, q, &TokenType::STAR) {
            BinaryExpKind::Times
        } else {
            BinaryExpKind::Divide
        };
        match parse_unary(toks, q + 1) {
            Ok((rhs, q2)) => {
                lhs = binary(toks, pos, q2, lhs, kind, rhs);
                proof {
                    lemma_prod_more(toks@, pos as int, q as int, q2 as int, *lhs);
                }
                q = q2;
            },
            Err(e) => {
                return Err(e);
            },
        }
    }
    return Ok((lhs, q));
}

/// `Sum ::= Prod (("+" | "-") Prod)*`
#[verifier::spinoff_prover]
pub fn parse_sum(toks: &Vec<Tok>, pos: usize) -> (r: Parsed<Box<Exp>>)
    ensures
        advances(r, toks@, pos),
        agrees(r, toks@, rec_sum(codes_of(toks@), pos as int)),
        r matches Ok(p) ==> sum_tree(toks@, pos as int, p.1 as int, *p.0),
    decreases toks@.len() - pos, 4int,
{
    proof {
        lemma_codes_len(toks@);
    }
    let ghost c = codes_of(toks@);
    let (mut lhs, mut q) = parse_prod(toks, pos)?;
    proof {
        lemma_sum_prod(toks@, pos as int, q as int, *lhs);
    }
    while at(toks, q, &TokenType::CROSS) || at(toks, q, &TokenType::DASH)
        invariant
            pos < q <= toks@.len(),
            c == codes_of(toks@),
            c.len() == toks@.len(),
            rec_sum_rest(c, q as int) == rec_sum(c, pos as int),
            sum_tree(toks@, pos as int, q as int, *lhs),
        decreases toks@.len() - q,
    {
        let kind = if at(toks, q, &TokenType::CROSS) {
            BinaryExpKind::Plus
        } else {
            BinaryExpKind::Minus
        };
        match parse_prod(toks, q + 1) {
            Ok((rhs, q2)) => {
                lhs = binary(toks, pos, q2, lhs, kind, rhs);
                proof {
                    lemma_sum_more(toks@, pos as int, q as int, q2 as int, *lhs);
                }
                q = q2;
            },
            Err(e) => {
                return Err(e);
            },
        }
    }
    return Ok((lhs, q));
}

/// The comparison operator at `pos`, if there is one.
pub fn comparison_at(toks: &Vec<Tok>, pos: usize) -> (r: Option<BinaryExpKind>)
    ensures
        r is Some <==> on_comparison(codes_of(toks@), pos as int),
        r == relation_at(toks@, pos as int),
        r is Some ==> pos < toks@.len() <= usize::MAX,
{
    if at(toks, pos, &TokenType::EQUALS) {
        Some(BinaryExpKind::Equals)
    } else if at(toks, pos, &TokenType::NOTEQUALS) {
        Some(BinaryExpKind::NotEquals)
    } else if at(toks, pos, &TokenType::GREATER) {
        Some(BinaryExpKind::Greater)
    } else if at(toks, pos, &TokenType::GREATEREQ) {
        Some(BinaryExpKind::GreaterEq)
    } else if at(toks, pos, &TokenType::LESS) {
        Some(BinaryExpKind::Less)
    } else if at(toks, pos, &TokenType::LESSEQ) {
        Some(BinaryExpKind::LessEq)
    } else {
        None
    }
}

/// `Cmp ::= Sum (comparison Sum)?`
#[verifier::spinoff_prover]
pub fn parse_relation(toks: &Vec<Tok>, pos: usize) -> (r: Parsed<Box<Exp>>)
    ensures
        advances(r, toks@, pos),
        agrees(r, toks@, rec_relation(codes_of(toks@), pos as int)),
        r matches Ok(p) ==> relation_tree(toks@, pos as int, p.1 as int, *p.0),
    decreases toks@.len() - pos, 5int,
{
    proof {
        lemma_codes_len(toks@);
    }
    let (lhs, q) = parse_sum(toks, pos)?;
    match comparison_at(toks, q) {
        Some(kind) => {
            let (rhs, q2) = parse_sum(toks, q + 1)?;
            let e = binary(toks, pos, q2, lhs, kind, rhs);
            proof {
                lemma_relation_more(toks@, pos as int, q as int, q2 as int, *e);
            }
            return Ok((e, q2));
        },
        None => {
            proof {
                lemma_relation_sum(toks@, pos as int, q as int, *lhs);
            }
            return Ok((lhs, q));
        },
    }
}

/// `And ::= Cmp ("and" Cmp)*`
#[verifier::spinoff_prover]
pub fn parse_and(toks: &Vec<Tok>, pos: usize) -> (r: Parsed<Box<Exp>>)
    ensures
        advances(r, toks@, pos),
        agrees(r, toks@, rec_and(codes_of(toks@), pos as int)),
        r matches Ok(p) ==> and_tree(toks@, pos as int, p.1 as int, *p.0),
    decreases toks@.len() - pos, 6int,
{
    proof {
        lemma_codes_len(toks@);
    }
    let ghost c = codes_of(toks@);
    let (mut lhs, mut q) = parse_relation(toks, pos)?;
    proof {
        lemma_and_relation(toks@, pos as int, q as int, *lhs);
    }
    while at(toks, q, &TokenType::AND)
        invariant
            pos < q <= toks@.len(),
            c == codes_of(toks@),
            c.len() == toks@.len(),
            rec_and_rest(c, q as int) == rec_and(c, pos as int),
            and_tree(toks@, pos as int, q as int, *lhs),
        decreases toks@.len() - q,
    {
        match parse_relation(toks, q + 1) {
            Ok((rhs, q2)) => {
                lhs = binary(toks, pos, q2, lhs, BinaryExpKind::And, rhs);
                proof {
                    lemma_and_more(toks@, pos as int, q as int, q2 as int, *lhs);
                }
                q = q2;
            },
            Err(e) => {
                return Err(e);
            },
        }
    }
    return Ok((lhs, q));
}

/// `Exp ::= And ("or" And)*`
#[verifier::spinoff_prover]
pub fn parse_exp(toks: &Vec<Tok>, pos: usize) -> (r: Parsed<Box<Exp>>)
    ensures
        advances(r, toks@, pos),
        agrees(r, toks@, rec_exp(codes_of(toks@), pos as int)),
        r matches Ok(p) ==> exp_tree(toks@, pos as int, p.1 as int, *p.0),
    decreases toks@.len() - pos, 7int,
{
    proof {
        lemma_codes_len(toks@);
    }
    let ghost c = codes_of(toks@);
    let (mut lhs, mut q) = parse_and(toks, pos)?;
    proof {
        lemma_exp_and(toks@, pos as int, q as int, *lhs);
    }
    while at(toks, q, &TokenType::OR)
        invariant
            pos < q <= toks@.len(),
            c == codes_of(toks@),
            c.len() == toks@.len(),
            rec_or_rest(c, q as int) == rec_exp(c, pos as int),
            exp_tree(toks@, pos as int, q as int, *lhs),
        decreases toks@.len() - q,
    {
        match parse_and(toks, q + 1) {
            Ok((rhs, q2)) => {
                lhs = binary(toks, pos, q2, lhs, BinaryExpKind::Or, rhs);
                proof {
                    lemma_exp_more(toks@, pos as int, q as int, q2 as int, *lhs);
                }
                q = q2;
            },
            Err(e) => {
                return Err(e);
            },
        }
    }
    return Ok((lhs, q));
}

/// `VarDecl ::= Id ":" Type ("=" Exp)? ";"`
#[verifier::spinoff_prover]
pub fn parse_var_decl(toks: &Vec<Tok>, pos: usize) -> (r: Parsed<Box<VarDecl>>)
    ensures
        advances(r, toks@, pos),
        agrees(r, toks@, rec_var_decl(codes_of(toks@), pos as int)),
        r matches Ok(p) ==> var_decl_tree(toks@, pos as int, p.1 as int, *p.0),
{
    proof {
        lemma_codes_len(toks@);
    }
    let (id, q) = parse_id(toks, pos)?;
    let q = expect(toks, q, &TokenType::COLON)?;
    let (var_type, after) = parse_type(toks, q)?;
    if at(toks, after, &TokenType::ASSIGN) {
        let (e, q2) = parse_exp(toks, after + 1)?;
        let end = expect(toks, q2, &TokenType::SEMICOL)?;
        let v = Box::new(VarDecl { var_type, id, init_val: Some(e) });
        proof {
            lemma_var_decl_init(toks@, pos as int, after as int, end as int, *v);
        }
        return Ok((v, end));
    } else {
        let end = expect(toks, after, &TokenType::SEMICOL)?;
        let v = Box::new(VarDecl { var_type, id, init_val: None });
        proof {
            lemma_var_decl_plain(toks@, pos as int, end as int, *v);
        }
        return Ok((v, end));
    }
}

/// `FormalDecl ::= Id ":" Type`
#[verifier::spinoff_prover]
pub fn parse_formal_decl(toks: &Vec<Tok>, pos: usize) -> (r: Parsed<Box<FormalDecl>>)
    ensures
        advances(r, toks@, pos),
        agrees(r, toks@, rec_formal_decl(codes_of(toks@), pos as int)),
        r matches Ok(p) ==> formal_tree(toks@, pos as int, p.1 as int, *p.0),
{
    proof {
        lemma_codes_len(toks@);
    }
    let (id, q) = parse_id(toks, pos)?;
    let q = expect(toks, q, &TokenType::COLON)?;
    let (formal_type, q) = parse_type(toks, q)?;
    let f = Box::new(FormalDecl::FormalDecl { id, formal_type });
    proof {
        lemma_formal(toks@, pos as int, q as int, *f);
    }
    return Ok((f, q));
}

/// `FormalsList ::= (FormalDecl ("," FormalDecl)*)?`
#[verifier::spinoff_prover]
pub fn parse_formals_list(toks: &Vec<Tok>, pos: usize) -> (r: Parsed<Vec<Box<FormalDecl>>>)
    requires
        pos <= toks@.len(),
    ensures
        within(r, toks@, pos),
        agrees(r, toks@, rec_formals_list(codes_of(toks@), pos as int)),
        r matches Ok(p) ==> formals_tree(toks@, pos as int, p.1 as int, p.0@),
{
    proof {
        lemma_codes_len(toks@);
    }
    let ghost c = codes_of(toks@);
    let mut formals: Vec<Box<FormalDecl>> = Vec::new();
    if !at_id(toks, pos) {
        proof {
            lemma_formals_none(toks@, pos as int, formals@);
        }
        return Ok((formals, pos));
    }
    let (first, mut q) = parse_formal_decl(toks, pos)?;
    formals.push(first);
    proof {
        lemma_formals_one(toks@, pos as int, q as int, formals@);
    }
    while at(toks, q, &TokenType::COMMA)
        invariant
            pos < q <= toks@.len(),
            c == codes_of(toks@),
            c.len() == toks@.len(),
            rec_formals_rest(c, q as int) == rec_formals_list(c, pos as int),
            formals@.len() > 0,
            formals_tree(toks@, pos as int, q as int, formals@),
        decreases toks@.len() - q,
    {
        match parse_formal_decl(toks, q + 1) {
            Ok((f, q2)) => {
                let ghost before = formals@;
                formals.push(f);
                proof {
                    assert(formals@.drop_last() =~= before);
                    lemma_formals_more(toks@, pos as int, q as int, q2 as int, formals@);
                }
                q = q2;
            },
            Err(e) => {
                return Err(e);
            },
        }
    }
    return Ok((formals, q));
}

/// The line statement of the kind `kind` over the tokens `pos..end`.
pub fn line_node(toks: &Vec<Tok>, pos: usize, end: usize, kind: LineStmtKind) -> (s: Box<LineStmt>)
    requires
        run(toks@, pos as int, end as int),
        line_kind_tree(toks@, pos as int, end as int, kind),
    ensures
        line_tree(toks@, pos as int, end as int, *s),
{
    let s = LineStmt::new(kind, start_of(toks, pos), end_before(toks, end));
    proof {
        lemma_line(toks@, pos as int, end as int, *s);
    }
    s
}

/// The assignment of `src`, which covers the tokens after `q` up to
/// `end`, to `dest`, which covers the tokens `pos..q`.
pub fn assign_node(toks: &Vec<Tok>, pos: usize, q: usize, end: usize, dest: Box<Loc>, src: Box<
    Exp,
>) -> (s: Box<LineStmt>)
    requires
        pos < q < end - 1,
        end <= toks@.len(),
        loc_tree(toks@, pos as int, q as int, *dest),
        kind_at(toks@, q as int, TokenType::ASSIGN),
        exp_tree(toks@, q + 1, end as int, *src),
    ensures
        line_tree(toks@, pos as int, end as int, *s),
{
    line_node(toks, pos, end, LineStmtKind::Assign { dest, src })
}

/// `LineStmt` (see the grammar at the head of the file)
#[verifier::spinoff_prover]
pub fn parse_line_stmt(toks: &Vec<Tok>, pos: usize) -> (r: Parsed<Box<LineStmt>>)
    ensures
        advances(r, toks@, pos),
        agrees(r, toks@, rec_line_stmt(codes_of(toks@), pos as int)),
        r matches Ok(p) ==> line_tree(toks@, pos as int, p.1 as int, *p.0),
{
    proof {
        lemma_codes_len(toks@);
    }
    if at(toks, pos, &TokenType::GIVE) {
        let (output, q) = parse_exp(toks, pos + 1)?;
        return Ok((line_node(toks, pos, q, LineStmtKind::Give { output }), q));
    } else if at(toks, pos, &TokenType::TAKE) {
        let (recipient, q) = parse_loc(toks, pos + 1)?;
        return Ok((line_node(toks, pos, q, LineStmtKind::Take { recipient }), q));
    } else if at(toks, pos, &TokenType::RETURN) {
        let q = pos + 1;
        if q >= toks.len() || at(toks, q, &TokenType::SEMICOL) {
            return Ok((line_node(toks, pos, q, LineStmtKind::Return { result: None }), q));
        } else {
            let (e, q2) = parse_exp(toks, q)?;
            return Ok((line_node(toks, pos, q2, LineStmtKind::Return { result: Some(e) }), q2));
        }
    } else if at(toks, pos, &TokenType::EXIT) {
        let q = pos + 1;
        return Ok((line_node(toks, pos, q, LineStmtKind::Exit), q));
    } else {
        let (loc, q) = parse_loc(toks, pos)?;
        if at(toks, q, &TokenType::ASSIGN) {
            let (src, q2) = parse_exp(toks, q + 1)?;
            return Ok((assign_node(toks, pos, q, q2, loc, src), q2));
        } else if at(toks, q, &TokenType::POSTDEC) {
            let q2 = q + 1;
            return Ok((line_node(toks, pos, q2, LineStmtKind::PostDec { loc }), q2));
        } else if at(toks, q, &TokenType::POSTINC) {
            let q2 = q + 1;
            return Ok((line_node(toks, pos, q2, LineStmtKind::PostInc { loc }), q2));
        } else if at(toks, q, &TokenType::LPAREN) {
            let (call, q2) = parse_call_rest(toks, pos, loc, q)?;
            return Ok((line_node(toks, pos, q2, LineStmtKind::Call(call)), q2));
        } else {
            return Err(unexpected(toks, q));
        }
    }
}

/// One statement of a statement list.
#[verifier::spinoff_prover]
pub fn parse_stmt(toks: &Vec<Tok>, pos: usize) -> (r: Parsed<Box<Stmt>>)
    ensures
        advances(r, toks@, pos),
        agrees(r, toks@, rec_stmt(codes_of(toks@), pos as int)),
        r matches Ok(p) ==> stmt_tree(toks@, pos as int, p.1 as int, *p.0),
    decreases toks@.len() - pos, 2int,
{
    proof {
        lemma_codes_len(toks@);
    }
    if at(toks, pos, &TokenType::WHILE) || at(toks, pos, &TokenType::IF) {
        let (b, q) = parse_block_stmt(toks, pos)?;
        let s = Box::new(Stmt::Block(b));
        proof {
            lemma_stmt_block(toks@, pos as int, q as int, *s);
        }
        return Ok((s, q));
    } else if at_id(toks, pos) && at(toks, pos + 1, &TokenType::COLON) {
        let (d, q) = parse_var_decl(toks, pos)?;
        let s = Box::new(Stmt::VarDecl(d));
        proof {
            lemma_stmt_var_decl(toks@, pos as int, q as int, *s);
        }
        return Ok((s, q));
    } else {
        let (l, q) = parse_line_stmt(toks, pos)?;
        let q2 = expect(toks, q, &TokenType::SEMICOL)?;
        let s = Box::new(Stmt::Line(l));
        proof {
            lemma_stmt_line(toks@, pos as int, q2 as int, *s);
        }
        return Ok((s, q2));
    }
}

/// `StmtList ::= (VarDecl | LineStmt ";" | BlockStmt)*`, up to a closing
/// brace or the end of the text.
#[verifier::spinoff_prover]
pub fn parse_stmt_list(toks: &Vec<Tok>, pos: usize) -> (r: Parsed<Vec<Box<Stmt>>>)
    requires
        pos <= toks@.len(),
    ensures
        within(r, toks@, pos),
        agrees(r, toks@, rec_stmt_list(codes_of(toks@), pos as int)),
        r matches Ok(p) ==> stmts_tree(toks@, pos as int, p.1 as int, p.0@),
    decreases toks@.len() - pos, 3int,
{
    proof {
        lemma_codes_len(toks@);
    }
    let ghost c = codes_of(toks@);
    let mut stmts: Vec<Box<Stmt>> = Vec::new();
    let mut q = pos;
    proof {
        lemma_stmts_none(toks@, pos as int, stmts@);
    }
    while q < toks.len() && !at(toks, q, &TokenType::RCURLY)
        invariant
            pos <= q <= toks@.len(),
            c == codes_of(toks@),
            c.len() == toks@.len(),
            rec_stmt_list(c, q as int) == rec_stmt_list(c, pos as int),
            stmts_tree(toks@, pos as int, q as int, stmts@),
        decreases toks@.len() - q,
    {
        match parse_stmt(toks, q) {
            Ok((s, q2)) => {
                let ghost before = stmts@;
                stmts.push(s);
                proof {
                    assert(stmts@.drop_last() =~= before);
                    lemma_stmts_more(toks@, pos as int, q as int, q2 as int, stmts@);
                }
                q = q2;
            },
            Err(e) => {
                return Err(e);
            },
        }
    }
    return Ok((stmts, q));
}

/// A statement list between braces, where the opening brace is expected at
/// `pos`.
#[verifier::spinoff_prover]
pub fn parse_body(toks: &Vec<Tok>, pos: usize) -> (r: Parsed<Vec<Box<Stmt>>>)
    ensures
        advances(r, toks@, pos),
        agrees(r, toks@, rec_body(codes_of(toks@), pos as int)),
        r matches Ok(p) ==> body_tree(toks@, pos as int, p.1 as int, p.0@),
    decreases toks@.len() - pos, 0int,
{
    proof {
        lemma_codes_len(toks@);
    }
    let q = expect(toks, pos, &TokenType::LCURLY)?;
    let (stmts, q2) = parse_stmt_list(toks, q)?;
    let q3 = expect(toks, q2, &TokenType::RCURLY)?;
    proof {
        lemma_body(toks@, pos as int, q3 as int, stmts@);
    }
    return Ok((stmts, q3));
}

/// `BlockStmt` (see the grammar at the head of the file)
#[verifier::spinoff_prover]
pub fn parse_block_stmt(toks: &Vec<Tok>, pos: usize) -> (r: Parsed<Box<BlockStmt>>)
    ensures
        advances(r, toks@, pos),
        agrees(r, toks@, rec_block_stmt(codes_of(toks@), pos as int)),
        r matches Ok(p) ==> block_tree(toks@, pos as int, p.1 as int, *p.0),
    decreases toks@.len() - pos, 1int,
{
    proof {
        lemma_codes_len(toks@);
    }
    let is_while = at(toks, pos, &TokenType::WHILE);
    if !is_while && !at(toks, pos, &TokenType::IF) {
        return Err(unexpected(toks, pos));
    }
    let q0 = expect(toks, pos + 1, &TokenType::LPAREN)?;
    let (cond, q1) = parse_exp(toks, q0)?;
    let q2 = expect(toks, q1, &TokenType::RPAREN)?;
    let (body, q) = parse_body(toks, q2)?;
    if is_while {
        let b = Box::new(BlockStmt::While { cond, body });
        proof {
            lemma_block_while(toks@, pos as int, q1 as int, q as int, *b);
        }
        return Ok((b, q));
    } else if at(toks, q, &TokenType::ELSE) {
        let (false_branch, q3) = parse_body(toks, q + 1)?;
        let b = Box::new(BlockStmt::IfElse { cond, true_branch: body, false_branch });
        proof {
            lemma_block_if_else(toks@, pos as int, q1 as int, q as int, q3 as int, *b);
        }
        return Ok((b, q3));
    } else {
        let b = Box::new(BlockStmt::If { cond, body });
        proof {
            lemma_block_if(toks@, pos as int, q1 as int, q as int, *b);
        }
        return Ok((b, q));
    }
}

/// `FnDecl ::= Id ":" "(" FormalsList ")" Type "{" StmtList "}"`
#[verifier::spinoff_prover]
pub fn parse_fn_decl(toks: &Vec<Tok>, pos: usize) -> (r: Parsed<Box<FnDecl>>)
    ensures
        advances(r, toks@, pos),
        agrees(r, toks@, rec_fn_decl(codes_of(toks@), pos as int)),
        r matches Ok(p) ==> fn_decl_tree(toks@, pos as int, p.1 as int, *p.0),
{
    proof {
        lemma_codes_len(toks@);
    }
    let (id, q) = parse_id(toks, pos)?;
    let q = expect(toks, q, &TokenType::COLON)?;
    let q = expect(toks, q, &TokenType::LPAREN)?;
    let (args, q1) = parse_formals_list(toks, q)?;
    let q2 = expect(toks, q1, &TokenType::RPAREN)?;
    let (ret, q3) = parse_type(toks, q2)?;
    let (body, q4) = parse_body(toks, q3)?;
    let f = Box::new(FnDecl { id, args, ret, body });
    proof {
        lemma_fn_decl(toks@, pos as int, q1 as int, q3 as int, q4 as int, *f);
    }
    return Ok((f, q4));
}

/// One member of a class.
#[verifier::spinoff_prover]
pub fn parse_member(toks: &Vec<Tok>, pos: usize) -> (r: Parsed<Box<Decl>>)
    requires
        pos < toks@.len(),
    ensures
        advances(r, toks@, pos),
        agrees(r, toks@, rec_member(codes_of(toks@), pos as int)),
        r matches Ok(p) ==> member_tree(toks@, pos as int, p.1 as int, *p.0),
{
    proof {
        lemma_codes_len(toks@);
    }
    let n = toks.len();
    if at(toks, pos + 1, &TokenType::COLON) && at(toks, pos + 2, &TokenType::LPAREN) {
        let (f, q) = parse_fn_decl(toks, pos)?;
        return Ok((Box::new(Decl::FnDecl(f)), q));
    } else {
        let (d, q) = parse_var_decl(toks, pos)?;
        return Ok((Box::new(Decl::VarDecl(d)), q));
    }
}

/// `ClassBody ::= (VarDecl | FnDecl)*`, up to a closing brace or the end
/// of the text.
#[verifier::spinoff_prover]
pub fn parse_class_body(toks: &Vec<Tok>, pos: usize) -> (r: Parsed<Vec<Box<Decl>>>)
    requires
        pos <= toks@.len(),
    ensures
        within(r, toks@, pos),
        agrees(r, toks@, rec_class_body(codes_of(toks@), pos as int)),
        r matches Ok(p) ==> members_tree(toks@, pos as int, p.1 as int, p.0@),
{
    proof {
        lemma_codes_len(toks@);
    }
    let ghost c = codes_of(toks@);
    let mut members: Vec<Box<Decl>> = Vec::new();
    let mut q = pos;
    proof {
        lemma_members_none(toks@, pos as int, members@);
    }
    while q < toks.len() && !at(toks, q, &TokenType::RCURLY)
        invariant
            pos <= q <= toks@.len(),
            c == codes_of(toks@),
            c.len() == toks@.len(),
            rec_class_body(c, q as int) == rec_class_body(c, pos as int),
            members_tree(toks@, pos as int, q as int, members@),
        decreases toks@.len() - q,
    {
        match parse_member(toks, q) {
            Ok((m, q2)) => {
                let ghost before = members@;
                members.push(m);
                proof {
                    assert(members@.drop_last() =~= before);
                    lemma_members_more(toks@, pos as int, q as int, q2 as int, members@);
                }
                q = q2;
            },
            Err(e) => {
                return Err(e);
            },
        }
    }
    return Ok((members, q));
}

/// `ClassDecl ::= Id ":" "class" "{" ClassBody "}" ";"`
#[verifier::spinoff_prover]
pub fn parse_class_decl(toks: &Vec<Tok>, pos: usize) -> (r: Parsed<Box<ClassDecl>>)
    ensures
        advances(r, toks@, pos),
        agrees(r, toks@, rec_class_decl(codes_of(toks@), pos as int)),
        r matches Ok(p) ==> class_decl_tree(toks@, pos as int, p.1 as int, *p.0),
{
    proof {
        lemma_codes_len(toks@);
    }
    let (id, q) = parse_id(toks, pos)?;
    let q = expect(toks, q, &TokenType::COLON)?;
    let q = expect(toks, q, &TokenType::CLASS)?;
    let q = expect(toks, q, &TokenType::LCURLY)?;
    let (members, q) = parse_class_body(toks, q)?;
    let q = expect(toks, q, &TokenType::RCURLY)?;
    let q = expect(toks, q, &TokenType::SEMICOL)?;
    let c = Box::new(ClassDecl { id, member_f: Box::new(members) });
    proof {
        lemma_class_decl(toks@, pos as int, q as int, *c);
    }
    return Ok((c, q));
}

/// `Decl ::= VarDecl | ClassDecl | FnDecl`
#[verifier::spinoff_prover]
pub fn parse_decl(toks: &Vec<Tok>, pos: usize) -> (r: Parsed<Box<Decl>>)
    ensures
        advances(r, toks@, pos),
        agrees(r, toks@, rec_decl(codes_of(toks@), pos as int)),
        r matches Ok(p) ==> decl_tree(toks@, pos as int, p.1 as int, *p.0),
{
    proof {
        lemma_codes_len(toks@);
    }
    if pos >= toks.len() {
        return Err(unexpected(toks, pos));
    }
    if at(toks, pos + 1, &TokenType::COLON) && at(toks, pos + 2, &TokenType::CLASS) {
        let (c, q) = parse_class_decl(toks, pos)?;
        return Ok((Box::new(Decl::ClassDecl(c)), q));
    } else if at(toks, pos + 1, &TokenType::COLON) && at(toks, pos + 2, &TokenType::LPAREN) {
        let (f, q) = parse_fn_decl(toks, pos)?;
        return Ok((Box::new(Decl::FnDecl(f)), q));
    } else {
        let (d, q) = parse_var_decl(toks, pos)?;
        return Ok((Box::new(Decl::VarDecl(d)), q));
    }
}

/// `Program ::= Decl*`, up to the end of the text.
#[verifier::spinoff_prover]
pub fn parse_program(toks: &Vec<Tok>, pos: usize) -> (r: Parsed<Box<Program>>)
    requires
        pos <= toks@.len(),
    ensures
        within(r, toks@, pos),
        agrees(r, toks@, rec_program(codes_of(toks@), pos as int)),
        r matches Ok(p) ==> program_tree(toks@, pos as int, p.1 as int, *p.0),
{
    proof {
        lemma_codes_len(toks@);
    }
    let ghost c = codes_of(toks@);
    let mut globals: Vec<Box<Decl>> = Vec::new();
    let mut q = pos;
    proof {
        lemma_decls_none(toks@, pos as int, globals@);
    }
    while q < toks.len()
        invariant
            pos <= q <= toks@.len(),
            c == codes_of(toks@),
            c.len() == toks@.len(),
            rec_program(c, q as int) == rec_program(c, pos as int),
            decls_tree(toks@, pos as int, q as int, globals@),
        decreases toks@.len() - q,
    {
        match parse_decl(toks, q) {
            Ok((d, q2)) => {
                let ghost before = globals@;
                globals.push(d);
                proof {
                    assert(globals@.drop_last() =~= before);
                    lemma_decls_more(toks@, pos as int, q as int, q2 as int, globals@);
                }
                q = q2;
            },
            Err(e) => {
                return Err(e);
            },
        }
    }
    return Ok((Box::new(Program { globals }), q));
}

/// Whether every item is a token.
pub open spec fn all_tokens(items: Seq<Spanned>) -> bool {
    forall|i: int| 0 <= i < items.len() ==> (#[trigger] items[i]) is Ok
}

/// The tokens of items that are all tokens.
pub open spec fn tokens_in(items: Seq<Spanned>) -> Seq<Tok> {
    Seq::new(items.len(), |i: int| items[i]->Ok_0)
}

/// The index of the first item that is an error, or the number of items.
pub open spec fn first_error(items: Seq<Spanned>, from: int) -> int
    decreases items.len() - from,
{
    if from < 0 || from >= items.len() {
        items.len() as int
    } else if items[from] is Err {
        from
    } else {
        first_error(items, from + 1)
    }
}

/// The tokens of a lexer, or the first error among them.
pub fn tokens_of(lexer: Lexer) -> (r: Result<Vec<Tok>, ParseError>)
    ensures
        r is Ok <==> all_tokens(lexer.remaining()),
        r matches Ok(v) ==> v@ == tokens_in(lexer.remaining()),
        r matches Err(e) ==> first_error(lexer.remaining(), 0) < lexer.remaining().len() && e
            == (ParseError::User {
            error: lexer.remaining()[first_error(lexer.remaining(), 0)]->Err_0,
        }),
{
    let items = lexer.into_rest();
    let mut out: Vec<Tok> = Vec::new();
    let n = items.len();
    let mut i: usize = 0;
    while i < n
        invariant
            i <= n,
            n == items@.len(),
            items@ == lexer.remaining(),
            out@.len() == i,
            forall|j: int| 0 <= j < i ==> (#[trigger] items@[j]) is Ok,
            forall|j: int| 0 <= j < i ==> items@[j] == Ok::<Tok, LexingError>(#[trigger] out@[j]),
            first_error(items@, 0) == first_error(items@, i as int),
        decreases n - i,
    {
        match &items[i] {
            Ok((l, t, e)) => {
                out.push((*l, t.copy(), *e));
            },
            Err(err) => {
                proof {
                    assert(items@[i as int] is Err);
                }
                return Err(ParseError::User { error: err.copy() });
            },
        }
        i += 1;
    }
    proof {
        assert(out@ =~= tokens_in(lexer.remaining()));
    }
    Ok(out)
}

/// Whether a rule takes in the whole of a text of `n` tokens.
pub open spec fn whole(want: Recognized, n: nat) -> bool {
    want == Ok::<int, int>(n as int)
}

/// The item of a parse that used up every token; an error for the first
/// token left over otherwise.
pub fn complete<T>(toks: &Vec<Tok>, r: Parsed<T>) -> (out: Result<T, ParseError>)
    requires
        r matches Ok(p) ==> p.1 <= toks@.len(),
    ensures
        out is Ok <==> (r matches Ok(p) && p.1 == toks@.len()),
        out matches Ok(t) ==> r matches Ok(p) && p.0 == t,
        r matches Err(e) ==> out == Err::<T, ParseError>(e),
        (r matches Ok(p) && p.1 < toks@.len()) ==> out == Err::<T, ParseError>(
            ParseError::ExtraToken { token: toks@[r->Ok_0.1 as int] },
        ),
{
    match r {
        Ok((item, q)) => {
            if q < toks.len() {
                let t = &toks[q];
                Err(ParseError::ExtraToken { token: (t.0, t.1.copy(), t.2) })
            } else {
                Ok(item)
            }
        },
        Err(e) => Err(e),
    }
}

/// The error of a parse that fails: the first error of the lexer; or else
/// the error for the token at which the rule goes wrong; or else the first
/// token left over.
pub open spec fn parse_error(items: Seq<Spanned>, want: Recognized) -> ParseError {
    if !all_tokens(items) {
        ParseError::User { error: items[first_error(items, 0)]->Err_0 }
    } else {
        match want {
            Ok(q) => ParseError::ExtraToken { token: tokens_in(items)[q] },
            Err(e) => error_at(tokens_in(items), e),
        }
    }
}

/// Whether a parser did what its rule asks for: succeeded on a text
/// without lexing errors that is, as a whole, an instance of the rule, and
/// failed with the error that tells why on any other text.
pub open spec fn parsed<T>(r: Result<T, ParseError>, items: Seq<Spanned>, want: Recognized) -> bool {
    &&& r is Ok <==> all_tokens(items) && whole(want, items.len())
    &&& r matches Err(e) ==> e == parse_error(items, want)
}

/// The parser for the rule `Program`: a whole program.
pub struct ProgramParser {}

impl ProgramParser {
    /// A parser for the rule `Program`.
    pub fn new() -> (p: ProgramParser) {
        ProgramParser {  }
    }

    /// Parses all the tokens of `lexer` as a whole program.
    pub fn parse(&self, lexer: Lexer) -> (r: Result<Box<Program>, ParseError>)
        ensures
            parsed(
                r,
                lexer.remaining(),
                rec_program(codes_of(tokens_in(lexer.remaining())), 0),
            ),
            r matches Ok(t) ==> program_tree(tokens_in(lexer.remaining()), 0, tokens_in(lexer.remaining()).len() as int, *t),
    {
        let toks = tokens_of(lexer)?;
        let r = parse_program(&toks, 0);
        complete(&toks, r)
    }
}

/// The parser for the rule `Decl`: one declaration.
pub struct DeclParser {}

impl DeclParser {
    /// A parser for the rule `Decl`.
    pub fn new() -> (p: DeclParser) {
        DeclParser {  }
    }

    /// Parses all the tokens of `lexer` as one declaration.
    pub fn parse(&self, lexer: Lexer) -> (r: Result<Box<Decl>, ParseError>)
        ensures
            parsed(
                r,
                lexer.remaining(),
                rec_decl(codes_of(tokens_in(lexer.remaining())), 0),
            ),
            r matches Ok(t) ==> decl_tree(tokens_in(lexer.remaining()), 0, tokens_in(lexer.remaining()).len() as int, *t),
    {
        let toks = tokens_of(lexer)?;
        let r = parse_decl(&toks, 0);
        complete(&toks, r)
    }
}

/// The parser for the rule `VarDecl`: one variable declaration.
pub struct VarDeclParser {}

impl VarDeclParser {
    /// A parser for the rule `VarDecl`.
    pub fn new() -> (p: VarDeclParser) {
        VarDeclParser {  }
    }

    /// Parses all the tokens of `lexer` as one variable declaration.
    pub fn parse(&self, lexer: Lexer) -> (r: Result<Box<VarDecl>, ParseError>)
        ensures
            parsed(
                r,
                lexer.remaining(),
                rec_var_decl(codes_of(tokens_in(lexer.remaining())), 0),
            ),
            r matches Ok(t) ==> var_decl_tree(tokens_in(lexer.remaining()), 0, tokens_in(lexer.remaining()).len() as int, *t),
    {
        let toks = tokens_of(lexer)?;
        let r = parse_var_decl(&toks, 0);
        complete(&toks, r)
    }
}

/// The parser for the rule `FnDecl`: one function declaration.
pub struct FnDeclParser {}

impl FnDeclParser {
    /// A parser for the rule `FnDecl`.
    pub fn new() -> (p: FnDeclParser) {
        FnDeclParser {  }
    }

    /// Parses all the tokens of `lexer` as one function declaration.
    pub fn parse(&self, lexer: Lexer) -> (r: Result<Box<FnDecl>, ParseError>)
        ensures
            parsed(
                r,
                lexer.remaining(),
                rec_fn_decl(codes_of(tokens_in(lexer.remaining())), 0),
            ),
            r matches Ok(t) ==> fn_decl_tree(tokens_in(lexer.remaining()), 0, tokens_in(lexer.remaining()).len() as int, *t),
    {
        let toks = tokens_of(lexer)?;
        let r = parse_fn_decl(&toks, 0);
        complete(&toks, r)
    }
}

/// The parser for the rule `ClassDecl`: one class declaration.
pub struct ClassDeclParser {}

impl ClassDeclParser {
    /// A parser for the rule `ClassDecl`.
    pub fn new() -> (p: ClassDeclParser) {
        ClassDeclParser {  }
    }

    /// Parses all the tokens of `lexer` as one class declaration.
    pub fn parse(&self, lexer: Lexer) -> (r: Result<Box<ClassDecl>, ParseError>)
        ensures
            parsed(
                r,
                lexer.remaining(),
                rec_class_decl(codes_of(tokens_in(lexer.remaining())), 0),
            ),
            r matches Ok(t) ==> class_decl_tree(tokens_in(lexer.remaining()), 0, tokens_in(lexer.remaining()).len() as int, *t),
    {
        let toks = tokens_of(lexer)?;
        let r = parse_class_decl(&toks, 0);
        complete(&toks, r)
    }
}

/// The parser for the rule `ClassBody`: the members of a class.
pub struct ClassBodyParser {}

impl ClassBodyParser {
    /// A parser for the rule `ClassBody`.
    pub fn new() -> (p: ClassBodyParser) {
        ClassBodyParser {  }
    }

    /// Parses all the tokens of `lexer` as the members of a class.
    pub fn parse(&self, lexer: Lexer) -> (r: Result<Vec<Box<Decl>>, ParseError>)
        ensures
            parsed(
                r,
                lexer.remaining(),
                rec_class_body(codes_of(tokens_in(lexer.remaining())), 0),
            ),
            r matches Ok(t) ==> members_tree(tokens_in(lexer.remaining()), 0, tokens_in(lexer.remaining()).len() as int, t@),
    {
        let toks = tokens_of(lexer)?;
        let r = parse_class_body(&toks, 0);
        complete(&toks, r)
    }
}

/// The parser for the rule `Type`: one type.
pub struct TypeParser {}

impl TypeParser {
    /// A parser for the rule `Type`.
    pub fn new() -> (p: TypeParser) {
        TypeParser {  }
    }

    /// Parses all the tokens of `lexer` as one type.
    pub fn parse(&self, lexer: Lexer) -> (r: Result<Box<Type>, ParseError>)
        ensures
            parsed(
                r,
                lexer.remaining(),
                rec_type(codes_of(tokens_in(lexer.remaining())), 0),
            ),
            r matches Ok(t) ==> type_tree(tokens_in(lexer.remaining()), 0, tokens_in(lexer.remaining()).len() as int, *t),
    {
        let toks = tokens_of(lexer)?;
        let r = parse_type(&toks, 0);
        complete(&toks, r)
    }
}

/// The parser for the rule `PrimType`: one primitive type.
pub struct PrimTypeParser {}

impl PrimTypeParser {
    /// A parser for the rule `PrimType`.
    pub fn new() -> (p: PrimTypeParser) {
        PrimTypeParser {  }
    }

    /// Parses all the tokens of `lexer` as one primitive type.
    pub fn parse(&self, lexer: Lexer) -> (r: Result<PrimType, ParseError>)
        ensures
            parsed(
                r,
                lexer.remaining(),
                rec_prim_type(codes_of(tokens_in(lexer.remaining())), 0),
            ),
            r matches Ok(t) ==> prim_at(tokens_in(lexer.remaining()), 0) == Some(t),
    {
        let toks = tokens_of(lexer)?;
        let r = parse_prim_type(&toks, 0);
        complete(&toks, r)
    }
}

/// The parser for the rule `FormalsList`: a list of formals.
pub struct FormalsListParser {}

impl FormalsListParser {
    /// A parser for the rule `FormalsList`.
    pub fn new() -> (p: FormalsListParser) {
        FormalsListParser {  }
    }

    /// Parses all the tokens of `lexer` as a list of formals.
    pub fn parse(&self, lexer: Lexer) -> (r: Result<Vec<Box<FormalDecl>>, ParseError>)
        ensures
            parsed(
                r,
                lexer.remaining(),
                rec_formals_list(codes_of(tokens_in(lexer.remaining())), 0),
            ),
            r matches Ok(t) ==> formals_tree(tokens_in(lexer.remaining()), 0, tokens_in(lexer.remaining()).len() as int, t@),
    {
        let toks = tokens_of(lexer)?;
        let r = parse_formals_list(&toks, 0);
        complete(&toks, r)
    }
}

/// The parser for the rule `FormalDecl`: one formal.
pub struct FormalDeclParser {}

impl FormalDeclParser {
    /// A parser for the rule `FormalDecl`.
    pub fn new() -> (p: FormalDeclParser) {
        FormalDeclParser {  }
    }

    /// Parses all the tokens of `lexer` as one formal.
    pub fn parse(&self, lexer: Lexer) -> (r: Result<Box<FormalDecl>, ParseError>)
        ensures
            parsed(
                r,
                lexer.remaining(),
                rec_formal_decl(codes_of(tokens_in(lexer.remaining())), 0),
            ),
            r matches Ok(t) ==> formal_tree(tokens_in(lexer.remaining()), 0, tokens_in(lexer.remaining()).len() as int, *t),
    {
        let toks = tokens_of(lexer)?;
        let r = parse_formal_decl(&toks, 0);
        complete(&toks, r)
    }
}

/// The parser for the rule `StmtList`: a list of statements.
pub struct StmtListParser {}

impl StmtListParser {
    /// A parser for the rule `StmtList`.
    pub fn new() -> (p: StmtListParser) {
        StmtListParser {  }
    }

    /// Parses all the tokens of `lexer` as a list of statements.
    pub fn parse(&self, lexer: Lexer) -> (r: Result<Vec<Box<Stmt>>, ParseError>)
        ensures
            parsed(
                r,
                lexer.remaining(),
                rec_stmt_list(codes_of(tokens_in(lexer.remaining())), 0),
            ),
            r matches Ok(t) ==> stmts_tree(tokens_in(lexer.remaining()), 0, tokens_in(lexer.remaining()).len() as int, t@),
    {
        let toks = tokens_of(lexer)?;
        let r = parse_stmt_list(&toks, 0);
        complete(&toks, r)
    }
}

/// The parser for the rule `BlockStmt`: one block statement.
pub struct BlockStmtParser {}

impl BlockStmtParser {
    /// A parser for the rule `BlockStmt`.
    pub fn new() -> (p: BlockStmtParser) {
        BlockStmtParser {  }
    }

    /// Parses all the tokens of `lexer` as one block statement.
    pub fn parse(&self, lexer: Lexer) -> (r: Result<Box<BlockStmt>, ParseError>)
        ensures
            parsed(
                r,
                lexer.remaining(),
                rec_block_stmt(codes_of(tokens_in(lexer.remaining())), 0),
            ),
            r matches Ok(t) ==> block_tree(tokens_in(lexer.remaining()), 0, tokens_in(lexer.remaining()).len() as int, *t),
    {
        let toks = tokens_of(lexer)?;
        let r = parse_block_stmt(&toks, 0);
        complete(&toks, r)
    }
}

/// The parser for the rule `LineStmt`: one line statement, without its semicolon.
pub struct LineStmtParser {}

impl LineStmtParser {
    /// A parser for the rule `LineStmt`.
    pub fn new() -> (p: LineStmtParser) {
        LineStmtParser {  }
    }

    /// Parses all the tokens of `lexer` as one line statement, without its semicolon.
    pub fn parse(&self, lexer: Lexer) -> (r: Result<Box<LineStmt>, ParseError>)
        ensures
            parsed(
                r,
                lexer.remaining(),
                rec_line_stmt(codes_of(tokens_in(lexer.remaining())), 0),
            ),
            r matches Ok(t) ==> line_tree(tokens_in(lexer.remaining()), 0, tokens_in(lexer.remaining()).len() as int, *t),
    {
        let toks = tokens_of(lexer)?;
        let r = parse_line_stmt(&toks, 0);
        complete(&toks, r)
    }
}

/// The parser for the rule `CallExp`: one call.
pub struct CallExpParser {}

impl CallExpParser {
    /// A parser for the rule `CallExp`.
    pub fn new() -> (p: CallExpParser) {
        CallExpParser {  }
    }

    /// Parses all the tokens of `lexer` as one call.
    pub fn parse(&self, lexer: Lexer) -> (r: Result<Box<CallExp>, ParseError>)
        ensures
            parsed(
                r,
                lexer.remaining(),
                rec_call(codes_of(tokens_in(lexer.remaining())), 0),
            ),
            r matches Ok(t) ==> call_tree(tokens_in(lexer.remaining()), 0, tokens_in(lexer.remaining()).len() as int, *t),
    {
        let toks = tokens_of(lexer)?;
        let r = parse_call(&toks, 0);
        complete(&toks, r)
    }
}

/// The parser for the rule `Exp`: one expression.
pub struct ExpParser {}

impl ExpParser {
    /// A parser for the rule `Exp`.
    pub fn new() -> (p: ExpParser) {
        ExpParser {  }
    }

    /// Parses all the tokens of `lexer` as one expression.
    pub fn parse(&self, lexer: Lexer) -> (r: Result<Box<Exp>, ParseError>)
        ensures
            parsed(
                r,
                lexer.remaining(),
                rec_exp(codes_of(tokens_in(lexer.remaining())), 0),
            ),
            r matches Ok(t) ==> exp_tree(tokens_in(lexer.remaining()), 0, tokens_in(lexer.remaining()).len() as int, *t),
    {
        let toks = tokens_of(lexer)?;
        let r = parse_exp(&toks, 0);
        complete(&toks, r)
    }
}

/// The parser for the rule `ActualsList`: a list of actuals.
pub struct ActualsListParser {}

impl ActualsListParser {
    /// A parser for the rule `ActualsList`.
    pub fn new() -> (p: ActualsListParser) {
        ActualsListParser {  }
    }

    /// Parses all the tokens of `lexer` as a list of actuals.
    pub fn parse(&self, lexer: Lexer) -> (r: Result<Vec<Box<Exp>>, ParseError>)
        ensures
            parsed(
                r,
                lexer.remaining(),
                rec_actuals(codes_of(tokens_in(lexer.remaining())), 0),
            ),
            r matches Ok(t) ==> actuals_tree(tokens_in(lexer.remaining()), 0, tokens_in(lexer.remaining()).len() as int, t@),
    {
        let toks = tokens_of(lexer)?;
        let r = parse_actuals(&toks, 0);
        complete(&toks, r)
    }
}

/// The parser for the rule `Term`: one term.
pub struct TermParser {}

impl TermParser {
    /// A parser for the rule `Term`.
    pub fn new() -> (p: TermParser) {
        TermParser {  }
    }

    /// Parses all the tokens of `lexer` as one term.
    pub fn parse(&self, lexer: Lexer) -> (r: Result<Box<Exp>, ParseError>)
        ensures
            parsed(
                r,
                lexer.remaining(),
                rec_term(codes_of(tokens_in(lexer.remaining())), 0),
            ),
            r matches Ok(t) ==> term_tree(tokens_in(lexer.remaining()), 0, tokens_in(lexer.remaining()).len() as int, *t),
    {
        let toks = tokens_of(lexer)?;
        let r = parse_term(&toks, 0);
        complete(&toks, r)
    }
}

/// The parser for the rule `Loc`: one location.
pub struct LocParser {}

impl LocParser {
    /// A parser for the rule `Loc`.
    pub fn new() -> (p: LocParser) {
        LocParser {  }
    }

    /// Parses all the tokens of `lexer` as one location.
    pub fn parse(&self, lexer: Lexer) -> (r: Result<Box<Loc>, ParseError>)
        ensures
            parsed(
                r,
                lexer.remaining(),
                rec_loc(codes_of(tokens_in(lexer.remaining())), 0),
            ),
            r matches Ok(t) ==> loc_tree(tokens_in(lexer.remaining()), 0, tokens_in(lexer.remaining()).len() as int, *t),
    {
        let toks = tokens_of(lexer)?;
        let r = parse_loc(&toks, 0);
        complete(&toks, r)
    }
}

/// The parser for the rule `Id`: one identifier.
pub struct IdParser {}

impl IdParser {
    /// A parser for the rule `Id`.
    pub fn new() -> (p: IdParser) {
        IdParser {  }
    }

    /// Parses all the tokens of `lexer` as one identifier.
    pub fn parse(&self, lexer: Lexer) -> (r: Result<Box<Id>, ParseError>)
        ensures
            parsed(
                r,
                lexer.remaining(),
                rec_id(codes_of(tokens_in(lexer.remaining())), 0),
            ),
            r matches Ok(t) ==> id_tree(tokens_in(lexer.remaining()), 0, tokens_in(lexer.remaining()).len() as int, *t),
    {
        let toks = tokens_of(lexer)?;
        let r = parse_id(&toks, 0);
        complete(&toks, r)
    }
}

/// The rules of the grammar that have a parser of their own.
#[derive(Debug, Clone, Copy, PartialEq, Eq, Structural)]
pub enum ParserType {
    Program,
    Decl,
    VarDecl,
    Type,
    PrimType,
    ClassDecl,
    ClassBody,
    FnDecl,
    FormalsList,
    FormalDecl,
    StmtList,
    BlockStmt,
    LineStmt,
    Exp,
    ActualsList,
    CallExp,
    Term,
    Loc,
    Id,
}

/// Whether a text is meant to be in the language or not.
#[derive(Debug, Clone, Copy, PartialEq, Eq, Structural)]
pub enum InputType {
    Good,
    Bad,
}

/// Where an instance of the rule `rule` that starts at the first token
/// ends, or at which token it goes wrong.
pub open spec fn rule_of(rule: ParserType, toks: Seq<u8>) -> Recognized {
    match rule {
        ParserType::Program => rec_program(toks, 0),
        ParserType::Decl => rec_decl(toks, 0),
        ParserType::VarDecl => rec_var_decl(toks, 0),
        ParserType::Type => rec_type(toks, 0),
        ParserType::PrimType => rec_prim_type(toks, 0),
        ParserType::ClassDecl => rec_class_decl(toks, 0),
        ParserType::ClassBody => rec_class_body(toks, 0),
        ParserType::FnDecl => rec_fn_decl(toks, 0),
        ParserType::FormalsList => rec_formals_list(toks, 0),
        ParserType::FormalDecl => rec_formal_decl(toks, 0),
        ParserType::StmtList => rec_stmt_list(toks, 0),
        ParserType::BlockStmt => rec_block_stmt(toks, 0),
        ParserType::LineStmt => rec_line_stmt(toks, 0),
        ParserType::Exp => rec_exp(toks, 0),
        ParserType::ActualsList => rec_actuals(toks, 0),
        ParserType::CallExp => rec_call(toks, 0),
        ParserType::Term => rec_term(toks, 0),
        ParserType::Loc => rec_loc(toks, 0),
        ParserType::Id => rec_id(toks, 0),
    }
}

/// Whether no lexeme of the text raises an error.
pub open spec fn lexes(s: Seq<char>) -> bool {
    forall|i: int| 0 <= i < lexemes_of(s).len() ==> (#[trigger] lexemes_of(s)[i]).token is Ok
}

/// The variants of the tokens of a text that lexes.
pub open spec fn text_codes(s: Seq<char>) -> Seq<u8> {
    Seq::new(lexemes_of(s).len(), |i: int| lexemes_of(s)[i].token->Ok_0.spec_code())
}

/// Whether `s` as a whole is an instance of the rule `rule`: it lexes
/// without an error, and the rule takes in all its tokens.
pub open spec fn accepted(rule: ParserType, s: Seq<char>) -> bool {
    lexes(s) && whole(rule_of(rule, text_codes(s)), lexemes_of(s).len())
}

/// Whether `text` as a whole is an instance of the rule `rule`.
pub fn accepts(rule: &ParserType, text: &str) -> (b: bool)
    ensures
        b == accepted(*rule, text@),
{
    let lexer = Lexer::new(text);
    proof {
        let items = lexer.remaining();
        assert(items.len() == lexemes_of(text@).len());
        assert forall|i: int| 0 <= i < items.len() implies (#[trigger] items[i]) is Ok
            == lexemes_of(text@)[i].token is Ok by {
            assert(crate::scanner::lexer::spanned_view(items[i])
                == crate::scanner::lexer::spanned_of(text@)[i]);
        }
        if all_tokens(items) {
            lemma_codes(tokens_in(items));
            assert forall|i: int| 0 <= i < lexemes_of(text@).len() implies (
            #[trigger] lexemes_of(text@)[i]).token is Ok by {
                assert(items[i] is Ok);
            }
            assert forall|i: int| 0 <= i < items.len() implies codes_of(tokens_in(items))[i]
                == text_codes(text@)[i] by {
                assert(crate::scanner::lexer::spanned_view(items[i])
                    == crate::scanner::lexer::spanned_of(text@)[i]);
            }
            assert(codes_of(tokens_in(items)) =~= text_codes(text@));
        } else {
            let k = choose|k: int| 0 <= k < items.len() && !(#[trigger] items[k] is Ok);
            assert(!(lexemes_of(text@)[k].token is Ok));
        }
    }
    match rule {
        ParserType::Program => ProgramParser::new().parse(lexer).is_ok(),
        ParserType::Decl => DeclParser::new().parse(lexer).is_ok(),
        ParserType::VarDecl => VarDeclParser::new().parse(lexer).is_ok(),
        ParserType::Type => TypeParser::new().parse(lexer).is_ok(),
        ParserType::PrimType => PrimTypeParser::new().parse(lexer).is_ok(),
        ParserType::ClassDecl => ClassDeclParser::new().parse(lexer).is_ok(),
        ParserType::ClassBody => ClassBodyParser::new().parse(lexer).is_ok(),
        ParserType::FnDecl => FnDeclParser::new().parse(lexer).is_ok(),
        ParserType::FormalsList => FormalsListParser::new().parse(lexer).is_ok(),
        ParserType::FormalDecl => FormalDeclParser::new().parse(lexer).is_ok(),
        ParserType::StmtList => StmtListParser::new().parse(lexer).is_ok(),
        ParserType::BlockStmt => BlockStmtParser::new().parse(lexer).is_ok(),
        ParserType::LineStmt => LineStmtParser::new().parse(lexer).is_ok(),
        ParserType::Exp => ExpParser::new().parse(lexer).is_ok(),
        ParserType::ActualsList => ActualsListParser::new().parse(lexer).is_ok(),
        ParserType::CallExp => CallExpParser::new().parse(lexer).is_ok(),
        ParserType::Term => TermParser::new().parse(lexer).is_ok(),
        ParserType::Loc => LocParser::new().parse(lexer).is_ok(),
        ParserType::Id => IdParser::new().parse(lexer).is_ok(),
    }
}

/// Whether `text` behaves under the rule `rule` as `input` says it should:
/// accepted when it is meant to be in the language, rejected when it is
/// not.
pub fn behaves(rule: &ParserType, input: &InputType, text: &str) -> (b: bool)
    ensures
        b == (accepted(*rule, text@) == (*input == InputType::Good)),
{
    let ok = accepts(rule, text);
    match input {
        InputType::Good => ok,
        InputType::Bad => !ok,
    }
}

} // verus!
