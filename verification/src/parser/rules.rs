//! The rules of the grammar as recognizers: for each rule, where an
//! instance of it that starts at a given token ends, or at which token it
//! goes wrong. A text is seen as the sequence of the variants of its
//! tokens: what an identifier or a literal holds plays no part.

use vstd::prelude::*;
use vstd::string::*;
use crate::scanner::tokens::{Token, TokenType};

verus! {

/// Where an instance of a rule ends (the index of the first token after
/// it), or the index of the token at which it goes wrong, which is the
/// number of tokens when the text ends too early.
pub type Recognized = Result<int, int>;

/// The variants of tokens, each as its place in the list of variants.
#[verifier::opaque]
pub open spec fn codes_of(toks: Seq<(usize, TokenType, usize)>) -> Seq<u8> {
    Seq::new(toks.len(), |i: int| toks[i].1.spec_code())
}

/// There are as many codes as tokens.
pub proof fn lemma_codes_len(toks: Seq<(usize, TokenType, usize)>)
    ensures
        codes_of(toks).len() == toks.len(),
{
    reveal(codes_of);
}

/// Each code is that of the token at its place.
pub proof fn lemma_codes(toks: Seq<(usize, TokenType, usize)>)
    ensures
        codes_of(toks).len() == toks.len(),
        forall|i: int| 0 <= i < toks.len() ==> #[trigger] codes_of(toks)[i] == toks[i].1.spec_code(),
{
    reveal(codes_of);
}

/// Whether the token at `pos` is of the same variant as `t`.
pub open spec fn on(toks: Seq<u8>, pos: int, t: TokenType) -> bool {
    0 <= pos < toks.len() && toks[pos] == t.spec_code()
}

/// Whether the token at `pos` is an identifier.
pub open spec fn on_id(toks: Seq<u8>, pos: int) -> bool {
    0 <= pos < toks.len() && toks[pos] == Token::ID(Seq::empty()).spec_code()
}

/// The token `t` at `pos`, or the failure there.
pub open spec fn rec_token(toks: Seq<u8>, pos: int, t: TokenType) -> Recognized {
    if on(toks, pos, t) {
        Ok(pos + 1)
    } else {
        Err(pos)
    }
}

/// `Id ::= ID`
pub open spec fn rec_id(toks: Seq<u8>, pos: int) -> Recognized {
    if on_id(toks, pos) {
        Ok(pos + 1)
    } else {
        Err(pos)
    }
}

/// `("--" Id)*`
pub open spec fn rec_loc_rest(toks: Seq<u8>, pos: int) -> Recognized
    decreases toks.len() - pos,
{
    if on(toks, pos, TokenType::POSTDEC) && on_id(toks, pos + 1) {
        rec_loc_rest(toks, pos + 2)
    } else {
        Ok(pos)
    }
}

/// `Loc ::= Id ("--" Id)*`
pub open spec fn rec_loc(toks: Seq<u8>, pos: int) -> Recognized {
    match rec_id(toks, pos) {
        Ok(q) => rec_loc_rest(toks, q),
        Err(e) => Err(e),
    }
}

/// `PrimType ::= "int" | "bool" | "void"`
pub open spec fn rec_prim_type(toks: Seq<u8>, pos: int) -> Recognized {
    if on(toks, pos, TokenType::INT) || on(toks, pos, TokenType::BOOL) || on(
        toks,
        pos,
        TokenType::VOID,
    ) {
        Ok(pos + 1)
    } else {
        Err(pos)
    }
}

/// `Type ::= "perfect"? (PrimType | Id)`
pub open spec fn rec_type(toks: Seq<u8>, pos: int) -> Recognized {
    let q = if on(toks, pos, TokenType::PERFECT) {
        pos + 1
    } else {
        pos
    };
    if on_id(toks, q) {
        Ok(q + 1)
    } else {
        rec_prim_type(toks, q)
    }
}

/// Whether the token at `pos` is a literal: a number, a string, `true`,
/// `false` or `24Kmagic`.
pub open spec fn on_literal(toks: Seq<u8>, pos: int) -> bool {
    0 <= pos < toks.len() && (toks[pos] == Token::INTLITERAL(0).spec_code() || toks[pos]
        == Token::STRINGLITERAL(Seq::empty()).spec_code() || toks[pos] == Token::TRUE.spec_code()
        || toks[pos] == Token::FALSE.spec_code() || toks[pos] == Token::MAGIC.spec_code())
}

/// `Term ::= Loc | literal | "(" Exp ")" | CallExp`
pub open spec fn rec_term(toks: Seq<u8>, pos: int) -> Recognized
    decreases toks.len() - pos, 1int,
{
    if on_literal(toks, pos) {
        Ok(pos + 1)
    } else if on(toks, pos, TokenType::LPAREN) {
        match rec_exp(toks, pos + 1) {
            Ok(q) => rec_token(toks, q, TokenType::RPAREN),
            Err(e) => Err(e),
        }
    } else if on_id(toks, pos) {
        match rec_loc(toks, pos) {
            Ok(q) => if pos < q && on(toks, q, TokenType::LPAREN) {
                rec_call_rest(toks, q)
            } else {
                Ok(q)
            },
            Err(e) => Err(e),
        }
    } else {
        Err(pos)
    }
}

/// `"(" ActualsList? ")"`
pub open spec fn rec_call_rest(toks: Seq<u8>, pos: int) -> Recognized
    decreases toks.len() - pos, 0int,
{
    if !on(toks, pos, TokenType::LPAREN) {
        Err(pos)
    } else if on(toks, pos + 1, TokenType::RPAREN) {
        Ok(pos + 2)
    } else {
        match rec_actuals(toks, pos + 1) {
            Ok(q) => rec_token(toks, q, TokenType::RPAREN),
            Err(e) => Err(e),
        }
    }
}

/// `("," Exp)*`
pub open spec fn rec_actuals_rest(toks: Seq<u8>, pos: int) -> Recognized
    decreases toks.len() - pos, 0int,
{
    if on(toks, pos, TokenType::COMMA) {
        match rec_exp(toks, pos + 1) {
            Ok(q) => if pos < q <= toks.len() {
                rec_actuals_rest(toks, q)
            } else {
                Err(pos)
            },
            Err(e) => Err(e),
        }
    } else {
        Ok(pos)
    }
}

/// `ActualsList ::= Exp ("," Exp)*`
pub open spec fn rec_actuals(toks: Seq<u8>, pos: int) -> Recognized
    decreases toks.len() - pos, 8int,
{
    match rec_exp(toks, pos) {
        Ok(q) => if pos < q <= toks.len() {
            rec_actuals_rest(toks, q)
        } else {
            Err(pos)
        },
        Err(e) => Err(e),
    }
}

/// `CallExp ::= Loc "(" ActualsList? ")"`
pub open spec fn rec_call(toks: Seq<u8>, pos: int) -> Recognized {
    match rec_loc(toks, pos) {
        Ok(q) => rec_call_rest(toks, q),
        Err(e) => Err(e),
    }
}

/// `Unary ::= "!" Unary | "-" Term | Term`
pub open spec fn rec_unary(toks: Seq<u8>, pos: int) -> Recognized
    decreases toks.len() - pos, 2int,
{
    if on(toks, pos, TokenType::NOT) {
        rec_unary(toks, pos + 1)
    } else if on(toks, pos, TokenType::DASH) {
        rec_term(toks, pos + 1)
    } else {
        rec_term(toks, pos)
    }
}

/// `(("*" | "/") Unary)*`
pub open spec fn rec_prod_rest(toks: Seq<u8>, pos: int) -> Recognized
    decreases toks.len() - pos, 0int,
{
    if on(toks, pos, TokenType::STAR) || on(toks, pos, TokenType::SLASH) {
        match rec_unary(toks, pos + 1) {
            Ok(q) => if pos < q <= toks.len() {
                rec_prod_rest(toks, q)
            } else {
                Err(pos)
            },
            Err(e) => Err(e),
        }
    } else {
        Ok(pos)
    }
}

/// `Prod ::= Unary (("*" | "/") Unary)*`
pub open spec fn rec_prod(toks: Seq<u8>, pos: int) -> Recognized
    decreases toks.len() - pos, 3int,
{
    match rec_unary(toks, pos) {
        Ok(q) => if pos < q <= toks.len() {
            rec_prod_rest(toks, q)
        } else {
            Err(pos)
        },
        Err(e) => Err(e),
    }
}

/// `(("+" | "-") Prod)*`
pub open spec fn rec_sum_rest(toks: Seq<u8>, pos: int) -> Recognized
    decreases toks.len() - pos, 0int,
{
    if on(toks, pos, TokenType::CROSS) || on(toks, pos, TokenType::DASH) {
        match rec_prod(toks, pos + 1) {
            Ok(q) => if pos < q <= toks.len() {
                rec_sum_rest(toks, q)
            } else {
                Err(pos)
            },
            Err(e) => Err(e),
        }
    } else {
        Ok(pos)
    }
}

/// `Sum ::= Prod (("+" | "-") Prod)*`
pub open spec fn rec_sum(toks: Seq<u8>, pos: int) -> Recognized
    decreases toks.len() - pos, 4int,
{
    match rec_prod(toks, pos) {
        Ok(q) => if pos < q <= toks.len() {
            rec_sum_rest(toks, q)
        } else {
            Err(pos)
        },
        Err(e) => Err(e),
    }
}

/// Whether the token at `pos` is a comparison operator.
pub open spec fn on_comparison(toks: Seq<u8>, pos: int) -> bool {
    on(toks, pos, TokenType::EQUALS) || on(toks, pos, TokenType::NOTEQUALS) || on(
        toks,
        pos,
        TokenType::GREATER,
    ) || on(toks, pos, TokenType::GREATEREQ) || on(toks, pos, TokenType::LESS) || on(
        toks,
        pos,
        TokenType::LESSEQ,
    )
}

/// `Cmp ::= Sum (comparison Sum)?`
pub open spec fn rec_relation(toks: Seq<u8>, pos: int) -> Recognized
    decreases toks.len() - pos, 5int,
{
    match rec_sum(toks, pos) {
        Ok(q) => if pos <= q && on_comparison(toks, q) {
            rec_sum(toks, q + 1)
        } else {
            Ok(q)
        },
        Err(e) => Err(e),
    }
}

/// `("and" Cmp)*`
pub open spec fn rec_and_rest(toks: Seq<u8>, pos: int) -> Recognized
    decreases toks.len() - pos, 0int,
{
    if on(toks, pos, TokenType::AND) {
        match rec_relation(toks, pos + 1) {
            Ok(q) => if pos < q <= toks.len() {
                rec_and_rest(toks, q)
            } else {
                Err(pos)
            },
            Err(e) => Err(e),
        }
    } else {
        Ok(pos)
    }
}

/// `And ::= Cmp ("and" Cmp)*`
pub open spec fn rec_and(toks: Seq<u8>, pos: int) -> Recognized
    decreases toks.len() - pos, 6int,
{
    match rec_relation(toks, pos) {
        Ok(q) => if pos < q <= toks.len() {
            rec_and_rest(toks, q)
        } else {
            Err(pos)
        },
        Err(e) => Err(e),
    }
}

/// `("or" And)*`
pub open spec fn rec_or_rest(toks: Seq<u8>, pos: int) -> Recognized
    decreases toks.len() - pos, 0int,
{
    if on(toks, pos, TokenType::OR) {
        match rec_and(toks, pos + 1) {
            Ok(q) => if pos < q <= toks.len() {
                rec_or_rest(toks, q)
            } else {
                Err(pos)
            },
            Err(e) => Err(e),
        }
    } else {
        Ok(pos)
    }
}

/// `Exp ::= And ("or" And)*`
pub open spec fn rec_exp(toks: Seq<u8>, pos: int) -> Recognized
    decreases toks.len() - pos, 7int,
{
    match rec_and(toks, pos) {
        Ok(q) => if pos < q <= toks.len() {
            rec_or_rest(toks, q)
        } else {
            Err(pos)
        },
        Err(e) => Err(e),
    }
}

/// `("=" Exp)? ";"`
pub open spec fn rec_init(toks: Seq<u8>, pos: int) -> Recognized {
    if on(toks, pos, TokenType::ASSIGN) {
        match rec_exp(toks, pos + 1) {
            Ok(q) => rec_token(toks, q, TokenType::SEMICOL),
            Err(e) => Err(e),
        }
    } else {
        rec_token(toks, pos, TokenType::SEMICOL)
    }
}

/// `Id ":" Type`
pub open spec fn rec_formal_decl(toks: Seq<u8>, pos: int) -> Recognized {
    match rec_id(toks, pos) {
        Ok(q) => match rec_token(toks, q, TokenType::COLON) {
            Ok(q2) => rec_type(toks, q2),
            Err(e) => Err(e),
        },
        Err(e) => Err(e),
    }
}

/// `VarDecl ::= Id ":" Type ("=" Exp)? ";"`
pub open spec fn rec_var_decl(toks: Seq<u8>, pos: int) -> Recognized {
    match rec_formal_decl(toks, pos) {
        Ok(q) => rec_init(toks, q),
        Err(e) => Err(e),
    }
}

/// `("," FormalDecl)*`
pub open spec fn rec_formals_rest(toks: Seq<u8>, pos: int) -> Recognized
    decreases toks.len() - pos,
{
    if on(toks, pos, TokenType::COMMA) {
        match rec_formal_decl(toks, pos + 1) {
            Ok(q) => if pos < q <= toks.len() {
                rec_formals_rest(toks, q)
            } else {
                Err(pos)
            },
            Err(e) => Err(e),
        }
    } else {
        Ok(pos)
    }
}

/// `FormalsList ::= (FormalDecl ("," FormalDecl)*)?`
pub open spec fn rec_formals_list(toks: Seq<u8>, pos: int) -> Recognized {
    if !on_id(toks, pos) {
        Ok(pos)
    } else {
        match rec_formal_decl(toks, pos) {
            Ok(q) => rec_formals_rest(toks, q),
            Err(e) => Err(e),
        }
    }
}

/// What follows the location of a line statement: `= Exp`, `--`, `++`, or
/// the actuals of a call.
pub open spec fn rec_after_loc(toks: Seq<u8>, pos: int) -> Recognized {
    if on(toks, pos, TokenType::ASSIGN) {
        rec_exp(toks, pos + 1)
    } else if on(toks, pos, TokenType::POSTDEC) || on(toks, pos, TokenType::POSTINC) {
        Ok(pos + 1)
    } else if on(toks, pos, TokenType::LPAREN) {
        rec_call_rest(toks, pos)
    } else {
        Err(pos)
    }
}

/// `LineStmt ::= Loc "=" Exp | Loc "--" | Loc "++" | "give" Exp | "take"
/// Loc | "return" Exp? | EXIT | CallExp`
pub open spec fn rec_line_stmt(toks: Seq<u8>, pos: int) -> Recognized {
    if on(toks, pos, TokenType::GIVE) {
        rec_exp(toks, pos + 1)
    } else if on(toks, pos, TokenType::TAKE) {
        rec_loc(toks, pos + 1)
    } else if on(toks, pos, TokenType::RETURN) {
        if pos + 1 >= toks.len() || on(toks, pos + 1, TokenType::SEMICOL) {
            Ok(pos + 1)
        } else {
            rec_exp(toks, pos + 1)
        }
    } else if on(toks, pos, TokenType::EXIT) {
        Ok(pos + 1)
    } else {
        match rec_loc(toks, pos) {
            Ok(q) => rec_after_loc(toks, q),
            Err(e) => Err(e),
        }
    }
}

/// One statement of a statement list: a block statement, a variable
/// declaration, or a line statement and its semicolon.
pub open spec fn rec_stmt(toks: Seq<u8>, pos: int) -> Recognized
    decreases toks.len() - pos, 2int,
{
    if on(toks, pos, TokenType::WHILE) || on(toks, pos, TokenType::IF) {
        rec_block_stmt(toks, pos)
    } else if on_id(toks, pos) && on(toks, pos + 1, TokenType::COLON) {
        rec_var_decl(toks, pos)
    } else {
        match rec_line_stmt(toks, pos) {
            Ok(q) => rec_token(toks, q, TokenType::SEMICOL),
            Err(e) => Err(e),
        }
    }
}

/// `StmtList`, up to a closing brace or the end of the text.
pub open spec fn rec_stmt_list(toks: Seq<u8>, pos: int) -> Recognized
    decreases toks.len() - pos, 3int,
{
    if pos < 0 || pos >= toks.len() || on(toks, pos, TokenType::RCURLY) {
        Ok(pos)
    } else {
        match rec_stmt(toks, pos) {
            Ok(q) => if pos < q <= toks.len() {
                rec_stmt_list(toks, q)
            } else {
                Err(pos)
            },
            Err(e) => Err(e),
        }
    }
}

/// `"{" StmtList "}"`
pub open spec fn rec_body(toks: Seq<u8>, pos: int) -> Recognized
    decreases toks.len() - pos, 0int,
{
    if on(toks, pos, TokenType::LCURLY) {
        match rec_stmt_list(toks, pos + 1) {
            Ok(q) => rec_token(toks, q, TokenType::RCURLY),
            Err(e) => Err(e),
        }
    } else {
        Err(pos)
    }
}

/// What follows the first body of an `if`: nothing, or `else` and a
/// second body.
pub open spec fn rec_else(toks: Seq<u8>, pos: int, start: int) -> Recognized
    decreases toks.len() - start, 0int,
{
    if pos > start && on(toks, pos, TokenType::ELSE) {
        rec_body(toks, pos + 1)
    } else {
        Ok(pos)
    }
}

/// `BlockStmt ::= "while" "(" Exp ")" Body | "if" "(" Exp ")" Body ("else"
/// Body)?`
pub open spec fn rec_block_stmt(toks: Seq<u8>, pos: int) -> Recognized
    decreases toks.len() - pos, 1int,
{
    if !(on(toks, pos, TokenType::WHILE) || on(toks, pos, TokenType::IF)) {
        Err(pos)
    } else {
        match rec_token(toks, pos + 1, TokenType::LPAREN) {
            Ok(q1) => match rec_exp(toks, q1) {
                Ok(q2) => match rec_token(toks, q2, TokenType::RPAREN) {
                    Ok(q3) => if pos < q3 <= toks.len() {
                        match rec_body(toks, q3) {
                            Ok(q4) => if on(toks, pos, TokenType::WHILE) {
                                Ok(q4)
                            } else {
                                rec_else(toks, q4, pos)
                            },
                            Err(e) => Err(e),
                        }
                    } else {
                        Err(pos)
                    },
                    Err(e) => Err(e),
                },
                Err(e) => Err(e),
            },
            Err(e) => Err(e),
        }
    }
}

/// `FnDecl ::= Id ":" "(" FormalsList ")" Type Body`
pub open spec fn rec_fn_decl(toks: Seq<u8>, pos: int) -> Recognized {
    match rec_id(toks, pos) {
        Ok(q1) => match rec_token(toks, q1, TokenType::COLON) {
            Ok(q2) => match rec_token(toks, q2, TokenType::LPAREN) {
                Ok(q3) => match rec_formals_list(toks, q3) {
                    Ok(q4) => match rec_token(toks, q4, TokenType::RPAREN) {
                        Ok(q5) => match rec_type(toks, q5) {
                            Ok(q6) => rec_body(toks, q6),
                            Err(e) => Err(e),
                        },
                        Err(e) => Err(e),
                    },
                    Err(e) => Err(e),
                },
                Err(e) => Err(e),
            },
            Err(e) => Err(e),
        },
        Err(e) => Err(e),
    }
}

/// One member of a class: a function when a colon and an opening
/// parenthesis follow its name, a variable otherwise.
pub open spec fn rec_member(toks: Seq<u8>, pos: int) -> Recognized {
    if on(toks, pos + 1, TokenType::COLON) && on(toks, pos + 2, TokenType::LPAREN) {
        rec_fn_decl(toks, pos)
    } else {
        rec_var_decl(toks, pos)
    }
}

/// `ClassBody ::= (VarDecl | FnDecl)*`, up to a closing brace or the end
/// of the text.
pub open spec fn rec_class_body(toks: Seq<u8>, pos: int) -> Recognized
    decreases toks.len() - pos,
{
    if pos < 0 || pos >= toks.len() || on(toks, pos, TokenType::RCURLY) {
        Ok(pos)
    } else {
        match rec_member(toks, pos) {
            Ok(q) => if pos < q <= toks.len() {
                rec_class_body(toks, q)
            } else {
                Err(pos)
            },
            Err(e) => Err(e),
        }
    }
}

/// `ClassDecl ::= Id ":" "class" "{" ClassBody "}" ";"`
pub open spec fn rec_class_decl(toks: Seq<u8>, pos: int) -> Recognized {
    match rec_id(toks, pos) {
        Ok(q1) => match rec_token(toks, q1, TokenType::COLON) {
            Ok(q2) => match rec_token(toks, q2, TokenType::CLASS) {
                Ok(q3) => match rec_token(toks, q3, TokenType::LCURLY) {
                    Ok(q4) => match rec_class_body(toks, q4) {
                        Ok(q5) => match rec_token(toks, q5, TokenType::RCURLY) {
                            Ok(q6) => rec_token(toks, q6, TokenType::SEMICOL),
                            Err(e) => Err(e),
                        },
                        Err(e) => Err(e),
                    },
                    Err(e) => Err(e),
                },
                Err(e) => Err(e),
            },
            Err(e) => Err(e),
        },
        Err(e) => Err(e),
    }
}

/// `Decl ::= VarDecl | ClassDecl | FnDecl`: a class when a colon and
/// `class` follow the name, a function when a colon and an opening
/// parenthesis do, a variable otherwise.
pub open spec fn rec_decl(toks: Seq<u8>, pos: int) -> Recognized {
    if pos < 0 || pos >= toks.len() {
        Err(pos)
    } else if on(toks, pos + 1, TokenType::COLON) && on(toks, pos + 2, TokenType::CLASS) {
        rec_class_decl(toks, pos)
    } else if on(toks, pos + 1, TokenType::COLON) && on(toks, pos + 2, TokenType::LPAREN) {
        rec_fn_decl(toks, pos)
    } else {
        rec_var_decl(toks, pos)
    }
}

/// `Program ::= Decl*`, up to the end of the text.
pub open spec fn rec_program(toks: Seq<u8>, pos: int) -> Recognized
    decreases toks.len() - pos,
{
    if pos < 0 || pos >= toks.len() {
        Ok(pos)
    } else {
        match rec_decl(toks, pos) {
            Ok(q) => if pos < q <= toks.len() {
                rec_program(toks, q)
            } else {
                Err(pos)
            },
            Err(e) => Err(e),
        }
    }
}

} // verus!
