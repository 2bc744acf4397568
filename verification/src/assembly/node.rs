//! The generation of three-address code as methods of the nodes of the
//! syntax tree.

use vstd::prelude::*;
use vstd::string::*;
use crate::assembly::emit::{
    lower_binary,
    lower_block,
    lower_call_value,
    lower_exp,
    lower_fn,
    lower_line,
    lower_stmt,
    lower_unary,
    lower_var_decl,
    strings_view,
    Emitter,
};
use crate::assembly::ir::{
    binary_op_name,
    binary_op_text,
    unary_op_name,
    unary_op_text,
    Operand,
    Variable3ACType,
};
use crate::assembly::symbols::{
    collect_args_strings,
    collect_exp_strings,
    collect_line_strings,
    collect_opt_strings,
    collect_stmt_strings,
    collect_stmts_strings,
};
use crate::assembly::three_ac::{
    args_strings,
    binary_code,
    block_code,
    call_value_code,
    exp_code,
    exp_strings,
    fn_code,
    line_code,
    line_strings,
    opt_strings,
    stmt_code,
    stmt_strings,
    stmts_strings,
    unary_code,
    var_decl_code,
    ExpCode,
    StmtCode,
};
use crate::parser::ast::{
    BinaryExp,
    BinaryExpKind,
    BlockStmt,
    CallExp,
    Exp,
    ExpKind,
    FnDecl,
    LineStmt,
    Stmt,
    UnaryExp,
    UnaryExpKind,
    VarDecl,
};

verus! {

/// An operator that has a name in three-address code.
pub trait ExpKind3AC: Sized {
    /// The name of the operator.
    spec fn spec_3ac(self) -> Seq<char>;

    /// The name of the operator.
    fn to_3ac(&self) -> (s: String)
        ensures
            s@ == self.spec_3ac(),
    ;
}

impl ExpKind3AC for UnaryExpKind {
    open spec fn spec_3ac(self) -> Seq<char> {
        unary_op_text(self)
    }

    fn to_3ac(&self) -> (s: String) {
        String::from_str(unary_op_name(*self))
    }
}

impl ExpKind3AC for BinaryExpKind {
    open spec fn spec_3ac(self) -> Seq<char> {
        binary_op_text(self)
    }

    fn to_3ac(&self) -> (s: String) {
        String::from_str(binary_op_name(*self))
    }
}

/// A node that has a value: an expression, an operation or a call.
pub trait Exp3AC: Sized {
    /// The string literals of the node, in the order in which they stand.
    spec fn literals(self) -> Seq<Seq<char>>;

    /// The code of the node in a function that has `base` temporaries so
    /// far, with the string pool `pool`.
    spec fn code(self, pool: Seq<Seq<char>>, base: nat) -> ExpCode;

    /// Adds the string literals of the node to the pool.
    fn find_vars(&self, pool: &mut Vec<String>)
        ensures
            strings_view(final(pool)@) == strings_view(old(pool)@) + self.literals(),
    ;

    /// Emits the code of the node and gives back the operand that holds
    /// its value.
    fn convert_3ac(&self, pool: &Vec<String>, em: &mut Emitter) -> (v: Operand<String>)
        requires
            old(em).wf(),
        ensures
            final(em).follows(
                *old(em),
                self.code(strings_view(pool@), old(em).tmps@.len()).code,
                self.code(strings_view(pool@), old(em).tmps@.len()).tmps,
                old(em).counts.lbl as nat,
            ),
            v@ == self.code(strings_view(pool@), old(em).tmps@.len()).value,
    ;
}

impl Exp3AC for Exp {
    open spec fn literals(self) -> Seq<Seq<char>> {
        exp_strings(self)
    }

    open spec fn code(self, pool: Seq<Seq<char>>, base: nat) -> ExpCode {
        exp_code(self, pool, base)
    }

    fn find_vars(&self, pool: &mut Vec<String>) {
        collect_exp_strings(self, pool);
    }

    fn convert_3ac(&self, pool: &Vec<String>, em: &mut Emitter) -> (v: Operand<String>) {
        lower_exp(self, pool, em)
    }
}

impl Exp3AC for UnaryExp {
    open spec fn literals(self) -> Seq<Seq<char>> {
        exp_strings(*self.exp)
    }

    open spec fn code(self, pool: Seq<Seq<char>>, base: nat) -> ExpCode {
        unary_code(self, pool, base)
    }

    fn find_vars(&self, pool: &mut Vec<String>) {
        collect_exp_strings(&self.exp, pool);
    }

    fn convert_3ac(&self, pool: &Vec<String>, em: &mut Emitter) -> (v: Operand<String>) {
        lower_unary(self, pool, em)
    }
}

impl Exp3AC for BinaryExp {
    open spec fn literals(self) -> Seq<Seq<char>> {
        exp_strings(*self.lhs) + exp_strings(*self.rhs)
    }

    open spec fn code(self, pool: Seq<Seq<char>>, base: nat) -> ExpCode {
        binary_code(self, pool, base)
    }

    fn find_vars(&self, pool: &mut Vec<String>) {
        collect_exp_strings(&self.lhs, pool);
        collect_exp_strings(&self.rhs, pool);
        proof {
            assert(strings_view(pool@) =~= strings_view(old(pool)@) + self.literals());
        }
    }

    fn convert_3ac(&self, pool: &Vec<String>, em: &mut Emitter) -> (v: Operand<String>) {
        lower_binary(self, pool, em)
    }
}

impl Exp3AC for CallExp {
    open spec fn literals(self) -> Seq<Seq<char>> {
        args_strings(self.args@, self.args@.len() as int)
    }

    open spec fn code(self, pool: Seq<Seq<char>>, base: nat) -> ExpCode {
        call_value_code(self, pool, base)
    }

    fn find_vars(&self, pool: &mut Vec<String>) {
        collect_args_strings(&self.args, pool);
    }

    fn convert_3ac(&self, pool: &Vec<String>, em: &mut Emitter) -> (v: Operand<String>) {
        lower_call_value(self, pool, em)
    }
}

/// A statement.
pub trait Stmt3AC: Sized {
    /// The string literals of the statement, in the order in which they
    /// stand.
    spec fn literals(self) -> Seq<Seq<char>>;

    /// The code of the statement, in a function that has `base`
    /// temporaries so far and whose exit label is `exit`, when `lbl` is
    /// the first unused label.
    spec fn code(self, pool: Seq<Seq<char>>, base: nat, lbl: nat, exit: nat) -> StmtCode;

    /// Adds the string literals of the statement to the pool.
    fn find_vars(&self, pool: &mut Vec<String>)
        ensures
            strings_view(final(pool)@) == strings_view(old(pool)@) + self.literals(),
    ;

    /// Emits the code of the statement, in a function whose exit label is
    /// `leave_lbl`.
    fn convert_3ac(&self, pool: &Vec<String>, em: &mut Emitter, leave_lbl: usize)
        requires
            old(em).wf(),
        ensures
            final(em).follows(
                *old(em),
                self.code(
                    strings_view(pool@),
                    old(em).tmps@.len(),
                    old(em).counts.lbl as nat,
                    leave_lbl as nat,
                ).code,
                self.code(
                    strings_view(pool@),
                    old(em).tmps@.len(),
                    old(em).counts.lbl as nat,
                    leave_lbl as nat,
                ).tmps,
                self.code(
                    strings_view(pool@),
                    old(em).tmps@.len(),
                    old(em).counts.lbl as nat,
                    leave_lbl as nat,
                ).lbl,
            ),
    ;
}

impl Stmt3AC for Stmt {
    open spec fn literals(self) -> Seq<Seq<char>> {
        stmt_strings(self)
    }

    open spec fn code(self, pool: Seq<Seq<char>>, base: nat, lbl: nat, exit: nat) -> StmtCode {
        stmt_code(self, pool, base, lbl, exit)
    }

    fn find_vars(&self, pool: &mut Vec<String>) {
        collect_stmt_strings(self, pool);
    }

    fn convert_3ac(&self, pool: &Vec<String>, em: &mut Emitter, leave_lbl: usize) {
        lower_stmt(self, pool, em, leave_lbl);
    }
}

impl Stmt3AC for BlockStmt {
    open spec fn literals(self) -> Seq<Seq<char>> {
        stmt_strings(Stmt::Block(Box::new(self)))
    }

    open spec fn code(self, pool: Seq<Seq<char>>, base: nat, lbl: nat, exit: nat) -> StmtCode {
        block_code(self, pool, base, lbl, exit)
    }

    fn find_vars(&self, pool: &mut Vec<String>) {
        match self {
            BlockStmt::While { cond, body } => {
                collect_exp_strings(cond, pool);
                collect_stmts_strings(body, pool);
            },
            BlockStmt::If { cond, body } => {
                collect_exp_strings(cond, pool);
                collect_stmts_strings(body, pool);
            },
            BlockStmt::IfElse { cond, true_branch, false_branch } => {
                collect_exp_strings(cond, pool);
                collect_stmts_strings(true_branch, pool);
                collect_stmts_strings(false_branch, pool);
            },
        }
        proof {
            assert(strings_view(pool@) =~= strings_view(old(pool)@) + self.literals());
        }
    }

    fn convert_3ac(&self, pool: &Vec<String>, em: &mut Emitter, leave_lbl: usize) {
        lower_block(self, pool, em, leave_lbl);
    }
}

impl Stmt3AC for LineStmt {
    open spec fn literals(self) -> Seq<Seq<char>> {
        line_strings(self)
    }

    open spec fn code(self, pool: Seq<Seq<char>>, base: nat, lbl: nat, exit: nat) -> StmtCode {
        StmtCode {
            code: line_code(self, pool, base, exit).code,
            tmps: line_code(self, pool, base, exit).tmps,
            lbl,
        }
    }

    fn find_vars(&self, pool: &mut Vec<String>) {
        collect_line_strings(self, pool);
    }

    fn convert_3ac(&self, pool: &Vec<String>, em: &mut Emitter, leave_lbl: usize) {
        lower_line(self, pool, em, leave_lbl);
    }
}

/// A declaration that gives code: a function, or a variable declared in a
/// function.
pub trait ThreeAC: Sized {
    /// The string literals of the declaration, in the order in which they
    /// stand.
    spec fn literals(self) -> Seq<Seq<char>>;

    /// The code of the declaration when `lbl` is the first unused label,
    /// in a function that has `base` temporaries so far.
    spec fn code(self, pool: Seq<Seq<char>>, base: nat, lbl: nat) -> StmtCode;

    /// Whether the declaration starts a function of its own, whose
    /// temporaries are counted anew from zero.
    spec fn opens_function(self) -> bool;

    /// Adds the string literals of the declaration to the pool.
    fn find_vars(&self, pool: &mut Vec<String>)
        ensures
            strings_view(final(pool)@) == strings_view(old(pool)@) + self.literals(),
    ;

    /// Emits the code of the declaration.
    fn convert_3ac(&self, pool: &Vec<String>, em: &mut Emitter)
        requires
            old(em).wf(),
        ensures
            !self.opens_function() ==> final(em).follows(
                *old(em),
                self.code(strings_view(pool@), old(em).tmps@.len(), old(em).counts.lbl as nat).code,
                self.code(strings_view(pool@), old(em).tmps@.len(), old(em).counts.lbl as nat).tmps,
                self.code(strings_view(pool@), old(em).tmps@.len(), old(em).counts.lbl as nat).lbl,
            ),
            self.opens_function() ==> final(em).begins(
                *old(em),
                self.code(strings_view(pool@), 0, old(em).counts.lbl as nat).code,
                self.code(strings_view(pool@), 0, old(em).counts.lbl as nat).tmps,
                self.code(strings_view(pool@), 0, old(em).counts.lbl as nat).lbl,
            ),
    ;
}

impl ThreeAC for FnDecl {
    open spec fn literals(self) -> Seq<Seq<char>> {
        stmts_strings(self.body@, self.body@.len() as int)
    }

    open spec fn code(self, pool: Seq<Seq<char>>, base: nat, lbl: nat) -> StmtCode {
        fn_code(self, pool, lbl)
    }

    open spec fn opens_function(self) -> bool {
        true
    }

    fn find_vars(&self, pool: &mut Vec<String>) {
        collect_stmts_strings(&self.body, pool);
    }

    fn convert_3ac(&self, pool: &Vec<String>, em: &mut Emitter) {
        lower_fn(self, pool, em);
    }
}

impl ThreeAC for VarDecl {
    open spec fn literals(self) -> Seq<Seq<char>> {
        opt_strings(self.init_val)
    }

    open spec fn code(self, pool: Seq<Seq<char>>, base: nat, lbl: nat) -> StmtCode {
        StmtCode {
            code: var_decl_code(self, pool, base).code,
            tmps: var_decl_code(self, pool, base).tmps,
            lbl,
        }
    }

    open spec fn opens_function(self) -> bool {
        false
    }

    fn find_vars(&self, pool: &mut Vec<String>) {
        collect_opt_strings(&self.init_val, pool);
    }

    fn convert_3ac(&self, pool: &Vec<String>, em: &mut Emitter) {
        lower_var_decl(self, pool, em);
    }
}

} // verus!
