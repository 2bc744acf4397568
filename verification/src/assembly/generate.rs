//! From a program to its three-address code, in memory and as text.

use vstd::prelude::*;
use vstd::string::*;
use crate::analysis::env::{Env, TypeAnalyzer};
use crate::analysis::program::{register, registered};
use crate::assembly::emit::{lower_fn, strings_view, Emitter};
use crate::assembly::ir::{append_quads, quads_text, quads_view, Quad, Variable3ACType};
use crate::assembly::symbols::{
    append_strings,
    append_tmps,
    append_vars,
    collect_fn_locals,
    collect_globals,
    collect_strings,
    fn_instrs,
    fn_text,
    fns_text,
    fns_view,
    globals_text,
    ir_text,
    locals_text,
    vars_view,
    FunctionValue,
    IRSymbolTable,
};
use crate::assembly::three_ac::{
    decls_code,
    fn_code,
    program_ir,
    program_labels,
    IrView,
};
use crate::parser::ast::{Decl, Program};

verus! {

/// The three-address code of a program: its symbol table and its
/// instructions, those of all the functions one after the other.
#[derive(Debug, PartialEq)]
pub struct ThreeAddressCode {
    pub table: IRSymbolTable,
    pub code: Vec<Quad<String>>,
}

impl View for ThreeAddressCode {
    type V = IrView;

    open spec fn view(&self) -> IrView {
        IrView {
            globals: vars_view(self.table.globals@),
            strings: strings_view(self.table.strings@),
            functions: fns_view(self.table.functions@),
            code: quads_view(self.code@),
        }
    }
}

/// The classes of a program as the generator flattens them: those that
/// the first pass of the analysis registers.
pub open spec fn program_classes(p: Program) -> Map<Seq<char>, Seq<crate::analysis::env::FieldSig>> {
    registered(p, Env::initial()).classes
}

/// A copy of a list of types.
pub fn copy_types(v: &Vec<Variable3ACType>) -> (r: Vec<Variable3ACType>)
    ensures
        r@ == v@,
{
    let mut r: Vec<Variable3ACType> = Vec::new();
    let mut i: usize = 0;
    while i < v.len()
        invariant
            i <= v@.len(),
            r@ == v@.take(i as int),
        decreases v@.len() - i,
    {
        r.push(v[i]);
        proof {
            assert(v@.take(i as int).push(v@[i as int]) =~= v@.take(i + 1));
        }
        i += 1;
    }
    proof {
        assert(v@.take(v@.len() as int) =~= v@);
    }
    r
}

/// Appends the markers and the lines of the locals of a function to `out`.
pub fn append_locals_block(out: &mut String, f: &FunctionValue)
    ensures
        final(out)@ == old(out)@ + ("\n[BEGIN "@ + f@.name + " LOCALS]\n"@ + locals_text(f@)
            + "[END "@ + f@.name + " LOCALS]\n"@),
{
    out.append("\n[BEGIN ");
    out.append(f.name.as_str());
    out.append(" LOCALS]\n");
    let ghost s1 = out@;
    proof {
        assert(s1 =~= old(out)@ + ("\n[BEGIN "@ + f@.name + " LOCALS]\n"@));
    }
    append_vars(out, &f.locals);
    append_tmps(out, &f.tmps);
    let ghost s2 = out@;
    proof {
        assert(s2 =~= s1 + locals_text(f@));
    }
    out.append("[END ");
    out.append(f.name.as_str());
    out.append(" LOCALS]\n");
    proof {
        assert(out@ =~= s2 + ("[END "@ + f@.name + " LOCALS]\n"@));
        assert(out@ =~= old(out)@ + ("\n[BEGIN "@ + f@.name + " LOCALS]\n"@ + locals_text(f@)
            + "[END "@ + f@.name + " LOCALS]\n"@));
    }
}

/// Appends the text of a function to `out`.
pub fn append_fn_text(out: &mut String, f: &FunctionValue, code: &Vec<Quad<String>>)
    ensures
        final(out)@ == old(out)@ + fn_text(f@, quads_view(code@)),
{
    append_locals_block(out, f);
    let ghost s1 = out@;
    if f.start <= f.end && f.end <= code.len() {
        append_quads(out, code, f.start, f.end);
    } else {
        proof {
            assert(out@ =~= s1 + quads_text(fn_instrs(f@, quads_view(code@)), 0));
        }
    }
    proof {
        let q = fn_instrs(f@, quads_view(code@));
        assert(out@ =~= s1 + quads_text(q, q.len() as int));
        assert(out@ =~= old(out)@ + fn_text(f@, quads_view(code@)));
    }
}

impl ThreeAddressCode {
    /// The text of the code: the globals and the string pool between
    /// `[BEGIN GLOBALS]` and `[END GLOBALS]`; then, for each function, an
    /// empty line, its locals and temporaries between `[BEGIN f LOCALS]`
    /// and `[END f LOCALS]`, and its instructions, one on a line.
    pub fn to_text(&self) -> (s: String)
        ensures
            s@ == ir_text(self@),
    {
        let mut s = String::from_str("[BEGIN GLOBALS]\n");
        append_vars(&mut s, &self.table.globals);
        append_strings(&mut s, &self.table.strings);
        s.append("[END GLOBALS]\n");
        let ghost head = s@;
        let ghost fs = fns_view(self.table.functions@);
        let ghost code = quads_view(self.code@);
        proof {
            assert(head =~= "[BEGIN GLOBALS]\n"@ + globals_text(self@.globals, self@.strings)
                + "[END GLOBALS]\n"@);
            assert(s@ =~= head + fns_text(fs, code, 0));
        }
        let n = self.table.functions.len();
        let mut i: usize = 0;
        while i < n
            invariant
                i <= n,
                n == self.table.functions@.len(),
                fs == fns_view(self.table.functions@),
                code == quads_view(self.code@),
                s@ == head + fns_text(fs, code, i as int),
            decreases n - i,
        {
            append_fn_text(&mut s, &self.table.functions[i], &self.code);
            proof {
                assert(fs[i as int] == self.table.functions@[i as int]@);
                assert(s@ =~= head + fns_text(fs, code, i + 1));
            }
            i += 1;
        }
        proof {
            assert(s@ =~= ir_text(self@));
        }
        s
    }
}

/// The three-address code of a program. The type slots of the program are
/// read to type the temporaries, so the program should have been analyzed.
pub fn generate(prog: &Program) -> (ir: ThreeAddressCode)
    ensures
        ir@ == program_ir(*prog, program_classes(*prog)),
        program_labels(*prog, program_classes(*prog)) <= usize::MAX,
{
    let mut an = TypeAnalyzer::new();
    register(&prog.globals, &mut an);
    let ghost classes = an.env().classes;
    let strings = collect_strings(&prog.globals);
    let globals = collect_globals(&prog.globals, &an);
    let ghost pool = strings_view(strings@);
    let mut em = Emitter::new();
    let mut functions: Vec<FunctionValue> = Vec::new();
    let n = prog.globals.len();
    let mut i: usize = 0;
    proof {
        assert(fns_view(functions@) =~= decls_code(prog.globals@, pool, classes, 0).functions);
    }
    while i < n
        invariant
            i <= n,
            n == prog.globals@.len(),
            classes == an.env().classes,
            pool == strings_view(strings@),
            em.wf(),
            em.instrs() == decls_code(prog.globals@, pool, classes, i as int).code,
            em.counts.lbl == decls_code(prog.globals@, pool, classes, i as int).lbl,
            fns_view(functions@) == decls_code(prog.globals@, pool, classes, i as int).functions,
        decreases n - i,
    {
        let ghost before = decls_code(prog.globals@, pool, classes, i as int);
        match &*prog.globals[i] {
            Decl::FnDecl(f) => {
                let start = em.code.len();
                let ghost em0 = em;
                lower_fn(f, &strings, &mut em);
                let end = em.code.len();
                let locals = collect_fn_locals(f, &an);
                let tmps = copy_types(&em.tmps);
                let ghost fc = fn_code(**f, pool, before.lbl);
                let value = FunctionValue { name: f.id.name.clone(), locals, tmps, start, end };
                proof {
                    assert(em.tmps@ =~= fc.tmps);
                    assert(em.instrs().len() == em.code@.len());
                    assert(em0.instrs().len() == em0.code@.len());
                    assert(end == before.code.len() + fc.code.len());
                }
                let ghost fns_before = fns_view(functions@);
                functions.push(value);
                proof {
                    assert(fns_view(functions@) =~= fns_before.push(value@));
                }
            },
            _ => {},
        }
        i += 1;
    }
    let ir = ThreeAddressCode {
        table: IRSymbolTable { globals, strings, functions },
        code: em.code,
    };
    ir
}

/// The text of the three-address code of a program. Its labels are
/// counted within the machine's numbers.
pub fn convert_3ac(prog: Box<Program>) -> (s: String)
    ensures
        s@ == ir_text(program_ir(*prog, program_classes(*prog))),
        program_labels(*prog, program_classes(*prog)) <= usize::MAX,
{
    generate(&*prog).to_text()
}

} // verus!
