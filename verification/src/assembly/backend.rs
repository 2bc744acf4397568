//! The backend: from the text of three-address code to the text of x86-64
//! assembly, line by line.
//!
//! The text starts with the globals between `[BEGIN GLOBALS]` and
//! `[END GLOBALS]`: `name-type` for a variable, `strN literal` for a string
//! of the pool. Each function follows: its locals and temporaries between
//! `[BEGIN f LOCALS]` and `[END f LOCALS]`, one `name-type` on a line, then
//! its instructions, one on a line. Empty lines between functions are
//! skipped.
//!
//! The assembly has a `.data` section with one directive for each global
//! and string, and a `.text` section with the functions, followed by the
//! lines that end the process.

use vstd::prelude::*;
use vstd::string::*;
use crate::assembly::ir::Variable3ACType;
use crate::assembly::parse_ir::{quad_of_line, read_quad};
use crate::scan::{
    after,
    after_last,
    chars_view,
    ends_with,
    find_after_last,
    find_first,
    first_index,
    has_prefix,
    has_suffix,
    is_text,
    piece,
    rest,
    split,
    split_spec,
    starts_with,
    string_of,
};
use crate::assembly::x86::{
    exit_lines,
    quad_asm,
    symbols_view,
    SemanticSymbol,
    SymbolView,
    X86Error,
    X86ErrorKind,
};
use crate::assembly::x86_emit::translate_statement;
use crate::text::{append_usize, decimal, to_chars};

verus! {

/// Where in the text the backend is.
#[derive(Debug, Clone, Copy, PartialEq, Eq, Structural)]
pub enum Section {
    /// Before `[BEGIN GLOBALS]`.
    Start,
    /// Among the globals.
    Globals,
    /// After the globals, before the first function.
    Idle,
    /// Among the locals of a function.
    Locals,
    /// Among the instructions of a function.
    Code,
}

/// The state of the backend.
pub struct Backend {
    pub section: Section,
    pub table: Vec<SemanticSymbol>,
    /// How many symbols of the table are globals; they come first.
    pub globals: usize,
    /// How many locals and temporaries the current function has so far.
    pub slots: usize,
    /// The directives of the `.data` section so far.
    pub data: String,
    /// The lines of the `.text` section so far.
    pub text: String,
}

/// The state of the backend, over plain text.
pub struct BackView {
    pub section: Section,
    pub table: Seq<SymbolView>,
    pub globals: nat,
    pub slots: nat,
    pub data: Seq<char>,
    pub text: Seq<char>,
}

impl View for Backend {
    type V = BackView;

    open spec fn view(&self) -> BackView {
        BackView {
            section: self.section,
            table: symbols_view(self.table@),
            globals: self.globals as nat,
            slots: self.slots as nat,
            data: self.data@,
            text: self.text@,
        }
    }
}

/// The type that a word names.
pub open spec fn type_of_text(w: Seq<char>) -> Option<Variable3ACType> {
    if w == "int"@ {
        Some(Variable3ACType::Int)
    } else if w == "bool"@ {
        Some(Variable3ACType::Bool)
    } else if w == "string"@ {
        Some(Variable3ACType::String)
    } else {
        None
    }
}

/// The variable that a line `name-type` declares: the type is what follows
/// the last `-`, the name what stands before it.
pub open spec fn entry_of(line: Seq<char>) -> Option<(Seq<char>, Variable3ACType)> {
    let k = after_last(line, '-', line.len() as int);
    if 0 < k <= line.len() {
        match type_of_text(after(line, k as nat)) {
            Some(t) => Some((line.subrange(0, k - 1), t)),
            None => None,
        }
    } else {
        None
    }
}

/// Whether the line opens the locals of a function.
pub open spec fn is_begin_locals(line: Seq<char>) -> bool {
    starts_with(line, "[BEGIN "@) && ends_with(line, " LOCALS]"@)
}

/// Whether the line closes the locals of a function.
pub open spec fn is_end_locals(line: Seq<char>) -> bool {
    starts_with(line, "[END "@) && ends_with(line, " LOCALS]"@)
}

/// The symbol of a global variable: it is kept under the label
/// `gbl_name`.
pub open spec fn global_symbol(name: Seq<char>, ty: Variable3ACType) -> SymbolView {
    SymbolView { name, location: "(gbl_"@ + name + ")"@, global: true, sym_type: ty }
}

/// The symbol of a string of the pool: its value is the address of its
/// label.
pub open spec fn string_symbol(label: Seq<char>) -> SymbolView {
    SymbolView { name: label, location: "$"@ + label, global: true, sym_type: Variable3ACType::String }
}

/// The symbol of the local or temporary in the slot `slot`: it is kept at
/// `-(24 + 8 slot)(%rbp)`.
pub open spec fn local_symbol(name: Seq<char>, ty: Variable3ACType, slot: nat) -> SymbolView {
    SymbolView {
        name,
        location: "-"@ + decimal(24 + 8 * slot) + "(%rbp)"@,
        global: false,
        sym_type: ty,
    }
}

/// What a line among the globals does.
pub open spec fn globals_step(st: BackView, line: Seq<char>) -> Result<BackView, X86ErrorKind> {
    if line == "[END GLOBALS]"@ {
        Ok(BackView { section: Section::Idle, globals: st.table.len(), ..st })
    } else {
        let i = first_index(line, ' ', 0);
        if 0 <= i < line.len() {
            let label = line.subrange(0, i);
            Ok(
                BackView {
                    table: st.table.push(string_symbol(label)),
                    data: st.data + label + ": .asciz "@ + after(line, (i + 1) as nat) + "\n"@,
                    ..st
                },
            )
        } else {
            match entry_of(line) {
                Some(e) => Ok(
                    BackView {
                        table: st.table.push(global_symbol(e.0, e.1)),
                        data: st.data + "gbl_"@ + e.0 + ": .quad 0\n"@,
                        ..st
                    },
                ),
                None => Err(X86ErrorKind::Malformed),
            }
        }
    }
}

/// What a line among the locals of a function does.
pub open spec fn locals_step(st: BackView, line: Seq<char>) -> Result<BackView, X86ErrorKind> {
    if is_end_locals(line) {
        Ok(BackView { section: Section::Code, ..st })
    } else {
        match entry_of(line) {
            Some(e) => if 8 * (st.slots + 1) + 24 > usize::MAX {
                Err(X86ErrorKind::TooManyLocals)
            } else {
                Ok(
                    BackView {
                        table: st.table.push(local_symbol(e.0, e.1, st.slots)),
                        slots: st.slots + 1,
                        ..st
                    },
                )
            },
            None => Err(X86ErrorKind::Malformed),
        }
    }
}

/// The symbols that outlive a function: the globals.
pub open spec fn kept(st: BackView) -> Seq<SymbolView> {
    if st.globals <= st.table.len() {
        st.table.take(st.globals as int)
    } else {
        st.table
    }
}

/// What a line after the globals does: an empty line does nothing; the
/// opening of the locals of a function forgets the locals of the function
/// before; an instruction, which can only stand in a function, adds its
/// assembly.
pub open spec fn code_step(st: BackView, line: Seq<char>) -> Result<BackView, X86ErrorKind> {
    if line.len() == 0 {
        Ok(st)
    } else if is_begin_locals(line) {
        Ok(BackView { section: Section::Locals, table: kept(st), slots: 0, ..st })
    } else if st.section == Section::Code {
        match quad_of_line(line) {
            Some(q) => match quad_asm(q, st.table, st.slots) {
                Ok(t) => Ok(BackView { text: st.text + t, ..st }),
                Err(k) => Err(k),
            },
            None => Err(X86ErrorKind::Malformed),
        }
    } else {
        Err(X86ErrorKind::Malformed)
    }
}

/// What a line does to the state of the backend.
pub open spec fn step(st: BackView, line: Seq<char>) -> Result<BackView, X86ErrorKind> {
    match st.section {
        Section::Start => if line == "[BEGIN GLOBALS]"@ {
            Ok(BackView { section: Section::Globals, ..st })
        } else {
            Err(X86ErrorKind::Malformed)
        },
        Section::Globals => globals_step(st, line),
        Section::Locals => locals_step(st, line),
        _ => code_step(st, line),
    }
}

/// The state before the first line.
pub open spec fn initial() -> BackView {
    BackView {
        section: Section::Start,
        table: Seq::empty(),
        globals: 0,
        slots: 0,
        data: Seq::empty(),
        text: Seq::empty(),
    }
}

/// The state after the lines `lines[..n]`, or the first error with its
/// line.
pub open spec fn run(lines: Seq<Seq<char>>, n: int) -> Result<BackView, X86Error>
    decreases n,
{
    if n <= 0 || n > lines.len() {
        Ok(initial())
    } else {
        match run(lines, n - 1) {
            Ok(st) => match step(st, lines[n - 1]) {
                Ok(next) => Ok(next),
                Err(kind) => Err(X86Error { kind, line: (n - 1) as usize }),
            },
            Err(e) => Err(e),
        }
    }
}

/// The assembly of a state after the last line, which has to be after the
/// globals and not among the locals of a function.
pub open spec fn finish(st: BackView) -> Result<Seq<char>, X86ErrorKind> {
    if st.section == Section::Idle || st.section == Section::Code {
        Ok(".globl main\n.data\n"@ + st.data + "\n.text\n"@ + st.text + "\n"@ + exit_lines())
    } else {
        Err(X86ErrorKind::Malformed)
    }
}

/// The assembly of the three-address code `text`, or what is wrong with
/// `text` and on which of its lines; an error that only shows at the end
/// of the text has the number of lines as its line.
pub open spec fn x86_of(text: Seq<char>) -> Result<Seq<char>, X86Error> {
    let lines = split_spec(text, '\n');
    match run(lines, lines.len() as int) {
        Ok(st) => match finish(st) {
            Ok(t) => Ok(t),
            Err(kind) => Err(X86Error { kind, line: lines.len() as usize }),
        },
        Err(e) => Err(e),
    }
}

/// Whether a step did what `wanted` asks for: brought the backend into
/// that state, or failed with that error.
pub open spec fn stepped(now: Backend, r: Result<(), X86ErrorKind>, wanted: Result<
    BackView,
    X86ErrorKind,
>) -> bool {
    match wanted {
        Ok(st) => r is Ok && now@ == st && now.wf(),
        Err(k) => r == Err::<(), X86ErrorKind>(k),
    }
}

/// The type that a word names.
pub fn read_type(w: &Vec<char>) -> (r: Option<Variable3ACType>)
    ensures
        r == type_of_text(w@),
{
    if is_text(w, "int") {
        Some(Variable3ACType::Int)
    } else if is_text(w, "bool") {
        Some(Variable3ACType::Bool)
    } else if is_text(w, "string") {
        Some(Variable3ACType::String)
    } else {
        None
    }
}

/// The variable that a line `name-type` declares.
pub fn read_entry(line: &Vec<char>) -> (r: Option<(String, Variable3ACType)>)
    ensures
        match entry_of(line@) {
            Some(e) => r is Some && (r->0).0@ == e.0 && (r->0).1 == e.1,
            None => r is None,
        },
{
    let k = find_after_last(line, '-');
    if k > 0 {
        match read_type(&rest(line, k)) {
            Some(t) => Some((string_of(&piece(line, 0, k - 1)), t)),
            None => None,
        }
    } else {
        None
    }
}

impl Backend {
    /// Whether the state is in order: the globals are part of the table,
    /// and the frame of the current function can be addressed.
    pub open spec fn wf(&self) -> bool {
        self.globals <= self.table@.len() && 8 * self.slots + 24 <= usize::MAX
    }

    /// A backend before the first line.
    pub fn new() -> (b: Backend)
        ensures
            b.wf(),
            b@ == initial(),
    {
        let b = Backend {
            section: Section::Start,
            table: Vec::new(),
            globals: 0,
            slots: 0,
            data: String::new(),
            text: String::new(),
        };
        proof {
            assert(b@.table =~= Seq::<SymbolView>::empty());
        }
        b
    }

    /// Adds a symbol to the table.
    pub fn add_symbol(&mut self, s: SemanticSymbol)
        ensures
            symbols_view(final(self).table@) == symbols_view(old(self).table@).push(s@),
            final(self).table@.len() == old(self).table@.len() + 1,
            final(self).section == old(self).section,
            final(self).globals == old(self).globals,
            final(self).slots == old(self).slots,
            final(self).data == old(self).data,
            final(self).text == old(self).text,
    {
        self.table.push(s);
        proof {
            assert(symbols_view(final(self).table@) =~= symbols_view(old(self).table@).push(s@));
        }
    }

    /// Takes in a line among the globals.
    pub fn take_global(&mut self, line: &Vec<char>) -> (r: Result<(), X86ErrorKind>)
        requires
            old(self).wf(),
        ensures
            stepped(*final(self), r, globals_step(old(self)@, line@)),
    {
        if is_text(line, "[END GLOBALS]") {
            self.section = Section::Idle;
            self.globals = self.table.len();
            return Ok(());
        }
        let i = find_first(line, ' ');
        if i < line.len() {
            let label = string_of(&piece(line, 0, i));
            let literal = string_of(&rest(line, i + 1));
            self.data.append(label.as_str());
            self.data.append(": .asciz ");
            self.data.append(literal.as_str());
            self.data.append("\n");
            let mut location = String::from_str("$");
            location.append(label.as_str());
            proof {
                assert(self.data@ =~= old(self).data@ + label@ + ": .asciz "@ + literal@ + "\n"@);
            }
            self.add_symbol(
                SemanticSymbol {
                    name: label,
                    location,
                    global: true,
                    sym_type: Variable3ACType::String,
                },
            );
            Ok(())
        } else {
            match read_entry(line) {
                Some((name, ty)) => {
                    self.data.append("gbl_");
                    self.data.append(name.as_str());
                    self.data.append(": .quad 0\n");
                    let mut location = String::from_str("(gbl_");
                    location.append(name.as_str());
                    location.append(")");
                    proof {
                        assert(self.data@ =~= old(self).data@ + "gbl_"@ + name@ + ": .quad 0\n"@);
                        assert(location@ =~= "(gbl_"@ + name@ + ")"@);
                    }
                    self.add_symbol(SemanticSymbol { name, location, global: true, sym_type: ty });
                    Ok(())
                },
                None => Err(X86ErrorKind::Malformed),
            }
        }
    }

    /// Takes in a line among the locals of a function.
    pub fn take_local(&mut self, line: &Vec<char>) -> (r: Result<(), X86ErrorKind>)
        requires
            old(self).wf(),
        ensures
            stepped(*final(self), r, locals_step(old(self)@, line@)),
    {
        let (starts, _) = has_prefix(line, "[END ");
        let (ends, _) = has_suffix(line, " LOCALS]");
        if starts && ends {
            self.section = Section::Code;
            return Ok(());
        }
        match read_entry(line) {
            Some((name, ty)) => {
                if self.slots >= (usize::MAX - 24) / 8 {
                    return Err(X86ErrorKind::TooManyLocals);
                }
                let mut location = String::from_str("-");
                append_usize(&mut location, 24 + 8 * self.slots);
                location.append("(%rbp)");
                proof {
                    assert(location@ =~= "-"@ + decimal((24 + 8 * self.slots) as nat) + "(%rbp)"@);
                }
                self.add_symbol(SemanticSymbol { name, location, global: false, sym_type: ty });
                self.slots = self.slots + 1;
                Ok(())
            },
            None => Err(X86ErrorKind::Malformed),
        }
    }

    /// Takes in a line after the globals.
    pub fn take_code(&mut self, line: &Vec<char>) -> (r: Result<(), X86ErrorKind>)
        requires
            old(self).wf(),
            old(self).section == Section::Idle || old(self).section == Section::Code,
        ensures
            stepped(*final(self), r, code_step(old(self)@, line@)),
    {
        if line.len() == 0 {
            return Ok(());
        }
        let (starts, _) = has_prefix(line, "[BEGIN ");
        let (ends, _) = has_suffix(line, " LOCALS]");
        if starts && ends {
            self.section = Section::Locals;
            self.table.truncate(self.globals);
            self.slots = 0;
            proof {
                assert(symbols_view(self.table@) =~= kept(old(self)@));
            }
            return Ok(());
        }
        match self.section {
            Section::Code => {
                match read_quad(line) {
                    Some(q) => {
                        let r = translate_statement(&q, &self.table, self.slots, &mut self.text);
                        r
                    },
                    None => Err(X86ErrorKind::Malformed),
                }
            },
            _ => Err(X86ErrorKind::Malformed),
        }
    }

    /// Takes in one line.
    pub fn take_line(&mut self, line: &Vec<char>) -> (r: Result<(), X86ErrorKind>)
        requires
            old(self).wf(),
        ensures
            stepped(*final(self), r, step(old(self)@, line@)),
    {
        match self.section {
            Section::Start => {
                if is_text(line, "[BEGIN GLOBALS]") {
                    self.section = Section::Globals;
                    Ok(())
                } else {
                    Err(X86ErrorKind::Malformed)
                }
            },
            Section::Globals => self.take_global(line),
            Section::Locals => self.take_local(line),
            _ => self.take_code(line),
        }
    }

    /// The assembly after the last line.
    pub fn finish(self) -> (r: Result<String, X86ErrorKind>)
        ensures
            match finish(self@) {
                Ok(t) => r is Ok && r->Ok_0@ == t,
                Err(k) => r == Err::<String, X86ErrorKind>(k),
            },
    {
        match self.section {
            Section::Idle | Section::Code => {
                let mut out = String::from_str(".globl main\n.data\n");
                out.append(self.data.as_str());
                out.append("\n.text\n");
                out.append(self.text.as_str());
                out.append("\n");
                out.append("\tmovq $60,\t%rax\n\tmovq $1,\t%rdi\n\t\n\tsyscall\n");
                proof {
                    assert(out@ =~= ".globl main\n.data\n"@ + self.data@ + "\n.text\n"@ + self.text@
                        + "\n"@ + exit_lines());
                }
                Ok(out)
            },
            _ => Err(X86ErrorKind::Malformed),
        }
    }
}

/// The x86-64 assembly of three-address code given as text. The text is
/// either lowered as a whole, or refused with the first thing that is
/// wrong with it.
pub fn convert_x86(ir: String) -> (r: Result<String, X86Error>)
    ensures
        match x86_of(ir@) {
            Ok(t) => r is Ok && r->Ok_0@ == t,
            Err(e) => r == Err::<String, X86Error>(e),
        },
{
    let chars = to_chars(ir.as_str());
    let lines = split(&chars, '\n');
    let ghost ls = chars_view(lines@);
    let mut backend = Backend::new();
    let n = lines.len();
    let mut i: usize = 0;
    while i < n
        invariant
            i <= n,
            n == lines@.len(),
            ls == chars_view(lines@),
            ls == split_spec(ir@, '\n'),
            backend.wf(),
            run(ls, i as int) == Ok::<BackView, X86Error>(backend@),
        decreases n - i,
    {
        proof {
            assert(ls[i as int] == lines@[i as int]@);
        }
        match backend.take_line(&lines[i]) {
            Ok(()) => {},
            Err(kind) => {
                proof {
                    assert(run(ls, i + 1) == Err::<BackView, X86Error>(X86Error { kind, line: i }));
                    lemma_run_sticky(ls, i + 1, n as int);
                }
                return Err(X86Error { kind, line: i });
            },
        }
        i += 1;
    }
    match backend.finish() {
        Ok(s) => Ok(s),
        Err(kind) => Err(X86Error { kind, line: n }),
    }
}

/// Once a line is refused, the text is refused with that error, whatever
/// follows.
pub proof fn lemma_run_sticky(lines: Seq<Seq<char>>, k: int, n: int)
    requires
        0 <= k <= n <= lines.len(),
        run(lines, k) is Err,
    ensures
        run(lines, n) == run(lines, k),
    decreases n - k,
{
    if k < n {
        lemma_run_sticky(lines, k, n - 1);
    }
}

} // verus!
