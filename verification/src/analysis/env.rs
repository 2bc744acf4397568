//! The symbol environment of the analyzer: functions, classes and scoped
//! variables, and the diagnostics raised so far.

use vstd::prelude::*;
use vstd::string::*;
use crate::analysis::table::Table;
use crate::parser::ast::{ClassDecl, Decl, FnDecl, FormalDecl, Type, TypeKind};
use crate::span::Span;

verus! {

/// The kinds of semantic error.
#[derive(Debug, Clone, Copy, PartialEq, Eq, Structural)]
pub enum ErrorType {
    BadType,
    MultipleDecl,
    UndefinedDecl,
    GiveFn,
    GiveClass,
    GiveVoid,
    ReadFn,
    ReadClass,
    CallNonFn,
    FnWrongArgNum,
    FnWrongArgType,
    ReturnMissing,
    ReturnBad,
    ReturnVoid,
    WrongOpMath,
    WrongOpCmp,
    WrongOpLogic,
    CondNonBool,
    BadEqualityOne,
    BadEqualityTwo,
    BadAssignOne,
    BadAssignTwo,
    NonLval,
}

/// One semantic error: what is wrong, and where.
#[derive(Debug, Clone, Copy, PartialEq, Eq, Structural)]
pub struct Diagnostic {
    pub kind: ErrorType,
    pub span: Span,
}

impl ErrorType {
    /// The message that goes with the kind of error.
    pub open spec fn spec_message(self) -> Seq<char> {
        match self {
            ErrorType::BadType => "Invalid type in declaration"@,
            ErrorType::MultipleDecl => "Multiply declared identifier"@,
            ErrorType::UndefinedDecl => "Undeclared identifier"@,
            ErrorType::GiveFn => "Attempt to output a function"@,
            ErrorType::GiveClass => "Attempt to output a class"@,
            ErrorType::GiveVoid => "Attempt to output void"@,
            ErrorType::ReadFn => "Attempt to assign user input to function"@,
            ErrorType::ReadClass => "Attempt to assign user input to class"@,
            ErrorType::CallNonFn => "Attempt to call a non-function"@,
            ErrorType::FnWrongArgNum => "Function call with wrong number of args"@,
            ErrorType::FnWrongArgType => "Type of actual does not match type of formal"@,
            ErrorType::ReturnMissing => "Missing return value "@,
            ErrorType::ReturnVoid => "Return with a value in void function"@,
            ErrorType::ReturnBad => "Bad return value"@,
            ErrorType::WrongOpMath => "Arithmetic operator applied to invalid operand"@,
            ErrorType::WrongOpCmp => "Relational operator applied to non-numeric operand"@,
            ErrorType::WrongOpLogic => "Logical operator applied to non-bool operand"@,
            ErrorType::CondNonBool => "Non-bool expression used as a condition"@,
            ErrorType::BadEqualityOne => "Invalid equality operand"@,
            ErrorType::BadEqualityTwo => "Invalid equality operation"@,
            ErrorType::BadAssignOne => "Invalid assignment operand"@,
            ErrorType::BadAssignTwo => "Invalid assignment operation"@,
            ErrorType::NonLval => "Non-Lval assignment"@,
        }
    }

    /// The message that goes with the kind of error.
    pub fn message(&self) -> (s: &'static str)
        ensures
            s@ == self.spec_message(),
    {
        match self {
            ErrorType::BadType => "Invalid type in declaration",
            ErrorType::MultipleDecl => "Multiply declared identifier",
            ErrorType::UndefinedDecl => "Undeclared identifier",
            ErrorType::GiveFn => "Attempt to output a function",
            ErrorType::GiveClass => "Attempt to output a class",
            ErrorType::GiveVoid => "Attempt to output void",
            ErrorType::ReadFn => "Attempt to assign user input to function",
            ErrorType::ReadClass => "Attempt to assign user input to class",
            ErrorType::CallNonFn => "Attempt to call a non-function",
            ErrorType::FnWrongArgNum => "Function call with wrong number of args",
            ErrorType::FnWrongArgType => "Type of actual does not match type of formal",
            ErrorType::ReturnMissing => "Missing return value ",
            ErrorType::ReturnVoid => "Return with a value in void function",
            ErrorType::ReturnBad => "Bad return value",
            ErrorType::WrongOpMath => "Arithmetic operator applied to invalid operand",
            ErrorType::WrongOpCmp => "Relational operator applied to non-numeric operand",
            ErrorType::WrongOpLogic => "Logical operator applied to non-bool operand",
            ErrorType::CondNonBool => "Non-bool expression used as a condition",
            ErrorType::BadEqualityOne => "Invalid equality operand",
            ErrorType::BadEqualityTwo => "Invalid equality operation",
            ErrorType::BadAssignOne => "Invalid assignment operand",
            ErrorType::BadAssignTwo => "Invalid assignment operation",
            ErrorType::NonLval => "Non-Lval assignment",
        }
    }
}

impl Diagnostic {
    /// The line that reports the error: `FATAL <span>: <message>`.
    pub open spec fn spec_text(self) -> Seq<char> {
        "FATAL "@ + self.span.spec_text() + ": "@ + self.kind.spec_message()
    }

    /// The line that reports the error.
    pub fn to_text(&self) -> (s: String)
        ensures
            s@ == self.spec_text(),
    {
        let mut s = String::from_str("FATAL ");
        self.span.append_to(&mut s);
        s.append(": ");
        s.append(self.kind.message());
        s
    }
}

/// A key of the variable table: an identifier at a scope depth.
#[derive(Debug, Clone, PartialEq, Eq, Hash)]
pub struct VarKey {
    pub id: String,
    pub scope: usize,
}

/// The signature of a function as the analyzer keeps it.
#[derive(Debug)]
pub struct FunctionKind {
    pub arg_types: Vec<Type>,
    pub return_type: Type,
}

/// A flattened field of a class as the analyzer keeps it.
#[derive(Debug)]
pub struct Field {
    pub id: String,
    pub field_type: Type,
}

/// The signature of a function: the types of its formals in order, and its
/// return type.
pub struct FunctionSig {
    pub args: Seq<Type>,
    pub ret: Type,
}

/// A flattened field of a class: its dotted name and its type.
pub struct FieldSig {
    pub id: Seq<char>,
    pub field_type: Type,
}

impl DeepView for Type {
    type V = Type;

    open spec fn deep_view(&self) -> Type {
        *self
    }
}

impl DeepView for FunctionKind {
    type V = FunctionSig;

    open spec fn deep_view(&self) -> FunctionSig {
        FunctionSig { args: self.arg_types@, ret: self.return_type }
    }
}

impl DeepView for Field {
    type V = FieldSig;

    open spec fn deep_view(&self) -> FieldSig {
        FieldSig { id: self.id@, field_type: self.field_type }
    }
}

/// What the analyzer knows of names: the functions, the flattened fields of
/// each class, and the variables of each open scope, outermost first.
pub struct Env {
    pub functions: Map<Seq<char>, FunctionSig>,
    pub classes: Map<Seq<char>, Seq<FieldSig>>,
    pub scopes: Seq<Map<Seq<char>, Type>>,
}

/// The type that `name` resolves to in a stack of scopes: that of the
/// innermost scope that binds it.
pub open spec fn lookup_var(scopes: Seq<Map<Seq<char>, Type>>, name: Seq<char>) -> Option<Type>
    decreases scopes.len(),
{
    if scopes.len() == 0 {
        None
    } else if scopes.last().contains_key(name) {
        Some(scopes.last()[name])
    } else {
        lookup_var(scopes.drop_last(), name)
    }
}

/// The scopes with one more binding in the innermost of them.
pub open spec fn bind(scopes: Seq<Map<Seq<char>, Type>>, name: Seq<char>, t: Type) -> Seq<
    Map<Seq<char>, Type>,
> {
    if scopes.len() == 0 {
        scopes
    } else {
        scopes.update(scopes.len() - 1, scopes.last().insert(name, t))
    }
}

/// The name of the field `field` of the variable or field `owner`.
pub open spec fn dotted(owner: Seq<char>, field: Seq<char>) -> Seq<char> {
    owner + "--"@ + field
}

/// The scopes after the fields `fields[i..]` of an instance named `owner`
/// have been bound in the innermost scope, each under its dotted name.
pub open spec fn bind_fields(
    scopes: Seq<Map<Seq<char>, Type>>,
    owner: Seq<char>,
    fields: Seq<FieldSig>,
    i: int,
) -> Seq<Map<Seq<char>, Type>>
    decreases fields.len() - i,
{
    if i < 0 || i >= fields.len() {
        scopes
    } else {
        bind_fields(
            bind(scopes, dotted(owner, fields[i].id), fields[i].field_type),
            owner,
            fields,
            i + 1,
        )
    }
}

/// The type of a formal.
pub open spec fn formal_type(f: FormalDecl) -> Type {
    match f {
        FormalDecl::VarDecl(v) => *v.var_type,
        FormalDecl::FormalDecl { id, formal_type } => *formal_type,
    }
}

/// The name of a formal.
pub open spec fn formal_name(f: FormalDecl) -> Seq<char> {
    match f {
        FormalDecl::VarDecl(v) => v.id.name@,
        FormalDecl::FormalDecl { id, formal_type } => id.name@,
    }
}

/// The signature of a function declaration.
pub open spec fn sig_of(f: FnDecl) -> FunctionSig {
    FunctionSig { args: Seq::new(f.args@.len(), |i: int| formal_type(*f.args@[i])), ret: *f.ret }
}

/// The fields `fields`, each renamed to a field of `owner`.
pub open spec fn prefixed(owner: Seq<char>, fields: Seq<FieldSig>) -> Seq<FieldSig> {
    Seq::new(
        fields.len(),
        |i: int| FieldSig { id: dotted(owner, fields[i].id), field_type: fields[i].field_type },
    )
}

/// The flattened fields that one member of a class gives: a variable of a
/// primitive type gives itself; a variable of a known class gives one field
/// for each flattened field of that class, named `variable--field`; anything
/// else gives none.
pub open spec fn member_fields(d: Decl, classes: Map<Seq<char>, Seq<FieldSig>>) -> Seq<FieldSig> {
    match d {
        Decl::VarDecl(v) => match *v.var_type.kind {
            TypeKind::Prim(_) => seq![FieldSig { id: v.id.name@, field_type: *v.var_type }],
            TypeKind::Class(c) => if classes.contains_key(c.name@) {
                prefixed(v.id.name@, classes[c.name@])
            } else {
                Seq::empty()
            },
        },
        _ => Seq::empty(),
    }
}

/// The flattened fields of the members `ms[..n]`, in order.
pub open spec fn members_fields(
    ms: Seq<Box<Decl>>,
    n: int,
    classes: Map<Seq<char>, Seq<FieldSig>>,
) -> Seq<FieldSig>
    decreases n,
{
    if n <= 0 || n > ms.len() {
        Seq::empty()
    } else {
        members_fields(ms, n - 1, classes) + member_fields(*ms[n - 1], classes)
    }
}

/// The functions after the methods among the members `ms[..n]` of the class
/// `class` have been registered, each under the name `class--method`.
pub open spec fn with_methods(
    functions: Map<Seq<char>, FunctionSig>,
    class: Seq<char>,
    ms: Seq<Box<Decl>>,
    n: int,
) -> Map<Seq<char>, FunctionSig>
    decreases n,
{
    if n <= 0 || n > ms.len() {
        functions
    } else {
        let before = with_methods(functions, class, ms, n - 1);
        match *ms[n - 1] {
            Decl::FnDecl(f) => before.insert(dotted(class, f.id.name@), sig_of(*f)),
            _ => before,
        }
    }
}

/// The diagnostic that a member raises when the class of its type is not
/// known at this point (a class that holds a field of itself is such a
/// case).
pub open spec fn member_diags(d: Decl, classes: Map<Seq<char>, Seq<FieldSig>>) -> Seq<Diagnostic> {
    match d {
        Decl::VarDecl(v) => match *v.var_type.kind {
            TypeKind::Class(c) => if classes.contains_key(c.name@) {
                Seq::empty()
            } else {
                seq![Diagnostic { kind: ErrorType::UndefinedDecl, span: c.span }]
            },
            _ => Seq::empty(),
        },
        _ => Seq::empty(),
    }
}

/// The diagnostics of the members `ms[..n]`, in order.
pub open spec fn members_diags(
    ms: Seq<Box<Decl>>,
    n: int,
    classes: Map<Seq<char>, Seq<FieldSig>>,
) -> Seq<Diagnostic>
    decreases n,
{
    if n <= 0 || n > ms.len() {
        Seq::empty()
    } else {
        members_diags(ms, n - 1, classes) + member_diags(*ms[n - 1], classes)
    }
}

/// Whether every field is of a primitive type.
pub open spec fn all_primitive(fields: Seq<FieldSig>) -> bool {
    forall|i: int| 0 <= i < fields.len() ==> *(#[trigger] fields[i]).field_type.kind is Prim
}

/// Whether the flattened fields of every class are of primitive types.
pub open spec fn classes_flat(classes: Map<Seq<char>, Seq<FieldSig>>) -> bool {
    forall|c: Seq<char>| #[trigger] classes.contains_key(c) ==> all_primitive(classes[c])
}

impl Env {
    /// The environment before anything is declared: one scope, the global
    /// one, and nothing in it.
    pub open spec fn initial() -> Env {
        Env { functions: Map::empty(), classes: Map::empty(), scopes: seq![Map::empty()] }
    }

    /// Whether the flattened fields of every class are of primitive types.
    pub open spec fn flat(self) -> bool {
        classes_flat(self.classes)
    }

    /// The depth of the innermost scope; the global scope has depth 0.
    pub open spec fn depth(self) -> int {
        self.scopes.len() - 1
    }

    /// The type that a variable name resolves to.
    pub open spec fn lookup(self, name: Seq<char>) -> Option<Type> {
        lookup_var(self.scopes, name)
    }

    /// Whether `name` is the name of a function or of a class.
    pub open spec fn is_fn_or_class(self, name: Seq<char>) -> bool {
        self.classes.contains_key(name) || self.functions.contains_key(name)
    }

    /// Whether the innermost scope binds `name`.
    pub open spec fn declared_here(self, name: Seq<char>) -> bool {
        self.scopes.len() > 0 && self.scopes.last().contains_key(name)
    }

    /// The environment with a new innermost scope.
    pub open spec fn enter(self) -> Env {
        Env { scopes: self.scopes.push(Map::empty()), ..self }
    }

    /// The environment without the entries of its innermost scope: that
    /// scope is closed, or emptied if it is the global one.
    pub open spec fn leave(self) -> Env {
        if self.scopes.len() > 1 {
            Env { scopes: self.scopes.drop_last(), ..self }
        } else {
            Env { scopes: seq![Map::empty()], ..self }
        }
    }

    /// The environment with `name` bound to `t` in the innermost scope.
    pub open spec fn with_var(self, name: Seq<char>, t: Type) -> Env {
        Env { scopes: bind(self.scopes, name, t), ..self }
    }

    /// The environment with the flattened fields of the class `class` bound
    /// in the innermost scope as fields of `owner`; unchanged when the class
    /// is not known.
    pub open spec fn with_instance(self, owner: Seq<char>, class: Seq<char>) -> Env {
        if self.classes.contains_key(class) {
            Env { scopes: bind_fields(self.scopes, owner, self.classes[class], 0), ..self }
        } else {
            self
        }
    }

    /// The environment with the function `f` registered under its name.
    pub open spec fn with_fn(self, f: FnDecl) -> Env {
        Env { functions: self.functions.insert(f.id.name@, sig_of(f)), ..self }
    }

    /// The environment with the class `c` registered: its flattened fields
    /// under its name, and its methods as functions named `class--method`.
    pub open spec fn with_class(self, c: ClassDecl) -> Env {
        Env {
            functions: with_methods(self.functions, c.id.name@, c.member_f@, c.member_f@.len() as int),
            classes: self.classes.insert(
                c.id.name@,
                members_fields(c.member_f@, c.member_f@.len() as int, self.classes),
            ),
            scopes: self.scopes,
        }
    }
}

/// The analyzer's state: the symbol environment and the diagnostics raised
/// so far.
pub struct TypeAnalyzer {
    functions: Table<FunctionKind>,
    classes: Table<Vec<Field>>,
    vars: Vec<Table<Type>>,
    diagnostics: Vec<Diagnostic>,
}

impl TypeAnalyzer {
    /// The symbol environment.
    pub closed spec fn env(&self) -> Env {
        Env {
            functions: self.functions.model(),
            classes: self.classes.model(),
            scopes: Seq::new(self.vars@.len(), |i: int| self.vars@[i].model()),
        }
    }

    /// The diagnostics raised so far, oldest first.
    pub closed spec fn diags(&self) -> Seq<Diagnostic> {
        self.diagnostics@
    }

    /// Whether the analyzer is in order: it has at least the global scope,
    /// and the flattened fields of every class are of primitive types.
    pub closed spec fn wf(&self) -> bool {
        self.vars@.len() >= 1 && classes_flat(self.classes.model())
    }

    /// What `wf` gives: a scope to declare in, and flat classes.
    pub proof fn lemma_wf(&self)
        requires
            self.wf(),
        ensures
            self.env().scopes.len() >= 1,
            self.env().flat(),
    {
    }

    /// An analyzer that knows nothing yet.
    pub fn new() -> (an: TypeAnalyzer)
        ensures
            an.wf(),
            an.env() == Env::initial(),
            an.diags() == Seq::<Diagnostic>::empty(),
    {
        let mut vars: Vec<Table<Type>> = Vec::new();
        vars.push(Table::new());
        let an = TypeAnalyzer {
            functions: Table::new(),
            classes: Table::new(),
            vars,
            diagnostics: Vec::new(),
        };
        proof {
            assert(an.env().scopes =~= seq![Map::<Seq<char>, Type>::empty()]);
        }
        an
    }

    /// The depth of the innermost scope.
    pub fn scope(&self) -> (d: usize)
        requires
            self.wf(),
        ensures
            d == self.env().depth(),
    {
        self.vars.len() - 1
    }

    /// Whether any error has been reported.
    pub fn failed(&self) -> (b: bool)
        ensures
            b == (self.diags().len() > 0),
    {
        self.diagnostics.len() > 0
    }

    /// The diagnostics raised so far, oldest first.
    pub fn diagnostics(&self) -> (d: &Vec<Diagnostic>)
        ensures
            d@ == self.diags(),
    {
        &self.diagnostics
    }

    /// Records one error.
    pub fn report_error(&mut self, kind: ErrorType, span: Span)
        requires
            old(self).wf(),
        ensures
            final(self).wf(),
            final(self).env() == old(self).env(),
            final(self).diags() == old(self).diags().push(Diagnostic { kind, span }),
    {
        self.diagnostics.push(Diagnostic { kind, span });
    }

    /// Opens a new innermost scope.
    pub fn enter_scope(&mut self)
        requires
            old(self).wf(),
        ensures
            final(self).wf(),
            final(self).env() == old(self).env().enter(),
            final(self).diags() == old(self).diags(),
    {
        self.vars.push(Table::new());
        proof {
            assert(final(self).env().scopes =~= old(self).env().scopes.push(Map::empty()));
        }
    }

    /// Drops every entry of the innermost scope and closes that scope; the
    /// global scope is emptied and stays open.
    pub fn remove_scope(&mut self)
        requires
            old(self).wf(),
        ensures
            final(self).wf(),
            final(self).env() == old(self).env().leave(),
            final(self).diags() == old(self).diags(),
    {
        if self.vars.len() > 1 {
            self.vars.pop();
            proof {
                assert(final(self).env().scopes =~= old(self).env().scopes.drop_last());
            }
        } else {
            self.vars.pop();
            self.vars.push(Table::new());
            proof {
                assert(final(self).env().scopes =~= seq![Map::<Seq<char>, Type>::empty()]);
            }
        }
    }

    /// Binds `id` to `var_type` in the innermost scope, in place of what it
    /// was bound to there.
    pub fn add_var(&mut self, id: String, var_type: Type)
        requires
            old(self).wf(),
        ensures
            final(self).wf(),
            final(self).env() == old(self).env().with_var(id@, var_type),
            final(self).diags() == old(self).diags(),
    {
        let n = self.vars.len();
        self.vars[n - 1].insert(id, var_type);
        proof {
            assert(final(self).env().scopes =~= bind(old(self).env().scopes, id@, var_type));
        }
    }

    /// Whether the innermost scope binds `id`.
    pub fn declared_here(&self, id: &String) -> (b: bool)
        requires
            self.wf(),
        ensures
            b == self.env().declared_here(id@),
    {
        let n = self.vars.len();
        self.vars[n - 1].contains(id)
    }

    /// Binds, in the innermost scope, each flattened field of the class
    /// `class_name` under the name `id--field`. Nothing is bound when the
    /// class is not known.
    pub fn add_class_inst(&mut self, id: String, class_name: String)
        requires
            old(self).wf(),
        ensures
            final(self).wf(),
            final(self).env() == old(self).env().with_instance(id@, class_name@),
            final(self).diags() == old(self).diags(),
    {
        let n = self.vars.len();
        match self.classes.get(&class_name) {
            None => {},
            Some(fields) => {
                let ghost sigs = fields.deep_view();
                let ghost start = self.env().scopes;
                let mut i: usize = 0;
                while i < fields.len()
                    invariant
                        i <= fields@.len(),
                        n == self.vars@.len(),
                        n >= 1,
                        sigs == fields.deep_view(),
                        self.functions == old(self).functions,
                        self.classes == old(self).classes,
                        self.diagnostics == old(self).diagnostics,
                        bind_fields(self.env().scopes, id@, sigs, i as int) == bind_fields(
                            start,
                            id@,
                            sigs,
                            0,
                        ),
                    decreases fields@.len() - i,
                {
                    let mut name = id.clone();
                    name.append("--");
                    name.append(fields[i].id.as_str());
                    let t = fields[i].field_type.copy();
                    let ghost before = self.env().scopes;
                    self.vars[n - 1].insert(name, t);
                    proof {
                        assert(sigs[i as int] == fields@[i as int].deep_view());
                        assert(name@ =~= dotted(id@, sigs[i as int].id));
                        assert(self.env().scopes =~= bind(before, name@, t));
                    }
                    i += 1;
                }
            },
        }
    }

    /// Registers the function `func` under its name.
    pub fn add_fn(&mut self, func: &FnDecl)
        requires
            old(self).wf(),
        ensures
            final(self).wf(),
            final(self).env() == old(self).env().with_fn(*func),
            final(self).diags() == old(self).diags(),
    {
        let kind = signature(func);
        self.functions.insert(func.id.name.clone(), kind);
    }

    /// Registers the class `class`: its flattened fields under its name, and
    /// its methods as functions named `class--method`. A field of a
    /// primitive type is kept as it is; a field of a class known so far is
    /// replaced by that class's flattened fields, each named
    /// `field--inner`; a field of a class not known so far (the class
    /// itself included) gives no field and raises `UndefinedDecl`.
    pub fn add_class(&mut self, class: &ClassDecl)
        requires
            old(self).wf(),
        ensures
            final(self).wf(),
            final(self).env() == old(self).env().with_class(*class),
            final(self).diags() == old(self).diags() + members_diags(
                class.member_f@,
                class.member_f@.len() as int,
                old(self).env().classes,
            ),
    {
        let mut fields: Vec<Field> = Vec::new();
        let ghost ms = class.member_f@;
        let ghost classes = self.env().classes;
        let ghost functions = self.env().functions;
        let n = class.member_f.len();
        let mut i: usize = 0;
        proof {
            assert(fields.deep_view() =~= members_fields(ms, 0, classes));
            assert(self.diags() =~= old(self).diags() + members_diags(ms, 0, classes));
        }
        while i < n
            invariant
                i <= n,
                n == ms.len(),
                ms == class.member_f@,
                self.wf(),
                self.env().scopes == old(self).env().scopes,
                self.env().classes == classes,
                classes == old(self).env().classes,
                functions == old(self).env().functions,
                self.env().functions == with_methods(functions, class.id.name@, ms, i as int),
                fields.deep_view() == members_fields(ms, i as int, classes),
                all_primitive(fields.deep_view()),
                self.diags() == old(self).diags() + members_diags(ms, i as int, classes),
            decreases n - i,
        {
            let ghost fields_before = fields.deep_view();
            let ghost diags_before = self.diags();
            match &*class.member_f[i] {
                Decl::VarDecl(v) => {
                    match &*v.var_type.kind {
                        TypeKind::Prim(_) => {
                            let f = Field { id: v.id.name.clone(), field_type: v.var_type.copy() };
                            fields.push(f);
                            proof {
                                assert(fields.deep_view() =~= fields_before + member_fields(
                                    *ms[i as int],
                                    classes,
                                ));
                            }
                        },
                        TypeKind::Class(c) => {
                            match self.classes.get(&c.name) {
                                Some(inner) => {
                                    let ghost sigs = inner.deep_view();
                                    let m = inner.len();
                                    let mut j: usize = 0;
                                    proof {
                                        assert(all_primitive(sigs));
                                        assert(fields.deep_view() =~= fields_before + prefixed(
                                            v.id.name@,
                                            sigs,
                                        ).take(0));
                                    }
                                    while j < m
                                        invariant
                                            j <= m,
                                            m == inner@.len(),
                                            sigs == inner.deep_view(),
                                            all_primitive(sigs),
                                            all_primitive(fields.deep_view()),
                                            fields.deep_view() == fields_before + prefixed(
                                                v.id.name@,
                                                sigs,
                                            ).take(j as int),
                                        decreases m - j,
                                    {
                                        let mut name = v.id.name.clone();
                                        name.append("--");
                                        name.append(inner[j].id.as_str());
                                        let f = Field { id: name, field_type: inner[j].field_type.copy() };
                                        let ghost before = fields.deep_view();
                                        fields.push(f);
                                        proof {
                                            assert(sigs[j as int] == inner@[j as int].deep_view());
                                            assert(f.id@ =~= dotted(v.id.name@, sigs[j as int].id));
                                            assert(fields.deep_view() =~= before.push(f.deep_view()));
                                            assert(prefixed(v.id.name@, sigs).take(j + 1) =~= prefixed(
                                                v.id.name@,
                                                sigs,
                                            ).take(j as int).push(f.deep_view()));
                                            assert(fields.deep_view() =~= fields_before + prefixed(
                                                v.id.name@,
                                                sigs,
                                            ).take(j + 1));
                                        }
                                        j += 1;
                                    }
                                    proof {
                                        assert(prefixed(v.id.name@, sigs).take(m as int) =~= prefixed(
                                            v.id.name@,
                                            sigs,
                                        ));
                                    }
                                },
                                None => {
                                    self.report_error(ErrorType::UndefinedDecl, c.span);
                                    proof {
                                        assert(fields.deep_view() =~= fields_before + member_fields(
                                            *ms[i as int],
                                            classes,
                                        ));
                                    }
                                },
                            }
                        },
                    }
                },
                Decl::FnDecl(f) => {
                    let mut name = class.id.name.clone();
                    name.append("--");
                    name.append(f.id.name.as_str());
                    let kind = signature(f);
                    proof {
                        assert(name@ =~= dotted(class.id.name@, f.id.name@));
                    }
                    self.functions.insert(name, kind);
                    proof {
                        assert(fields.deep_view() =~= fields_before + member_fields(
                            *ms[i as int],
                            classes,
                        ));
                    }
                },
                Decl::ClassDecl(_) => {
                    proof {
                        assert(fields.deep_view() =~= fields_before + member_fields(
                            *ms[i as int],
                            classes,
                        ));
                    }
                },
            }
            proof {
                assert(self.diags() =~= diags_before + member_diags(*ms[i as int], classes));
                assert(self.diags() =~= old(self).diags() + members_diags(ms, i + 1, classes));
            }
            i += 1;
        }
        self.classes.insert(class.id.name.clone(), fields);
    }

    /// The signature of the function `fn_name`, if there is such a function.
    pub fn get_fn(&self, fn_name: &String) -> (r: Result<&FunctionKind, ()>)
        ensures
            r is Ok <==> self.env().functions.contains_key(fn_name@),
            r matches Ok(k) ==> self.env().functions[fn_name@] == k.deep_view(),
    {
        match self.functions.get(fn_name) {
            Some(x) => Ok(x),
            None => Err(()),
        }
    }

    /// The type that the variable `id` resolves to: that of the innermost
    /// scope that binds it.
    pub fn get_var_type(&self, id: String) -> (r: Result<Type, ()>)
        ensures
            r is Ok <==> self.env().lookup(id@) is Some,
            r matches Ok(t) ==> self.env().lookup(id@) == Some(t),
    {
        let mut i: usize = self.vars.len();
        let ghost scopes = self.env().scopes;
        proof {
            assert(scopes.take(i as int) =~= scopes);
        }
        while i > 0
            invariant
                i <= self.vars@.len(),
                scopes == self.env().scopes,
                lookup_var(scopes, id@) == lookup_var(scopes.take(i as int), id@),
            decreases i,
        {
            proof {
                assert(scopes.take(i as int).drop_last() =~= scopes.take(i - 1));
                assert(scopes.take(i as int).last() == self.vars@[i - 1].model());
            }
            i -= 1;
            match self.vars[i].get(&id) {
                Some(t) => {
                    return Ok(t.copy());
                },
                None => {},
            }
        }
        Err(())
    }

    /// The entry of the variable table under `key`, if there is one.
    pub fn get_var_at(&self, key: &VarKey) -> (r: Option<Type>)
        ensures
            r == (if key.scope < self.env().scopes.len() && self.env().scopes[key.scope as int].contains_key(
                key.id@,
            ) {
                Some(self.env().scopes[key.scope as int][key.id@])
            } else {
                None
            }),
    {
        if key.scope < self.vars.len() {
            match self.vars[key.scope].get(&key.id) {
                Some(t) => Some(t.copy()),
                None => None,
            }
        } else {
            None
        }
    }

    /// The flattened fields of the class `name`, if there is such a class.
    pub fn class_fields(&self, name: &String) -> (r: Option<&Vec<Field>>)
        ensures
            r is Some <==> self.env().classes.contains_key(name@),
            r matches Some(v) ==> self.env().classes[name@] == v.deep_view(),
    {
        self.classes.get(name)
    }

    /// Whether `name` is the name of a function.
    pub fn has_fn(&self, name: &String) -> (b: bool)
        ensures
            b == self.env().functions.contains_key(name@),
    {
        self.functions.contains(name)
    }

    /// Whether `name` is the name of a class.
    pub fn has_class(&self, name: &String) -> (b: bool)
        ensures
            b == self.env().classes.contains_key(name@),
    {
        self.classes.contains(name)
    }
}

/// The type of a formal.
pub fn type_of_formal(f: &FormalDecl) -> (t: &Type)
    ensures
        *t == formal_type(*f),
{
    match f {
        FormalDecl::VarDecl(v) => &*v.var_type,
        FormalDecl::FormalDecl { id, formal_type } => &**formal_type,
    }
}

/// The name of a formal.
pub fn name_of_formal(f: &FormalDecl) -> (s: &String)
    ensures
        s@ == formal_name(*f),
{
    match f {
        FormalDecl::VarDecl(v) => &v.id.name,
        FormalDecl::FormalDecl { id, formal_type } => &id.name,
    }
}

/// The signature of a function declaration.
pub fn signature(func: &FnDecl) -> (k: FunctionKind)
    ensures
        k.deep_view() == sig_of(*func),
{
    let mut arg_types: Vec<Type> = Vec::new();
    let mut i: usize = 0;
    while i < func.args.len()
        invariant
            i <= func.args@.len(),
            arg_types@.len() == i,
            forall|j: int| 0 <= j < i ==> arg_types@[j] == formal_type(*func.args@[j]),
        decreases func.args@.len() - i,
    {
        arg_types.push(type_of_formal(&func.args[i]).copy());
        i += 1;
    }
    let k = FunctionKind { arg_types, return_type: func.ret.copy() };
    proof {
        assert(k.deep_view().args =~= sig_of(*func).args);
    }
    k
}

} // verus!
