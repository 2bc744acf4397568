//! The syntax tree of a program.

use vstd::prelude::*;
use vstd::string::*;
use vstd::std_specs::cmp::PartialEqSpecImpl;
use crate::span::Span;

verus! {

/// A whole program: its top-level declarations in source order.
#[derive(Debug, PartialEq)]
pub struct Program {
    pub globals: Vec<Box<Decl>>,
}

/// A top-level or class-level declaration.
#[derive(Debug, PartialEq)]
pub enum Decl {
    VarDecl(Box<VarDecl>),
    ClassDecl(Box<ClassDecl>),
    FnDecl(Box<FnDecl>),
}

/// A variable declaration, with or without an initial value.
#[derive(Debug, PartialEq)]
pub struct VarDecl {
    pub var_type: Box<Type>,
    pub id: Box<Id>,
    pub init_val: Option<Box<Exp>>,
}

/// A type: a primitive or a class, either of them possibly write-once.
#[derive(Debug)]
pub struct Type {
    pub perfect: bool,
    pub kind: Box<TypeKind>,
}

/// What a type is apart from its qualifier.
#[derive(Debug, PartialEq)]
pub enum TypeKind {
    Prim(PrimType),
    Class(Box<Id>),
}

/// The primitive types.
#[derive(Debug, Clone, Copy, PartialEq, Eq, Structural)]
pub enum PrimType {
    Bool,
    Int,
    Void,
    String,
}

/// A class: its name and its members.
#[derive(Debug, PartialEq)]
pub struct ClassDecl {
    pub id: Box<Id>,
    pub member_f: Box<Vec<Box<Decl>>>,
}

/// A function: name, formals, return type and body.
#[derive(Debug, PartialEq)]
pub struct FnDecl {
    pub id: Box<Id>,
    pub args: Vec<Box<FormalDecl>>,
    pub ret: Box<Type>,
    pub body: Vec<Box<Stmt>>,
}

/// A formal parameter.
#[derive(Debug, PartialEq)]
pub enum FormalDecl {
    VarDecl(VarDecl),
    FormalDecl { id: Box<Id>, formal_type: Box<Type> },
}

/// A statement.
#[derive(Debug, PartialEq)]
pub enum Stmt {
    Block(Box<BlockStmt>),
    Line(Box<LineStmt>),
    VarDecl(Box<VarDecl>),
}

/// A statement that owns one or two bodies.
#[derive(Debug, PartialEq)]
pub enum BlockStmt {
    While { cond: Box<Exp>, body: Vec<Box<Stmt>> },
    If { cond: Box<Exp>, body: Vec<Box<Stmt>> },
    IfElse { cond: Box<Exp>, true_branch: Vec<Box<Stmt>>, false_branch: Vec<Box<Stmt>> },
}

/// A statement that ends in a semicolon.
#[derive(Debug, PartialEq)]
pub struct LineStmt {
    pub kind: Box<LineStmtKind>,
    pub span: Span,
}

/// The kinds of line statement.
#[derive(Debug, PartialEq)]
pub enum LineStmtKind {
    Assign { dest: Box<Loc>, src: Box<Exp> },
    PostDec { loc: Box<Loc> },
    PostInc { loc: Box<Loc> },
    Give { output: Box<Exp> },
    Take { recipient: Box<Loc> },
    Return { result: Option<Box<Exp>> },
    Exit,
    Call(Box<CallExp>),
}

/// An expression, with the slot for its resolved type.
#[derive(Debug, PartialEq)]
pub struct Exp {
    pub expr_type: Option<Box<Type>>,
    pub kind: Box<ExpKind>,
    pub span: Span,
}

/// The kinds of expression.
#[derive(Debug, PartialEq)]
pub enum ExpKind {
    True,
    False,
    Magic,
    UnaryExp(Box<UnaryExp>),
    BinaryExp(Box<BinaryExp>),
    CallExp(Box<CallExp>),
    IntLit(i32),
    StrLit(String),
    Loc(Box<Loc>),
}

/// A unary operation.
#[derive(Debug, PartialEq)]
pub struct UnaryExp {
    pub exp: Box<Exp>,
    pub kind: Box<UnaryExpKind>,
    pub expr_type: Option<Box<Type>>,
    pub span: Span,
}

/// The unary operators.
#[derive(Debug, Clone, Copy, PartialEq, Eq, Structural)]
pub enum UnaryExpKind {
    Neg,
    Not,
}

/// A binary operation.
#[derive(Debug, PartialEq)]
pub struct BinaryExp {
    pub lhs: Box<Exp>,
    pub rhs: Box<Exp>,
    pub kind: Box<BinaryExpKind>,
    pub expr_type: Option<Box<Type>>,
    pub span: Span,
}

/// The binary operators.
#[derive(Debug, Clone, Copy, PartialEq, Eq, Structural)]
pub enum BinaryExpKind {
    And,
    Or,
    Equals,
    NotEquals,
    Greater,
    Less,
    GreaterEq,
    LessEq,
    Plus,
    Minus,
    Times,
    Divide,
}

/// A function call.
#[derive(Debug, PartialEq)]
pub struct CallExp {
    pub name: Box<Loc>,
    pub args: Vec<Box<Exp>>,
    pub fn_type: Option<Type>,
    pub span: Span,
}

/// A variable or a field of one, with the slot for its resolved type.
#[derive(Debug, PartialEq)]
pub struct Loc {
    pub span: Span,
    pub loc_type: Option<Type>,
    pub kind: Box<LocKind>,
}

/// A plain name, or a field reached through a location.
#[derive(Debug, PartialEq)]
pub enum LocKind {
    Id(Box<Id>),
    Loc { base_class: Box<Loc>, field_name: Box<Id> },
}

/// An identifier.
#[derive(Debug, PartialEq)]
pub struct Id {
    pub name: String,
    pub span: Span,
    pub id_type: Option<Type>,
}

/// `Some` of a type when the slot holds one.
pub open spec fn unbox_slot(slot: Option<Box<Type>>) -> Option<Type> {
    match slot {
        Some(b) => Some(*b),
        None => None,
    }
}

impl PrimType {
    /// Whether two primitive types are the same one.
    pub fn same(self, other: PrimType) -> (b: bool)
        ensures
            b == (self == other),
    {
        self == other
    }
}

impl TypeKind {
    /// Whether the kind is the primitive `p`.
    pub open spec fn spec_is_prim(self, p: PrimType) -> bool {
        self == TypeKind::Prim(p)
    }

    /// Whether the kind is the primitive `p`.
    pub fn is_prim(&self, p: PrimType) -> (b: bool)
        ensures
            b == self.spec_is_prim(p),
    {
        match self {
            TypeKind::Prim(q) => *q == p,
            TypeKind::Class(_) => false,
        }
    }

    /// Whether two kinds name the same type: the same primitive, or classes
    /// of the same name.
    pub open spec fn spec_same(self, other: TypeKind) -> bool {
        match (self, other) {
            (TypeKind::Prim(p), TypeKind::Prim(q)) => p == q,
            (TypeKind::Class(a), TypeKind::Class(b)) => a.name@ == b.name@,
            _ => false,
        }
    }

    /// Whether two kinds name the same type.
    pub fn same(&self, other: &TypeKind) -> (b: bool)
        ensures
            b == self.spec_same(*other),
    {
        match self {
            TypeKind::Prim(p) => match other {
                TypeKind::Prim(q) => *p == *q,
                TypeKind::Class(_) => false,
            },
            TypeKind::Class(a) => match other {
                TypeKind::Prim(_) => false,
                TypeKind::Class(b) => a.name == b.name,
            },
        }
    }

    /// A copy of the kind.
    pub fn copy(&self) -> (r: TypeKind)
        ensures
            r == *self,
        decreases self,
    {
        match self {
            TypeKind::Prim(p) => TypeKind::Prim(*p),
            TypeKind::Class(id) => TypeKind::Class(Box::new(id.copy())),
        }
    }
}

impl Type {
    /// A boxed type of the given kind and qualifier.
    pub fn new(kind: TypeKind, perfect: bool) -> (t: Box<Type>)
        ensures
            *t == (Type { perfect, kind: Box::new(kind) }),
    {
        Box::new(Type { perfect: perfect, kind: Box::new(kind) })
    }

    /// The unqualified primitive type `p`.
    pub open spec fn spec_prim(p: PrimType) -> Type {
        Type { perfect: false, kind: Box::new(TypeKind::Prim(p)) }
    }

    /// The unqualified primitive type `p`.
    pub fn prim(p: PrimType) -> (t: Type)
        ensures
            t == Type::spec_prim(p),
    {
        Type { perfect: false, kind: Box::new(TypeKind::Prim(p)) }
    }

    /// Whether two types agree as operands: they are the same primitive, or
    /// classes of the same name. The qualifier is not looked at.
    pub open spec fn spec_agrees(self, other: Type) -> bool {
        self.kind.spec_same(*other.kind)
    }

    /// Whether two types agree as operands.
    pub fn agrees(&self, other: &Type) -> (b: bool)
        ensures
            b == self.spec_agrees(*other),
    {
        self.kind.same(&other.kind)
    }

    /// A copy of the type.
    pub fn copy(&self) -> (r: Type)
        ensures
            r == *self,
        decreases self,
    {
        Type { perfect: self.perfect, kind: Box::new(self.kind.copy()) }
    }
}

impl PartialEq for Type {
    fn eq(&self, other: &Self) -> (r: bool) {
        self.agrees(other)
    }
}

impl PartialEqSpecImpl for Type {
    open spec fn obeys_eq_spec() -> bool {
        true
    }

    open spec fn eq_spec(&self, other: &Self) -> bool {
        self.spec_agrees(*other)
    }
}

/// A copy of an optional type.
pub fn copy_opt_type(t: &Option<Type>) -> (r: Option<Type>)
    ensures
        r == *t,
    decreases t,
{
    match t {
        Some(x) => Some(x.copy()),
        None => None,
    }
}

impl Id {
    /// A copy of the identifier.
    pub fn copy(&self) -> (r: Id)
        ensures
            r == *self,
        decreases self,
    {
        Id { name: self.name.clone(), span: self.span, id_type: copy_opt_type(&self.id_type) }
    }
}

impl Loc {
    /// The dotted name of a location: its identifiers joined by `--`.
    pub open spec fn spec_name(self) -> Seq<char>
        decreases self,
    {
        match *self.kind {
            LocKind::Id(id) => id.name@,
            LocKind::Loc { base_class, field_name } => base_class.spec_name() + "--"@
                + field_name.name@,
        }
    }

    /// Appends the dotted name of the location to `out`.
    pub fn append_name(&self, out: &mut String)
        ensures
            final(out)@ == old(out)@ + self.spec_name(),
        decreases self,
    {
        match &*self.kind {
            LocKind::Id(id) => {
                out.append(id.name.as_str());
            },
            LocKind::Loc { base_class, field_name } => {
                base_class.append_name(out);
                out.append("--");
                out.append(field_name.name.as_str());
                proof {
                    assert(final(out)@ =~= old(out)@ + self.spec_name());
                }
            },
        }
    }

    /// The dotted name of the location.
    pub fn name(&self) -> (s: String)
        ensures
            s@ == self.spec_name(),
    {
        let mut s = String::new();
        self.append_name(&mut s);
        proof {
            assert(Seq::<char>::empty() + self.spec_name() =~= self.spec_name());
        }
        s
    }

    /// A copy of the location.
    pub fn copy(&self) -> (r: Loc)
        ensures
            r == *self,
        decreases self,
    {
        let kind = match &*self.kind {
            LocKind::Id(id) => LocKind::Id(Box::new(id.copy())),
            LocKind::Loc { base_class, field_name } => LocKind::Loc {
                base_class: Box::new(base_class.copy()),
                field_name: Box::new(field_name.copy()),
            },
        };
        Loc { span: self.span, loc_type: copy_opt_type(&self.loc_type), kind: Box::new(kind) }
    }
}

impl LineStmt {
    /// A boxed line statement whose span runs over the byte offsets `l..r`.
    pub fn new(kind: LineStmtKind, l: usize, r: usize) -> (s: Box<LineStmt>)
        ensures
            *s == (LineStmt { kind: Box::new(kind), span: Span::new(l, r) }),
    {
        Box::new(LineStmt { kind: Box::new(kind), span: Span::new(l, r) })
    }
}

impl Exp {
    /// A boxed expression with an empty type slot.
    pub fn new(kind: Box<ExpKind>, left_span: usize, right_span: usize) -> (e: Box<Exp>)
        ensures
            *e == (Exp { expr_type: None, kind, span: Span::new(left_span, right_span) }),
    {
        Box::new(Exp { expr_type: None, kind, span: Span::new(left_span, right_span) })
    }

    /// A boxed expression whose type slot holds the unqualified primitive
    /// `expr_type`.
    pub fn new_with_type(
        kind: Box<ExpKind>,
        expr_type: PrimType,
        left_span: usize,
        right_span: usize,
    ) -> (e: Box<Exp>)
        ensures
            *e == (Exp {
                expr_type: Some(Box::new(Type::spec_prim(expr_type))),
                kind,
                span: Span::new(left_span, right_span),
            }),
    {
        Box::new(
            Exp {
                expr_type: Some(Box::new(Type::prim(expr_type))),
                kind,
                span: Span::new(left_span, right_span),
            },
        )
    }
}

impl ExpKind {
    /// The kind in a box.
    pub fn new(kind: ExpKind) -> (b: Box<ExpKind>)
        ensures
            *b == kind,
    {
        Box::new(kind)
    }
}

impl UnaryExp {
    /// A boxed unary operation with an empty type slot.
    pub fn new(exp: Box<Exp>, kind: UnaryExpKind, left_span: usize, right_span: usize) -> (u: Box<
        UnaryExp,
    >)
        ensures
            *u == (UnaryExp {
                exp,
                kind: Box::new(kind),
                expr_type: None,
                span: Span::new(left_span, right_span),
            }),
    {
        Box::new(
            UnaryExp {
                exp: exp,
                kind: Box::new(kind),
                expr_type: None,
                span: Span::new(left_span, right_span),
            },
        )
    }
}

impl BinaryExp {
    /// A boxed binary operation with an empty type slot.
    pub fn new(
        lhs: Box<Exp>,
        rhs: Box<Exp>,
        kind: BinaryExpKind,
        left_span: usize,
        right_span: usize,
    ) -> (b: Box<BinaryExp>)
        ensures
            *b == (BinaryExp {
                lhs,
                rhs,
                kind: Box::new(kind),
                expr_type: None,
                span: Span::new(left_span, right_span),
            }),
    {
        Box::new(
            BinaryExp {
                lhs: lhs,
                rhs: rhs,
                kind: Box::new(kind),
                expr_type: None,
                span: Span::new(left_span, right_span),
            },
        )
    }
}

} // verus!
