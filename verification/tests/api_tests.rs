use drewno_mars::analysis::env::{ErrorType, TypeAnalyzer};
use drewno_mars::analysis::node::{EvaluateExpType, TypeAnalysisNode, TypeAnalysisStmtNode};
use drewno_mars::assembly::emit::Emitter;
use drewno_mars::assembly::ir::{Operand, Place, Quad, Variable3ACType};
use drewno_mars::assembly::node::{Exp3AC, ExpKind3AC, Stmt3AC, ThreeAC};
use drewno_mars::assembly::symbols::{FunctionType, FunctionValue, IRSymbolTable, Variable3AC};
use drewno_mars::parser::ast::{
    BinaryExpKind, Exp, ExpKind, PrimType, Type, TypeKind, UnaryExpKind,
};
use drewno_mars::parser::display::NamedNode;
use drewno_mars::parser::grammar::{
    behaves, ExpParser, FnDeclParser, InputType, LineStmtParser, LocParser, ParseError,
    ParserType, StmtListParser,
};
use drewno_mars::parser::respan::SpanNode;
use drewno_mars::scan::{read_i32, read_usize, split};
use drewno_mars::scanner::lexer::Lexer;
use drewno_mars::scanner::tokens::{LexingError, TokenType};
use drewno_mars::span::{Position, Span};
use drewno_mars::text::{append_decimal, append_i32, parse_i32_digits};

fn chars(s: &str) -> Vec<char> {
    s.chars().collect()
}

fn int_type() -> Type {
    Type { perfect: false, kind: Box::new(TypeKind::Prim(PrimType::Int)) }
}

#[test]
fn numbers_are_written_in_decimal() {
    let mut s = String::from("n=");
    append_decimal(&mut s, 0);
    append_decimal(&mut s, 907);
    append_i32(&mut s, -2147483648);
    append_i32(&mut s, 2147483647);
    assert_eq!(s, "n=0907-21474836482147483647");
}

#[test]
fn numbers_are_read_from_decimal() {
    assert_eq!(read_usize(&chars("0")), Some(0));
    assert_eq!(read_usize(&chars("0042")), Some(42));
    assert_eq!(read_usize(&chars("")), None);
    assert_eq!(read_usize(&chars("4x")), None);
    assert_eq!(read_usize(&chars("999999999999999999999999999999")), None);
    assert_eq!(read_i32(&chars("-2147483648")), Some(-2147483648));
    assert_eq!(read_i32(&chars("2147483647")), Some(2147483647));
    assert_eq!(read_i32(&chars("2147483648")), None);
    assert_eq!(read_i32(&chars("-2147483649")), None);
    assert_eq!(read_i32(&chars("-")), None);
    assert_eq!(read_i32(&chars("+1")), None);
    assert_eq!(parse_i32_digits(&chars("x123y"), 1, 4), Some(123));
    assert_eq!(parse_i32_digits(&chars("99999999999"), 0, 11), None);
}

#[test]
fn split_gives_one_piece_more_than_separators() {
    let pieces: Vec<String> = split(&chars("a,,bc,"), ',')
        .iter()
        .map(|p| p.iter().collect())
        .collect();
    assert_eq!(pieces, vec!["a", "", "bc", ""]);
    assert_eq!(split(&chars(""), ',').len(), 1);
}

#[test]
fn symbol_table_keeps_globals_strings_and_locals() {
    let mut table = IRSymbolTable::new();
    assert!(table.add_var(
        &FunctionType::Global,
        Variable3AC { id: "g".to_string(), var_type: Variable3ACType::Bool },
    ));
    table.add_string("\"hi\"".to_string());
    table.add_string("\"ho\"".to_string());
    assert_eq!(table.globals(), "g-bool\nstr0 \"hi\"\nstr1 \"ho\"\n");

    let local = FunctionType::Local { id: "f".to_string() };
    assert!(!table.add_var(
        &local,
        Variable3AC { id: "a".to_string(), var_type: Variable3ACType::Int },
    ));
    table.functions.push(FunctionValue::new("f".to_string(), 0));
    assert!(table.add_var(
        &local,
        Variable3AC { id: "a".to_string(), var_type: Variable3ACType::Int },
    ));
    assert!(!table.add_var(
        &FunctionType::Local { id: "h".to_string() },
        Variable3AC { id: "b".to_string(), var_type: Variable3ACType::Int },
    ));
    table.functions[0].tmps.push(Variable3ACType::String);
    assert_eq!(table.fn_locals(0), "a-int\ntmp0-string\n");
    assert_eq!(table.fn_locals(1), "");
}

#[test]
fn operators_have_names_in_three_address_code() {
    assert_eq!(UnaryExpKind::Neg.to_3ac(), "NEG64");
    assert_eq!(UnaryExpKind::Not.to_3ac(), "NOT64");
    let names: Vec<String> = vec![
        BinaryExpKind::And,
        BinaryExpKind::Or,
        BinaryExpKind::Equals,
        BinaryExpKind::NotEquals,
        BinaryExpKind::Greater,
        BinaryExpKind::Less,
        BinaryExpKind::GreaterEq,
        BinaryExpKind::LessEq,
        BinaryExpKind::Plus,
        BinaryExpKind::Minus,
        BinaryExpKind::Times,
        BinaryExpKind::Divide,
    ]
    .iter()
    .map(|k| k.to_3ac())
    .collect();
    assert_eq!(
        names,
        vec![
            "AND64", "OR64", "EQ64", "NEQ64", "GT64", "LT64", "GTE64", "LTE64", "ADD64", "SUB64",
            "MULT64", "DIV64"
        ]
    );
}

#[test]
fn nodes_are_analyzed_through_their_traits() {
    let mut an = TypeAnalyzer::new();
    an.add_var("n".to_string(), int_type());

    let mut e = ExpParser::new().parse(Lexer::new("n * 2 < 7")).unwrap();
    e.analyze_type(&mut an);
    assert!(!an.failed());
    let t = e.expr_type.as_ref().unwrap();
    assert!(matches!(*t.kind, TypeKind::Prim(PrimType::Bool)));
    assert_eq!(e.named_unparse(), "n{int} * 2 < 7");

    let mut l = LocParser::new().parse(Lexer::new("n")).unwrap();
    let resolved = l.eval_type(&mut an).unwrap();
    assert!(matches!(*resolved.kind, TypeKind::Prim(PrimType::Int)));
    let mut unknown = LocParser::new().parse(Lexer::new("m--x")).unwrap();
    assert!(unknown.eval_type(&mut an).is_err());
    assert_eq!(an.diagnostics().len(), 1);
    assert_eq!(an.diagnostics()[0].kind, ErrorType::UndefinedDecl);
    assert_eq!(an.diagnostics()[0].span, Span::new(0, 4));

    let mut s = LineStmtParser::new().parse(Lexer::new("return n")).unwrap();
    s.analyze_type(&mut an, &TypeKind::Prim(PrimType::Bool));
    assert_eq!(an.diagnostics().len(), 2);
    assert_eq!(an.diagnostics()[1].kind, ErrorType::ReturnBad);
}

#[test]
fn nodes_are_lowered_through_their_traits() {
    let pool: Vec<String> = vec!["\"a\"".to_string(), "\"b\"".to_string()];
    let mut em = Emitter::new();
    let e = ExpParser::new().parse(Lexer::new("-x + f(\"b\")")).unwrap();
    let mut found: Vec<String> = Vec::new();
    e.find_vars(&mut found);
    assert_eq!(found, vec!["\"b\""]);
    let value = e.convert_3ac(&pool, &mut em);
    assert_eq!(value, Operand::Sym(Place::Tmp(2)));
    assert_eq!(
        em.code,
        vec![
            Quad::Unary {
                dest: Place::Tmp(0),
                op: UnaryExpKind::Neg,
                src: Operand::Sym(Place::Var("x".to_string())),
            },
            Quad::SetArg { index: 1, src: Operand::Str(1) },
            Quad::Call { name: "f".to_string() },
            Quad::GetRet { dest: Place::Tmp(1) },
            Quad::Binary {
                dest: Place::Tmp(2),
                lhs: Operand::Sym(Place::Tmp(0)),
                op: BinaryExpKind::Plus,
                rhs: Operand::Sym(Place::Tmp(1)),
            },
        ]
    );
    assert_eq!(em.tmps.len(), 3);
    assert_eq!(em.counts.tmp, 3);
    assert_eq!(em.counts.lbl, 0);

    let stmts = StmtListParser::new()
        .parse(Lexer::new("if (c) { return; }"))
        .unwrap();
    stmts[0].convert_3ac(&pool, &mut em, 9);
    assert_eq!(em.code.len(), 8);
    assert_eq!(em.code[5], Quad::Ifz { cond: Operand::Sym(Place::Var("c".to_string())), target: 0 });
    assert_eq!(em.code[6], Quad::Goto { target: 9 });
    assert_eq!(em.code[7], Quad::Label { label: 0 });
    assert_eq!(em.counts.lbl, 1);

    let f = FnDeclParser::new()
        .parse(Lexer::new("g : (a : int) void { }"))
        .unwrap();
    let mut fresh = Emitter::new();
    f.convert_3ac(&pool, &mut fresh);
    assert_eq!(
        fresh.code,
        vec![
            Quad::Enter { name: "g".to_string() },
            Quad::GetArg { index: 1, dest: Place::Var("a".to_string()) },
            Quad::Leave { label: 0, name: "g".to_string() },
        ]
    );
}

#[test]
fn spans_of_a_node_are_corrected_through_its_trait() {
    let mut e = ExpParser::new().parse(Lexer::new("a +\r\n  b")).unwrap();
    e.correct_span_rec(&vec![3, 3]);
    assert_eq!(
        e.span,
        Span { start: Position { row: 1, col: 1 }, end: Position { row: 2, col: 4 } }
    );
    match &*e.kind {
        ExpKind::BinaryExp(b) => {
            assert_eq!(
                b.rhs.span,
                Span { start: Position { row: 2, col: 3 }, end: Position { row: 2, col: 4 } }
            );
        }
        _ => panic!("not a binary operation"),
    }
}

#[test]
fn texts_behave_as_they_are_meant_to() {
    assert!(behaves(&ParserType::Exp, &InputType::Good, "a + b"));
    assert!(!behaves(&ParserType::Exp, &InputType::Bad, "a + b"));
    assert!(behaves(&ParserType::Exp, &InputType::Bad, "a +"));
    assert!(behaves(&ParserType::Exp, &InputType::Bad, "a == b == c"));
    assert!(behaves(&ParserType::Exp, &InputType::Good, "a == b and c != d or !e"));
    assert!(behaves(&ParserType::BlockStmt, &InputType::Good, "while (a) { if (b) { } else { } }"));
    assert!(behaves(&ParserType::ClassBody, &InputType::Good, "a : int; f : () void { }"));
    assert!(behaves(&ParserType::Program, &InputType::Good, "// nothing but a comment"));
}

#[test]
fn parse_errors_tell_what_is_wrong() {
    assert_eq!(
        ExpParser::new().parse(Lexer::new("a + ;")).unwrap_err(),
        ParseError::UnrecognizedToken { token: (4, TokenType::SEMICOL, 5) }
    );
    assert_eq!(
        ExpParser::new().parse(Lexer::new("a +")).unwrap_err(),
        ParseError::UnrecognizedEof { location: 3 }
    );
    assert_eq!(
        ExpParser::new().parse(Lexer::new("")).unwrap_err(),
        ParseError::UnrecognizedEof { location: 0 }
    );
    assert_eq!(
        ExpParser::new().parse(Lexer::new("a b")).unwrap_err(),
        ParseError::ExtraToken { token: (2, TokenType::ID("b".to_string()), 3) }
    );
    assert_eq!(
        ExpParser::new().parse(Lexer::new("a + @ + $")).unwrap_err(),
        ParseError::User { error: LexingError::Illegal("@".to_string()) }
    );
}

#[test]
fn literals_are_typed_by_the_parser_and_by_the_analysis() {
    let parsed = ExpParser::new().parse(Lexer::new("\"text\"")).unwrap();
    let t = parsed.expr_type.as_ref().unwrap();
    assert!(matches!(*t.kind, TypeKind::Prim(PrimType::String)));

    let mut built = Exp::new(ExpKind::new(ExpKind::IntLit(3)), 0, 1);
    assert!(built.expr_type.is_none());
    let mut an = TypeAnalyzer::new();
    built.analyze_type(&mut an);
    let t = built.expr_type.as_ref().unwrap();
    assert!(matches!(*t.kind, TypeKind::Prim(PrimType::Int)));
    assert!(!t.perfect);
}

fn binary_parts(e: &Exp) -> (BinaryExpKind, &Exp, &Exp) {
    match &*e.kind {
        ExpKind::BinaryExp(b) => ((*b.kind).clone(), &*b.lhs, &*b.rhs),
        _ => panic!("not a binary operation"),
    }
}

fn bytes(e: &Exp) -> (usize, usize) {
    (e.span.start.col, e.span.end.col)
}

#[test]
fn operators_nest_to_the_left_and_spans_cover_their_tokens() {
    let e = ExpParser::new().parse(Lexer::new("(a + b) * c - d - e")).unwrap();
    assert_eq!(bytes(&e), (0, 19));
    assert!(e.expr_type.is_none());
    let (k1, l1, r1) = binary_parts(&e);
    assert_eq!(k1, BinaryExpKind::Minus);
    assert_eq!(bytes(r1), (18, 19));
    let (k2, l2, r2) = binary_parts(l1);
    assert_eq!(k2, BinaryExpKind::Minus);
    assert_eq!(bytes(l1), (0, 15));
    assert_eq!(bytes(r2), (14, 15));
    let (k3, l3, r3) = binary_parts(l2);
    assert_eq!(k3, BinaryExpKind::Times);
    assert_eq!(bytes(l2), (0, 11));
    assert_eq!(bytes(r3), (10, 11));
    let (k4, l4, r4) = binary_parts(l3);
    assert_eq!(k4, BinaryExpKind::Plus);
    assert_eq!(bytes(l3), (1, 6));
    assert_eq!(bytes(l4), (1, 2));
    assert_eq!(bytes(r4), (5, 6));
}

#[test]
fn literals_carry_their_type_and_other_slots_are_empty() {
    let e = ExpParser::new().parse(Lexer::new("f(1, true, \"s\", x--y)")).unwrap();
    assert!(e.expr_type.is_none());
    match &*e.kind {
        ExpKind::CallExp(c) => {
            assert!(c.fn_type.is_none());
            assert_eq!(c.name.name(), "f");
            assert_eq!(c.args.len(), 4);
            assert_eq!(c.args[0].expr_type.as_ref().unwrap().kind.as_ref(), &TypeKind::Prim(PrimType::Int));
            assert_eq!(c.args[1].expr_type.as_ref().unwrap().kind.as_ref(), &TypeKind::Prim(PrimType::Bool));
            assert_eq!(
                c.args[2].expr_type.as_ref().unwrap().kind.as_ref(),
                &TypeKind::Prim(PrimType::String)
            );
            assert!(c.args[3].expr_type.is_none());
            match &*c.args[3].kind {
                ExpKind::Loc(l) => {
                    assert_eq!(l.name(), "x--y");
                    assert!(l.loc_type.is_none());
                    assert_eq!((l.span.start.col, l.span.end.col), (16, 20));
                }
                _ => panic!("not a location"),
            }
            assert_eq!((c.span.start.col, c.span.end.col), (0, 21));
        }
        _ => panic!("not a call"),
    }
}
