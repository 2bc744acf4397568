use drewno_mars::analysis::env::{Diagnostic, ErrorType, TypeAnalyzer, VarKey};
use drewno_mars::analysis::program::{analyze_program, type_error_check};
use drewno_mars::assembly::backend::convert_x86;
use drewno_mars::assembly::generate::{convert_3ac, generate};
use drewno_mars::assembly::ir::{Operand, Place, Quad};
use drewno_mars::assembly::x86::{X86Error, X86ErrorKind};
use drewno_mars::format::{add_tabs, unparse};
use drewno_mars::parser::ast::{
    BinaryExpKind, Decl, ExpKind, LineStmtKind, PrimType, Program, Stmt, Type, TypeKind,
};
use drewno_mars::parser::grammar::ProgramParser;
use drewno_mars::scanner::lexer::Lexer;
use drewno_mars::span::{line_bytes, Position, Span};
use std::cmp::Ordering;

fn parse(src: &str) -> Box<Program> {
    ProgramParser::new()
        .parse(Lexer::new(src))
        .expect("the program should parse")
}

fn kinds(diags: &Vec<Diagnostic>) -> Vec<ErrorType> {
    diags.iter().map(|d| d.kind).collect()
}

fn check(src: &str) -> Vec<ErrorType> {
    let mut prog = parse(src);
    let diags = type_error_check(&mut prog);
    kinds(&diags)
}

#[test]
fn call_with_too_few_arguments_is_wrong_arg_num() {
    let src = "f : (a: int, b: bool) int { return a; }\n\
               main : () void { x : int; x = f(1); }";
    assert_eq!(check(src), vec![ErrorType::FnWrongArgNum]);
}

#[test]
fn call_with_bool_for_int_is_wrong_arg_type_at_the_first_argument() {
    let src = "f : (a: int, b: bool) int { return a; }\n\
               main : () void { x : int; x = f(true, true); }";
    let mut prog = parse(src);
    let diags = type_error_check(&mut prog);
    assert_eq!(kinds(&diags), vec![ErrorType::FnWrongArgType]);
    let first_arg = match &*prog.globals[1] {
        Decl::FnDecl(f) => match &*f.body[1] {
            Stmt::Line(l) => match &*l.kind {
                LineStmtKind::Assign { src, .. } => match &*src.kind {
                    ExpKind::CallExp(c) => c.args[0].span,
                    _ => panic!("not a call"),
                },
                _ => panic!("not an assignment"),
            },
            _ => panic!("not a line statement"),
        },
        _ => panic!("not a function"),
    };
    assert_eq!(diags[0].span, first_arg);
}

#[test]
fn well_typed_call_raises_nothing_and_fills_the_slots() {
    let src = "f : (a: int, b: bool) int { return a; }\n\
               main : () void { x : int; x = f(1, true); }";
    let mut prog = parse(src);
    let diags = type_error_check(&mut prog);
    assert!(diags.is_empty());
    match &*prog.globals[1] {
        Decl::FnDecl(f) => match &*f.body[1] {
            Stmt::Line(l) => match &*l.kind {
                LineStmtKind::Assign { dest, src } => {
                    assert!(dest.loc_type.is_some());
                    let t = src.expr_type.as_ref().expect("the call has a type");
                    assert!(matches!(*t.kind, TypeKind::Prim(PrimType::Int)));
                }
                _ => panic!("not an assignment"),
            },
            _ => panic!("not a line statement"),
        },
        _ => panic!("not a function"),
    }
}

#[test]
fn sum_of_two_literals_goes_through_the_whole_pipeline() {
    let src = "main : () void {\n    x : int = 2 + 3;\n    give x;\n}\n";
    let mut prog = parse(src);
    let diags = type_error_check(&mut prog);
    assert!(diags.is_empty());

    let ir = convert_3ac(prog);
    let expected_ir = "[BEGIN GLOBALS]\n[END GLOBALS]\n\n[BEGIN main LOCALS]\nx-int\ntmp0-int\n\
                       [END main LOCALS]\nmain:\tenter main\n\t[tmp0] := 2 ADD64 3\n\
                       \t[x] := [tmp0]\n\tWRITE [x]\nlbl_0:\tleave main\n";
    assert_eq!(ir, expected_ir);
    assert_eq!(ir.matches("ADD64").count(), 1);
    assert_eq!(ir.matches("WRITE").count(), 1);

    let x86 = convert_x86(ir).expect("the code should lower");
    let expected_x86 = ".globl main\n.data\n\n.text\nmain:\tpushq %rbp\n\tmovq %rsp,\t%rbp\n\
                        \taddq $16,\t%rbp\n\tsubq $16,\t%rsp\n\tmovq $2,\t%rax\n\tmovq $3,\t%rbx\n\
                        \taddq %rbx,\t%rax\n\tmovq %rax,\t-32(%rbp)\n\tmovq -32(%rbp),\t%rax\n\
                        \tmovq %rax,\t-24(%rbp)\n\tmovq -24(%rbp),\t%rdi\n\tcallq printInt\n\
                        lbl_0:\taddq $16,\t%rsp\n\tpopq %rbp\n\tretq\n\n\tmovq $60,\t%rax\n\
                        \tmovq $1,\t%rdi\n\t\n\tsyscall\n";
    assert_eq!(x86, expected_x86);
}

#[test]
fn three_independent_errors_are_all_reported() {
    let src = "main : () void {\n    a : int;\n    b : bool;\n    c = 1;\n    a = b;\n    \
               while (a) { a = 1; }\n}\n";
    assert_eq!(
        check(src),
        vec![
            ErrorType::UndefinedDecl,
            ErrorType::BadAssignTwo,
            ErrorType::CondNonBool
        ]
    );
}

#[test]
fn inner_declaration_shadows_and_outer_comes_back() {
    let mut an = TypeAnalyzer::new();
    an.add_var("x".to_string(), Type { perfect: false, kind: Box::new(TypeKind::Prim(PrimType::Int)) });
    assert_eq!(an.scope(), 0);
    an.enter_scope();
    assert_eq!(an.scope(), 1);
    an.add_var("x".to_string(), Type { perfect: false, kind: Box::new(TypeKind::Prim(PrimType::Bool)) });
    let inner = an.get_var_type("x".to_string()).unwrap();
    assert!(matches!(*inner.kind, TypeKind::Prim(PrimType::Bool)));
    let at_outer = an
        .get_var_at(&VarKey { id: "x".to_string(), scope: 0 })
        .unwrap();
    assert!(matches!(*at_outer.kind, TypeKind::Prim(PrimType::Int)));
    an.remove_scope();
    assert_eq!(an.scope(), 0);
    let outer = an.get_var_type("x".to_string()).unwrap();
    assert!(matches!(*outer.kind, TypeKind::Prim(PrimType::Int)));
    assert!(an.get_var_type("y".to_string()).is_err());
}

#[test]
fn shadowing_in_a_block_is_not_a_second_declaration() {
    let src = "main : () void {\n    x : int;\n    if (true) { x : bool; x = false; }\n    x = 1;\n}\n";
    assert_eq!(check(src), Vec::<ErrorType>::new());
}

#[test]
fn class_fields_are_flattened_under_dotted_names() {
    let src = "Inner : class { a : int; b : bool; };\n\
               Outer : class { i : Inner; c : int; };\n\
               main : () void { o : Outer; o--i--a = 1; o--i--b = true; o--c = 2; }";
    let mut prog = parse(src);
    let mut an = TypeAnalyzer::new();
    analyze_program(&mut prog, &mut an);
    assert!(!an.failed());
    let fields = an.class_fields(&"Outer".to_string()).unwrap();
    let names: Vec<&str> = fields.iter().map(|f| f.id.as_str()).collect();
    assert_eq!(names, vec!["i--a", "i--b", "c"]);
    for f in fields.iter() {
        assert!(matches!(*f.field_type.kind, TypeKind::Prim(_)));
    }
    assert!(an.has_class(&"Inner".to_string()));
    assert!(!an.has_class(&"main".to_string()));
    assert!(an.has_fn(&"main".to_string()));
    assert!(an.get_fn(&"main".to_string()).is_ok());
    assert!(an.get_fn(&"Outer".to_string()).is_err());
}

#[test]
fn the_aggregate_name_of_an_instance_is_not_a_variable() {
    let src = "C : class { a : int; };\n\
               main : () void { o : C; give o; }";
    assert_eq!(check(src), vec![ErrorType::UndefinedDecl]);
}

#[test]
fn a_class_that_holds_itself_raises_a_diagnostic() {
    let src = "C : class { next : C; a : int; };";
    assert_eq!(check(src), vec![ErrorType::UndefinedDecl]);
}

#[test]
fn analysis_twice_gives_the_same_tree() {
    let src = "g : int;\nf : (a: int) bool { return a < 3; }\n\
               main : () void { b : bool = f(g) and true; if (b) { give \"yes\"; } else { g++; } }";
    let mut once = parse(src);
    let first = type_error_check(&mut once);
    let shown_once = format!("{:?}", once);
    let second = type_error_check(&mut once);
    assert_eq!(first, second);
    assert_eq!(shown_once, format!("{:?}", once));
}

#[test]
fn every_kind_of_error_can_be_raised() {
    let cases: Vec<(&str, ErrorType)> = vec![
        ("main : () void { v : void; }", ErrorType::BadType),
        ("main : () void { a : int; a : int; }", ErrorType::MultipleDecl),
        ("main : () void { give a; }", ErrorType::UndefinedDecl),
        ("f : () void { } main : () void { give f; }", ErrorType::GiveFn),
        ("C : class { }; main : () void { give C; }", ErrorType::GiveClass),
        ("f : () void { } main : () void { give f(); }", ErrorType::GiveVoid),
        ("f : () void { } main : () void { take f; }", ErrorType::ReadFn),
        ("C : class { }; main : () void { take C; }", ErrorType::ReadClass),
        ("main : () void { a : int; a(); }", ErrorType::CallNonFn),
        ("f : () void { } main : () void { f(1); }", ErrorType::FnWrongArgNum),
        ("f : (a: int) void { } main : () void { f(true); }", ErrorType::FnWrongArgType),
        ("f : () int { return; }", ErrorType::ReturnMissing),
        ("f : () int { return true; }", ErrorType::ReturnBad),
        ("f : () void { return 1; }", ErrorType::ReturnVoid),
        ("main : () void { a : int; a = 1 + true; }", ErrorType::WrongOpMath),
        ("main : () void { b : bool; b = true < 1; }", ErrorType::WrongOpCmp),
        ("main : () void { b : bool; b = 1 and true; }", ErrorType::WrongOpLogic),
        ("main : () void { if (1) { } }", ErrorType::CondNonBool),
        ("f : () void { } main : () void { b : bool; b = f == f; }", ErrorType::BadEqualityOne),
        ("main : () void { b : bool; b = 1 == true; }", ErrorType::BadEqualityTwo),
        ("f : () void { } main : () void { a : int; a = f; }", ErrorType::BadAssignOne),
        ("main : () void { a : int; a = true; }", ErrorType::BadAssignTwo),
        ("main : () void { a : perfect int; a = 1; }", ErrorType::NonLval),
    ];
    for (src, kind) in cases {
        let found = check(src);
        assert!(
            found.contains(&kind),
            "{:?} was not raised by {:?}, which raised {:?}",
            kind,
            src,
            found
        );
    }
}

#[test]
fn diagnostics_read_fatal_span_message() {
    let d = Diagnostic {
        kind: ErrorType::CondNonBool,
        span: Span {
            start: Position { row: 3, col: 8 },
            end: Position { row: 3, col: 9 },
        },
    };
    assert_eq!(
        d.to_text(),
        "FATAL [3, 8]-[3, 9]: Non-bool expression used as a condition"
    );
    assert_eq!(ErrorType::ReturnMissing.message(), "Missing return value ");
}

fn label_definitions(ir: &str) -> Vec<String> {
    ir.lines()
        .filter(|l| l.starts_with("lbl_"))
        .map(|l| l.split(':').next().unwrap().to_string())
        .collect()
}

#[test]
fn labels_are_defined_once_and_control_flow_labels_are_jumped_to() {
    let src = "main : () void {\n    i : int = 0;\n    while (i < 10) {\n        \
               if (i == 5) { give i; } else { i++; }\n        if (i > 7) { return; }\n    }\n}\n\
               other : () int { if (true) { return 1; } return 2; }";
    let mut prog = parse(src);
    let _ = type_error_check(&mut prog);
    let ir = convert_3ac(prog);
    let defs = label_definitions(&ir);
    let mut unique = defs.clone();
    unique.sort();
    unique.dedup();
    assert_eq!(unique.len(), defs.len());
    assert_eq!(defs.len(), 8);
    for line in ir.lines().filter(|l| l.ends_with("\tnop")) {
        let label = line.split(':').next().unwrap();
        let target = format!("goto {}", label);
        assert!(
            ir.lines().any(|l| l.ends_with(&target)),
            "{} is never jumped to",
            label
        );
    }
}

#[test]
fn while_lowers_to_head_test_body_jump_back_and_after() {
    let src = "main : () void { b : bool; while (b) { b = false; } }";
    let mut prog = parse(src);
    let _ = type_error_check(&mut prog);
    let code = generate(&prog);
    let expected: Vec<Quad<String>> = vec![
        Quad::Enter { name: "main".to_string() },
        Quad::Label { label: 1 },
        Quad::Ifz { cond: Operand::Sym(Place::Var("b".to_string())), target: 2 },
        Quad::Assign { dest: Place::Var("b".to_string()), src: Operand::False },
        Quad::Goto { target: 1 },
        Quad::Label { label: 2 },
        Quad::Leave { label: 0, name: "main".to_string() },
    ];
    assert_eq!(code.code, expected);
}

#[test]
fn if_else_lowers_with_two_labels() {
    let src = "main : () void { if (true) { give 1; } else { give 2; } }";
    let prog = parse(src);
    let code = generate(&prog);
    let expected: Vec<Quad<String>> = vec![
        Quad::Enter { name: "main".to_string() },
        Quad::Ifz { cond: Operand::True, target: 1 },
        Quad::Write { src: Operand::Lit(1) },
        Quad::Goto { target: 2 },
        Quad::Label { label: 1 },
        Quad::Write { src: Operand::Lit(2) },
        Quad::Label { label: 2 },
        Quad::Leave { label: 0, name: "main".to_string() },
    ];
    assert_eq!(code.code, expected);
}

#[test]
fn calls_pass_arguments_and_fetch_the_result() {
    let src = "f : (a: int, b: int) int { return a - b; }\n\
               main : () void { x : int; x = f(1, x * 2); f(3, 4); }";
    let mut prog = parse(src);
    let diags = type_error_check(&mut prog);
    assert!(diags.is_empty());
    let ir = convert_3ac(prog);
    let expected = "[BEGIN GLOBALS]\n[END GLOBALS]\n\n[BEGIN f LOCALS]\na-int\nb-int\ntmp0-int\n\
                    [END f LOCALS]\nf:\tenter f\n\tgetarg 1 [a]\n\tgetarg 2 [b]\n\
                    \t[tmp0] := [a] SUB64 [b]\n\tsetret [tmp0]\n\tgoto lbl_0\nlbl_0:\tleave f\n\
                    \n[BEGIN main LOCALS]\nx-int\ntmp0-int\ntmp1-int\n[END main LOCALS]\n\
                    main:\tenter main\n\t[tmp0] := [x] MULT64 2\n\tsetarg 1 1\n\
                    \tsetarg 2 [tmp0]\n\tcall f\n\tgetret [tmp1]\n\t[x] := [tmp1]\n\
                    \tsetarg 1 3\n\tsetarg 2 4\n\tcall f\nlbl_1:\tleave main\n";
    assert_eq!(ir, expected);
    let x86 = convert_x86(ir).expect("the code should lower");
    assert!(x86.contains("\tmovq %rdi,\t-24(%rbp)\n\tmovq %rsi,\t-32(%rbp)\n"));
    assert!(x86.contains("\timulq\t\t%rbx\n"));
    assert!(x86.contains("\tmovq $1,\t%rdi\n\tmovq -32(%rbp),\t%rsi\n\tcallq f\n\tmovq %rax,\t-40(%rbp)\n"));
    assert!(x86.contains("\tjmp\t\tlbl_0\n"));
}

#[test]
fn globals_strings_and_post_operators() {
    let src = "g : int;\nflag : bool;\n\
               main : () void { give \"hi there\"; g--; g++; take flag; if (24Kmagic) { today I don't feel like doing any work; } }";
    let mut prog = parse(src);
    let diags = type_error_check(&mut prog);
    assert!(diags.is_empty());
    let ir = convert_3ac(prog);
    let expected = "[BEGIN GLOBALS]\ng-int\nflag-bool\nstr0 \"hi there\"\n[END GLOBALS]\n\
                    \n[BEGIN main LOCALS]\n[END main LOCALS]\nmain:\tenter main\n\tWRITE str0\n\
                    \t[g] := [g] SUB64 1\n\t[g] := [g] ADD64 1\n\tREAD [flag]\n\
                    \tIFZ 24Kmagic goto lbl_1\n\texit\nlbl_1:\tnop\nlbl_0:\tleave main\n";
    assert_eq!(ir, expected);
    let x86 = convert_x86(ir).expect("the code should lower");
    assert!(x86.starts_with(
        ".globl main\n.data\ngbl_g: .quad 0\ngbl_flag: .quad 0\nstr0: .asciz \"hi there\"\n\n.text\n"
    ));
    assert!(x86.contains("\tmovq $str0,\t%rdi\n\tcallq printString\n"));
    assert!(x86.contains("\tmovq (gbl_g),\t%rax\n\tmovq $1,\t%rbx\n\tsubq %rbx,\t%rax\n\tmovq %rax,\t(gbl_g)\n"));
    assert!(x86.contains("\tcallq getBool\n\tmovq %rax,\t(gbl_flag)\n"));
    assert!(x86.contains("\tcallq magic\n\tcmpb $0,\t%al\n\tje\t\tlbl_1\n"));
    assert!(x86.contains("lbl_1:\tnop\n"));
    assert!(x86.ends_with("\tmovq $60,\t%rax\n\tmovq $1,\t%rdi\n\t\n\tsyscall\n"));
}

#[test]
fn comparisons_and_unary_operators_lower_to_set_and_neg() {
    let ir = "[BEGIN GLOBALS]\n[END GLOBALS]\n\n[BEGIN f LOCALS]\na-int\ntmp0-bool\ntmp1-int\n\
              tmp2-bool\n[END f LOCALS]\nf:\tenter f\n\t[tmp0] := [a] LTE64 -7\n\
              \t[tmp1] := NEG64 [a]\n\t[tmp2] := NOT64 [tmp0]\n\t[tmp1] := [a] DIV64 [tmp1]\n\
              \tWRITE [tmp2]\nlbl_0:\tleave f\n";
    let x86 = convert_x86(ir.to_string()).expect("the code should lower");
    assert!(x86.contains(
        "\tmovq -24(%rbp),\t%rax\n\tmovq $-7,\t%rbx\n\tcmpq %rbx,\t%rax\n\tsetle\t\t%al\n\tmovb %al,\t-32(%rbp)\n"
    ));
    assert!(x86.contains("\tmovq -24(%rbp),\t%rax\n\tnegq %rax\n\tmovq %rax,\t-40(%rbp)\n"));
    assert!(x86.contains("\tmovq -32(%rbp),\t%rax\n\txorq $1,\t%rax\n\tmovq %rax,\t-48(%rbp)\n"));
    assert!(x86.contains("\tcqto\n\tidivq\t\t%rbx\n\tmovq %rax,\t-40(%rbp)\n"));
    assert!(x86.contains("\tmovq -48(%rbp),\t%rdi\n\tcallq printBool\n"));
    assert!(x86.contains("\tsubq $32,\t%rsp\n"));
    assert!(x86.contains("\taddq $32,\t%rsp\n\tpopq %rbp\n\tretq\n"));
}

#[test]
fn malformed_code_is_refused_with_its_line() {
    assert_eq!(
        convert_x86("nonsense".to_string()),
        Err(X86Error { kind: X86ErrorKind::Malformed, line: 0 })
    );
    assert_eq!(
        convert_x86("[BEGIN GLOBALS]\nx-float\n[END GLOBALS]\n".to_string()),
        Err(X86Error { kind: X86ErrorKind::Malformed, line: 1 })
    );
    assert_eq!(
        convert_x86("[BEGIN GLOBALS]".to_string()),
        Err(X86Error { kind: X86ErrorKind::Malformed, line: 1 })
    );
    let unknown = "[BEGIN GLOBALS]\n[END GLOBALS]\n\n[BEGIN f LOCALS]\n[END f LOCALS]\n\
                   f:\tenter f\n\tWRITE [nobody]\nlbl_0:\tleave f\n";
    assert_eq!(
        convert_x86(unknown.to_string()),
        Err(X86Error { kind: X86ErrorKind::UnknownSymbol, line: 6 })
    );
    let seventh = "[BEGIN GLOBALS]\n[END GLOBALS]\n\n[BEGIN f LOCALS]\n[END f LOCALS]\n\
                   f:\tenter f\n\tsetarg 7 1\nlbl_0:\tleave f\n";
    assert_eq!(
        convert_x86(seventh.to_string()),
        Err(X86Error { kind: X86ErrorKind::TooManyArguments, line: 6 })
    );
    let stray = "[BEGIN GLOBALS]\n[END GLOBALS]\n\tWRITE 1\n";
    assert_eq!(
        convert_x86(stray.to_string()),
        Err(X86Error { kind: X86ErrorKind::Malformed, line: 2 })
    );
}

#[test]
fn locals_of_one_function_are_unknown_in_the_next() {
    let ir = "[BEGIN GLOBALS]\ng-int\n[END GLOBALS]\n\n[BEGIN f LOCALS]\na-int\n[END f LOCALS]\n\
              f:\tenter f\n\t[a] := [g]\nlbl_0:\tleave f\n\n[BEGIN h LOCALS]\n[END h LOCALS]\n\
              h:\tenter h\n\t[g] := [a]\nlbl_1:\tleave h\n";
    assert_eq!(
        convert_x86(ir.to_string()),
        Err(X86Error { kind: X86ErrorKind::UnknownSymbol, line: 14 })
    );
}

#[test]
fn add_tabs_indents_by_braces() {
    let src = "a : () void  {\nif (x){\n  give 1;\n}\nelse{\ngive 2;\n}\n}\n";
    let expected = "a : () void  {\n    if (x){\n        give 1;\n    }\n    else{\n        give 2;\n    }\n}";
    assert_eq!(add_tabs(src.to_string()), expected);
    assert_eq!(add_tabs("".to_string()), "");
    assert_eq!(add_tabs("}\n}\nx".to_string()), "}\n}\nx");
    assert_eq!(add_tabs("{\r\n  x  \r\n}".to_string()), "{\n    x\n}");
}

#[test]
fn unparse_writes_the_program_out_again() {
    let src = "g:int=1;\nC:class{a:int;};\nmain:(n:int,b:perfect bool)void{\nif(b){give -n*2;}else{take g;}\nwhile(!b){f(1,\"s\");return;}\nc--d=magic;}";
    let prog = parse(src);
    let expected = "g : int = 1;\nC : class {\n    a : int;\n};\nmain : (n : int, b : perfect bool) void  {\n    \
                    if (b){\n        give -n * 2;\n    }\n    else{\n        take g;\n    }\n    \
                    while (!b){\n        f(1, \"s\");\n        return;\n    }\n    c--d = magic;\n}";
    assert_eq!(unparse(prog), expected);
}

#[test]
fn spans_turn_into_rows_and_columns() {
    let lines = line_bytes("ab\r\ncdef\r\ng".to_string());
    assert_eq!(lines, vec![2, 4, 1]);
    let mut first = Span::new(0, 2);
    first.correct(&lines);
    assert_eq!(
        first,
        Span { start: Position { row: 1, col: 1 }, end: Position { row: 1, col: 3 } }
    );
    let mut second = Span::new(4, 8);
    second.correct(&lines);
    assert_eq!(
        second,
        Span { start: Position { row: 2, col: 1 }, end: Position { row: 2, col: 5 } }
    );
    let mut third = Span::new(10, 11);
    third.correct(&lines);
    assert_eq!(
        third,
        Span { start: Position { row: 3, col: 1 }, end: Position { row: 3, col: 2 } }
    );
    assert_eq!(line_bytes("".to_string()), Vec::<usize>::new());
    assert_eq!(line_bytes("x\n\ny\n".to_string()), vec![1, 0, 1]);
    assert_eq!(line_bytes("\u{e9}\n".to_string()), vec![2]);
}

#[test]
fn positions_are_ordered_by_row_then_column() {
    let cases = vec![
        (Position::test_new(13, 1), Position::test_new(10, 5), Ordering::Greater),
        (Position::test_new(5, 15), Position::test_new(7, 14), Ordering::Less),
        (Position::test_new(10, 9), Position::test_new(10, 11), Ordering::Less),
        (Position::test_new(5, 1), Position::test_new(5, 7), Ordering::Less),
        (Position::test_new(1, 2), Position::test_new(8, 2), Ordering::Less),
        (Position::test_new(15, 7), Position::test_new(17, 7), Ordering::Less),
        (Position::test_new(14, 1), Position::test_new(14, 1), Ordering::Equal),
    ];
    for (a, b, expected) in cases {
        assert_eq!(a.cmp(&b), expected);
        assert_eq!(a.precedes(&b), expected == Ordering::Less);
    }
    let a = Span { start: Position::test_new(2, 3), end: Position::test_new(2, 9) };
    let b = Span { start: Position::test_new(1, 7), end: Position::test_new(2, 5) };
    assert_eq!(
        a.cover(&b),
        Span { start: Position::test_new(1, 7), end: Position::test_new(2, 9) }
    );
}

#[test]
fn binary_operators_keep_their_precedence() {
    let prog = parse("x : int = 1 + 2 * 3 - 4;");
    match &*prog.globals[0] {
        Decl::VarDecl(v) => {
            let init = v.init_val.as_ref().unwrap();
            assert_eq!(init.to_text(), "1 + 2 * 3 - 4");
            match &*init.kind {
                ExpKind::BinaryExp(b) => {
                    assert_eq!(*b.kind, BinaryExpKind::Minus);
                    match &*b.lhs.kind {
                        ExpKind::BinaryExp(l) => {
                            assert_eq!(*l.kind, BinaryExpKind::Plus);
                            assert!(matches!(*l.rhs.kind, ExpKind::BinaryExp(_)));
                        }
                        _ => panic!("the left operand is not a sum"),
                    }
                }
                _ => panic!("not a binary operation"),
            }
            assert_eq!(init.span, Span::new(10, 23));
        }
        _ => panic!("not a variable"),
    }
}

#[test]
fn named_unparse_tags_names_with_types() {
    let src = "g : int;\r\nf : (a : int, b : bool) int {\r\n  b = a < g;\r\n  return a;\r\n}\r\n";
    let prog = parse(src);
    let expected = "g{int} : int;\nf{(int, bool)->int} : (a{int} : int, b{bool} : bool) int  {\n    \
                    b{bool} = a{int} < g{int};\n    return a{int};\n}";
    assert_eq!(
        drewno_mars::analysis::name::named_unparse(prog, src.to_string()),
        Ok(expected.to_string())
    );
}

#[test]
fn named_unparse_gives_the_names_that_do_not_resolve() {
    let src = "f : () void {\r\n  a = 1;\r\n  v : void;\r\n  v : int;\r\n  v : int;\r\n  v = true;\r\n}\r\n";
    let prog = parse(src);
    let errors = drewno_mars::analysis::name::named_unparse(prog, src.to_string()).unwrap_err();
    let shown: Vec<String> = errors.iter().map(|e| e.to_text()).collect();
    assert_eq!(
        shown,
        vec![
            "FATAL [2, 3]-[2, 4]: Undeclared identifier",
            "FATAL [3, 3]-[3, 4]: Invalid type in declaration",
            "FATAL [5, 3]-[5, 4]: Multiply declared identifier",
        ]
    );
}

#[test]
fn token_listing_shows_tokens_and_errors_with_their_columns() {
    let mut scanner = drewno_mars::scanner::listing::Scanner::new();
    let (text, errors) = scanner.tokenize_line("x = 12;");
    assert_eq!(
        text,
        "ID:x           \t[1,1]\nASSIGN         \t[1,3]\nINTLITERAL:12  \t[1,5]\nSEMICOL        \t[1,7]\n"
    );
    assert_eq!(errors, "");
    assert_eq!(scanner.row, 1);
    assert_eq!(scanner.last_col, 8);
    let (text, errors) = scanner.tokenize_line("  @ \"abc");
    assert_eq!(text, "");
    assert_eq!(
        errors,
        "FATAL [2,3]-[2,4]: Illegal character: @\nFATAL [2,5]-[2,9]: Unterminated string literal detected\n"
    );
    assert_eq!(scanner.eof_text(false), "EOF [2,9]");
    assert_eq!(scanner.eof_text(true), "EOF [3,1]");
    let (text, _) = scanner.tokenize_line("a_very_long_identifier");
    assert_eq!(text, "ID:a_very_long_identifier\t[3,1]\n");
}

#[test]
fn a_program_with_errors_is_not_compiled() {
    let mut bad = parse("main : () void { x = 1; y = 2; }");
    match drewno_mars::pipeline::compile(&mut bad) {
        Err(drewno_mars::pipeline::CompileError::Semantic(diags)) => {
            assert_eq!(
                kinds(&diags),
                vec![ErrorType::UndefinedDecl, ErrorType::UndefinedDecl]
            );
        }
        other => panic!("compiled a program with errors: {:?}", other),
    }
    assert!(drewno_mars::pipeline::compile_3ac(&mut bad).is_err());

    let mut good = parse("main : () void { give 1 + 1 == 2; }");
    let ir = drewno_mars::pipeline::compile_3ac(&mut good).unwrap();
    assert!(ir.contains("\t[tmp1] := [tmp0] EQ64 2\n\tWRITE [tmp1]\n"));
    assert!(ir.contains("tmp0-int\ntmp1-int\n"));
    let x86 = drewno_mars::pipeline::compile(&mut good).unwrap();
    assert!(x86.contains("\tcmpq %rbx,\t%rax\n\tsete\t\t%al\n\tmovb %al,\t-32(%rbp)\n"));
    assert!(x86.contains("\tcallq printInt\n"));
}

fn written_tmp(q: &Quad<String>) -> Option<usize> {
    let dest = match q {
        Quad::Assign { dest, .. } => dest,
        Quad::Unary { dest, .. } => dest,
        Quad::Binary { dest, .. } => dest,
        Quad::Read { dest } => dest,
        Quad::GetArg { dest, .. } => dest,
        Quad::GetRet { dest } => dest,
        _ => return None,
    };
    match dest {
        Place::Tmp(t) => Some(*t),
        _ => None,
    }
}

#[test]
fn each_temporary_is_written_by_one_instruction() {
    let src = "f : (a: int, b: int) int { return a - b * 2; }\n\
               main : () void {\n    x : int = 1 + 2 * 3;\n    \
               while (x < f(x, -x)) { if (!(x < 4)) { x = x + f(1, 2); } else { x++; } }\n}";
    let mut prog = parse(src);
    assert!(type_error_check(&mut prog).is_empty());
    let ir = generate(&prog);
    assert_eq!(ir.table.functions.len(), 2);
    assert_eq!(ir.table.functions[0].tmps.len(), 2);
    assert_eq!(ir.table.functions[1].tmps.len(), 9);
    for f in &ir.table.functions {
        let mut writes = vec![0usize; f.tmps.len()];
        for q in &ir.code[f.start..f.end] {
            if let Some(t) = written_tmp(q) {
                assert!(t < f.tmps.len(), "tmp{} is not one of {}'s", t, f.name);
                writes[t] += 1;
            }
        }
        assert!(writes.iter().all(|n| *n == 1), "{:?}", writes);
    }
}

#[test]
fn prologue_takes_what_the_epilogue_gives_back() {
    assert_eq!(
        drewno_mars::assembly::x86_emit::function_prologue(3),
        "\tpushq %rbp\n\tmovq %rsp,\t%rbp\n\taddq $16,\t%rbp\n\tsubq $24,\t%rsp"
    );
    assert_eq!(
        drewno_mars::assembly::x86_emit::function_epilogue(3),
        "\taddq $24,\t%rsp\n\tpopq %rbp\n\tretq"
    );
    assert_eq!(
        drewno_mars::assembly::x86_emit::function_prologue(0),
        "\tpushq %rbp\n\tmovq %rsp,\t%rbp\n\taddq $16,\t%rbp\n\tsubq $0,\t%rsp"
    );
}

#[test]
fn every_jump_goes_to_a_defined_label_and_returns_reach_the_exit() {
    let src = "main : () void {\n    i : int = 0;\n    while (i < 10) {\n        \
               if (i < 5) { give i; } else { i++; }\n        if (i > 7) { return; }\n    }\n}\n\
               other : () int { if (true) { return 1; } return 2; }";
    let mut prog = parse(src);
    assert!(type_error_check(&mut prog).is_empty());
    let ir = convert_3ac(prog);
    let defined = label_definitions(&ir);
    let mut jumps = 0;
    for line in ir.lines() {
        if let Some(at) = line.find("goto ") {
            let target = line[at + 5..].to_string();
            assert_eq!(defined.iter().filter(|d| **d == target).count(), 1, "{}", line);
            jumps += 1;
        }
    }
    assert_eq!(jumps, 9);
    let mut exits = 0;
    for line in ir.lines().filter(|l| l.contains(":\tleave ")) {
        let label = line.split(':').next().unwrap();
        let jump = format!("\tgoto {}", label);
        assert!(ir.lines().any(|l| l == jump), "{} is never jumped to", label);
        exits += 1;
    }
    assert_eq!(exits, 2);
}

#[test]
fn a_function_without_a_return_has_an_exit_that_nothing_jumps_to() {
    let mut prog = parse("main : () void { give 1; }");
    assert!(type_error_check(&mut prog).is_empty());
    let ir = convert_3ac(prog);
    assert!(ir.contains("lbl_0:\tleave main"));
    assert!(!ir.contains("goto"));
}

#[test]
fn a_function_counts_its_temporaries_from_zero() {
    let f = parse("f : () int { return 1 + 2 * 3; }\ng : () int { return 4 + 5; }");
    let pool: Vec<String> = Vec::new();
    let mut em = drewno_mars::assembly::emit::Emitter::new();
    let mut lengths = Vec::new();
    for d in f.globals.iter() {
        if let Decl::FnDecl(func) = &**d {
            let first = em.code.len();
            drewno_mars::assembly::emit::lower_fn(func, &pool, &mut em);
            lengths.push(em.tmps.len());
            assert!(em.code[first..]
                .iter()
                .any(|q| matches!(q, Quad::Binary { dest: Place::Tmp(0), .. })));
        }
    }
    assert_eq!(lengths, vec![2, 1]);
}

#[test]
fn classes_agree_by_name_and_not_with_void() {
    let src = "C : class { a : int; };\ng : () void { }\nf : (c : C) void { }\n\
               main : () void { f(g()); }";
    assert!(check(src).contains(&ErrorType::FnWrongArgType));
    let c = Type { perfect: false, kind: Box::new(TypeKind::Class(Box::new(id("C")))) };
    let c2 = Type { perfect: true, kind: Box::new(TypeKind::Class(Box::new(id("C")))) };
    let d = Type { perfect: false, kind: Box::new(TypeKind::Class(Box::new(id("D")))) };
    let v = Type { perfect: false, kind: Box::new(TypeKind::Prim(PrimType::Void)) };
    assert!(c.agrees(&c2));
    assert!(!c.agrees(&d));
    assert!(!c.agrees(&v));
    assert!(v.agrees(&v));
}

fn id(name: &str) -> drewno_mars::parser::ast::Id {
    drewno_mars::parser::ast::Id { name: name.to_string(), span: Span::new(0, 0), id_type: None }
}

#[test]
fn the_left_operand_is_loaded_first_unless_the_right_one_is_magic() {
    let ir = "[BEGIN GLOBALS]\n[END GLOBALS]\n\n[BEGIN f LOCALS]\na-bool\ntmp0-bool\ntmp1-bool\n\
              [END f LOCALS]\nf:\tenter f\n\t[tmp0] := [a] AND64 24Kmagic\n\
              \t[tmp1] := 24Kmagic OR64 [a]\nlbl_0:\tleave f\n";
    let x86 = convert_x86(ir.to_string()).expect("the code should lower");
    assert!(x86.contains(
        "\tcallq magic\n\tmovq %rax,\t%rbx\n\tmovq -24(%rbp),\t%rax\n\tandq %rbx,\t%rax\n\
         \tmovq %rax,\t-32(%rbp)\n"
    ));
    assert!(x86.contains(
        "\tcallq magic\n\tmovq %rax,\t%rax\n\tmovq -24(%rbp),\t%rbx\n\torq %rbx,\t%rax\n\
         \tmovq %rax,\t-40(%rbp)\n"
    ));
}

#[test]
fn a_number_is_assigned_as_an_immediate_and_other_values_through_a_register() {
    let ir = "[BEGIN GLOBALS]\n[END GLOBALS]\n\n[BEGIN f LOCALS]\na-int\nb-bool\nc-int\n\
              [END f LOCALS]\nf:\tenter f\n\t[a] := -5\n\t[b] := true\n\t[c] := [a]\n\
              lbl_0:\tleave f\n";
    let x86 = convert_x86(ir.to_string()).expect("the code should lower");
    assert!(x86.contains(
        "\tmovq $-5,\t-24(%rbp)\n\tmovq $1,\t%rax\n\tmovq %rax,\t-32(%rbp)\n\
         \tmovq -24(%rbp),\t%rax\n\tmovq %rax,\t-40(%rbp)\n"
    ));
}

#[test]
fn a_void_declaration_of_a_bound_name_raises_both_errors() {
    assert_eq!(
        check("main : () void { a : int; a : void; }"),
        vec![ErrorType::BadType, ErrorType::MultipleDecl]
    );
    assert_eq!(
        check("f : (a : int, a : void) void { }"),
        vec![ErrorType::BadType, ErrorType::MultipleDecl]
    );
    assert_eq!(check("main : () void { a : int; a : bool; give a; }"), vec![ErrorType::MultipleDecl]);
    assert_eq!(check("main : () void { a : void; a : int; give a; }"), vec![ErrorType::BadType]);
}

#[test]
fn a_class_variable_with_a_value_of_another_type_raises_both_errors() {
    let src = "C : class { a : int; };\nmain : () void { c : C = 1; }";
    assert_eq!(check(src), vec![ErrorType::BadAssignOne, ErrorType::BadAssignTwo]);
    let src = "C : class { a : int; };\nf : () C { }\nmain : () void { c : C = f(); }";
    assert!(check(src).contains(&ErrorType::BadAssignOne));
    assert!(!check(src).contains(&ErrorType::BadAssignTwo));
}

#[test]
fn members_of_a_class_that_share_a_name_are_reported_at_the_class() {
    let src = "C : class {\n    a : int;\n    a : bool;\n    f : () void { }\n    f : () void { }\n    \
               a : int;\n};";
    let mut prog = parse(src);
    let diags = type_error_check(&mut prog);
    assert_eq!(
        kinds(&diags),
        vec![ErrorType::MultipleDecl, ErrorType::MultipleDecl, ErrorType::MultipleDecl]
    );
    for d in diags.iter() {
        assert_eq!((d.span.start.col, d.span.end.col), (0, 1));
    }
    assert!(check("C : class { a : int; b : int; f : () void { } };").is_empty());
}
