use krait_translator::CodeGenerator;
use krait_translator::DataType;
use krait_translator::Expr;
use krait_translator::FunctionDef;
use krait_translator::Lexer;
use krait_translator::Parser;
use krait_translator::Statement;
use krait_translator::TopLevel;

fn lit(s: &str) -> Expr {
    Expr::Literal(s.to_string())
}

fn name(s: &str) -> Expr {
    Expr::Identifier(s.to_string())
}

fn binary(left: Expr, op: &str, right: Expr) -> Expr {
    Expr::BinaryOp { left: Box::new(left), op: op.to_string(), right: Box::new(right) }
}

fn call(callee: &str, args: Vec<Expr>) -> Expr {
    Expr::FunctionCall { name: callee.to_string(), args }
}

/// The text emitted for an expression standing alone in a function.
fn emitted(e: &Expr) -> String {
    let f = TopLevel::Function(FunctionDef {
        name: "f".to_string(),
        params: Vec::new(),
        return_type: DataType::Auto,
        body: vec![Statement::ExprStmt(e.clone())],
        is_public: false,
    });
    let mut generator = CodeGenerator::new();
    let out = generator.generate(&[f]);
    let start = out.find("fn f() -> i32 {\n    ").unwrap() + "fn f() -> i32 {\n    ".len();
    let end = out[start..].find(";\n}").unwrap() + start;
    out[start..end].to_string()
}

/// The expression that the emitted text spells, read by the parser. The
/// symbols of the logical operators are written back as the words the
/// scanner knows, and the suffix of an owned string is left out.
fn read_back(text: &str) -> Expr {
    let source = text.replace("||", "or").replace("&&", "and").replace(".to_string()", "");
    let mut lexer = Lexer::new(&source);
    let mut parser = Parser::new(lexer.tokenize());
    let mut items = parser.parse().unwrap();
    assert_eq!(items.len(), 1, "{}", source);
    match items.remove(0) {
        TopLevel::Statement(Statement::ExprStmt(e)) => e,
        other => panic!("{} reads as {:?}", source, other),
    }
}

fn same(a: &Expr, b: &Expr) -> bool {
    format!("{:?}", a) == format!("{:?}", b)
}

#[test]
fn expressions_that_need_no_parentheses_are_read_back_as_they_are() {
    let samples = vec![
        lit("1"),
        lit("3.5"),
        lit("\"text\""),
        name("x"),
        call("f", vec![]),
        call("f", vec![lit("1"), name("y"), call("g", vec![lit("\"s\"")])]),
        binary(lit("1"), "+", binary(lit("2"), "*", lit("3"))),
        binary(binary(lit("1"), "*", lit("2")), "+", lit("3")),
        binary(binary(name("a"), "-", name("b")), "-", name("c")),
        binary(binary(binary(name("a"), "/", name("b")), "%", name("c")), "*", name("d")),
        binary(binary(name("a"), "+", name("b")), "<", binary(name("c"), "*", name("d"))),
        binary(binary(name("a"), "<", name("b")), "==", name("c")),
        binary(
            name("a"),
            "||",
            binary(name("b"), "&&", binary(name("c"), ">=", binary(name("d"), "-", lit("1")))),
        ),
        binary(binary(name("a"), "||", name("b")), "||", binary(name("c"), "&&", name("d"))),
        call("f", vec![binary(name("a"), "+", name("b")), binary(name("c"), "!=", name("d"))]),
        binary(call("f", vec![name("x")]), "*", call("g", vec![])),
    ];
    for e in &samples {
        let text = emitted(e);
        let back = read_back(&text);
        assert!(same(e, &back), "{} reads back as {:?}", text, back);
    }
}

#[test]
fn every_operator_is_read_back_at_its_level() {
    let levels: Vec<Vec<&str>> = vec![
        vec!["||"],
        vec!["&&"],
        vec!["==", "!=", "<", ">", "<=", ">="],
        vec!["+", "-"],
        vec!["*", "/", "%"],
    ];
    for (i, looser) in levels.iter().enumerate() {
        for (j, tighter) in levels.iter().enumerate() {
            if i >= j {
                continue;
            }
            for low in looser {
                for high in tighter {
                    let right = binary(name("a"), low, binary(name("b"), high, name("c")));
                    assert!(same(&right, &read_back(&emitted(&right))));
                    let left = binary(binary(name("a"), high, name("b")), low, name("c"));
                    assert!(same(&left, &read_back(&emitted(&left))));
                }
            }
        }
        for first in looser {
            for second in looser {
                let chain = binary(binary(name("a"), first, name("b")), second, name("c"));
                assert!(same(&chain, &read_back(&emitted(&chain))));
            }
        }
    }
}

#[test]
fn an_expression_that_needs_parentheses_is_read_back_as_another() {
    let grouped = binary(binary(lit("1"), "+", lit("2")), "*", lit("3"));
    let text = emitted(&grouped);
    assert_eq!(text, "1 + 2 * 3");
    let back = read_back(&text);
    assert!(!same(&grouped, &back));
    assert!(same(&back, &binary(lit("1"), "+", binary(lit("2"), "*", lit("3")))));

    let right_chain = binary(name("a"), "-", binary(name("b"), "-", name("c")));
    let back = read_back(&emitted(&right_chain));
    assert!(same(&back, &binary(binary(name("a"), "-", name("b")), "-", name("c"))));
}

#[test]
fn what_the_parser_reads_without_parentheses_needs_none() {
    for source in [
        "a + b * c - d / e % f",
        "a < b and c > d or e == f",
        "f(a + 1, g(b) * 2) != h()",
        "x or y or z and w",
    ] {
        let mut lexer = Lexer::new(source);
        let mut parser = Parser::new(lexer.tokenize());
        let mut items = parser.parse().unwrap();
        let first = match items.remove(0) {
            TopLevel::Statement(Statement::ExprStmt(e)) => e,
            other => panic!("{} reads as {:?}", source, other),
        };
        let second = read_back(&emitted(&first));
        assert!(same(&first, &second), "{}", source);
    }
}
