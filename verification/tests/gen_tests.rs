use krait_translator::translate;
use krait_translator::CodeGenerator;
use krait_translator::DataType;
use krait_translator::Expr;
use krait_translator::FunctionDef;
use krait_translator::RouteDef;
use krait_translator::Statement;
use krait_translator::TopLevel;
use krait_translator::VERSION;

const HEAD: &str = "// Автоматически сгенерировано из Krait\n\n";
const DEFAULT_MAIN: &str = "fn main() {\n    println!(\"Hello from Krait!\");\n}\n";
const ROUTING: &str =
    "use actix_web::{get, post, put, delete, App, HttpServer, HttpResponse, web};\n";
/// The entry point of a server with `routes` routes.
fn server_main(routes: usize) -> String {
    let mut out = String::from(
        "#[actix_web::main]\nasync fn main() -> std::io::Result<()> {\n    println!(\"Starting API server on http://127.0.0.1:8080\");\n    \n    HttpServer::new(|| {\n        App::new()\n",
    );
    for _ in 0..routes {
        out.push_str("            .service(handler)\n");
    }
    out.push_str("    })\n    .bind(\"127.0.0.1:8080\")?\n    .run()\n    .await\n}\n");
    out
}

fn generate(items: &[TopLevel]) -> String {
    let mut generator = CodeGenerator::new();
    generator.generate(items)
}

fn lit(s: &str) -> Expr {
    Expr::Literal(s.to_string())
}

fn name(s: &str) -> Expr {
    Expr::Identifier(s.to_string())
}

fn binary(left: Expr, op: &str, right: Expr) -> Expr {
    Expr::BinaryOp { left: Box::new(left), op: op.to_string(), right: Box::new(right) }
}

fn call(callee: &str, args: Vec<Expr>) -> Expr {
    Expr::FunctionCall { name: callee.to_string(), args }
}

fn function(fname: &str, body: Vec<Statement>) -> TopLevel {
    TopLevel::Function(FunctionDef {
        name: fname.to_string(),
        params: Vec::new(),
        return_type: DataType::Auto,
        body,
        is_public: false,
    })
}

fn in_function(body: Vec<Statement>) -> String {
    let out = generate(&[function("f", body)]);
    let start = format!("{}\nfn f() -> i32 {{\n", HEAD);
    let end = format!("}}\n\n{}", DEFAULT_MAIN);
    assert!(out.starts_with(&start), "{}", out);
    assert!(out.ends_with(&end), "{}", out);
    out[start.len()..out.len() - end.len()].to_string()
}

fn statement(e: Expr) -> String {
    in_function(vec![Statement::ExprStmt(e)])
}

#[test]
fn the_version_is_fixed() {
    assert_eq!(VERSION, "0.2.0");
}

#[test]
fn an_empty_program_is_the_head_and_the_default_main() {
    assert_eq!(generate(&[]), format!("{}\n{}", HEAD, DEFAULT_MAIN));
    assert_eq!(translate("").unwrap(), format!("{}\n{}", HEAD, DEFAULT_MAIN));
}

#[test]
fn example_a_function_and_the_default_main() {
    let out = translate("func add(a: int, b: int) -> int return a + b end").unwrap();
    assert_eq!(
        out,
        format!(
            "{}\nfn add(a: i32, b: i32) -> i32 {{\n    a + b\n}}\n\n{}",
            HEAD, DEFAULT_MAIN
        )
    );
}

#[test]
fn example_a_route_and_the_server_main() {
    let out = translate("route \"/ping\" get return \"pong\" end").unwrap();
    assert_eq!(
        out,
        format!(
            "{}{}\n#[get(\"/ping\")]\nasync fn handler() -> HttpResponse {{\n    \"pong\".to_string()\n}}\n\n{}",
            HEAD, ROUTING, server_main(1)
        )
    );
}

#[test]
fn example_a_declared_main_is_dropped_where_there_is_a_route() {
    let out = translate(
        "func main() start() end\nroute \"/ping\" get return \"pong\" end\nfunc helper() end",
    )
    .unwrap();
    assert_eq!(
        out,
        format!(
            "{}{}\nfn helper() -> i32 {{\n}}\n\n#[get(\"/ping\")]\nasync fn handler() -> HttpResponse {{\n    \"pong\".to_string()\n}}\n\n{}",
            HEAD, ROUTING, server_main(1)
        )
    );
    assert_eq!(out.matches("fn main").count(), 1);
    assert!(!out.contains("start()"));
}

#[test]
fn example_an_incomplete_expression_gives_no_text() {
    let r = translate("1 +");
    assert_eq!(r, Err("Unexpected token: Eof".to_string()));
}

#[test]
fn example_a_for_loop_runs_over_a_half_open_range() {
    let out = translate("func f() for i = 0, 5 show(i) end end").unwrap();
    assert_eq!(
        out,
        format!(
            "{}\nfn f() -> i32 {{\n    for i in 0..5 {{\n        show(i);\n    }}\n}}\n\n{}",
            HEAD, DEFAULT_MAIN
        )
    );
    assert!(!out.contains("..="));
}

#[test]
fn a_declared_main_comes_last_and_as_it_is() {
    let out = translate("public func main() run() end\nfunc helper() -> txt return \"x\" end")
        .unwrap();
    assert_eq!(
        out,
        format!(
            "{}\nfn helper() -> String {{\n    \"x\".to_string()\n}}\n\npub fn main() {{\n    run();\n}}\n",
            HEAD
        )
    );
}

#[test]
fn of_two_declared_mains_the_first_is_emitted() {
    let out = generate(&[
        function("main", vec![Statement::ExprStmt(call("first", vec![]))]),
        function("main", vec![Statement::ExprStmt(call("second", vec![]))]),
    ]);
    assert_eq!(out, format!("{}\nfn main() {{\n    first();\n}}\n", HEAD));
}

#[test]
fn top_level_statements_are_not_emitted() {
    assert_eq!(translate("show(1)\nauto x = 2").unwrap(), format!("{}\n{}", HEAD, DEFAULT_MAIN));
}

#[test]
fn imports_bring_their_lines_in_the_order_asked_for() {
    let out = translate("import a from tokio\nimport b from log\nimport c from tokio").unwrap();
    assert_eq!(
        out,
        format!(
            "{}use tokio::task;\nuse log::{{info, warn, error}};\n\n{}",
            HEAD, DEFAULT_MAIN
        )
    );
}

#[test]
fn a_library_named_like_a_keyword_cannot_be_imported() {
    assert_eq!(translate("import j from json"), Err("Expected from module".to_string()));
    let mut generator = CodeGenerator::new();
    let import = TopLevel::Import { module: "j".to_string(), from: "json".to_string() };
    assert!(generator.generate(&[import]).contains("use serde_json::{json, Value};\n"));
}

#[test]
fn an_unknown_library_brings_nothing() {
    assert_eq!(
        translate("import a from nowhere").unwrap(),
        format!("{}\n{}", HEAD, DEFAULT_MAIN)
    );
}

#[test]
fn a_route_brings_the_routing_import_once() {
    let out = translate(
        "import web from rest\nroute \"/a\" get end\nroute \"/b\" post end\nimport j from serde",
    )
    .unwrap();
    assert_eq!(out.matches("use actix_web::").count(), 1);
    assert_eq!(
        out,
        format!(
            "{}{}use serde::{{Deserialize, Serialize}};\n\n#[get(\"/a\")]\nasync fn handler() -> HttpResponse {{\n    HttpResponse::Ok().finish()\n}}\n\n#[post(\"/b\")]\nasync fn handler() -> HttpResponse {{\n    HttpResponse::Ok().finish()\n}}\n\n{}",
            HEAD, ROUTING, server_main(2)
        )
    );
}

#[test]
fn the_server_registers_the_handler_of_each_route() {
    for count in 1..5usize {
        let routes: Vec<TopLevel> = (0..count)
            .map(|i| {
                TopLevel::Route(RouteDef {
                    path: format!("/r{}", i),
                    method: "GET".to_string(),
                    body: vec![Statement::Return(None)],
                })
            })
            .collect();
        let out = generate(&routes);
        assert_eq!(out.matches("async fn handler() -> HttpResponse {").count(), count);
        assert_eq!(out.matches("            .service(handler)\n").count(), count);
        assert!(out.ends_with(&server_main(count)), "{}", out);
    }
}

#[test]
fn items_that_are_no_routes_are_not_registered() {
    let out = translate(
        "func a() end\nroute \"/x\" get end\nimport t from tokio\nshow(1)\nroute \"/y\" put end\nfunc main() end",
    )
    .unwrap();
    assert_eq!(out.matches(".service(handler)").count(), 2);
    assert!(out.ends_with(&server_main(2)));
}

#[test]
fn an_inferred_return_type_is_written_as_the_integer_type() {
    let f = TopLevel::Function(FunctionDef {
        name: "f".to_string(),
        params: vec![("x".to_string(), DataType::Auto)],
        return_type: DataType::Auto,
        body: Vec::new(),
        is_public: false,
    });
    assert_eq!(generate(&[f]), format!("{}\nfn f(x: i32) -> i32 {{\n}}\n\n{}", HEAD, DEFAULT_MAIN));
    assert_eq!(
        translate("func f(x: auto) end").unwrap(),
        format!("{}\nfn f(x: i32) -> i32 {{\n}}\n\n{}", HEAD, DEFAULT_MAIN)
    );
    assert_eq!(
        translate("public func g() -> auto end").unwrap(),
        format!("{}\npub fn g() -> i32 {{\n}}\n\n{}", HEAD, DEFAULT_MAIN)
    );
}

#[test]
fn a_declared_main_has_a_return_type_only_where_it_declares_one() {
    assert_eq!(translate("func main() end").unwrap(), format!("{}\nfn main() {{\n}}\n", HEAD));
    assert_eq!(
        translate("func main() -> auto end").unwrap(),
        format!("{}\nfn main() {{\n}}\n", HEAD)
    );
    assert_eq!(
        translate("func main() -> int return 0 end").unwrap(),
        format!("{}\nfn main() -> i32 {{\n    0\n}}\n", HEAD)
    );
}

#[test]
fn a_handler_without_a_return_answers_with_an_empty_response() {
    let route = TopLevel::Route(RouteDef {
        path: "/x".to_string(),
        method: "PUT".to_string(),
        body: vec![Statement::If {
            condition: name("a"),
            body: vec![Statement::Return(Some(lit("1")))],
            else_body: None,
        }],
    });
    let out = generate(&[route]);
    assert_eq!(
        out,
        format!(
            "{}{}\n#[put(\"/x\")]\nasync fn handler() -> HttpResponse {{\n    if a {{\n        1\n    }}\n    HttpResponse::Ok().finish()\n}}\n\n{}",
            HEAD, ROUTING, server_main(1)
        )
    );
}

#[test]
fn the_method_of_a_route_is_written_in_lower_case() {
    let route = TopLevel::Route(RouteDef {
        path: "/x".to_string(),
        method: "DeLeTe".to_string(),
        body: vec![Statement::Return(None)],
    });
    let out = generate(&[route]);
    assert!(out.contains("#[delete(\"/x\")]\nasync fn handler() -> HttpResponse {\n    return;\n}\n"));
}

#[test]
fn a_function_head_shows_visibility_parameters_and_return_type() {
    let f = TopLevel::Function(FunctionDef {
        name: "mix".to_string(),
        params: vec![
            ("a".to_string(), DataType::Int),
            ("b".to_string(), DataType::Float),
            ("c".to_string(), DataType::Double),
            ("d".to_string(), DataType::Txt),
            ("e".to_string(), DataType::Bool),
            ("f".to_string(), DataType::Auto),
        ],
        return_type: DataType::Double,
        body: Vec::new(),
        is_public: true,
    });
    assert_eq!(
        generate(&[f]),
        format!(
            "{}\npub fn mix(a: i32, b: f32, c: f64, d: String, e: bool, f: i32) -> f64 {{\n}}\n\n{}",
            HEAD, DEFAULT_MAIN
        )
    );
}

#[test]
fn type_names() {
    assert_eq!(DataType::Int.to_rust(), "i32");
    assert_eq!(DataType::Float.to_rust(), "f32");
    assert_eq!(DataType::Double.to_rust(), "f64");
    assert_eq!(DataType::Txt.to_rust(), "String");
    assert_eq!(DataType::Bool.to_rust(), "bool");
    assert_eq!(DataType::Auto.to_rust(), "i32");
}

#[test]
fn declaration_statements() {
    let with_value = Statement::VarDecl {
        name: "x".to_string(),
        var_type: DataType::Txt,
        value: Some(lit("5")),
        is_public: false,
    };
    assert_eq!(in_function(vec![with_value]), "    let x = 5;\n");
    let without = Statement::VarDecl {
        name: "y".to_string(),
        var_type: DataType::Txt,
        value: None,
        is_public: false,
    };
    assert_eq!(in_function(vec![without]), "    let y: String;\n");
    let public = Statement::VarDecl {
        name: "z".to_string(),
        var_type: DataType::Auto,
        value: None,
        is_public: true,
    };
    assert_eq!(in_function(vec![public]), "    pub let z: i32;\n");
}

#[test]
fn return_statements() {
    assert_eq!(in_function(vec![Statement::Return(None)]), "    return;\n");
    assert_eq!(
        in_function(vec![Statement::Return(Some(binary(name("a"), "+", lit("1"))))]),
        "    a + 1\n"
    );
}

#[test]
fn a_conditional_is_emitted() {
    let s = Statement::If {
        condition: binary(name("a"), "<", name("b")),
        body: vec![Statement::Return(Some(name("a")))],
        else_body: None,
    };
    assert_eq!(in_function(vec![s]), "    if a < b {\n        a\n    }\n");
    let s = Statement::If {
        condition: name("c"),
        body: vec![],
        else_body: Some(vec![Statement::ExprStmt(call("g", vec![]))]),
    };
    assert_eq!(in_function(vec![s]), "    if c {\n    } else {\n        g();\n    }\n");
}

#[test]
fn a_while_loop_is_emitted() {
    let s = Statement::While {
        condition: binary(name("i"), "<", lit("10")),
        body: vec![Statement::ExprStmt(call("step", vec![name("i")]))],
    };
    assert_eq!(in_function(vec![s]), "    while i < 10 {\n        step(i);\n    }\n");
}

#[test]
fn a_try_becomes_a_closure_and_a_match() {
    let s = Statement::Try {
        body: vec![Statement::ExprStmt(call("risky", vec![]))],
        catch_body: vec![Statement::ExprStmt(call("recover", vec![]))],
    };
    assert_eq!(
        in_function(vec![s]),
        "    match (|| -> Result<(), Box<dyn std::error::Error>> {\n        risky();\n        Ok(())\n    })() {\n        Ok(_) => {},\n        Err(_) => {\n            recover();\n        }\n    }\n"
    );
}

#[test]
fn blocks_nest_by_four_spaces() {
    let inner = Statement::While {
        condition: name("b"),
        body: vec![Statement::Return(None)],
    };
    let outer = Statement::For {
        var: "i".to_string(),
        start: lit("1"),
        end: name("n"),
        body: vec![inner],
    };
    assert_eq!(
        in_function(vec![outer]),
        "    for i in 1..n {\n        while b {\n            return;\n        }\n    }\n"
    );
}

#[test]
fn literal_expressions() {
    assert_eq!(statement(lit("42")), "    42;\n");
    assert_eq!(statement(lit("3.14")), "    3.14;\n");
    assert_eq!(statement(lit("\"hi\"")), "    \"hi\".to_string();\n");
    assert_eq!(statement(lit("\"\"")), "    \"\".to_string();\n");
    assert_eq!(statement(lit("")), "    ;\n");
}

#[test]
fn double_quotes_at_the_ends_of_a_string_literal_are_taken_off() {
    assert_eq!(statement(lit("\"\"a\"b\"\"")), "    \"a\"b\".to_string();\n");
    assert_eq!(statement(lit("\"abc")), "    \"abc\".to_string();\n");
    assert_eq!(statement(lit("\"")), "    \"\".to_string();\n");
    assert_eq!(
        translate("func f() \"\\\"x\\\"\" end").unwrap(),
        format!("{}\nfn f() -> i32 {{\n    \"x\".to_string();\n}}\n\n{}", HEAD, DEFAULT_MAIN)
    );
}

#[test]
fn operations_are_written_without_parentheses() {
    assert_eq!(
        statement(binary(binary(lit("1"), "+", lit("2")), "*", lit("3"))),
        "    1 + 2 * 3;\n"
    );
    assert_eq!(
        statement(binary(lit("1"), "+", binary(lit("2"), "*", lit("3")))),
        "    1 + 2 * 3;\n"
    );
    assert_eq!(translate("func f() (1 + 2) * 3 end").unwrap(), translate("func f() 1 + 2 * 3 end").unwrap());
}

#[test]
fn the_words_or_and_and_become_symbols() {
    assert_eq!(statement(binary(name("a"), "or", name("b"))), "    a || b;\n");
    assert_eq!(statement(binary(name("a"), "and", name("b"))), "    a && b;\n");
    assert_eq!(statement(binary(name("a"), "||", name("b"))), "    a || b;\n");
    assert_eq!(statement(binary(name("a"), "xor", name("b"))), "    a xor b;\n");
    assert_eq!(
        translate("func f() a or b and c end").unwrap(),
        format!("{}\nfn f() -> i32 {{\n    a || b && c;\n}}\n\n{}", HEAD, DEFAULT_MAIN)
    );
}

#[test]
fn call_expressions() {
    assert_eq!(statement(call("f", vec![])), "    f();\n");
    assert_eq!(statement(call("f", vec![lit("1")])), "    f(1);\n");
    assert_eq!(
        statement(call("f", vec![lit("1"), call("g", vec![name("x"), lit("\"s\"")]), name("y")])),
        "    f(1, g(x, \"s\".to_string()), y);\n"
    );
}

#[test]
fn the_text_of_an_expression_by_itself() {
    let generator = CodeGenerator::new();
    let e = binary(
        binary(name("a"), "+", binary(name("b"), "*", lit("2"))),
        "<=",
        binary(name("c"), "%", lit("7")),
    );
    let text = generator.generate_expr(&e);
    assert_eq!(text, "a + b * 2 <= c % 7");
    assert!(!text.contains('(') && !text.contains(')'));
    let logical = binary(name("x"), "or", binary(name("y"), "and", name("z")));
    assert_eq!(generator.generate_expr(&logical), "x || y && z");
    assert_eq!(generator.generate_expr(&call("f", vec![e.clone(), lit("\"s\"")])), "f(a + b * 2 <= c % 7, \"s\".to_string())");
}

#[test]
fn a_for_loop_at_any_depth() {
    let s = Statement::For {
        var: "i".to_string(),
        start: binary(name("a"), "+", lit("1")),
        end: call("len", vec![name("v")]),
        body: vec![Statement::ExprStmt(call("show", vec![name("i")])), Statement::Return(None)],
    };
    for depth in 0..4usize {
        let pad = "    ".repeat(depth);
        let mut generator = CodeGenerator::new();
        generator.generate_statement(&s, &pad);
        let out = generator.generate(&[]);
        let expected = format!(
            "{p}for i in a + 1..len(v) {{\n{p}    show(i);\n{p}    return;\n{p}}}\n",
            p = pad
        );
        assert!(out.starts_with(&expected), "{}", out);
        assert!(!out.contains("..="));
        assert_eq!(out, format!("{}{}\n{}", expected, HEAD, DEFAULT_MAIN));
    }
}

#[test]
fn a_statement_by_itself_changes_nothing_but_the_text() {
    let mut generator = CodeGenerator::new();
    let import = TopLevel::Import { module: "t".to_string(), from: "tokio".to_string() };
    let first = generator.generate(&[import]);
    generator.generate_statement(&Statement::Return(Some(lit("1"))), "  ");
    let second = generator.generate(&[]);
    assert_eq!(second, format!("{}  1\n{}", first, first));
}

#[test]
fn a_generator_keeps_what_it_wrote_and_what_was_asked_for() {
    let mut generator = CodeGenerator::new();
    let import = TopLevel::Import { module: "j".to_string(), from: "json".to_string() };
    let first = generator.generate(&[import]);
    assert_eq!(
        first,
        format!("{}use serde_json::{{json, Value}};\n\n{}", HEAD, DEFAULT_MAIN)
    );
    let second = generator.generate(&[]);
    assert_eq!(second, format!("{}{}", first, first));
}

#[test]
fn the_default_generator_is_a_new_one() {
    let mut generator = CodeGenerator::default();
    assert_eq!(generator.generate(&[]), format!("{}\n{}", HEAD, DEFAULT_MAIN));
}

#[test]
fn every_program_has_one_entry_point() {
    for source in [
        "",
        "func main() end",
        "func a() end",
        "route \"/x\" get end",
        "route \"/x\" get end func main() end",
        "func main() end func main() end",
    ] {
        let out = translate(source).unwrap();
        assert_eq!(out.matches("fn main(").count(), 1, "{}", out);
    }
}

#[test]
fn a_longer_program() {
    let source = "\
// a small service
import web from rest

func fact(n: int) -> int
    if n <= 1
        return 1
    end
    return n * fact(n - 1)
end

route \"/fact\" get
    auto r = fact(5)
    return \"done\"
end
";
    let out = translate(source).unwrap();
    assert_eq!(
        out,
        format!(
            "{}{}\nfn fact(n: i32) -> i32 {{\n    if n <= 1 {{\n        1\n    }}\n    n * fact(n - 1)\n}}\n\n#[get(\"/fact\")]\nasync fn handler() -> HttpResponse {{\n    let r = fact(5);\n    \"done\".to_string()\n}}\n\n{}",
            HEAD, ROUTING, server_main(1)
        )
    );
}
