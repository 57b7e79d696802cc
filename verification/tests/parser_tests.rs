use krait_translator::DataType;
use krait_translator::Expr;
use krait_translator::Lexer;
use krait_translator::Parser;
use krait_translator::Statement;
use krait_translator::Token;
use krait_translator::TokenType;
use krait_translator::TopLevel;

fn parse(source: &str) -> Result<Vec<TopLevel>, String> {
    let mut lexer = Lexer::new(source);
    let tokens = lexer.tokenize();
    let mut parser = Parser::new(tokens);
    parser.parse()
}

fn items(source: &str) -> Vec<TopLevel> {
    match parse(source) {
        Ok(items) => items,
        Err(m) => panic!("{} does not parse: {}", source, m),
    }
}

fn message(source: &str) -> String {
    match parse(source) {
        Ok(items) => panic!("{} parses to {:?}", source, items),
        Err(m) => m,
    }
}

fn expression(source: &str) -> String {
    let all = items(source);
    assert_eq!(all.len(), 1);
    match &all[0] {
        TopLevel::Statement(Statement::ExprStmt(e)) => show(e),
        other => panic!("{} is no expression but {:?}", source, other),
    }
}

fn show(e: &Expr) -> String {
    match e {
        Expr::Literal(s) => s.clone(),
        Expr::Identifier(s) => s.clone(),
        Expr::BinaryOp { left, op, right } => format!("({} {} {})", show(left), op, show(right)),
        Expr::FunctionCall { name, args } => {
            let parts: Vec<String> = args.iter().map(show).collect();
            format!("{}[{}]", name, parts.join(";"))
        }
    }
}

fn body_of(source: &str) -> Vec<Statement> {
    let mut all = items(source);
    assert_eq!(all.len(), 1);
    match all.remove(0) {
        TopLevel::Function(f) => f.body,
        other => panic!("{} is no function but {:?}", source, other),
    }
}

#[test]
fn an_incomplete_expression_fails_with_a_message() {
    let m = message("1 +");
    assert!(!m.is_empty());
    assert_eq!(m, "Unexpected token: Eof");
}

#[test]
fn an_empty_source_is_an_empty_program() {
    assert_eq!(items("").len(), 0);
    assert_eq!(items("   // nothing\n").len(), 0);
}

#[test]
fn a_function_with_parameters_and_return_type() {
    let all = items("func add(a: int, b: int) -> int return a + b end");
    assert_eq!(all.len(), 1);
    match &all[0] {
        TopLevel::Function(f) => {
            assert_eq!(f.name, "add");
            assert_eq!(
                f.params,
                vec![("a".to_string(), DataType::Int), ("b".to_string(), DataType::Int)]
            );
            assert_eq!(f.return_type, DataType::Int);
            assert!(!f.is_public);
            assert_eq!(f.body.len(), 1);
            match &f.body[0] {
                Statement::Return(Some(e)) => assert_eq!(show(e), "(a + b)"),
                other => panic!("unexpected statement {:?}", other),
            }
        }
        other => panic!("unexpected item {:?}", other),
    }
}

#[test]
fn every_type_keyword_names_its_type() {
    let all = items("func f(a: int, b: float, c: double, d: txt, e: bool, g: auto) -> bool end");
    match &all[0] {
        TopLevel::Function(f) => {
            let types: Vec<DataType> = f.params.iter().map(|p| p.1).collect();
            assert_eq!(
                types,
                vec![
                    DataType::Int,
                    DataType::Float,
                    DataType::Double,
                    DataType::Txt,
                    DataType::Bool,
                    DataType::Auto
                ]
            );
            assert_eq!(f.return_type, DataType::Bool);
        }
        other => panic!("unexpected item {:?}", other),
    }
}

#[test]
fn a_missing_return_type_is_auto() {
    match &items("func f() end")[0] {
        TopLevel::Function(f) => {
            assert_eq!(f.return_type, DataType::Auto);
            assert!(f.params.is_empty());
            assert!(f.body.is_empty());
        }
        other => panic!("unexpected item {:?}", other),
    }
}

#[test]
fn visibility_words_set_the_flag() {
    for (source, expected) in [
        ("public func f() end", true),
        ("private func f() end", false),
        ("func f() end", false),
    ] {
        match &items(source)[0] {
            TopLevel::Function(f) => assert_eq!(f.is_public, expected),
            other => panic!("unexpected item {:?}", other),
        }
    }
}

#[test]
fn a_visibility_word_before_a_statement_is_dropped() {
    match &items("public auto x = 1")[0] {
        TopLevel::Statement(Statement::VarDecl { name, is_public, .. }) => {
            assert_eq!(name, "x");
            assert!(!is_public);
        }
        other => panic!("unexpected item {:?}", other),
    }
}

#[test]
fn parameters_need_no_commas() {
    match &items("func f(a: int b: txt,) end")[0] {
        TopLevel::Function(f) => {
            assert_eq!(
                f.params,
                vec![("a".to_string(), DataType::Int), ("b".to_string(), DataType::Txt)]
            );
        }
        other => panic!("unexpected item {:?}", other),
    }
}

#[test]
fn a_block_may_end_with_the_input() {
    let body = body_of("func f() return 1");
    assert_eq!(body.len(), 1);
}

#[test]
fn products_bind_tighter_than_sums() {
    assert_eq!(expression("1 + 2 * 3"), "(1 + (2 * 3))");
    assert_eq!(expression("1 * 2 + 3"), "((1 * 2) + 3)");
    assert_eq!(expression("a % b - c / d"), "((a % b) - (c / d))");
}

#[test]
fn operators_of_one_level_group_from_the_left() {
    assert_eq!(expression("a - b - c"), "((a - b) - c)");
    assert_eq!(expression("a / b * c % d"), "(((a / b) * c) % d)");
    assert_eq!(expression("a < b == c"), "((a < b) == c)");
    assert_eq!(expression("a or b or c"), "((a || b) || c)");
    assert_eq!(expression("a and b and c"), "((a && b) && c)");
}

#[test]
fn the_five_levels_nest_in_order() {
    assert_eq!(
        expression("a or b and c == d + e * f"),
        "(a || (b && (c == (d + (e * f)))))"
    );
    assert_eq!(
        expression("a * b + c == d and e or f"),
        "(((((a * b) + c) == d) && e) || f)"
    );
}

#[test]
fn every_comparison_is_kept_as_written() {
    for op in ["==", "!=", "<", ">", "<=", ">="] {
        assert_eq!(expression(&format!("a {} b", op)), format!("(a {} b)", op));
    }
}

#[test]
fn parentheses_group_and_leave_no_trace() {
    assert_eq!(expression("(1 + 2) * 3"), "((1 + 2) * 3)");
    assert_eq!(expression("((x))"), "x");
    assert_eq!(expression("a - (b - c)"), "(a - (b - c))");
}

#[test]
fn calls_take_any_number_of_arguments() {
    assert_eq!(expression("f()"), "f[]");
    assert_eq!(expression("f(1)"), "f[1]");
    assert_eq!(expression("f(1, x, g(2))"), "f[1;x;g[2]]");
    assert_eq!(expression("f(a + b, c * d)"), "f[(a + b);(c * d)]");
}

#[test]
fn arguments_need_no_commas() {
    assert_eq!(expression("f(1 2)"), "f[1;2]");
    assert_eq!(expression("f(1,)"), "f[1]");
}

#[test]
fn a_string_literal_keeps_double_quotes_around_it() {
    assert_eq!(expression("\"pong\""), "\"pong\"");
    assert_eq!(expression("'pong'"), "\"pong\"");
    assert_eq!(expression("\"\""), "\"\"");
}

#[test]
fn a_declaration_starts_with_auto() {
    match &items("auto x = 5")[0] {
        TopLevel::Statement(Statement::VarDecl { name, var_type, value, is_public }) => {
            assert_eq!(name, "x");
            assert_eq!(*var_type, DataType::Auto);
            assert!(!is_public);
            match value {
                Some(e) => assert_eq!(show(e), "5"),
                None => panic!("no value"),
            }
        }
        other => panic!("unexpected item {:?}", other),
    }
    match &items("auto y")[0] {
        TopLevel::Statement(Statement::VarDecl { name, value, .. }) => {
            assert_eq!(name, "y");
            assert!(value.is_none());
        }
        other => panic!("unexpected item {:?}", other),
    }
}

#[test]
fn two_names_in_a_row_are_taken_for_a_declaration() {
    assert_eq!(message("foo bar"), "Expected data type");
    assert_eq!(message("foo bar = 1"), "Expected data type");
}

#[test]
fn a_type_keyword_starts_no_statement() {
    assert_eq!(message("int x = 5"), "Unexpected token: Int");
}

#[test]
fn a_declaration_needs_a_name() {
    assert_eq!(message("auto = 5"), "Expected variable name");
    assert_eq!(message("auto"), "Expected variable name");
}

#[test]
fn a_return_may_have_no_value() {
    let body = body_of("func f() return end");
    assert!(matches!(body[0], Statement::Return(None)));
    let body = body_of("func f() return");
    assert!(matches!(body[0], Statement::Return(None)));
    let body = body_of("func f() return x end");
    assert!(matches!(body[0], Statement::Return(Some(_))));
}

#[test]
fn a_conditional_with_and_without_else() {
    let body = body_of("func f() if a < b return a end end");
    match &body[0] {
        Statement::If { condition, body, else_body } => {
            assert_eq!(show(condition), "(a < b)");
            assert_eq!(body.len(), 1);
            assert!(else_body.is_none());
        }
        other => panic!("unexpected statement {:?}", other),
    }
    let body = body_of("func f() if a return 1 end else return 2 return 3 end end");
    match &body[0] {
        Statement::If { body, else_body, .. } => {
            assert_eq!(body.len(), 1);
            assert_eq!(else_body.as_ref().map(|b| b.len()), Some(2));
        }
        other => panic!("unexpected statement {:?}", other),
    }
}

#[test]
fn a_while_loop() {
    let body = body_of("func f() while i < 10 step(i) end end");
    match &body[0] {
        Statement::While { condition, body } => {
            assert_eq!(show(condition), "(i < 10)");
            assert_eq!(body.len(), 1);
            assert!(matches!(body[0], Statement::ExprStmt(_)));
        }
        other => panic!("unexpected statement {:?}", other),
    }
}

#[test]
fn a_for_loop_has_a_start_and_an_end() {
    let body = body_of("func f() for i = 0, 5 show(i) end end");
    match &body[0] {
        Statement::For { var, start, end, body } => {
            assert_eq!(var, "i");
            assert_eq!(show(start), "0");
            assert_eq!(show(end), "5");
            assert_eq!(body.len(), 1);
        }
        other => panic!("unexpected statement {:?}", other),
    }
}

#[test]
fn a_try_has_two_blocks() {
    let body = body_of("func f() try risky() end catch recover() done() end end");
    match &body[0] {
        Statement::Try { body, catch_body } => {
            assert_eq!(body.len(), 1);
            assert_eq!(catch_body.len(), 2);
        }
        other => panic!("unexpected statement {:?}", other),
    }
}

#[test]
fn blocks_nest() {
    let body = body_of("func f() while a if b return 1 end end return 2 end");
    assert_eq!(body.len(), 2);
    match &body[0] {
        Statement::While { body, .. } => {
            assert!(matches!(body[0], Statement::If { .. }));
        }
        other => panic!("unexpected statement {:?}", other),
    }
    assert!(matches!(body[1], Statement::Return(Some(_))));
}

#[test]
fn a_route_has_a_path_a_method_and_a_body() {
    for (word, method) in [("get", "GET"), ("post", "POST"), ("put", "PUT"), ("delete", "DELETE")] {
        let source = format!("route \"/ping\" {} return \"pong\" end", word);
        match &items(&source)[0] {
            TopLevel::Route(r) => {
                assert_eq!(r.path, "/ping");
                assert_eq!(r.method, method);
                assert_eq!(r.body.len(), 1);
            }
            other => panic!("unexpected item {:?}", other),
        }
    }
}

#[test]
fn a_route_path_may_be_empty_or_lack_the_slash() {
    match &items("route \"\" get end")[0] {
        TopLevel::Route(r) => assert_eq!(r.path, ""),
        other => panic!("unexpected item {:?}", other),
    }
    match &items("route \"ping\" get end")[0] {
        TopLevel::Route(r) => assert_eq!(r.path, "ping"),
        other => panic!("unexpected item {:?}", other),
    }
}

#[test]
fn an_import_names_a_module_and_a_library() {
    match &items("import web from rest")[0] {
        TopLevel::Import { module, from } => {
            assert_eq!(module, "web");
            assert_eq!(from, "rest");
        }
        other => panic!("unexpected item {:?}", other),
    }
}

#[test]
fn items_come_in_source_order() {
    let all = items(
        "import web from rest\nfunc a() end\nroute \"/x\" get end\nb()\npublic func main() end",
    );
    assert_eq!(all.len(), 5);
    assert!(matches!(all[0], TopLevel::Import { .. }));
    assert!(matches!(all[1], TopLevel::Function(_)));
    assert!(matches!(all[2], TopLevel::Route(_)));
    assert!(matches!(all[3], TopLevel::Statement(_)));
    assert!(matches!(all[4], TopLevel::Function(_)));
}

#[test]
fn function_errors() {
    assert_eq!(message("func ("), "Expected function name");
    assert_eq!(message("func f x"), "Expected LeftParen, found Identifier(\"x\")");
    assert_eq!(message("func f(1"), "Expected parameter name");
    assert_eq!(message("func f("), "Expected parameter name");
    assert_eq!(message("func f(a b"), "Expected Colon, found Identifier(\"b\")");
    assert_eq!(message("func f(a: x"), "Expected data type");
    assert_eq!(message("func f() -> x end"), "Expected data type");
    assert_eq!(message("func f() 1 + end"), "Unexpected token: End");
}

#[test]
fn route_errors() {
    assert_eq!(message("route get"), "Expected route path");
    assert_eq!(message("route \"/x\" fetch"), "Expected HTTP method");
    assert_eq!(message("route \"/x\""), "Expected HTTP method");
    assert_eq!(message("route \"/x\" get )"), "Unexpected token: RightParen");
}

#[test]
fn import_errors() {
    assert_eq!(message("import from"), "Expected module name");
    assert_eq!(message("import a b"), "Expected From, found Identifier(\"b\")");
    assert_eq!(message("import a from 1"), "Expected from module");
    assert_eq!(message("import a"), "Expected From, found Eof");
}

#[test]
fn statement_errors() {
    assert_eq!(message("for 1"), "Expected variable name");
    assert_eq!(message("for i 0"), "Expected Equal, found Number(\"0\")");
    assert_eq!(message("for i = 0 5"), "Expected Comma, found Number(\"5\")");
    assert_eq!(message("for i = 0, end"), "Unexpected token: End");
    assert_eq!(message("try x end"), "Expected Catch, found Eof");
    assert_eq!(message("try x end finally"), "Expected Catch, found Identifier(\"finally\")");
    assert_eq!(message("if end"), "Unexpected token: End");
    assert_eq!(message("while"), "Unexpected token: Eof");
    assert_eq!(message("return +"), "Unexpected token: Plus");
}

#[test]
fn expression_errors() {
    assert_eq!(message("(1"), "Expected RightParen, found Eof");
    assert_eq!(message("(1 2"), "Expected RightParen, found Number(\"2\")");
    assert_eq!(message("f(1"), "Unexpected token: Eof");
    assert_eq!(message(")"), "Unexpected token: RightParen");
    assert_eq!(message("1 + * 2"), "Unexpected token: Star");
    assert_eq!(message("x = 1"), "Unexpected token: Equal");
    assert_eq!(message("\"a\" 'b' ]"), "Unexpected token: RightBracket");
    assert_eq!(message("a.b"), "Unexpected token: Dot");
}

#[test]
fn a_message_quotes_the_text_of_a_string_token() {
    assert_eq!(
        message("func f \"a\\\"b\""),
        "Expected LeftParen, found String(\"a\\\"b\")"
    );
}

#[test]
fn a_character_that_starts_no_token_is_read_as_a_name() {
    assert_eq!(expression("@"), "@");
    assert_eq!(expression("a + #"), "(a + #)");
    assert_eq!(message("a @"), "Expected data type");
}

#[test]
fn only_the_first_error_is_reported() {
    assert_eq!(message("func f( ) end ) ) import"), "Unexpected token: RightParen");
    assert_eq!(message("import 1 route 2"), "Expected module name");
}

#[test]
fn end_at_the_top_level_starts_no_statement() {
    assert_eq!(message("end"), "Unexpected token: End");
}

#[test]
fn a_parser_over_tokens_made_by_hand() {
    let tokens = vec![
        Token { token_type: TokenType::Identifier("f".to_string()), line: 1, column: 1 },
        Token { token_type: TokenType::LeftParen, line: 1, column: 2 },
        Token { token_type: TokenType::Number("1".to_string()), line: 1, column: 3 },
        Token { token_type: TokenType::RightParen, line: 1, column: 4 },
        Token { token_type: TokenType::Eof, line: 1, column: 5 },
    ];
    let mut parser = Parser::new(tokens);
    let all = parser.parse().unwrap();
    assert_eq!(all.len(), 1);
    match &all[0] {
        TopLevel::Statement(Statement::ExprStmt(e)) => assert_eq!(show(e), "f[1]"),
        other => panic!("unexpected item {:?}", other),
    }
}

#[test]
fn parsing_stops_at_the_first_eof() {
    let tokens = vec![
        Token { token_type: TokenType::Identifier("a".to_string()), line: 1, column: 1 },
        Token { token_type: TokenType::Eof, line: 1, column: 2 },
        Token { token_type: TokenType::RightParen, line: 1, column: 3 },
        Token { token_type: TokenType::Eof, line: 1, column: 4 },
    ];
    let mut parser = Parser::new(tokens);
    assert_eq!(parser.parse().unwrap().len(), 1);
    assert_eq!(parser.parse().unwrap().len(), 0);
}

#[test]
fn a_copy_of_a_tree_is_the_same_tree() {
    let all = items("func f(a: int) if a f(a - 1, \"x\") end else try g() end catch end end end");
    match &all[0] {
        TopLevel::Function(f) => {
            let copy = f.body[0].clone();
            assert_eq!(format!("{:?}", copy), format!("{:?}", f.body[0]));
        }
        other => panic!("unexpected item {:?}", other),
    }
}
