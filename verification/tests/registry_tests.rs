use krait_translator::api::api_stats;
use krait_translator::api::count_method;
use krait_translator::api::validate_routes;
use krait_translator::api::ApiConfig;
use krait_translator::api::ApiInfo;
use krait_translator::cli::CliResult;
use krait_translator::libs::Library;
use krait_translator::libs::LibraryRegistry;
use krait_translator::text::chars_of;
use krait_translator::text::contains_text;
use krait_translator::text::join_strings;
use krait_translator::text::push_decimal;
use krait_translator::text::same_text;
use krait_translator::text::starts_with;
use krait_translator::text::text_of;
use krait_translator::text::trim;
use krait_translator::RouteDef;

fn strings(items: &[&str]) -> Vec<String> {
    items.iter().map(|s| s.to_string()).collect()
}

fn route(method: &str, path: &str) -> RouteDef {
    RouteDef { path: path.to_string(), method: method.to_string(), body: Vec::new() }
}

fn library(import_lines: &[&str]) -> Library {
    Library {
        name: "Mine".to_string(),
        crate_name: "mine".to_string(),
        imports: strings(import_lines),
        features: Vec::new(),
    }
}

#[test]
fn a_new_registry_holds_seven_libraries() {
    let registry = LibraryRegistry::new();
    let mut names: Vec<String> = registry.list().into_iter().cloned().collect();
    names.sort();
    assert_eq!(names, strings(&["json", "log", "mongodb", "rest", "serde", "sqlx", "tokio"]));
}

#[test]
fn the_routing_library() {
    let registry = LibraryRegistry::new();
    let rest = registry.get("rest").unwrap();
    assert_eq!(rest.name, "REST API (Actix)");
    assert_eq!(rest.crate_name, "actix-web");
    assert_eq!(
        rest.imports,
        strings(&["use actix_web::{get, post, put, delete, App, HttpServer, HttpResponse, web};"])
    );
    assert_eq!(rest.features, strings(&["routing", "json"]));
}

#[test]
fn the_other_libraries() {
    let registry = LibraryRegistry::default();
    for (key, name, crate_name, import, feature) in [
        ("json", "JSON", "serde_json", "use serde_json::{json, Value};", "serialization"),
        ("sqlx", "SQLx (SQL Database)", "sqlx", "use sqlx::{PgPool, Row};", "async-runtime"),
        ("mongodb", "MongoDB", "mongodb", "use mongodb::Client;", "async-runtime"),
        ("tokio", "Tokio (Async Runtime)", "tokio", "use tokio::task;", "async-runtime"),
        ("log", "Log", "log", "use log::{info, warn, error};", "logging"),
        ("serde", "Serde", "serde", "use serde::{Deserialize, Serialize};", "serialization"),
    ] {
        let library = registry.get(key).unwrap();
        assert_eq!(library.name, name);
        assert_eq!(library.crate_name, crate_name);
        assert_eq!(library.imports, strings(&[import]));
        assert_eq!(library.features, strings(&[feature]));
    }
}

#[test]
fn an_unknown_name_gets_nothing() {
    let registry = LibraryRegistry::new();
    assert!(registry.get("nowhere").is_none());
    assert!(registry.get("").is_none());
    assert!(registry.get("REST").is_none());
}

#[test]
fn adding_a_library_under_a_new_name() {
    let mut registry = LibraryRegistry::new();
    registry.add_library("mine".to_string(), library(&["use mine::a;", "use mine::b;"]));
    assert_eq!(registry.list().len(), 8);
    assert_eq!(registry.get("mine").unwrap().imports, strings(&["use mine::a;", "use mine::b;"]));
    assert_eq!(registry.get("json").unwrap().name, "JSON");
}

#[test]
fn adding_a_library_under_a_name_in_use_replaces_it() {
    let mut registry = LibraryRegistry::new();
    registry.add_library("json".to_string(), library(&["use mine::json;"]));
    assert_eq!(registry.list().len(), 7);
    assert_eq!(registry.get("json").unwrap().name, "Mine");
    assert_eq!(registry.get_imports(&strings(&["json"])), strings(&["use mine::json;"]));
}

#[test]
fn import_lines_come_in_the_order_asked_for() {
    let registry = LibraryRegistry::new();
    assert_eq!(
        registry.get_imports(&strings(&["log", "json", "tokio"])),
        strings(&["use log::{info, warn, error};", "use serde_json::{json, Value};", "use tokio::task;"])
    );
    assert_eq!(registry.get_imports(&[]), Vec::<String>::new());
}

#[test]
fn asking_twice_is_asking_once() {
    let registry = LibraryRegistry::new();
    let once = registry.get_imports(&strings(&["json"]));
    let twice = registry.get_imports(&strings(&["json", "json"]));
    assert_eq!(once, twice);
    assert_eq!(
        registry.get_imports(&strings(&["log", "json", "log", "json", "log"])),
        registry.get_imports(&strings(&["log", "json"]))
    );
}

#[test]
fn unknown_names_are_passed_over() {
    let registry = LibraryRegistry::new();
    assert_eq!(
        registry.get_imports(&strings(&["nowhere", "json", "", "Json"])),
        strings(&["use serde_json::{json, Value};"])
    );
}

#[test]
fn a_line_shared_by_two_libraries_comes_once() {
    let mut registry = LibraryRegistry::new();
    registry.add_library("a".to_string(), library(&["use x;", "use y;", "use x;"]));
    registry.add_library("b".to_string(), library(&["use y;", "use z;"]));
    assert_eq!(
        registry.get_imports(&strings(&["a", "b"])),
        strings(&["use x;", "use y;", "use z;"])
    );
    assert_eq!(
        registry.get_imports(&strings(&["b", "a"])),
        strings(&["use y;", "use z;", "use x;"])
    );
}

#[test]
fn contains_text_compares_whole_strings() {
    let v = strings(&["ab", "c"]);
    assert!(contains_text(&v, "ab"));
    assert!(contains_text(&v, "c"));
    assert!(!contains_text(&v, "a"));
    assert!(!contains_text(&v, "abc"));
    assert!(!contains_text(&Vec::new(), ""));
}

#[test]
fn the_summary_of_no_routes() {
    let info = ApiInfo::from_routes(&[]);
    assert!(!info.has_routes);
    assert_eq!(info.routes_count, 0);
    assert!(info.http_methods.is_empty());
    assert!(!info.needs_actix());
    assert_eq!(info.describe(), "Консольное приложение (CLI)");
    let info = ApiInfo::default();
    assert!(!info.has_routes);
    assert_eq!(info.routes_count, 0);
    assert!(info.http_methods.is_empty());
}

#[test]
fn the_summary_of_some_routes() {
    let a = route("GET", "/a");
    let b = route("POST", "/b");
    let c = route("GET", "/c");
    let d = route("DELETE", "/d");
    let info = ApiInfo::from_routes(&[&a, &b, &c, &d, &b]);
    assert!(info.has_routes);
    assert!(info.needs_actix());
    assert_eq!(info.routes_count, 5);
    assert_eq!(info.http_methods, strings(&["GET", "POST", "DELETE"]));
    assert_eq!(info.describe(), "REST API (5 маршрутов, методы: GET, POST, DELETE)");
}

#[test]
fn the_description_counts_in_decimal() {
    let info = ApiInfo { has_routes: true, routes_count: 1204, http_methods: strings(&["PUT"]) };
    assert_eq!(info.describe(), "REST API (1204 маршрутов, методы: PUT)");
    let info = ApiInfo { has_routes: true, routes_count: 0, http_methods: Vec::new() };
    assert_eq!(info.describe(), "REST API (0 маршрутов, методы: )");
    let info = ApiInfo { has_routes: false, routes_count: 3, http_methods: strings(&["PUT"]) };
    assert_eq!(info.describe(), "Консольное приложение (CLI)");
}

#[test]
fn the_default_configuration() {
    let config = ApiConfig::default();
    assert_eq!(config.host, "127.0.0.1");
    assert_eq!(config.port, 8080);
    assert!(config.log_middleware);
    assert_eq!(config.address(), "127.0.0.1:8080");
    assert_eq!(config.url(), "http://127.0.0.1:8080");
    assert_eq!(
        config.to_rust_code(),
        "    .bind((\"127.0.0.1\".to_string(), 8080))?\n    .run()\n    .await"
    );
}

#[test]
fn a_configuration_of_ones_own() {
    let config = ApiConfig { host: "example.org".to_string(), port: 0, log_middleware: false };
    assert_eq!(config.address(), "example.org:0");
    let config = ApiConfig { host: String::new(), port: 65535, log_middleware: false };
    assert_eq!(config.address(), ":65535");
    assert_eq!(config.url(), "http://:65535");
    assert_eq!(config.to_rust_code(), "    .bind((\"\".to_string(), 65535))?\n    .run()\n    .await");
}

#[test]
fn routes_that_are_in_order() {
    let a = route("GET", "/a");
    let b = route("POST", "/a");
    let c = route("GET", "/");
    assert_eq!(validate_routes(&[]), Ok(()));
    assert_eq!(validate_routes(&[&a, &b, &c]), Ok(()));
}

#[test]
fn a_repeated_route_is_refused() {
    let a = route("GET", "/a");
    let b = route("POST", "/b");
    let again = route("GET", "/a");
    assert_eq!(
        validate_routes(&[&a, &b, &again]),
        Err("Дублированный маршрут: GET /a".to_string())
    );
}

#[test]
fn a_path_without_a_slash_is_refused() {
    let a = route("GET", "/a");
    let bad = route("PUT", "b");
    let empty = route("PUT", "");
    assert_eq!(
        validate_routes(&[&a, &bad]),
        Err("Путь должен начинаться с '/': b".to_string())
    );
    assert_eq!(validate_routes(&[&empty]), Err("Путь должен начинаться с '/': ".to_string()));
}

#[test]
fn the_first_faulty_route_decides() {
    let a = route("GET", "/a");
    let bad = route("PUT", "b");
    let again = route("GET", "/a");
    assert_eq!(
        validate_routes(&[&a, &bad, &again]),
        Err("Путь должен начинаться с '/': b".to_string())
    );
    assert_eq!(
        validate_routes(&[&a, &again, &bad]),
        Err("Дублированный маршрут: GET /a".to_string())
    );
    let bad_again = route("PUT", "b");
    assert_eq!(
        validate_routes(&[&bad, &bad_again]),
        Err("Путь должен начинаться с '/': b".to_string())
    );
}

#[test]
fn a_repetition_is_found_before_a_bad_path() {
    let x = route("GET /a", "b");
    let y = route("GET", "/a b");
    assert_eq!(validate_routes(&[&y, &x]), Err("Дублированный маршрут: GET /a b".to_string()));
}

#[test]
fn counting_the_routes_of_a_method() {
    let a = route("GET", "/a");
    let b = route("POST", "/b");
    let c = route("GET", "/c");
    assert_eq!(count_method(&[&a, &b, &c], "GET"), 2);
    assert_eq!(count_method(&[&a, &b, &c], "POST"), 1);
    assert_eq!(count_method(&[&a, &b, &c], "PUT"), 0);
    assert_eq!(count_method(&[], "GET"), 0);
}

#[test]
fn the_statistics_of_no_routes() {
    assert_eq!(api_stats(&[]), strings(&["📊 API статистика: нет маршрутов"]));
}

#[test]
fn the_statistics_of_some_routes() {
    let a = route("GET", "/a");
    let b = route("POST", "/b");
    let c = route("GET", "/c");
    assert_eq!(
        api_stats(&[&a, &b, &c]),
        strings(&[
            "📊 API статистика:",
            "   ├─ Всего маршрутов: 3",
            "   ├─ GET: 2",
            "   ├─ POST: 1",
            "   └─ Хост: http://127.0.0.1:8080",
        ])
    );
}

#[test]
fn the_line_of_an_outcome() {
    assert_eq!(CliResult::Success("done".to_string()).line(), "✓ done");
    assert_eq!(CliResult::Error("bad".to_string()).line(), "✗ bad");
    assert!(!CliResult::Success(String::new()).is_error());
    assert!(CliResult::Error(String::new()).is_error());
}

#[test]
fn the_summary_of_a_project() {
    let all_well = CliResult::project_summary(3, 0);
    assert!(!all_well.is_error());
    assert_eq!(all_well.line(), "✓ Проект транслирован: 3 файлов");
    let some_failed = CliResult::project_summary(12, 1);
    assert!(some_failed.is_error());
    assert_eq!(some_failed.line(), "✗ Транслировано: 12, Ошибок: 1");
    assert_eq!(CliResult::project_summary(0, 0).line(), "✓ Проект транслирован: 0 файлов");
}

#[test]
fn decimal_digits() {
    for (n, expected) in [
        (0usize, "0"),
        (7, "7"),
        (10, "10"),
        (99, "99"),
        (100, "100"),
        (8080, "8080"),
        (1234567890, "1234567890"),
        (usize::MAX, &usize::MAX.to_string()),
    ] {
        let mut s = String::from("n=");
        push_decimal(&mut s, n);
        assert_eq!(s, format!("n={}", expected));
    }
}

#[test]
fn characters_and_back() {
    let chars = chars_of("aжb");
    assert_eq!(chars, vec!['a', 'ж', 'b']);
    assert_eq!(text_of(&chars, 0, 3), "aжb");
    assert_eq!(text_of(&chars, 1, 2), "ж");
    assert_eq!(text_of(&chars, 2, 2), "");
    assert!(chars_of("").is_empty());
}

#[test]
fn trimming() {
    assert_eq!(trim("\"abc\"", '"'), "abc");
    assert_eq!(trim("\"\"a\"b\"\"\"", '"'), "a\"b");
    assert_eq!(trim("abc", '"'), "abc");
    assert_eq!(trim("\"\"\"", '"'), "");
    assert_eq!(trim("", '"'), "");
    assert_eq!(trim("xxaxx", 'x'), "a");
}

#[test]
fn joining() {
    assert_eq!(join_strings(&Vec::new(), ", "), "");
    assert_eq!(join_strings(&strings(&["a"]), ", "), "a");
    assert_eq!(join_strings(&strings(&["a", "b", "c"]), ", "), "a, b, c");
    assert_eq!(join_strings(&strings(&["", ""]), "-"), "-");
}

#[test]
fn equal_texts() {
    assert!(same_text("", ""));
    assert!(same_text("abc", "abc"));
    assert!(same_text("жук", "жук"));
    assert!(!same_text("abc", "abd"));
    assert!(!same_text("abc", "ab"));
    assert!(!same_text("", "a"));
    assert!(!same_text("a", "A"));
}

#[test]
fn import_lines_are_deduplicated_and_belong_to_what_was_asked_for() {
    let mut registry = LibraryRegistry::new();
    registry.add_library("a".to_string(), library(&["use x;", "use y;", "use x;"]));
    registry.add_library("b".to_string(), library(&["use y;", "use z;"]));
    let names = strings(&["b", "nowhere", "a", "log", "b"]);
    let lines = registry.get_imports(&names);
    for (i, line) in lines.iter().enumerate() {
        assert!(!lines[..i].contains(line));
        assert!(names
            .iter()
            .any(|n| registry.get(n).map_or(false, |l| l.imports.contains(line))));
    }
    assert_eq!(lines.len(), 4);
    assert!(!lines.contains(&"use tokio::task;".to_string()));
}

#[test]
fn first_characters() {
    assert!(starts_with("/a", '/'));
    assert!(!starts_with("a/", '/'));
    assert!(!starts_with("", '/'));
    assert!(starts_with("жук", 'ж'));
}
