//! The text that is emitted for a syntax tree.
//!
//! Every construct becomes one construct of the target language. A block is
//! indented by four spaces more than the line that opens it; the indentation
//! of a line is carried as the text `pad` that stands before it.

use crate::libs::imports_for;
use crate::libs::LibraryModel;
use crate::syntax::DataType;
use crate::syntax::ExprModel;
use crate::syntax::FunctionModel;
use crate::syntax::RouteModel;
use crate::syntax::StatementModel;
use crate::syntax::TopLevelModel;
use crate::text::join;
use crate::text::lowercase_of;
use crate::text::trim_matching;
use vstd::prelude::*;

verus! {

/// One step of indentation.
pub open spec fn indent_unit() -> Seq<char> {
    "    "@
}

/// A line: the indentation, the content and a line feed.
pub open spec fn line(pad: Seq<char>, content: Seq<char>) -> Seq<char> {
    pad + content + "\n"@
}

/// A literal as it is emitted. One that starts with a double quote is a
/// string literal: the double quotes at both ends are taken off, and what is
/// left is quoted again and made an owned string. Any other literal is
/// emitted as it is.
pub open spec fn literal_text(s: Seq<char>) -> Seq<char> {
    if s.len() > 0 && s[0] == '"' {
        "\""@ + trim_matching(s, '"') + "\".to_string()"@
    } else {
        s
    }
}

/// An operator as it is emitted: the words `or` and `and` become `||` and
/// `&&`, every other operator stays as it is.
pub open spec fn operator_text(op: Seq<char>) -> Seq<char> {
    if op == "or"@ {
        "||"@
    } else if op == "and"@ {
        "&&"@
    } else {
        op
    }
}

/// The texts of the expressions, one by one.
pub open spec fn expr_texts(args: Seq<ExprModel>) -> Seq<Seq<char>>
    decreases args,
{
    if args.len() == 0 {
        Seq::empty()
    } else {
        expr_texts(args.drop_last()).push(expr_text(args.last()))
    }
}

/// An expression as it is emitted: operands and operator separated by single
/// spaces and without parentheses, the arguments of a call separated by a
/// comma and a space.
pub open spec fn expr_text(e: ExprModel) -> Seq<char>
    decreases e,
{
    match e {
        ExprModel::Literal(s) => literal_text(s),
        ExprModel::Identifier(name) => name,
        ExprModel::BinaryOp { left, op, right } => expr_text(*left) + " "@ + operator_text(op)
            + " "@ + expr_text(*right),
        ExprModel::FunctionCall { name, args } => name + "("@ + join(expr_texts(args), ", "@)
            + ")"@,
    }
}

/// The word before a public declaration.
pub open spec fn visibility_text(is_public: bool) -> Seq<char> {
    if is_public {
        "pub "@
    } else {
        Seq::empty()
    }
}

/// The statements of a block, one after another, each indented by `pad`.
pub open spec fn block_text(body: Seq<StatementModel>, pad: Seq<char>) -> Seq<char>
    decreases body,
{
    if body.len() == 0 {
        Seq::empty()
    } else {
        block_text(body.drop_last(), pad) + statement_text(body.last(), pad)
    }
}

/// A statement as it is emitted, indented by `pad`.
///
/// A declaration becomes a `let`, with the declared type only where there is
/// no value. A `return` with a value is the value as the block's last
/// expression. A `for` runs over the half-open range from the start up to,
/// and not including, the end. A `try` becomes a closure that returns a
/// `Result`, called at once and matched on.
pub open spec fn statement_text(s: StatementModel, pad: Seq<char>) -> Seq<char>
    decreases s,
{
    let inner = pad + indent_unit();
    match s {
        StatementModel::VarDecl { name, var_type, value, is_public } => match value {
            Some(e) => line(
                pad,
                visibility_text(is_public) + "let "@ + name + " = "@ + expr_text(e) + ";"@,
            ),
            None => line(
                pad,
                visibility_text(is_public) + "let "@ + name + ": "@ + var_type.rust_name() + ";"@,
            ),
        },
        StatementModel::Return(value) => match value {
            Some(e) => line(pad, expr_text(e)),
            None => line(pad, "return;"@),
        },
        StatementModel::If { condition, body, else_body } => line(
            pad,
            "if "@ + expr_text(condition) + " {"@,
        ) + block_text(body, inner) + (match else_body {
            Some(other) => line(pad, "} else {"@) + block_text(other, inner) + line(pad, "}"@),
            None => line(pad, "}"@),
        }),
        StatementModel::While { condition, body } => line(
            pad,
            "while "@ + expr_text(condition) + " {"@,
        ) + block_text(body, inner) + line(pad, "}"@),
        StatementModel::For { var, start, end, body } => line(
            pad,
            "for "@ + var + " in "@ + expr_text(start) + ".."@ + expr_text(end) + " {"@,
        ) + block_text(body, inner) + line(pad, "}"@),
        StatementModel::ExprStmt(e) => line(pad, expr_text(e) + ";"@),
        StatementModel::Try { body, catch_body } => line(
            pad,
            "match (|| -> Result<(), Box<dyn std::error::Error>> {"@,
        ) + block_text(body, inner) + line(inner, "Ok(())"@) + line(pad, "})() {"@) + line(
            inner,
            "Ok(_) => {},"@,
        ) + line(inner, "Err(_) => {"@) + block_text(catch_body, inner + indent_unit()) + line(
            inner,
            "}"@,
        ) + line(pad, "}"@),
    }
}

/// The parameters of a function as they are emitted, one by one.
pub open spec fn param_texts(params: Seq<(Seq<char>, DataType)>) -> Seq<Seq<char>> {
    params.map_values(|p: (Seq<char>, DataType)| p.0 + ": "@ + p.1.rust_name())
}

/// The return type behind a parameter list: an arrow and the name of the
/// type. An inferred type is written as the integer type, here as everywhere.
pub open spec fn return_text(t: DataType) -> Seq<char> {
    " -> "@ + t.rust_name()
}

/// The return type behind the parameter list of a program's own `main`:
/// nothing where the type is inferred, else as for any function.
pub open spec fn main_return_text(t: DataType) -> Seq<char> {
    if t is Auto {
        Seq::empty()
    } else {
        return_text(t)
    }
}

/// The first line of a function: visibility, name, parameters, return type
/// and the opening brace. Only a function named `main` may lack the return
/// type.
pub open spec fn function_head(f: FunctionModel) -> Seq<char> {
    visibility_text(f.is_public) + "fn "@ + f.name + "("@ + join(param_texts(f.params), ", "@)
        + ")"@ + (if f.name == main_name() {
        main_return_text(f.return_type)
    } else {
        return_text(f.return_type)
    }) + " {"@
}

/// A function as it is emitted at the top level.
pub open spec fn function_text(f: FunctionModel) -> Seq<char> {
    line(Seq::empty(), function_head(f)) + block_text(f.body, indent_unit()) + line(
        Seq::empty(),
        "}"@,
    )
}

/// Whether one of the statements of the block itself is a `return`.
pub open spec fn has_return(body: Seq<StatementModel>) -> bool {
    exists|i: int| 0 <= i < body.len() && body[i] is Return
}

/// A block has a `return` up to and including index `i` exactly if it has
/// one before `i` or the statement at `i` is one.
pub proof fn lemma_has_return_step(body: Seq<StatementModel>, i: int)
    requires
        0 <= i < body.len(),
    ensures
        has_return(body.take(i + 1)) == (has_return(body.take(i)) || body[i] is Return),
{
    let shorter = body.take(i);
    let longer = body.take(i + 1);
    if has_return(shorter) {
        let j = choose|j: int| 0 <= j < shorter.len() && shorter[j] is Return;
        assert(longer[j] is Return);
    }
    if body[i] is Return {
        assert(longer[i] is Return);
    }
    if has_return(longer) && !(body[i] is Return) {
        let j = choose|j: int| 0 <= j < longer.len() && longer[j] is Return;
        assert(shorter[j] is Return);
    }
}

/// The handler emitted for a route: the method and path as an attribute, and
/// an asynchronous function whose body is that of the route. A body without a
/// `return` ends with an empty response.
pub open spec fn handler_text(r: RouteModel) -> Seq<char> {
    line(Seq::empty(), "#["@ + lowercase_of(r.method) + "(\""@ + r.path + "\")]"@) + line(
        Seq::empty(),
        "async fn handler() -> HttpResponse {"@,
    ) + block_text(r.body, indent_unit()) + (if has_return(r.body) {
        Seq::empty()
    } else {
        line(indent_unit(), "HttpResponse::Ok().finish()"@)
    }) + line(Seq::empty(), "}"@)
}

/// The start of the entry point that serves the routes, up to where the
/// handlers are registered.
pub open spec fn server_head_text() -> Seq<char> {
    let one = indent_unit();
    let two = one + indent_unit();
    line(Seq::empty(), "#[actix_web::main]"@) + line(
        Seq::empty(),
        "async fn main() -> std::io::Result<()> {"@,
    ) + line(one, "println!(\"Starting API server on http://127.0.0.1:8080\");"@) + line(
        one,
        Seq::empty(),
    ) + line(one, "HttpServer::new(|| {"@) + line(two, "App::new()"@)
}

/// The line that registers one handler with the server.
pub open spec fn registration_line() -> Seq<char> {
    line(indent_unit() + indent_unit() + indent_unit(), ".service(handler)"@)
}

/// What an item adds to the registrations: for a route the line that
/// registers its handler.
pub open spec fn item_registration_text(item: TopLevelModel) -> Seq<char> {
    match item {
        TopLevelModel::Route(_) => registration_line(),
        _ => Seq::empty(),
    }
}

/// The registrations of the handlers: one line for each route of the
/// program, in the order of the routes.
pub open spec fn registrations_text(items: Seq<TopLevelModel>) -> Seq<char>
    decreases items.len(),
{
    if items.len() == 0 {
        Seq::empty()
    } else {
        registrations_text(items.drop_last()) + item_registration_text(items.last())
    }
}

/// How many of the items are routes.
pub open spec fn route_count(items: Seq<TopLevelModel>) -> nat
    decreases items.len(),
{
    if items.len() == 0 {
        0
    } else {
        route_count(items.drop_last()) + if items.last() is Route {
            1nat
        } else {
            0nat
        }
    }
}

/// The text `text`, `n` times over.
pub open spec fn repeated(text: Seq<char>, n: nat) -> Seq<char>
    decreases n,
{
    if n == 0 {
        Seq::empty()
    } else {
        repeated(text, (n - 1) as nat) + text
    }
}

/// The end of the entry point that serves the routes, behind the
/// registrations.
pub open spec fn server_tail_text() -> Seq<char> {
    let one = indent_unit();
    line(one, "})"@) + line(one, ".bind(\"127.0.0.1:8080\")?"@) + line(one, ".run()"@) + line(
        one,
        ".await"@,
    ) + line(Seq::empty(), "}"@)
}

/// The entry point that serves the routes of a program: it starts a server,
/// registers the handler of each route and runs.
pub open spec fn server_main_text(items: Seq<TopLevelModel>) -> Seq<char> {
    server_head_text() + registrations_text(items) + server_tail_text()
}

/// The entry point of a program that declares none.
pub open spec fn default_main_text() -> Seq<char> {
    line(Seq::empty(), "fn main() {"@) + line(
        indent_unit(),
        "println!(\"Hello from Krait!\");"@,
    ) + line(Seq::empty(), "}"@)
}

/// The first line of every emitted program.
pub open spec fn header_comment() -> Seq<char> {
    "// Автоматически сгенерировано из Krait"@
}

/// The lines, each on a line of its own.
pub open spec fn lines_text(lines: Seq<Seq<char>>) -> Seq<char>
    decreases lines.len(),
{
    if lines.len() == 0 {
        Seq::empty()
    } else {
        lines_text(lines.drop_last()) + line(Seq::empty(), lines.last())
    }
}

/// The head of a program: the comment, an empty line and the import lines.
pub open spec fn header_text(imports: Seq<Seq<char>>) -> Seq<char> {
    line(Seq::empty(), header_comment()) + "\n"@ + lines_text(imports)
}

/// The name of the library that routes need.
pub open spec fn routing_library() -> Seq<char> {
    "rest"@
}

/// The name of the function that is a program's entry point.
pub open spec fn main_name() -> Seq<char> {
    "main"@
}

/// The library that an item asks for, if it asks for one: an import the
/// library it names, a route the routing library.
pub open spec fn required_by(item: TopLevelModel) -> Option<Seq<char>> {
    match item {
        TopLevelModel::Import { module, from } => Some(from),
        TopLevelModel::Route(_) => Some(routing_library()),
        _ => None,
    }
}

/// The libraries asked for: those in `required`, and behind them those that
/// the items ask for and that are not yet there, each once, in the order of
/// the items.
pub open spec fn required_libraries(required: Seq<Seq<char>>, items: Seq<TopLevelModel>) -> Seq<
    Seq<char>,
>
    decreases items.len(),
{
    if items.len() == 0 {
        required
    } else {
        let before = required_libraries(required, items.drop_last());
        match required_by(items.last()) {
            Some(name) => if before.contains(name) {
                before
            } else {
                before.push(name)
            },
            None => before,
        }
    }
}

/// What an item adds to the functions of a program: the function and an
/// empty line, unless the item is no function or the function is `main`.
pub open spec fn item_function_text(item: TopLevelModel) -> Seq<char> {
    match item {
        TopLevelModel::Function(f) => if f.name == main_name() {
            Seq::empty()
        } else {
            function_text(f) + "\n"@
        },
        _ => Seq::empty(),
    }
}

/// The functions of a program other than `main`, in their order.
pub open spec fn functions_text(items: Seq<TopLevelModel>) -> Seq<char>
    decreases items.len(),
{
    if items.len() == 0 {
        Seq::empty()
    } else {
        functions_text(items.drop_last()) + item_function_text(items.last())
    }
}

/// What an item adds to the handlers of a program: for a route its handler
/// and an empty line.
pub open spec fn item_handler_text(item: TopLevelModel) -> Seq<char> {
    match item {
        TopLevelModel::Route(r) => handler_text(r) + "\n"@,
        _ => Seq::empty(),
    }
}

/// The handlers of the routes of a program, in their order.
pub open spec fn handlers_text(items: Seq<TopLevelModel>) -> Seq<char>
    decreases items.len(),
{
    if items.len() == 0 {
        Seq::empty()
    } else {
        handlers_text(items.drop_last()) + item_handler_text(items.last())
    }
}

/// Whether one of the items is a route.
pub open spec fn has_route(items: Seq<TopLevelModel>) -> bool {
    exists|i: int| 0 <= i < items.len() && items[i] is Route
}

/// A program has a route up to and including index `i` exactly if it has one
/// before `i` or the item at `i` is one.
pub proof fn lemma_has_route_step(items: Seq<TopLevelModel>, i: int)
    requires
        0 <= i < items.len(),
    ensures
        has_route(items.take(i + 1)) == (has_route(items.take(i)) || items[i] is Route),
{
    let shorter = items.take(i);
    let longer = items.take(i + 1);
    if has_route(shorter) {
        let j = choose|j: int| 0 <= j < shorter.len() && shorter[j] is Route;
        assert(longer[j] is Route);
    }
    if items[i] is Route {
        assert(longer[i] is Route);
    }
    if has_route(longer) && !(items[i] is Route) {
        let j = choose|j: int| 0 <= j < longer.len() && longer[j] is Route;
        assert(shorter[j] is Route);
    }
}

/// Whether the item is a function named `main`.
pub open spec fn is_main(item: TopLevelModel) -> bool {
    item matches TopLevelModel::Function(f) && f.name == main_name()
}

/// The first function named `main` among the items, if there is one.
pub open spec fn declared_main(items: Seq<TopLevelModel>) -> Option<FunctionModel>
    decreases items.len(),
{
    if items.len() == 0 {
        None
    } else if is_main(items[0]) {
        Some(items[0]->Function_0)
    } else {
        declared_main(items.drop_first())
    }
}

/// How an emitted program starts to run.
pub enum EntryPoint {
    /// The generated entry point that serves the routes.
    Server,
    /// The `main` that the program declares.
    Declared(FunctionModel),
    /// The generated entry point of a program that has neither.
    Default,
}

/// The entry point of a program: the server where there is a route, else the
/// program's own `main` where it declares one, else the default.
pub open spec fn entry_point(items: Seq<TopLevelModel>) -> EntryPoint {
    if has_route(items) {
        EntryPoint::Server
    } else {
        match declared_main(items) {
            Some(f) => EntryPoint::Declared(f),
            None => EntryPoint::Default,
        }
    }
}

/// The entry point of a program as it is emitted.
pub open spec fn entry_text(items: Seq<TopLevelModel>) -> Seq<char> {
    match entry_point(items) {
        EntryPoint::Server => server_main_text(items),
        EntryPoint::Declared(f) => function_text(f),
        EntryPoint::Default => default_main_text(),
    }
}

/// What stands before the entry point: the head with the given import lines,
/// an empty line, the functions other than `main` and the handlers.
pub open spec fn preamble_text(items: Seq<TopLevelModel>, imports: Seq<Seq<char>>) -> Seq<char> {
    header_text(imports) + "\n"@ + functions_text(items) + handlers_text(items)
}

/// The program emitted for `items`, where the libraries in `required` have
/// been asked for before and `libraries` are those that are known.
pub open spec fn program_text(
    items: Seq<TopLevelModel>,
    required: Seq<Seq<char>>,
    libraries: Map<Seq<char>, LibraryModel>,
) -> Seq<char> {
    preamble_text(items, imports_for(libraries, required_libraries(required, items)))
        + entry_text(items)
}

} // verus!
