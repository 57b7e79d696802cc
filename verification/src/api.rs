//! What a program's routes say about the web application it describes.

use crate::libs::add_missing;
use crate::syntax::models;
use crate::syntax::RouteDef;
use crate::syntax::RouteModel;
use crate::text::contains_text;
use crate::text::decimal;
use crate::text::join;
use crate::text::join_strings;
use crate::text::push_decimal;
use crate::text::same_text;
use crate::text::starts_with;
use crate::text::texts;
use vstd::prelude::*;

verus! {

/// A summary of the routes of a program.
pub struct ApiInfo {
    pub has_routes: bool,
    pub routes_count: usize,
    pub http_methods: Vec<String>,
}

/// The HTTP methods of the routes, one for each route.
pub open spec fn methods_of(routes: Seq<RouteModel>) -> Seq<Seq<char>> {
    routes.map_values(|r: RouteModel| r.method)
}

/// The text that describes a program without routes.
pub open spec fn console_description() -> Seq<char> {
    "Консольное приложение (CLI)"@
}

/// The text that describes a program with `count` routes that use `methods`.
pub open spec fn api_description(count: nat, methods: Seq<Seq<char>>) -> Seq<char> {
    "REST API ("@ + decimal(count) + " маршрутов, методы: "@ + join(methods, ", "@) + ")"@
}

impl Default for ApiInfo {
    fn default() -> (info: ApiInfo)
        ensures
            !info.has_routes,
            info.routes_count == 0,
            info.http_methods@.len() == 0,
    {
        ApiInfo { has_routes: false, routes_count: 0, http_methods: Vec::new() }
    }
}

impl ApiInfo {
    /// The summary of `routes`: whether there is one, how many there are, and
    /// their methods, each once, in the order in which they first occur.
    pub fn from_routes(routes: &[&RouteDef]) -> (info: ApiInfo)
        ensures
            info.has_routes == (routes@.len() > 0),
            info.routes_count == routes@.len(),
            texts(info.http_methods@) == add_missing(Seq::empty(), methods_of(models(routes@))),
    {
        let ghost all = methods_of(models(routes@));
        let mut methods: Vec<String> = Vec::new();
        let mut i: usize = 0;
        proof {
            assert(texts(methods@) =~= Seq::<Seq<char>>::empty());
        }
        while i < routes.len()
            invariant
                i <= routes.len(),
                all == methods_of(models(routes@)),
                texts(methods@) == add_missing(Seq::empty(), all.take(i as int)),
            decreases routes.len() - i,
        {
            proof {
                assert(all.take(i as int + 1).drop_last() =~= all.take(i as int));
                assert(all.take(i as int + 1).last() == routes@[i as int].method@);
            }
            if !contains_text(&methods, routes[i].method.as_str()) {
                let ghost before = texts(methods@);
                methods.push(routes[i].method.clone());
                proof {
                    assert(texts(methods@) =~= before.push(routes@[i as int].method@));
                }
            }
            i += 1;
        }
        proof {
            assert(all.take(i as int) =~= all);
        }
        ApiInfo { has_routes: routes.len() > 0, routes_count: routes.len(), http_methods: methods }
    }

    /// Whether the emitted program needs the web framework: it does where
    /// there are routes.
    pub fn needs_actix(&self) -> (r: bool)
        ensures
            r == self.has_routes,
    {
        self.has_routes
    }

    /// A description of the application in one line.
    pub fn describe(&self) -> (r: String)
        ensures
            r@ == if self.has_routes {
                api_description(self.routes_count as nat, texts(self.http_methods@))
            } else {
                console_description()
            },
    {
        if !self.has_routes {
            String::from_str("Консольное приложение (CLI)")
        } else {
            let mut r = String::from_str("REST API (");
            push_decimal(&mut r, self.routes_count);
            r.append(" маршрутов, методы: ");
            r.append(join_strings(&self.http_methods, ", ").as_str());
            r.append(")");
            r
        }
    }
}

/// Where the web application listens.
pub struct ApiConfig {
    pub host: String,
    pub port: u16,
    pub log_middleware: bool,
}

/// The address made of a host and a port.
pub open spec fn address_text(host: Seq<char>, port: nat) -> Seq<char> {
    host + ":"@ + decimal(port)
}

/// The URL of a host and a port.
pub open spec fn url_text(host: Seq<char>, port: nat) -> Seq<char> {
    "http://"@ + address_text(host, port)
}

/// The lines of emitted code that bind a server to a host and a port and run
/// it.
pub open spec fn bind_text(host: Seq<char>, port: nat) -> Seq<char> {
    "    .bind((\""@ + host + "\".to_string(), "@ + decimal(port) + "))?\n    .run()\n    .await"@
}

impl Default for ApiConfig {
    fn default() -> (config: ApiConfig)
        ensures
            config.host@ == "127.0.0.1"@,
            config.port == 8080,
            config.log_middleware,
    {
        ApiConfig { host: String::from_str("127.0.0.1"), port: 8080, log_middleware: true }
    }
}

impl ApiConfig {
    /// The address of the server: host, a colon, and the port.
    pub fn address(&self) -> (r: String)
        ensures
            r@ == address_text(self.host@, self.port as nat),
    {
        let mut r = self.host.clone();
        r.append(":");
        push_decimal(&mut r, self.port as usize);
        r
    }

    /// The URL of the server.
    pub fn url(&self) -> (r: String)
        ensures
            r@ == url_text(self.host@, self.port as nat),
    {
        let mut r = String::from_str("http://");
        r.append(self.address().as_str());
        r
    }

    /// The emitted code that binds the server and runs it.
    pub fn to_rust_code(&self) -> (r: String)
        ensures
            r@ == bind_text(self.host@, self.port as nat),
    {
        let mut r = String::from_str("    .bind((\"");
        r.append(self.host.as_str());
        r.append("\".to_string(), ");
        push_decimal(&mut r, self.port as usize);
        r.append("))?\n    .run()\n    .await");
        r
    }
}

/// The method and the path of a route, which together name it.
pub open spec fn route_key(r: RouteModel) -> Seq<char> {
    r.method + " "@ + r.path
}

/// Whether an earlier route has the method and the path of the route at `i`.
pub open spec fn repeats_earlier(routes: Seq<RouteModel>, i: int) -> bool {
    exists|j: int| 0 <= j < i && route_key(#[trigger] routes[j]) == route_key(routes[i])
}

/// What is wrong with the route at `i`, if anything: it repeats an earlier
/// route, or else its path does not start with `/`.
pub open spec fn route_fault(routes: Seq<RouteModel>, i: int) -> Option<Seq<char>> {
    if repeats_earlier(routes, i) {
        Some("Дублированный маршрут: "@ + route_key(routes[i]))
    } else if !(routes[i].path.len() > 0 && routes[i].path[0] == '/') {
        Some("Путь должен начинаться с '/': "@ + routes[i].path)
    } else {
        None
    }
}

/// The fault of the first faulty route from index `from` on.
pub open spec fn first_fault(routes: Seq<RouteModel>, from: int) -> Option<Seq<char>>
    decreases routes.len() - from,
{
    if from < 0 || from >= routes.len() {
        None
    } else {
        match route_fault(routes, from) {
            Some(m) => Some(m),
            None => first_fault(routes, from + 1),
        }
    }
}

/// Checks that no two routes have the same method and path and that every
/// path starts with `/`. Fails with the fault of the first route that has
/// one.
pub fn validate_routes(routes: &[&RouteDef]) -> (r: Result<(), String>)
    ensures
        match first_fault(models(routes@), 0) {
            Some(m) => r is Err && r->Err_0@ == m,
            None => r is Ok,
        },
{
    let ghost view = models(routes@);
    let mut keys: Vec<String> = Vec::new();
    let mut i: usize = 0;
    while i < routes.len()
        invariant
            i <= routes.len(),
            view == models(routes@),
            keys@.len() == i,
            forall|j: int| 0 <= j < i ==> #[trigger] keys@[j]@ == route_key(view[j]),
            first_fault(view, 0) == first_fault(view, i as int),
        decreases routes.len() - i,
    {
        let mut key = routes[i].method.clone();
        key.append(" ");
        key.append(routes[i].path.as_str());
        let repeated = contains_text(&keys, key.as_str());
        proof {
            assert(key@ == route_key(view[i as int]));
            if repeated {
                let j = choose|j: int| 0 <= j < texts(keys@).len() && texts(keys@)[j] == key@;
                assert(keys@[j]@ == route_key(view[j]));
                assert(repeats_earlier(view, i as int));
            }
            if repeats_earlier(view, i as int) {
                let j = choose|j: int|
                    0 <= j < i && route_key(#[trigger] view[j]) == route_key(view[i as int]);
                assert(texts(keys@)[j] == key@);
            }
        }
        if repeated {
            let mut message = String::from_str("Дублированный маршрут: ");
            message.append(key.as_str());
            return Err(message);
        }
        keys.push(key);
        if !starts_with(routes[i].path.as_str(), '/') {
            let mut message = String::from_str("Путь должен начинаться с '/': ");
            message.append(routes[i].path.as_str());
            return Err(message);
        }
        i += 1;
    }
    Ok(())
}

/// How often `x` occurs among `items`.
pub open spec fn occurrences(items: Seq<Seq<char>>, x: Seq<char>) -> nat
    decreases items.len(),
{
    if items.len() == 0 {
        0
    } else {
        occurrences(items.drop_last(), x) + if items.last() == x {
            1nat
        } else {
            0nat
        }
    }
}

/// The line that says how many routes use a method.
pub open spec fn method_line(method: Seq<char>, count: nat) -> Seq<char> {
    "   ├─ "@ + method + ": "@ + decimal(count)
}

/// The lines that say, for each of `distinct`, how often it occurs in `all`.
pub open spec fn method_lines(distinct: Seq<Seq<char>>, all: Seq<Seq<char>>) -> Seq<Seq<char>> {
    distinct.map_values(|m: Seq<char>| method_line(m, occurrences(all, m)))
}

/// The statistics of routes with the given methods, line by line: how many
/// routes there are, how many of each method in the order in which the
/// methods first occur, and where the server listens.
pub open spec fn stats_lines(methods: Seq<Seq<char>>) -> Seq<Seq<char>> {
    if methods.len() == 0 {
        seq!["📊 API статистика: нет маршрутов"@]
    } else {
        seq!["📊 API статистика:"@, "   ├─ Всего маршрутов: "@ + decimal(methods.len())]
            + method_lines(add_missing(Seq::empty(), methods), methods) + seq![
            "   └─ Хост: http://127.0.0.1:8080"@,
        ]
    }
}

/// How many of the routes use `method`.
pub fn count_method(routes: &[&RouteDef], method: &str) -> (n: usize)
    ensures
        n == occurrences(methods_of(models(routes@)), method@),
{
    let ghost all = methods_of(models(routes@));
    let mut n: usize = 0;
    let mut i: usize = 0;
    while i < routes.len()
        invariant
            i <= routes.len(),
            all == methods_of(models(routes@)),
            n == occurrences(all.take(i as int), method@),
            n <= i,
        decreases routes.len() - i,
    {
        proof {
            assert(all.take(i as int + 1).drop_last() =~= all.take(i as int));
            assert(all.take(i as int + 1).last() == routes@[i as int].method@);
        }
        if same_text(routes[i].method.as_str(), method) {
            n += 1;
        }
        i += 1;
    }
    proof {
        assert(all.take(i as int) =~= all);
    }
    n
}

/// The statistics of the routes, line by line.
pub fn api_stats(routes: &[&RouteDef]) -> (lines: Vec<String>)
    ensures
        texts(lines@) == stats_lines(methods_of(models(routes@))),
{
    let ghost all = methods_of(models(routes@));
    let mut lines: Vec<String> = Vec::new();
    if routes.len() == 0 {
        lines.push(String::from_str("📊 API статистика: нет маршрутов"));
        proof {
            assert(texts(lines@) =~= seq!["📊 API статистика: нет маршрутов"@]);
        }
        return lines;
    }
    lines.push(String::from_str("📊 API статистика:"));
    let mut total = String::from_str("   ├─ Всего маршрутов: ");
    push_decimal(&mut total, routes.len());
    lines.push(total);
    let ghost head = texts(lines@);
    proof {
        assert(head =~= seq![
            "📊 API статистика:"@,
            "   ├─ Всего маршрутов: "@ + decimal(all.len()),
        ]);
    }
    let info = ApiInfo::from_routes(routes);
    let ghost distinct = texts(info.http_methods@);
    let mut i: usize = 0;
    while i < info.http_methods.len()
        invariant
            i <= info.http_methods.len(),
            all == methods_of(models(routes@)),
            distinct == texts(info.http_methods@),
            texts(lines@) == head + method_lines(distinct, all).take(i as int),
        decreases info.http_methods.len() - i,
    {
        let count: usize = count_method(routes, info.http_methods[i].as_str());
        let mut line = String::from_str("   ├─ ");
        line.append(info.http_methods[i].as_str());
        line.append(": ");
        push_decimal(&mut line, count);
        let ghost before = texts(lines@);
        lines.push(line);
        proof {
            assert(texts(lines@) =~= before.push(line@));
            assert(line@ == method_lines(distinct, all)[i as int]);
            assert(texts(lines@) =~= head + method_lines(distinct, all).take(i as int + 1));
        }
        i += 1;
    }
    let ghost before = texts(lines@);
    lines.push(String::from_str("   └─ Хост: http://127.0.0.1:8080"));
    proof {
        assert(method_lines(distinct, all).take(i as int) =~= method_lines(distinct, all));
        assert(texts(lines@) =~= before.push("   └─ Хост: http://127.0.0.1:8080"@));
        assert(texts(lines@) =~= stats_lines(all));
    }
    lines
}

} // verus!
