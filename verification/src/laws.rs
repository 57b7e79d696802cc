//! Laws of the registry and of emitted programs.

use crate::emit::declared_main;
use crate::emit::entry_point;
use crate::emit::entry_text;
use crate::emit::has_route;
use crate::emit::is_main;
use crate::emit::item_function_text;
use crate::emit::preamble_text;
use crate::emit::program_text;
use crate::emit::registration_line;
use crate::emit::registrations_text;
use crate::emit::repeated;
use crate::emit::required_libraries;
use crate::emit::route_count;
use crate::emit::routing_library;
use crate::emit::server_head_text;
use crate::emit::server_main_text;
use crate::emit::server_tail_text;
use crate::emit::EntryPoint;
use crate::libs::add_missing;
use crate::libs::default_libraries;
use crate::libs::imports_for;
use crate::libs::LibraryModel;
use crate::syntax::TopLevelModel;
use vstd::prelude::*;

verus! {

/// Adding the missing ones of `items` to `acc` keeps `acc` as the start of
/// the result, so that what was in `acc` is still there.
pub proof fn lemma_add_missing_keeps(acc: Seq<Seq<char>>, items: Seq<Seq<char>>, x: Seq<char>)
    requires
        acc.contains(x),
    ensures
        add_missing(acc, items).contains(x),
    decreases items.len(),
{
    if items.len() > 0 {
        lemma_add_missing_keeps(acc, items.drop_last(), x);
        let before = add_missing(acc, items.drop_last());
        if !before.contains(items.last()) {
            let i = choose|i: int| 0 <= i < before.len() && before[i] == x;
            assert(before.push(items.last())[i] == x);
        }
    }
}

/// After adding the missing ones of `items`, every one of `items` is there.
pub proof fn lemma_add_missing_adds(acc: Seq<Seq<char>>, items: Seq<Seq<char>>, i: int)
    requires
        0 <= i < items.len(),
    ensures
        add_missing(acc, items).contains(items[i]),
    decreases items.len(),
{
    let before = add_missing(acc, items.drop_last());
    if i == items.len() - 1 {
        if !before.contains(items.last()) {
            assert(before.push(items.last())[before.len() as int] == items.last());
        }
    } else {
        lemma_add_missing_adds(acc, items.drop_last(), i);
        assert(items.drop_last()[i] == items[i]);
        if !before.contains(items.last()) {
            let j = choose|j: int| 0 <= j < before.len() && before[j] == items[i];
            assert(before.push(items.last())[j] == items[i]);
        }
    }
}

/// Where every one of `items` is in `acc` already, nothing is added.
pub proof fn lemma_add_missing_nothing(acc: Seq<Seq<char>>, items: Seq<Seq<char>>)
    requires
        forall|i: int| 0 <= i < items.len() ==> acc.contains(#[trigger] items[i]),
    ensures
        add_missing(acc, items) == acc,
    decreases items.len(),
{
    if items.len() > 0 {
        assert forall|i: int| 0 <= i < items.drop_last().len() implies acc.contains(
            #[trigger] items.drop_last()[i],
        ) by {
            assert(items.drop_last()[i] == items[i]);
        }
        lemma_add_missing_nothing(acc, items.drop_last());
        assert(acc.contains(items[items.len() - 1]));
    }
}

/// The import lines of a library that was asked for by name are among the
/// import lines of all the names.
pub proof fn lemma_imports_of_requested(
    libraries: Map<Seq<char>, LibraryModel>,
    names: Seq<Seq<char>>,
    i: int,
    j: int,
)
    requires
        0 <= i < names.len(),
        libraries.contains_key(names[i]),
        0 <= j < libraries[names[i]].imports.len(),
    ensures
        imports_for(libraries, names).contains(libraries[names[i]].imports[j]),
    decreases names.len(),
{
    let before = imports_for(libraries, names.drop_last());
    if i == names.len() - 1 {
        lemma_add_missing_adds(before, libraries[names[i]].imports, j);
    } else {
        assert(names.drop_last()[i] == names[i]);
        lemma_imports_of_requested(libraries, names.drop_last(), i, j);
        if libraries.contains_key(names.last()) {
            lemma_add_missing_keeps(
                before,
                libraries[names.last()].imports,
                libraries[names[i]].imports[j],
            );
        }
    }
}

/// Asking once more for a library that was asked for already changes
/// nothing: the import lines stay the same, in the same order.
pub proof fn lemma_imports_idempotent(
    libraries: Map<Seq<char>, LibraryModel>,
    names: Seq<Seq<char>>,
    name: Seq<char>,
)
    requires
        names.contains(name),
    ensures
        imports_for(libraries, names.push(name)) == imports_for(libraries, names),
{
    let longer = names.push(name);
    assert(longer.drop_last() =~= names);
    assert(longer.last() == name);
    if libraries.contains_key(name) {
        let i = choose|i: int| 0 <= i < names.len() && names[i] == name;
        let lines = libraries[name].imports;
        assert forall|j: int| 0 <= j < lines.len() implies imports_for(libraries, names).contains(
            #[trigger] lines[j],
        ) by {
            lemma_imports_of_requested(libraries, names, i, j);
        }
        lemma_add_missing_nothing(imports_for(libraries, names), lines);
    }
}

/// Asking for the same library twice gives the import lines of asking for
/// it once.
pub proof fn lemma_imports_twice(libraries: Map<Seq<char>, LibraryModel>, name: Seq<char>)
    ensures
        imports_for(libraries, seq![name, name]) == imports_for(libraries, seq![name]),
{
    assert(seq![name][0] == name);
    assert(seq![name].push(name) =~= seq![name, name]);
    lemma_imports_idempotent(libraries, seq![name], name);
}

/// A program with a route asks for the routing library, whether or not it
/// imports it.
pub proof fn lemma_route_requires_routing(required: Seq<Seq<char>>, items: Seq<TopLevelModel>)
    requires
        has_route(items),
    ensures
        required_libraries(required, items).contains(routing_library()),
    decreases items.len(),
{
    let before = required_libraries(required, items.drop_last());
    if items.last() is Route {
        if !before.contains(routing_library()) {
            assert(before.push(routing_library())[before.len() as int] == routing_library());
        }
    } else {
        let i = choose|i: int| 0 <= i < items.len() && items[i] is Route;
        assert(items.drop_last()[i] is Route);
        lemma_route_requires_routing(required, items.drop_last());
        let j = choose|j: int| 0 <= j < before.len() && before[j] == routing_library();
        match crate::emit::required_by(items.last()) {
            Some(other) => {
                if !before.contains(other) {
                    assert(before.push(other)[j] == routing_library());
                }
            },
            None => {},
        }
    }
}

/// The import line of the routing library.
pub open spec fn routing_import() -> Seq<char> {
    "use actix_web::{get, post, put, delete, App, HttpServer, HttpResponse, web};"@
}

/// A new registry holds the routing library, with its one import line.
pub proof fn lemma_default_routing_library()
    ensures
        default_libraries().contains_key(routing_library()),
        default_libraries()[routing_library()].imports == seq![routing_import()],
{
    reveal_strlit("rest");
    reveal_strlit("json");
    reveal_strlit("sqlx");
    reveal_strlit("mongodb");
    reveal_strlit("tokio");
    reveal_strlit("log");
    reveal_strlit("serde");
    assert("rest"@[0] == 'r');
    assert("json"@[0] == 'j');
    assert("sqlx"@[0] == 's');
    assert("mongodb"@[0] == 'm');
    assert("tokio"@[0] == 't');
    assert("log"@[0] == 'l');
    assert("serde"@[0] == 's');
}

/// The program emitted for items with a route imports what the routing
/// library needs, whatever the items import themselves and whatever was
/// asked for before.
pub proof fn lemma_route_implies_routing_import(
    required: Seq<Seq<char>>,
    items: Seq<TopLevelModel>,
)
    requires
        has_route(items),
    ensures
        imports_for(default_libraries(), required_libraries(required, items)).contains(
            routing_import(),
        ),
{
    lemma_route_requires_routing(required, items);
    lemma_default_routing_library();
    let names = required_libraries(required, items);
    let i = choose|i: int| 0 <= i < names.len() && names[i] == routing_library();
    lemma_imports_of_requested(default_libraries(), names, i, 0);
}

/// A program declares a `main` exactly if one of its items is a function of
/// that name, and the one it declares is such an item.
pub proof fn lemma_declared_main(items: Seq<TopLevelModel>)
    ensures
        declared_main(items) is Some <==> exists|i: int| 0 <= i < items.len() && is_main(items[i]),
        declared_main(items) matches Some(f) ==> exists|i: int|
            0 <= i < items.len() && is_main(items[i]) && items[i] == TopLevelModel::Function(f),
    decreases items.len(),
{
    if items.len() > 0 {
        if is_main(items[0]) {
        } else {
            let rest = items.drop_first();
            lemma_declared_main(rest);
            if declared_main(rest) is Some {
                let f = declared_main(rest)->0;
                let i = choose|i: int|
                    0 <= i < rest.len() && is_main(rest[i]) && rest[i] == TopLevelModel::Function(
                        f,
                    );
                assert(is_main(items[i + 1]) && items[i + 1] == TopLevelModel::Function(f));
            }
            if exists|i: int| 0 <= i < items.len() && is_main(items[i]) {
                let i = choose|i: int| 0 <= i < items.len() && is_main(items[i]);
                assert(is_main(rest[i - 1]));
            }
        }
    }
}

/// Every emitted program has exactly one entry point behind its preamble:
/// the server where the program has a route, else the `main` that the
/// program declares, else the default. A function named `main` adds nothing
/// to the preamble, so none stands there.
pub proof fn lemma_one_entry_point(
    items: Seq<TopLevelModel>,
    required: Seq<Seq<char>>,
    libraries: Map<Seq<char>, LibraryModel>,
)
    ensures
        program_text(items, required, libraries) == preamble_text(
            items,
            imports_for(libraries, required_libraries(required, items)),
        ) + entry_text(items),
        has_route(items) ==> entry_point(items) is Server,
        !has_route(items) && (exists|i: int| 0 <= i < items.len() && is_main(items[i]))
            ==> entry_point(items) is Declared,
        !has_route(items) && !(exists|i: int| 0 <= i < items.len() && is_main(items[i]))
            ==> entry_point(items) is Default,
        entry_point(items) matches EntryPoint::Declared(f) ==> exists|i: int|
            0 <= i < items.len() && is_main(items[i]) && items[i] == TopLevelModel::Function(f),
        forall|i: int|
            0 <= i < items.len() && is_main(items[i]) ==> #[trigger] item_function_text(items[i])
                == Seq::<char>::empty(),
{
    lemma_declared_main(items);
}

/// The server's entry point registers each route's handler: it holds as
/// many registration lines as the program has routes, and nothing else
/// between its start and its end.
pub proof fn lemma_each_route_is_registered(items: Seq<TopLevelModel>)
    ensures
        registrations_text(items) == repeated(registration_line(), route_count(items)),
        server_main_text(items) == server_head_text() + repeated(
            registration_line(),
            route_count(items),
        ) + server_tail_text(),
        has_route(items) <==> route_count(items) > 0,
        has_route(items) ==> entry_text(items) == server_main_text(items),
    decreases items.len(),
{
    if items.len() > 0 {
        let shorter = items.drop_last();
        lemma_each_route_is_registered(shorter);
        assert(items.take(items.len() - 1) =~= shorter);
        assert(items.take(items.len() as int) =~= items);
        crate::emit::lemma_has_route_step(items, items.len() - 1);
        if !(items.last() is Route) {
            assert(registrations_text(items) =~= registrations_text(shorter));
        }
    }
}

/// Adding the missing ones of `items` to a sequence in which nothing stands
/// twice gives a sequence in which nothing stands twice.
pub proof fn lemma_add_missing_distinct(acc: Seq<Seq<char>>, items: Seq<Seq<char>>)
    requires
        acc.no_duplicates(),
    ensures
        add_missing(acc, items).no_duplicates(),
    decreases items.len(),
{
    if items.len() > 0 {
        lemma_add_missing_distinct(acc, items.drop_last());
    }
}

/// The import lines are deduplicated: no line stands twice among the import
/// lines of any names.
pub proof fn lemma_imports_distinct(libraries: Map<Seq<char>, LibraryModel>, names: Seq<Seq<char>>)
    ensures
        imports_for(libraries, names).no_duplicates(),
    decreases names.len(),
{
    if names.len() > 0 {
        lemma_imports_distinct(libraries, names.drop_last());
        if libraries.contains_key(names.last()) {
            lemma_add_missing_distinct(
                imports_for(libraries, names.drop_last()),
                libraries[names.last()].imports,
            );
        }
    }
}

/// What stands in a sequence after the missing ones of `items` were added
/// stood there before or is one of `items`.
pub proof fn lemma_add_missing_origin(acc: Seq<Seq<char>>, items: Seq<Seq<char>>, x: Seq<char>)
    requires
        add_missing(acc, items).contains(x),
    ensures
        acc.contains(x) || items.contains(x),
    decreases items.len(),
{
    if items.len() > 0 {
        let before = add_missing(acc, items.drop_last());
        if before.contains(x) {
            lemma_add_missing_origin(acc, items.drop_last(), x);
            if items.drop_last().contains(x) {
                let i = choose|i: int| 0 <= i < items.drop_last().len() && items.drop_last()[i] == x;
                assert(items[i] == x);
            }
        } else {
            let k = choose|k: int|
                0 <= k < add_missing(acc, items).len() && add_missing(acc, items)[k] == x;
            assert(before.push(items.last())[k] == x);
            assert(x == items.last());
            assert(items[items.len() - 1] == x);
        }
    }
}

/// Whether `line` is an import line of a library that the registry holds
/// under one of `names`.
pub open spec fn is_requested_import(
    libraries: Map<Seq<char>, LibraryModel>,
    names: Seq<Seq<char>>,
    line: Seq<char>,
) -> bool {
    exists|i: int|
        0 <= i < names.len() && libraries.contains_key(#[trigger] names[i])
            && libraries[names[i]].imports.contains(line)
}

/// Every import line belongs to a library that was asked for: nothing comes
/// from a name that was not asked for or that the registry does not hold.
pub proof fn lemma_imports_belong(
    libraries: Map<Seq<char>, LibraryModel>,
    names: Seq<Seq<char>>,
    line: Seq<char>,
)
    requires
        imports_for(libraries, names).contains(line),
    ensures
        is_requested_import(libraries, names, line),
    decreases names.len(),
{
    if names.len() > 0 {
        let shorter = names.drop_last();
        let before = imports_for(libraries, shorter);
        if libraries.contains_key(names.last()) {
            lemma_add_missing_origin(before, libraries[names.last()].imports, line);
        }
        if before.contains(line) {
            lemma_imports_belong(libraries, shorter, line);
            let i = choose|i: int|
                0 <= i < shorter.len() && libraries.contains_key(#[trigger] shorter[i])
                    && libraries[shorter[i]].imports.contains(line);
            assert(names[i] == shorter[i]);
        } else {
            assert(libraries.contains_key(names[names.len() - 1]));
        }
    }
}

/// The import lines are exactly those of the libraries asked for: a line is
/// among them if and only if it is an import line of a library that the
/// registry holds under one of the names.
pub proof fn lemma_imports_are_the_requested(
    libraries: Map<Seq<char>, LibraryModel>,
    names: Seq<Seq<char>>,
    line: Seq<char>,
)
    ensures
        imports_for(libraries, names).contains(line) <==> is_requested_import(
            libraries,
            names,
            line,
        ),
{
    if imports_for(libraries, names).contains(line) {
        lemma_imports_belong(libraries, names, line);
    }
    if is_requested_import(libraries, names, line) {
        let i = choose|i: int|
            0 <= i < names.len() && libraries.contains_key(#[trigger] names[i])
                && libraries[names[i]].imports.contains(line);
        let lines = libraries[names[i]].imports;
        let j = choose|j: int| 0 <= j < lines.len() && lines[j] == line;
        lemma_imports_of_requested(libraries, names, i, j);
    }
}

} // verus!
