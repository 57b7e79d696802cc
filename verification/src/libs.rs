//! The library registry: which import lines a named capability brings into
//! emitted code.

use crate::text::contains_text;
use crate::text::same_text;
use crate::text::texts;
use vstd::prelude::*;

verus! {

/// A capability of emitted code: a display name, the crate that provides it,
/// the import lines it needs and the features it stands for.
#[derive(Debug, Clone)]
pub struct Library {
    pub name: String,
    pub crate_name: String,
    pub imports: Vec<String>,
    pub features: Vec<String>,
}

/// The mathematical value of a [`Library`].
pub struct LibraryModel {
    pub name: Seq<char>,
    pub crate_name: Seq<char>,
    pub imports: Seq<Seq<char>>,
    pub features: Seq<Seq<char>>,
}

impl View for Library {
    type V = LibraryModel;

    open spec fn view(&self) -> LibraryModel {
        LibraryModel {
            name: self.name@,
            crate_name: self.crate_name@,
            imports: texts(self.imports@),
            features: texts(self.features@),
        }
    }
}

/// `acc` followed by those of `items` that are not yet in it, each once, in
/// the order of `items`.
pub open spec fn add_missing(acc: Seq<Seq<char>>, items: Seq<Seq<char>>) -> Seq<Seq<char>>
    decreases items.len(),
{
    if items.len() == 0 {
        acc
    } else {
        let before = add_missing(acc, items.drop_last());
        if before.contains(items.last()) {
            before
        } else {
            before.push(items.last())
        }
    }
}

/// The import lines of the libraries named by `names`: each line once, in the
/// order in which it is first asked for. A name that the registry does not
/// hold adds nothing.
pub open spec fn imports_for(
    libraries: Map<Seq<char>, LibraryModel>,
    names: Seq<Seq<char>>,
) -> Seq<Seq<char>>
    decreases names.len(),
{
    if names.len() == 0 {
        Seq::empty()
    } else {
        let before = imports_for(libraries, names.drop_last());
        if libraries.contains_key(names.last()) {
            add_missing(before, libraries[names.last()].imports)
        } else {
            before
        }
    }
}

/// The library with one import line and the given features.
pub open spec fn library_of(
    name: Seq<char>,
    crate_name: Seq<char>,
    import: Seq<char>,
    features: Seq<Seq<char>>,
) -> LibraryModel {
    LibraryModel { name, crate_name, imports: seq![import], features }
}

/// The libraries that a new registry holds.
pub open spec fn default_libraries() -> Map<Seq<char>, LibraryModel> {
    Map::<Seq<char>, LibraryModel>::empty().insert(
        "rest"@,
        library_of(
            "REST API (Actix)"@,
            "actix-web"@,
            "use actix_web::{get, post, put, delete, App, HttpServer, HttpResponse, web};"@,
            seq!["routing"@, "json"@],
        ),
    ).insert(
        "json"@,
        library_of("JSON"@, "serde_json"@, "use serde_json::{json, Value};"@, seq!["serialization"@]),
    ).insert(
        "sqlx"@,
        library_of(
            "SQLx (SQL Database)"@,
            "sqlx"@,
            "use sqlx::{PgPool, Row};"@,
            seq!["async-runtime"@],
        ),
    ).insert(
        "mongodb"@,
        library_of("MongoDB"@, "mongodb"@, "use mongodb::Client;"@, seq!["async-runtime"@]),
    ).insert(
        "tokio"@,
        library_of("Tokio (Async Runtime)"@, "tokio"@, "use tokio::task;"@, seq!["async-runtime"@]),
    ).insert(
        "log"@,
        library_of("Log"@, "log"@, "use log::{info, warn, error};"@, seq!["logging"@]),
    ).insert(
        "serde"@,
        library_of(
            "Serde"@,
            "serde"@,
            "use serde::{Deserialize, Serialize};"@,
            seq!["serialization"@],
        ),
    )
}

/// A library built from its parts.
fn library(name: &str, crate_name: &str, import: &str, first: &str, second: Option<&str>) -> (r:
    Library)
    ensures
        r@ == library_of(
            name@,
            crate_name@,
            import@,
            match second {
                Some(s) => seq![first@, s@],
                None => seq![first@],
            },
        ),
{
    let mut imports: Vec<String> = Vec::new();
    imports.push(String::from_str(import));
    let mut features: Vec<String> = Vec::new();
    features.push(String::from_str(first));
    match second {
        Some(s) => {
            features.push(String::from_str(s));
        },
        None => {},
    }
    let r = Library {
        name: String::from_str(name),
        crate_name: String::from_str(crate_name),
        imports,
        features,
    };
    proof {
        assert(r@.imports =~= seq![import@]);
        match second {
            Some(s) => {
                assert(r@.features =~= seq![first@, s@]);
            },
            None => {
                assert(r@.features =~= seq![first@]);
            },
        }
    }
    r
}

/// The registry: libraries by name, each name once.
pub struct LibraryRegistry {
    names: Vec<String>,
    libraries: Vec<Library>,
}

impl View for LibraryRegistry {
    type V = Map<Seq<char>, LibraryModel>;

    closed spec fn view(&self) -> Map<Seq<char>, LibraryModel> {
        Map::new(
            |k: Seq<char>| exists|i: int| 0 <= i < self.names.len() && self.names@[i]@ == k,
            |k: Seq<char>| self.libraries@[self.index_of(k)]@,
        )
    }
}

impl LibraryRegistry {
    /// An index at which the name `k` stands.
    spec fn index_of(&self, k: Seq<char>) -> int {
        choose|i: int| 0 <= i < self.names.len() && self.names@[i]@ == k
    }

    /// Every name has its library, and no name stands twice.
    pub closed spec fn wf(&self) -> bool {
        &&& self.names.len() == self.libraries.len()
        &&& forall|i: int, j: int|
            0 <= i < j < self.names.len() ==> self.names@[i]@ != self.names@[j]@
    }

    /// The library at index `i` is the one the registry holds under the name
    /// at index `i`.
    proof fn lemma_entry(&self, i: int)
        requires
            self.wf(),
            0 <= i < self.names.len(),
        ensures
            self@.contains_key(self.names@[i]@),
            self@[self.names@[i]@] == self.libraries@[i]@,
    {
        let k = self.names@[i]@;
        let j = self.index_of(k);
        assert(0 <= j < self.names.len() && self.names@[j]@ == k);
        if i < j {
            assert(self.names@[i]@ != self.names@[j]@);
        } else if j < i {
            assert(self.names@[j]@ != self.names@[i]@);
        }
    }

    /// A registry with no library in it.
    fn empty() -> (r: LibraryRegistry)
        ensures
            r.wf(),
            r@ == Map::<Seq<char>, LibraryModel>::empty(),
    {
        let r = LibraryRegistry { names: Vec::new(), libraries: Vec::new() };
        assert(r@ =~= Map::<Seq<char>, LibraryModel>::empty());
        r
    }

    /// The registry of the libraries that emitted code can ask for.
    pub fn new() -> (r: LibraryRegistry)
        ensures
            r.wf(),
            r@ == default_libraries(),
    {
        let mut r = LibraryRegistry::empty();
        r.add_library(
            String::from_str("rest"),
            library(
                "REST API (Actix)",
                "actix-web",
                "use actix_web::{get, post, put, delete, App, HttpServer, HttpResponse, web};",
                "routing",
                Some("json"),
            ),
        );
        r.add_library(
            String::from_str("json"),
            library("JSON", "serde_json", "use serde_json::{json, Value};", "serialization", None),
        );
        r.add_library(
            String::from_str("sqlx"),
            library("SQLx (SQL Database)", "sqlx", "use sqlx::{PgPool, Row};", "async-runtime", None),
        );
        r.add_library(
            String::from_str("mongodb"),
            library("MongoDB", "mongodb", "use mongodb::Client;", "async-runtime", None),
        );
        r.add_library(
            String::from_str("tokio"),
            library("Tokio (Async Runtime)", "tokio", "use tokio::task;", "async-runtime", None),
        );
        r.add_library(
            String::from_str("log"),
            library("Log", "log", "use log::{info, warn, error};", "logging", None),
        );
        r.add_library(
            String::from_str("serde"),
            library("Serde", "serde", "use serde::{Deserialize, Serialize};", "serialization", None),
        );
        r
    }

    /// The index of `name` among the names, if it is there.
    fn find(&self, name: &str) -> (r: Option<usize>)
        requires
            self.wf(),
        ensures
            match r {
                Some(i) => i < self.names.len() && self.names@[i as int]@ == name@,
                None => !self@.contains_key(name@),
            },
    {
        let mut i: usize = 0;
        while i < self.names.len()
            invariant
                i <= self.names.len(),
                forall|j: int| 0 <= j < i ==> self.names@[j]@ != name@,
            decreases self.names.len() - i,
        {
            if same_text(self.names[i].as_str(), name) {
                return Some(i);
            }
            i += 1;
        }
        None
    }

    /// The library held under `name`, if there is one.
    pub fn get(&self, name: &str) -> (r: Option<&Library>)
        requires
            self.wf(),
        ensures
            match r {
                Some(library) => self@.contains_key(name@) && library@ == self@[name@],
                None => !self@.contains_key(name@),
            },
    {
        match self.find(name) {
            Some(i) => {
                proof {
                    self.lemma_entry(i as int);
                }
                Some(&self.libraries[i])
            },
            None => None,
        }
    }

    /// Puts `library` under `name`, in place of what was held under that name
    /// before.
    pub fn add_library(&mut self, name: String, library: Library)
        requires
            old(self).wf(),
        ensures
            final(self).wf(),
            final(self)@ == old(self)@.insert(name@, library@),
    {
        let ghost before = *self;
        match self.find(name.as_str()) {
            Some(i) => {
                self.libraries.set(i, library);
                proof {
                    let after = *self;
                    assert forall|k: Seq<char>| #[trigger]
                        after@.contains_key(k) == before@.insert(name@, library@).contains_key(
                            k,
                        ) by {
                        before.lemma_entry(i as int);
                    }
                    assert forall|k: Seq<char>| #[trigger] after@.contains_key(k) implies after@[k]
                        == before@.insert(name@, library@)[k] by {
                        let j = after.index_of(k);
                        after.lemma_entry(j);
                        before.lemma_entry(j);
                        after.lemma_entry(i as int);
                    }
                    assert(after@ =~= before@.insert(name@, library@));
                }
            },
            None => {
                self.names.push(name);
                self.libraries.push(library);
                proof {
                    let after = *self;
                    let n = before.names.len() as int;
                    assert(after.wf()) by {
                        assert forall|i: int, j: int| 0 <= i < j < after.names.len() implies after.names@[i]@
                            != after.names@[j]@ by {
                            if j == n {
                                assert(before.names@[i]@ == after.names@[i]@);
                                assert(before@.contains_key(before.names@[i]@));
                            }
                        }
                    }
                    assert forall|k: Seq<char>| #[trigger]
                        after@.contains_key(k) == before@.insert(name@, library@).contains_key(
                            k,
                        ) by {
                        if before@.contains_key(k) {
                            let j = before.index_of(k);
                            assert(after.names@[j]@ == k);
                        }
                        if k == name@ {
                            assert(after.names@[n]@ == k);
                        }
                    }
                    assert forall|k: Seq<char>| #[trigger] after@.contains_key(k) implies after@[k]
                        == before@.insert(name@, library@)[k] by {
                        let j = after.index_of(k);
                        after.lemma_entry(j);
                        if j < n {
                            before.lemma_entry(j);
                        }
                    }
                    assert(after@ =~= before@.insert(name@, library@));
                }
            },
        }
    }

    /// The names under which libraries are held, each once.
    pub fn list(&self) -> (r: Vec<&String>)
        requires
            self.wf(),
        ensures
            forall|k: Seq<char>|
                self@.contains_key(k) <==> exists|i: int| 0 <= i < r@.len() && r@[i]@ == k,
            forall|i: int, j: int| 0 <= i < j < r@.len() ==> r@[i]@ != r@[j]@,
    {
        let mut r: Vec<&String> = Vec::new();
        let mut i: usize = 0;
        while i < self.names.len()
            invariant
                i <= self.names.len(),
                r@.len() == i,
                forall|j: int| 0 <= j < i ==> r@[j]@ == self.names@[j]@,
            decreases self.names.len() - i,
        {
            r.push(&self.names[i]);
            i += 1;
        }
        proof {
            assert forall|k: Seq<char>|
                self@.contains_key(k) <==> exists|i: int| 0 <= i < r@.len() && r@[i]@ == k by {
                if self@.contains_key(k) {
                    let j = self.index_of(k);
                    assert(r@[j]@ == k);
                }
                if exists|i: int| 0 <= i < r@.len() && r@[i]@ == k {
                    let j = choose|i: int| 0 <= i < r@.len() && r@[i]@ == k;
                    assert(self.names@[j]@ == k);
                }
            }
        }
        r
    }

    /// The import lines of the libraries named by `names`, each line once, in
    /// the order in which it is first asked for.
    pub fn get_imports(&self, names: &[String]) -> (r: Vec<String>)
        requires
            self.wf(),
        ensures
            texts(r@) == imports_for(self@, texts(names@)),
    {
        let mut imports: Vec<String> = Vec::new();
        let mut i: usize = 0;
        while i < names.len()
            invariant
                self.wf(),
                i <= names.len(),
                texts(imports@) == imports_for(self@, texts(names@).take(i as int)),
            decreases names.len() - i,
        {
            proof {
                let t = texts(names@);
                assert(t.take(i as int + 1).drop_last() =~= t.take(i as int));
                assert(t.take(i as int + 1).last() == names@[i as int]@);
            }
            match self.get(names[i].as_str()) {
                Some(library) => {
                    let ghost before = texts(imports@);
                    let ghost lines = texts(library.imports@);
                    let mut j: usize = 0;
                    while j < library.imports.len()
                        invariant
                            j <= library.imports.len(),
                            lines == texts(library.imports@),
                            texts(imports@) == add_missing(before, lines.take(j as int)),
                        decreases library.imports.len() - j,
                    {
                        proof {
                            assert(lines.take(j as int + 1).drop_last() =~= lines.take(j as int));
                            assert(lines.take(j as int + 1).last() == library.imports@[j as int]@);
                        }
                        if !contains_text(&imports, library.imports[j].as_str()) {
                            let ghost old_imports = texts(imports@);
                            imports.push(library.imports[j].clone());
                            proof {
                                assert(texts(imports@) =~= old_imports.push(
                                    library.imports@[j as int]@,
                                ));
                            }
                        }
                        j += 1;
                    }
                    proof {
                        assert(lines.take(j as int) =~= lines);
                    }
                },
                None => {},
            }
            i += 1;
        }
        proof {
            assert(texts(names@).take(i as int) =~= texts(names@));
        }
        imports
    }
}

impl Default for LibraryRegistry {
    fn default() -> (r: LibraryRegistry)
        ensures
            r.wf(),
            r@ == default_libraries(),
    {
        LibraryRegistry::new()
    }
}

} // verus!
