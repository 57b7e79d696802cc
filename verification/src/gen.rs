//! The generator: from the syntax tree to the text of the emitted program.
//!
//! Generation never fails. What is written for each construct is stated by
//! the function of the same construct in [`crate::emit`].

use crate::emit::block_text;
use crate::grammar::expression;
use crate::precedence::expr_tokens;
use crate::precedence::has_no_call;
use crate::precedence::lemma_spelled_without_parentheses;
use crate::precedence::needs_no_parentheses;
use crate::precedence::no_parenthesis_tokens;
use crate::spelling::lemma_emitted_expression_round_trip;
use crate::spelling::literals_are_plain;
use crate::spelling::spelling;
use crate::syntax::ExprModel;
use crate::emit::declared_main;
use crate::emit::default_main_text;
use crate::emit::expr_text;
use crate::emit::expr_texts;
use crate::emit::function_text;
use crate::emit::functions_text;
use crate::emit::handler_text;
use crate::emit::handlers_text;
use crate::emit::has_return;
use crate::emit::has_route;
use crate::emit::header_text;
use crate::emit::indent_unit;
use crate::emit::line;
use crate::emit::lines_text;
use crate::emit::param_texts;
use crate::emit::program_text;
use crate::emit::required_libraries;
use crate::emit::registrations_text;
use crate::emit::server_head_text;
use crate::emit::server_main_text;
use crate::emit::server_tail_text;
use crate::emit::statement_text;
use crate::libs::default_libraries;
use crate::libs::imports_for;
use crate::libs::LibraryModel;
use crate::libs::LibraryRegistry;
use crate::syntax::lemma_call_model;
use crate::syntax::lemma_statement_model;
use crate::syntax::models;
use crate::syntax::param_models;
use crate::syntax::DataType;
use crate::syntax::Expr;
use crate::syntax::FunctionDef;
use crate::syntax::RouteDef;
use crate::syntax::Statement;
use crate::syntax::TopLevel;
use crate::text::contains_text;
use crate::text::join_strings;
use crate::text::lowercase;
use crate::text::same_text;
use crate::text::starts_with;
use crate::text::texts;
use crate::text::trim;
use vstd::prelude::*;

verus! {

/// The generator's state: the text written so far, the libraries asked for
/// so far, and the registry of the libraries that are known.
pub struct CodeGenerator {
    output: String,
    required_libs: Vec<String>,
    library_registry: LibraryRegistry,
}

impl CodeGenerator {
    /// The text written so far.
    pub closed spec fn output(&self) -> Seq<char> {
        self.output@
    }

    /// The names of the libraries asked for so far, in the order in which
    /// they were first asked for.
    pub closed spec fn required(&self) -> Seq<Seq<char>> {
        texts(self.required_libs@)
    }

    /// The libraries that are known.
    pub closed spec fn libraries(&self) -> Map<Seq<char>, LibraryModel> {
        self.library_registry@
    }

    /// The registry is in order.
    pub closed spec fn wf(&self) -> bool {
        self.library_registry.wf()
    }

    /// Whether `self` is `before` with `text` written behind its output and
    /// nothing else changed.
    pub closed spec fn wrote(&self, before: CodeGenerator, text: Seq<char>) -> bool {
        &&& self.output@ == before.output@ + text
        &&& self.required_libs == before.required_libs
        &&& self.library_registry == before.library_registry
    }

    /// A generator that has written nothing and been asked for nothing.
    pub fn new() -> (generator: CodeGenerator)
        ensures
            generator.wf(),
            generator.output() == Seq::<char>::empty(),
            generator.required() == Seq::<Seq<char>>::empty(),
            generator.libraries() == default_libraries(),
    {
        let generator = CodeGenerator {
            output: String::new(),
            required_libs: Vec::new(),
            library_registry: LibraryRegistry::new(),
        };
        assert(generator.required() =~= Seq::<Seq<char>>::empty());
        generator
    }

    /// The indentation one step deeper than `pad`.
    fn indent(pad: &str) -> (r: String)
        ensures
            r@ == pad@ + indent_unit(),
    {
        let mut r = String::from_str(pad);
        r.append("    ");
        r
    }

    fn write_line(&mut self, pad: &str, content: &str)
        ensures
            final(self).wrote(*old(self), line(pad@, content@)),
    {
        self.output.append(pad);
        self.output.append(content);
        self.output.push('\n');
        proof {
            reveal_strlit("\n");
            assert("\n"@ =~= seq!['\n']);
            assert(self.output@ =~= old(self).output@ + line(pad@, content@));
        }
    }

    /// Writes the program for `items` behind what has been written so far,
    /// and returns all that has been written.
    ///
    /// The libraries that the items ask for are added to those asked for so
    /// far; the import lines are those of all of them.
    pub fn generate(&mut self, items: &[TopLevel]) -> (code: String)
        requires
            old(self).wf(),
        ensures
            final(self).wf(),
            final(self).libraries() == old(self).libraries(),
            final(self).required() == required_libraries(old(self).required(), models(items@)),
            final(self).output() == old(self).output() + program_text(
                models(items@),
                old(self).required(),
                old(self).libraries(),
            ),
            code@ == final(self).output(),
    {
        let ghost view = models(items@);
        let ghost start = self.output@;
        let mut has_routes = false;
        let mut i: usize = 0;
        while i < items.len()
            invariant
                i <= items.len(),
                view == models(items@),
                self.output@ == start,
                self.library_registry == old(self).library_registry,
                texts(self.required_libs@) == required_libraries(
                    texts(old(self).required_libs@),
                    view.take(i as int),
                ),
                has_routes == has_route(view.take(i as int)),
            decreases items.len() - i,
        {
            proof {
                assert(view.take(i as int + 1).drop_last() =~= view.take(i as int));
                assert(view.take(i as int + 1).last() == items@[i as int]@);
                crate::emit::lemma_has_route_step(view, i as int);
            }
            let ghost before = texts(self.required_libs@);
            match &items[i] {
                TopLevel::Import { module: _, from } => {
                    if !contains_text(&self.required_libs, from.as_str()) {
                        self.required_libs.push(from.clone());
                        assert(texts(self.required_libs@) =~= before.push(from@));
                    }
                },
                TopLevel::Route(_) => {
                    has_routes = true;
                    if !contains_text(&self.required_libs, "rest") {
                        self.required_libs.push(String::from_str("rest"));
                        assert(texts(self.required_libs@) =~= before.push("rest"@));
                    }
                },
                _ => {},
            }
            i += 1;
        }
        proof {
            assert(view.take(i as int) =~= view);
        }
        let ghost imports = imports_for(self.library_registry@, texts(self.required_libs@));
        self.generate_imports();
        self.output.push('\n');
        proof {
            reveal_strlit("\n");
            assert("\n"@ =~= seq!['\n']);
            assert(self.output@ =~= start + (header_text(imports) + "\n"@));
        }
        let ghost head = self.output@;
        let mut i: usize = 0;
        while i < items.len()
            invariant
                i <= items.len(),
                view == models(items@),
                self.output@ == head + functions_text(view.take(i as int)),
                self.library_registry == old(self).library_registry,
                texts(self.required_libs@) == required_libraries(
                    texts(old(self).required_libs@),
                    view,
                ),
            decreases items.len() - i,
        {
            proof {
                assert(view.take(i as int + 1).drop_last() =~= view.take(i as int));
                assert(view.take(i as int + 1).last() == items@[i as int]@);
            }
            let ghost so_far = self.output@;
            match &items[i] {
                TopLevel::Function(func) => {
                    if !same_text(func.name.as_str(), "main") {
                        self.generate_function(func);
                        self.output.push('\n');
                        proof {
                            reveal_strlit("\n");
                            assert("\n"@ =~= seq!['\n']);
                            assert(self.output@ =~= so_far + (function_text(func@) + "\n"@));
                        }
                    } else {
                        assert(self.output@ =~= so_far + Seq::<char>::empty());
                    }
                },
                _ => {
                    assert(self.output@ =~= so_far + Seq::<char>::empty());
                },
            }
            proof {
                assert(self.output@ =~= head + functions_text(view.take(i as int + 1)));
            }
            i += 1;
        }
        proof {
            assert(view.take(i as int) =~= view);
        }
        let ghost middle = self.output@;
        let mut i: usize = 0;
        while i < items.len()
            invariant
                i <= items.len(),
                view == models(items@),
                self.output@ == middle + handlers_text(view.take(i as int)),
                self.library_registry == old(self).library_registry,
                texts(self.required_libs@) == required_libraries(
                    texts(old(self).required_libs@),
                    view,
                ),
            decreases items.len() - i,
        {
            proof {
                assert(view.take(i as int + 1).drop_last() =~= view.take(i as int));
                assert(view.take(i as int + 1).last() == items@[i as int]@);
            }
            let ghost so_far = self.output@;
            match &items[i] {
                TopLevel::Route(route) => {
                    self.generate_route_handler(route);
                    self.output.push('\n');
                    proof {
                        reveal_strlit("\n");
                        assert("\n"@ =~= seq!['\n']);
                        assert(self.output@ =~= so_far + (handler_text(route@) + "\n"@));
                    }
                },
                _ => {
                    assert(self.output@ =~= so_far + Seq::<char>::empty());
                },
            }
            proof {
                assert(self.output@ =~= middle + handlers_text(view.take(i as int + 1)));
            }
            i += 1;
        }
        proof {
            assert(view.take(i as int) =~= view);
        }
        let ghost preamble = self.output@;
        if has_routes {
            self.generate_main_with_server(items);
        } else {
            let mut found = false;
            let mut i: usize = 0;
            proof {
                assert(view.skip(0) =~= view);
            }
            while i < items.len() && !found
                invariant
                    i <= items.len(),
                    view == models(items@),
                    self.library_registry == old(self).library_registry,
                    texts(self.required_libs@) == required_libraries(
                        texts(old(self).required_libs@),
                        view,
                    ),
                    !found ==> self.output@ == preamble && declared_main(view) == declared_main(
                        view.skip(i as int),
                    ),
                    found ==> declared_main(view) is Some && self.output@ == preamble
                        + function_text(declared_main(view)->0),
                decreases items.len() - i,
            {
                proof {
                    assert(view.skip(i as int).drop_first() =~= view.skip(i as int + 1));
                    assert(view.skip(i as int)[0] == items@[i as int]@);
                }
                match &items[i] {
                    TopLevel::Function(func) => {
                        if same_text(func.name.as_str(), "main") {
                            self.generate_function(func);
                            found = true;
                        }
                    },
                    _ => {},
                }
                i += 1;
            }
            if !found {
                proof {
                    assert(view.skip(i as int).len() == 0);
                }
                self.write_line("", "fn main() {");
                self.write_line("    ", "println!(\"Hello from Krait!\");");
                self.write_line("", "}");
                proof {
                    reveal_strlit("");
                    assert(""@ =~= Seq::<char>::empty());
                    assert(self.output@ =~= preamble + default_main_text());
                }
            }
        }
        proof {
            assert(self.output@ =~= start + program_text(
                view,
                texts(old(self).required_libs@),
                old(self).library_registry@,
            ));
        }
        self.output.clone()
    }

    /// Writes the head of a program: the comment, an empty line and the
    /// import lines of the libraries asked for.
    fn generate_imports(&mut self)
        requires
            old(self).wf(),
        ensures
            final(self).wrote(
                *old(self),
                header_text(imports_for(old(self).libraries(), old(self).required())),
            ),
    {
        self.write_line("", "// Автоматически сгенерировано из Krait");
        self.output.push('\n');
        let imports = self.library_registry.get_imports(self.required_libs.as_slice());
        let ghost head = self.output@;
        let mut i: usize = 0;
        while i < imports.len()
            invariant
                i <= imports.len(),
                self.output@ == head + lines_text(texts(imports@).take(i as int)),
                self.required_libs == old(self).required_libs,
                self.library_registry == old(self).library_registry,
            decreases imports.len() - i,
        {
            let ghost so_far = self.output@;
            self.write_line("", imports[i].as_str());
            proof {
                let t = texts(imports@);
                assert(t.take(i as int + 1).drop_last() =~= t.take(i as int));
                assert(t.take(i as int + 1).last() == imports@[i as int]@);
                reveal_strlit("");
                assert(""@ =~= Seq::<char>::empty());
                assert(self.output@ =~= head + lines_text(t.take(i as int + 1)));
            }
            i += 1;
        }
        proof {
            assert(texts(imports@).take(i as int) =~= texts(imports@));
            reveal_strlit("");
            reveal_strlit("\n");
            assert(""@ =~= Seq::<char>::empty());
            assert("\n"@ =~= seq!['\n']);
            assert(self.output@ =~= old(self).output@ + header_text(texts(imports@)));
        }
    }

    fn generate_function(&mut self, func: &FunctionDef)
        ensures
            final(self).wrote(*old(self), function_text(func@)),
    {
        let mut params: Vec<String> = Vec::new();
        let mut i: usize = 0;
        while i < func.params.len()
            invariant
                i <= func.params.len(),
                texts(params@) == param_texts(param_models(func.params@)).take(i as int),
            decreases func.params.len() - i,
        {
            let mut p = func.params[i].0.clone();
            p.append(": ");
            p.append(func.params[i].1.to_rust());
            let ghost before = texts(params@);
            params.push(p);
            proof {
                assert(texts(params@) =~= before.push(p@));
                assert(texts(params@) =~= param_texts(param_models(func.params@)).take(
                    i as int + 1,
                ));
            }
            i += 1;
        }
        proof {
            assert(param_texts(param_models(func.params@)).take(i as int) =~= param_texts(
                param_models(func.params@),
            ));
        }
        let mut head = String::new();
        if func.is_public {
            head.append("pub ");
        }
        head.append("fn ");
        head.append(func.name.as_str());
        head.append("(");
        head.append(join_strings(&params, ", ").as_str());
        head.append(")");
        let inferred = match func.return_type {
            DataType::Auto => true,
            _ => false,
        };
        if !(inferred && same_text(func.name.as_str(), "main")) {
            head.append(" -> ");
            head.append(func.return_type.to_rust());
        }
        head.append(" {");
        proof {
            let f = func@;
            let returned = if f.name == crate::emit::main_name() {
                crate::emit::main_return_text(f.return_type)
            } else {
                crate::emit::return_text(f.return_type)
            };
            assert(head@ =~= crate::emit::visibility_text(f.is_public) + "fn "@ + f.name + "("@
                + crate::text::join(param_texts(f.params), ", "@) + ")"@ + returned + " {"@);
            assert(head@ == crate::emit::function_head(f));
        }
        self.write_line("", head.as_str());
        self.generate_block(&func.body, "    ");
        self.write_line("", "}");
        proof {
            reveal_strlit("");
            assert(""@ =~= Seq::<char>::empty());
            assert(self.output@ =~= old(self).output@ + function_text(func@));
        }
    }

    fn generate_route_handler(&mut self, route: &RouteDef)
        ensures
            final(self).wrote(*old(self), handler_text(route@)),
    {
        let mut attribute = String::from_str("#[");
        attribute.append(lowercase(route.method.as_str()).as_str());
        attribute.append("(\"");
        attribute.append(route.path.as_str());
        attribute.append("\")]");
        self.write_line("", attribute.as_str());
        self.write_line("", "async fn handler() -> HttpResponse {");
        self.generate_block(&route.body, "    ");
        let mut found_return = false;
        let mut i: usize = 0;
        while i < route.body.len()
            invariant
                i <= route.body.len(),
                found_return == has_return(models(route.body@).take(i as int)),
            decreases route.body.len() - i,
        {
            let ghost view = models(route.body@);
            proof {
                crate::emit::lemma_has_return_step(view, i as int);
            }
            match &route.body[i] {
                Statement::Return(_) => {
                    found_return = true;
                },
                _ => {},
            }
            i += 1;
        }
        proof {
            assert(models(route.body@).take(i as int) =~= models(route.body@));
        }
        if !found_return {
            self.write_line("    ", "HttpResponse::Ok().finish()");
        }
        self.write_line("", "}");
        proof {
            reveal_strlit("");
            assert(""@ =~= Seq::<char>::empty());
            assert(self.output@ =~= old(self).output@ + handler_text(route@));
        }
    }

    fn generate_main_with_server(&mut self, items: &[TopLevel])
        ensures
            final(self).wrote(*old(self), server_main_text(models(items@))),
    {
        let ghost base = self.output@;
        let ghost view = models(items@);
        let one = CodeGenerator::indent("");
        let two = CodeGenerator::indent(one.as_str());
        let three = CodeGenerator::indent(two.as_str());
        self.write_line("", "#[actix_web::main]");
        self.write_line("", "async fn main() -> std::io::Result<()> {");
        self.write_line(one.as_str(), "println!(\"Starting API server on http://127.0.0.1:8080\");");
        self.write_line(one.as_str(), "");
        self.write_line(one.as_str(), "HttpServer::new(|| {");
        self.write_line(two.as_str(), "App::new()");
        proof {
            reveal_strlit("");
            assert(""@ =~= Seq::<char>::empty());
            assert(one@ =~= indent_unit());
            assert(self.output@ =~= base + server_head_text());
        }
        let ghost head = self.output@;
        let mut i: usize = 0;
        while i < items.len()
            invariant
                i <= items.len(),
                view == models(items@),
                three@ == indent_unit() + indent_unit() + indent_unit(),
                self.output@ == head + registrations_text(view.take(i as int)),
                self.required_libs == old(self).required_libs,
                self.library_registry == old(self).library_registry,
            decreases items.len() - i,
        {
            proof {
                assert(view.take(i as int + 1).drop_last() =~= view.take(i as int));
                assert(view.take(i as int + 1).last() == items@[i as int]@);
            }
            let ghost so_far = self.output@;
            match &items[i] {
                TopLevel::Route(_) => {
                    self.write_line(three.as_str(), ".service(handler)");
                },
                _ => {
                    assert(self.output@ =~= so_far + Seq::<char>::empty());
                },
            }
            proof {
                assert(self.output@ =~= head + registrations_text(view.take(i as int + 1)));
            }
            i += 1;
        }
        proof {
            assert(view.take(i as int) =~= view);
        }
        let ghost middle = self.output@;
        self.write_line(one.as_str(), "})");
        self.write_line(one.as_str(), ".bind(\"127.0.0.1:8080\")?");
        self.write_line(one.as_str(), ".run()");
        self.write_line(one.as_str(), ".await");
        self.write_line("", "}");
        proof {
            assert(self.output@ =~= middle + server_tail_text());
            assert(self.output@ =~= base + server_main_text(view));
        }
    }

    /// Writes the statements of a block, each indented by `pad`.
    fn generate_block(&mut self, body: &Vec<Statement>, pad: &str)
        ensures
            final(self).wrote(*old(self), block_text(models(body@), pad@)),
        decreases body, 0nat,
    {
        let ghost view = models(body@);
        let mut i: usize = 0;
        proof {
            assert(self.output@ =~= old(self).output@ + Seq::<char>::empty());
        }
        while i < body.len()
            invariant
                i <= body.len(),
                view == models(body@),
                self.wrote(*old(self), block_text(view.take(i as int), pad@)),
            decreases body.len() - i,
        {
            let ghost so_far = self.output@;
            self.generate_statement(&body[i], pad);
            proof {
                assert(view.take(i as int + 1).drop_last() =~= view.take(i as int));
                assert(view.take(i as int + 1).last() == body@[i as int]@);
                assert(self.output@ =~= old(self).output@ + block_text(
                    view.take(i as int + 1),
                    pad@,
                ));
            }
            i += 1;
        }
        proof {
            assert(view.take(i as int) =~= view);
        }
    }

    /// Writes a statement, indented by `pad`, behind what has been written so
    /// far; nothing else changes.
    ///
    /// A `for` is written as its head, with the half-open range from the
    /// start to the end, then its block one step deeper, then the closing
    /// brace.
    pub fn generate_statement(&mut self, stmt: &Statement, pad: &str)
        ensures
            final(self).wrote(*old(self), statement_text(stmt@, pad@)),
            final(self).output() == old(self).output() + statement_text(stmt@, pad@),
            final(self).required() == old(self).required(),
            final(self).libraries() == old(self).libraries(),
            final(self).wf() == old(self).wf(),
            stmt matches Statement::For { var, start, end, body } ==> final(self).output() == old(
                self,
            ).output() + (line(
                pad@,
                "for "@ + var@ + " in "@ + expr_text(start@) + ".."@ + expr_text(end@) + " {"@,
            ) + block_text(models(body@), pad@ + indent_unit()) + line(pad@, "}"@)),
        decreases stmt, 1nat,
    {
        proof {
            lemma_statement_model(*stmt);
        }
        match stmt {
            Statement::VarDecl { name, var_type, value, is_public } => {
                let mut content = String::new();
                if *is_public {
                    content.append("pub ");
                }
                content.append("let ");
                content.append(name.as_str());
                match value {
                    Some(e) => {
                        content.append(" = ");
                        content.append(self.generate_expr(e).as_str());
                    },
                    None => {
                        content.append(": ");
                        content.append(var_type.to_rust());
                    },
                }
                content.append(";");
                proof {
                    let vis = crate::emit::visibility_text(*is_public);
                    match value {
                        Some(e) => {
                            assert(content@ =~= vis + "let "@ + name@ + " = "@ + expr_text(e@)
                                + ";"@);
                        },
                        None => {
                            assert(content@ =~= vis + "let "@ + name@ + ": "@
                                + var_type.rust_name() + ";"@);
                        },
                    }
                }
                self.write_line(pad, content.as_str());
            },
            Statement::Return(value) => {
                match value {
                    Some(e) => {
                        let text = self.generate_expr(e);
                        self.write_line(pad, text.as_str());
                    },
                    None => {
                        self.write_line(pad, "return;");
                    },
                }
            },
            Statement::If { .. } => {
                self.generate_if(stmt, pad);
            },
            Statement::While { .. } => {
                self.generate_loop(stmt, pad);
            },
            Statement::For { .. } => {
                self.generate_loop(stmt, pad);
            },
            Statement::Try { .. } => {
                self.generate_try(stmt, pad);
            },
            Statement::ExprStmt(e) => {
                let mut content = self.generate_expr(e);
                content.append(";");
                self.write_line(pad, content.as_str());
            },
        }
    }

    /// Writes a conditional: the condition, the block, and the other block
    /// where there is one.
    fn generate_if(&mut self, stmt: &Statement, pad: &str)
        requires
            stmt is If,
        ensures
            final(self).wrote(*old(self), statement_text(stmt@, pad@)),
        decreases stmt, 0nat,
    {
        proof {
            lemma_statement_model(*stmt);
        }
        let ghost base = self.output@;
        let inner = CodeGenerator::indent(pad);
        match stmt {
            Statement::If { condition, body, else_body } => {
                let mut head = String::from_str("if ");
                head.append(self.generate_expr(condition).as_str());
                head.append(" {");
                self.write_line(pad, head.as_str());
                let ghost first = line(pad@, head@);
                self.generate_block(body, inner.as_str());
                let ghost second = first + block_text(models(body@), inner@);
                assert(self.output@ =~= base + second);
                match else_body {
                    Some(other) => {
                        self.write_line(pad, "} else {");
                        let ghost third = line(pad@, "} else {"@);
                        assert(self.output@ =~= base + second + third);
                        self.generate_block(other, inner.as_str());
                        let ghost fourth = third + block_text(models(other@), inner@);
                        assert(self.output@ =~= base + second + fourth);
                        self.write_line(pad, "}");
                        assert(self.output@ =~= base + (second + (fourth + line(pad@, "}"@))));
                    },
                    None => {
                        self.write_line(pad, "}");
                        assert(self.output@ =~= base + (second + line(pad@, "}"@)));
                    },
                }
            },
            _ => {},
        }
    }

    /// Writes a `while` or a `for`: the head, the block and the closing brace.
    fn generate_loop(&mut self, stmt: &Statement, pad: &str)
        requires
            stmt is While || stmt is For,
        ensures
            final(self).wrote(*old(self), statement_text(stmt@, pad@)),
        decreases stmt, 0nat,
    {
        proof {
            lemma_statement_model(*stmt);
        }
        let ghost base = self.output@;
        let inner = CodeGenerator::indent(pad);
        match stmt {
            Statement::While { condition, body } => {
                let mut head = String::from_str("while ");
                head.append(self.generate_expr(condition).as_str());
                head.append(" {");
                self.write_line(pad, head.as_str());
                let ghost first = line(pad@, head@);
                self.generate_block(body, inner.as_str());
                let ghost second = first + block_text(models(body@), inner@);
                assert(self.output@ =~= base + second);
                self.write_line(pad, "}");
                assert(self.output@ =~= base + (second + line(pad@, "}"@)));
            },
            Statement::For { var, start, end, body } => {
                let mut head = String::from_str("for ");
                head.append(var.as_str());
                head.append(" in ");
                head.append(self.generate_expr(start).as_str());
                head.append("..");
                head.append(self.generate_expr(end).as_str());
                head.append(" {");
                self.write_line(pad, head.as_str());
                let ghost first = line(pad@, head@);
                self.generate_block(body, inner.as_str());
                let ghost second = first + block_text(models(body@), inner@);
                assert(self.output@ =~= base + second);
                self.write_line(pad, "}");
                assert(self.output@ =~= base + (second + line(pad@, "}"@)));
            },
            _ => {},
        }
    }

    /// Writes a `try`: a closure around the block, called at once, and a
    /// match on what it gives, with the other block where it failed.
    fn generate_try(&mut self, stmt: &Statement, pad: &str)
        requires
            stmt is Try,
        ensures
            final(self).wrote(*old(self), statement_text(stmt@, pad@)),
        decreases stmt, 0nat,
    {
        proof {
            lemma_statement_model(*stmt);
        }
        let ghost base = self.output@;
        let inner = CodeGenerator::indent(pad);
        let deeper = CodeGenerator::indent(inner.as_str());
        match stmt {
            Statement::Try { body, catch_body } => {
                self.write_line(pad, "match (|| -> Result<(), Box<dyn std::error::Error>> {");
                let ghost t1 = line(pad@, "match (|| -> Result<(), Box<dyn std::error::Error>> {"@);
                self.generate_block(body, inner.as_str());
                let ghost t2 = t1 + block_text(models(body@), inner@);
                assert(self.output@ =~= base + t2);
                self.write_line(inner.as_str(), "Ok(())");
                let ghost t3 = t2 + line(inner@, "Ok(())"@);
                assert(self.output@ =~= base + t3);
                self.write_line(pad, "})() {");
                let ghost t4 = t3 + line(pad@, "})() {"@);
                assert(self.output@ =~= base + t4);
                self.write_line(inner.as_str(), "Ok(_) => {},");
                let ghost t5 = t4 + line(inner@, "Ok(_) => {},"@);
                assert(self.output@ =~= base + t5);
                self.write_line(inner.as_str(), "Err(_) => {");
                let ghost t6 = t5 + line(inner@, "Err(_) => {"@);
                assert(self.output@ =~= base + t6);
                self.generate_block(catch_body, deeper.as_str());
                let ghost t7 = t6 + block_text(models(catch_body@), deeper@);
                assert(self.output@ =~= base + t7);
                self.write_line(inner.as_str(), "}");
                let ghost t8 = t7 + line(inner@, "}"@);
                assert(self.output@ =~= base + t8);
                self.write_line(pad, "}");
                let ghost t9 = t8 + line(pad@, "}"@);
                assert(self.output@ =~= base + t9);
                assert(t9 == statement_text(stmt@, pad@));
            },
            _ => {},
        }
    }

    /// The texts of the expressions, one by one.
    fn generate_exprs(&self, args: &Vec<Expr>) -> (r: Vec<String>)
        ensures
            texts(r@) == expr_texts(models(args@)),
        decreases args, 0nat,
    {
        let ghost view = models(args@);
        let mut parts: Vec<String> = Vec::new();
        let mut i: usize = 0;
        while i < args.len()
            invariant
                i <= args.len(),
                view == models(args@),
                texts(parts@) == expr_texts(view.take(i as int)),
            decreases args.len() - i,
        {
            let ghost before = texts(parts@);
            let part = self.generate_expr(&args[i]);
            parts.push(part);
            proof {
                assert(view.take(i as int + 1).drop_last() =~= view.take(i as int));
                assert(view.take(i as int + 1).last() == args@[i as int]@);
                assert(texts(parts@) =~= before.push(part@));
            }
            i += 1;
        }
        proof {
            assert(view.take(i as int) =~= view);
        }
        parts
    }

    /// The text of an expression: operands and operators in their order,
    /// without parentheses but those of calls.
    ///
    /// Where the expression needs no parentheses and its literals are plain,
    /// the text is the writing of the tokens that spell the expression, and
    /// those tokens are read as the expression itself: the binding levels
    /// give the text the nesting of the tree. Where there is no call in the
    /// expression, no parenthesis is among the tokens.
    pub fn generate_expr(&self, expr: &Expr) -> (r: String)
        ensures
            r@ == expr_text(expr@),
            needs_no_parentheses(expr@) && literals_are_plain(expr@) ==> r@ == spelling(
                expr_tokens(expr@),
            ) && expression(expr_tokens(expr@), 0) == Ok::<(ExprModel, nat), Seq<char>>(
                (expr@, expr_tokens(expr@).len()),
            ),
            has_no_call(expr@) ==> no_parenthesis_tokens(expr_tokens(expr@)),
        decreases expr, 1nat,
    {
        proof {
            if needs_no_parentheses(expr@) && literals_are_plain(expr@) {
                lemma_emitted_expression_round_trip(expr@);
            }
            if has_no_call(expr@) {
                lemma_spelled_without_parentheses(expr@);
            }
        }
        match expr {
            Expr::Literal(s) => {
                if starts_with(s.as_str(), '"') {
                    let mut r = String::from_str("\"");
                    r.append(trim(s.as_str(), '"').as_str());
                    r.append("\".to_string()");
                    r
                } else {
                    s.clone()
                }
            },
            Expr::Identifier(name) => name.clone(),
            Expr::BinaryOp { left, op, right } => {
                let mut r = self.generate_expr(left);
                r.append(" ");
                if same_text(op.as_str(), "or") {
                    r.append("||");
                } else if same_text(op.as_str(), "and") {
                    r.append("&&");
                } else {
                    r.append(op.as_str());
                }
                r.append(" ");
                r.append(self.generate_expr(right).as_str());
                r
            },
            Expr::FunctionCall { name, args } => {
                proof {
                    lemma_call_model(*name, *args);
                }
                let parts = self.generate_exprs(args);
                let mut r = name.clone();
                r.append("(");
                r.append(join_strings(&parts, ", ").as_str());
                r.append(")");
                r
            },
        }
    }
}

impl Default for CodeGenerator {
    fn default() -> (generator: CodeGenerator)
        ensures
            generator.wf(),
            generator.output() == Seq::<char>::empty(),
            generator.required() == Seq::<Seq<char>>::empty(),
            generator.libraries() == default_libraries(),
    {
        CodeGenerator::new()
    }
}

} // verus!
