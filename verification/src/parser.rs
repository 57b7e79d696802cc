//! The parser: from tokens to the syntax tree, by recursive descent.
//!
//! Parsing stops at the first token that does not fit and reports it; nothing
//! is recovered. What each function accepts is stated by the function of the
//! same construct in [`crate::grammar`].

use crate::grammar::binary;
use crate::grammar::binary_operator;
use crate::grammar::binary_rest;
use crate::grammar::block;
use crate::grammar::call_args;
use crate::grammar::data_type_of;
use crate::grammar::declaration;
use crate::grammar::expected_found;
use crate::grammar::expression;
use crate::grammar::function;
use crate::grammar::function_or_statement;
use crate::grammar::import;
use crate::grammar::item;
use crate::grammar::items;
use crate::grammar::kind_at;
use crate::grammar::lemma_binary_at_eof;
use crate::grammar::lemma_binary_consumes;
use crate::grammar::lemma_item_consumes;
use crate::grammar::lemma_statement_consumes;
use crate::grammar::level_rank;
use crate::grammar::parameters;
use crate::grammar::primary;
use crate::grammar::return_statement;
use crate::grammar::return_type;
use crate::grammar::route;
use crate::grammar::starts_declaration;
use crate::grammar::statement;
use crate::messages::has_message;
use crate::messages::lemma_items_message;
use crate::syntax::lemma_call_model;
use crate::syntax::lemma_statement_model;
use crate::syntax::models;
use crate::syntax::param_models;
use crate::syntax::DataType;
use crate::syntax::Expr;
use crate::syntax::FunctionDef;
use crate::syntax::RouteDef;
use crate::syntax::Statement;
use crate::syntax::TopLevel;
use crate::token::kinds_of;
use crate::token::Token;
use crate::token::TokenKind;
use crate::token::TokenType;
use vstd::prelude::*;

verus! {

/// Whether an outcome `r`, reached by moving from `before` to `after`, is the
/// one that the grammar gives: the same value made of as many tokens, or the
/// same message.
spec fn yields<T: View>(
    r: Result<T, String>,
    expected: Result<(T::V, nat), Seq<char>>,
    before: int,
    after: int,
) -> bool {
    match expected {
        Ok((v, n)) => r is Ok && r->Ok_0@ == v && after == before + n,
        Err(m) => r is Err && r->Err_0@ == m,
    }
}

/// [`yields`] for a sequence of values.
spec fn yields_all<T: View>(
    r: Result<Vec<T>, String>,
    expected: Result<(Seq<T::V>, nat), Seq<char>>,
    before: int,
    after: int,
) -> bool {
    match expected {
        Ok((v, n)) => r is Ok && models(r->Ok_0@) == v && after == before + n,
        Err(m) => r is Err && r->Err_0@ == m,
    }
}

/// The outcome `rest` with `head`, made of `used` tokens, put in front of it.
spec fn after_prefix<A>(
    head: Seq<A>,
    used: int,
    rest: Result<(Seq<A>, nat), Seq<char>>,
) -> Result<(Seq<A>, nat), Seq<char>> {
    match rest {
        Ok((tail, k)) => Ok((head + tail, (used + k) as nat)),
        Err(m) => Err(m),
    }
}

/// Putting one more element in front of an outcome is putting it at the end
/// of the prefix.
proof fn lemma_after_prefix_push<A>(
    head: Seq<A>,
    used: int,
    x: A,
    n: nat,
    rest: Result<(Seq<A>, nat), Seq<char>>,
)
    requires
        used >= 0,
    ensures
        after_prefix(head, used, after_prefix(seq![x], n as int, rest)) == after_prefix(
            head.push(x),
            used + n,
            rest,
        ),
{
    match rest {
        Ok((tail, k)) => {
            assert(head + (seq![x] + tail) =~= head.push(x) + tail);
        },
        Err(_) => {},
    }
}

/// The parser's state: the tokens and a place among them.
pub struct Parser {
    tokens: Vec<Token>,
    pos: usize,
}

impl Parser {
    /// The kinds of the tokens being parsed.
    pub closed spec fn kinds(&self) -> Seq<TokenKind> {
        kinds_of(self.tokens@)
    }

    /// The index of the next token to read.
    pub closed spec fn position(&self) -> int {
        self.pos as int
    }

    /// The tokens end with `Eof`, and the place is among them.
    pub closed spec fn wf(&self) -> bool {
        &&& self.tokens.len() > 0
        &&& self.tokens@.last().token_type@ is Eof
        &&& self.pos < self.tokens.len()
    }

    /// A parser at the start of `tokens`, which must end with `Eof`.
    pub fn new(tokens: Vec<Token>) -> (parser: Parser)
        requires
            tokens@.len() > 0,
            tokens@.last().token_type@ is Eof,
        ensures
            parser.wf(),
            parser.kinds() == kinds_of(tokens@),
            parser.position() == 0,
    {
        Parser { tokens, pos: 0 }
    }

    fn current_token(&self) -> (t: &Token)
        requires
            self.wf(),
        ensures
            *t == self.tokens@[self.pos as int],
            t.token_type@ == kind_at(self.kinds(), self.pos as int),
    {
        &self.tokens[self.pos]
    }

    fn peek_token(&self, offset: usize) -> (t: &Token)
        requires
            self.wf(),
            offset <= 1,
        ensures
            *t == if self.pos + offset < self.tokens.len() {
                self.tokens@[self.pos + offset]
            } else {
                self.tokens@.last()
            },
            t.token_type@ == kind_at(self.kinds(), self.pos + offset),
    {
        let last: usize = self.tokens.len() - 1;
        let at: usize = if self.pos + offset < last {
            self.pos + offset
        } else {
            last
        };
        &self.tokens[at]
    }

    fn advance(&mut self)
        requires
            old(self).wf(),
            !(kind_at(old(self).kinds(), old(self).pos as int) is Eof),
        ensures
            final(self).wf(),
            final(self).tokens == old(self).tokens,
            final(self).pos == old(self).pos + 1,
    {
        self.pos += 1;
    }

    fn expect(&mut self, expected: TokenType) -> (r: Result<(), String>)
        requires
            old(self).wf(),
            !(expected@ is Eof),
        ensures
            final(self).wf(),
            final(self).tokens == old(self).tokens,
            kind_at(old(self).kinds(), old(self).pos as int).shape() == expected@.shape() ==> r is Ok
                && final(self).pos == old(self).pos + 1,
            kind_at(old(self).kinds(), old(self).pos as int).shape() != expected@.shape() ==> r is Err
                && r->Err_0@ == expected_found(
                expected@,
                kind_at(old(self).kinds(), old(self).pos as int),
            ) && final(self).pos == old(self).pos,
    {
        if self.current_token().token_type.same_kind(&expected) {
            self.advance();
            Ok(())
        } else {
            let mut message = String::from_str("Expected ");
            message.append(expected.describe().as_str());
            message.append(", found ");
            message.append(self.current_token().token_type.describe().as_str());
            Err(message)
        }
    }

    /// The name at the current place, taken if there is one.
    fn take_identifier(&mut self) -> (r: Option<String>)
        requires
            old(self).wf(),
        ensures
            final(self).wf(),
            final(self).tokens == old(self).tokens,
            match kind_at(old(self).kinds(), old(self).pos as int) {
                TokenKind::Identifier(name) => r is Some && r->0@ == name && final(self).pos == old(
                    self,
                ).pos + 1,
                _ => r is None && final(self).pos == old(self).pos,
            },
    {
        let found = match &self.current_token().token_type {
            TokenType::Identifier(name) => Some(name.clone()),
            _ => None,
        };
        if found.is_some() {
            self.advance();
        }
        found
    }

    /// Parses the tokens from the current place up to the first `Eof`.
    ///
    /// Returns the items of [`items`] at that place, or the message of the
    /// first error among them.
    pub fn parse(&mut self) -> (r: Result<Vec<TopLevel>, String>)
        requires
            old(self).wf(),
        ensures
            final(self).wf(),
            final(self).kinds() == old(self).kinds(),
            match items(old(self).kinds(), old(self).position()) {
                Ok(list) => r is Ok && models(r->Ok_0@) == list,
                Err(m) => r is Err && r->Err_0@ == m,
            },
            r is Ok ==> kind_at(final(self).kinds(), final(self).position()) is Eof,
            r is Err ==> r->Err_0@.len() > 0,
    {
        let mut list: Vec<TopLevel> = Vec::new();
        let ghost toks = self.kinds();
        let ghost start = self.pos as int;
        proof {
            lemma_items_message(toks, start);
        }
        loop
            invariant
                self.wf(),
                self.tokens == old(self).tokens,
                toks == self.kinds(),
                start == old(self).pos,
                start <= self.pos,
                has_message(items(toks, start)),
                items(toks, start) == (match items(toks, self.pos as int) {
                    Ok(rest) => Ok::<Seq<crate::syntax::TopLevelModel>, Seq<char>>(
                        models(list@) + rest,
                    ),
                    Err(m) => Err(m),
                }),
            ensures
                self.wf(),
                self.tokens == old(self).tokens,
                items(toks, start) == Ok::<Seq<crate::syntax::TopLevelModel>, Seq<char>>(
                    models(list@),
                ),
                kind_at(toks, self.pos as int) is Eof,
            decreases self.tokens.len() - self.pos,
        {
            if matches!(self.current_token().token_type, TokenType::Eof) {
                proof {
                    assert(models(list@) + Seq::empty() =~= models(list@));
                }
                break ;
            }
            let ghost at = self.pos as int;
            let ghost done = models(list@);
            proof {
                lemma_item_consumes(toks, at);
            }
            match self.parse_top_level() {
                Ok(it) => {
                    list.push(it);
                    proof {
                        assert(models(list@) =~= done.push(it@));
                        match items(toks, self.pos as int) {
                            Ok(rest) => {
                                assert(done + (seq![it@] + rest) =~= done.push(it@) + rest);
                            },
                            Err(_) => {},
                        }
                    }
                },
                Err(m) => {
                    return Err(m);
                },
            }
        }
        Ok(list)
    }

    fn parse_top_level(&mut self) -> (r: Result<TopLevel, String>)
        requires
            old(self).wf(),
        ensures
            final(self).wf(),
            final(self).tokens == old(self).tokens,
            yields(
                r,
                item(old(self).kinds(), old(self).pos as int),
                old(self).pos as int,
                final(self).pos as int,
            ),
    {
        if matches!(self.current_token().token_type, TokenType::Import) {
            self.parse_import()
        } else if matches!(self.current_token().token_type, TokenType::Route) {
            self.parse_route()
        } else if matches!(self.current_token().token_type, TokenType::Public) {
            self.advance();
            self.parse_function_or_var(true)
        } else if matches!(self.current_token().token_type, TokenType::Private) {
            self.advance();
            self.parse_function_or_var(false)
        } else {
            self.parse_function_or_var(false)
        }
    }

    fn parse_import(&mut self) -> (r: Result<TopLevel, String>)
        requires
            old(self).wf(),
        ensures
            final(self).wf(),
            final(self).tokens == old(self).tokens,
            yields(
                r,
                import(old(self).kinds(), old(self).pos as int),
                old(self).pos as int,
                final(self).pos as int,
            ),
    {
        self.expect(TokenType::Import)?;
        let module = match self.take_identifier() {
            Some(name) => name,
            None => {
                return Err(String::from_str("Expected module name"));
            },
        };
        self.expect(TokenType::From)?;
        let from = match self.take_identifier() {
            Some(name) => name,
            None => {
                return Err(String::from_str("Expected from module"));
            },
        };
        Ok(TopLevel::Import { module, from })
    }

    fn parse_function_or_var(&mut self, is_public: bool) -> (r: Result<TopLevel, String>)
        requires
            old(self).wf(),
        ensures
            final(self).wf(),
            final(self).tokens == old(self).tokens,
            yields(
                r,
                function_or_statement(old(self).kinds(), old(self).pos as int, is_public),
                old(self).pos as int,
                final(self).pos as int,
            ),
    {
        if matches!(self.current_token().token_type, TokenType::Func) {
            self.parse_function(is_public)
        } else {
            match self.parse_statement() {
                Ok(s) => Ok(TopLevel::Statement(s)),
                Err(m) => Err(m),
            }
        }
    }

    /// The parameters of a function, up to but not including the closing
    /// parenthesis.
    fn parse_parameters(&mut self) -> (r: Result<Vec<(String, DataType)>, String>)
        requires
            old(self).wf(),
        ensures
            final(self).wf(),
            final(self).tokens == old(self).tokens,
            match parameters(old(self).kinds(), old(self).pos as int) {
                Ok((list, n)) => r is Ok && param_models(r->Ok_0@) == list && final(self).pos == old(
                    self,
                ).pos + n && kind_at(final(self).kinds(), final(self).pos as int) is RightParen,
                Err(m) => r is Err && r->Err_0@ == m,
            },
    {
        let mut params: Vec<(String, DataType)> = Vec::new();
        let ghost toks = self.kinds();
        let ghost start = self.pos as int;
        while !matches!(self.current_token().token_type, TokenType::RightParen)
            invariant
                self.wf(),
                self.tokens == old(self).tokens,
                toks == self.kinds(),
                start == old(self).pos,
                start <= self.pos,
                parameters(toks, start) == after_prefix(
                    param_models(params@),
                    self.pos - start,
                    parameters(toks, self.pos as int),
                ),
            decreases self.tokens.len() - self.pos,
        {
            let ghost at = self.pos as int;
            let ghost done = param_models(params@);
            let name = match self.take_identifier() {
                Some(name) => name,
                None => {
                    return Err(String::from_str("Expected parameter name"));
                },
            };
            self.expect(TokenType::Colon)?;
            let param_type = self.parse_type()?;
            let ghost entry = (name@, param_type);
            params.push((name, param_type));
            if matches!(self.current_token().token_type, TokenType::Comma) {
                self.advance();
            }
            proof {
                assert(param_models(params@) =~= done.push(entry));
                lemma_after_prefix_push(
                    done,
                    at - start,
                    entry,
                    (self.pos - at) as nat,
                    parameters(toks, self.pos as int),
                );
            }
        }
        proof {
            assert(param_models(params@) + Seq::empty() =~= param_models(params@));
        }
        Ok(params)
    }

    fn parse_function(&mut self, is_public: bool) -> (r: Result<TopLevel, String>)
        requires
            old(self).wf(),
        ensures
            final(self).wf(),
            final(self).tokens == old(self).tokens,
            yields(
                r,
                function(old(self).kinds(), old(self).pos as int, is_public),
                old(self).pos as int,
                final(self).pos as int,
            ),
    {
        self.expect(TokenType::Func)?;
        let name = match self.take_identifier() {
            Some(name) => name,
            None => {
                return Err(String::from_str("Expected function name"));
            },
        };
        self.expect(TokenType::LeftParen)?;
        let params = self.parse_parameters()?;
        self.expect(TokenType::RightParen)?;
        let return_type = if matches!(self.current_token().token_type, TokenType::Arrow) {
            self.advance();
            self.parse_type()?
        } else {
            DataType::Auto
        };
        let body = self.parse_block()?;
        Ok(TopLevel::Function(FunctionDef { name, params, return_type, body, is_public }))
    }

    fn parse_route(&mut self) -> (r: Result<TopLevel, String>)
        requires
            old(self).wf(),
        ensures
            final(self).wf(),
            final(self).tokens == old(self).tokens,
            yields(
                r,
                route(old(self).kinds(), old(self).pos as int),
                old(self).pos as int,
                final(self).pos as int,
            ),
    {
        self.expect(TokenType::Route)?;
        let found = match &self.current_token().token_type {
            TokenType::String(p) => Some(p.clone()),
            _ => None,
        };
        let path = match found {
            Some(p) => {
                self.advance();
                p
            },
            None => {
                return Err(String::from_str("Expected route path"));
            },
        };
        let method = if matches!(self.current_token().token_type, TokenType::Get) {
            String::from_str("GET")
        } else if matches!(self.current_token().token_type, TokenType::Post) {
            String::from_str("POST")
        } else if matches!(self.current_token().token_type, TokenType::Put) {
            String::from_str("PUT")
        } else if matches!(self.current_token().token_type, TokenType::Delete) {
            String::from_str("DELETE")
        } else {
            return Err(String::from_str("Expected HTTP method"));
        };
        self.advance();
        let body = self.parse_block()?;
        Ok(TopLevel::Route(RouteDef { path, method, body }))
    }

    fn parse_type(&mut self) -> (r: Result<DataType, String>)
        requires
            old(self).wf(),
        ensures
            final(self).wf(),
            final(self).tokens == old(self).tokens,
            match data_type_of(kind_at(old(self).kinds(), old(self).pos as int)) {
                Some(t) => r == Ok::<DataType, String>(t) && final(self).pos == old(self).pos + 1,
                None => r is Err && r->Err_0@ == "Expected data type"@ && final(self).pos == old(
                    self,
                ).pos,
            },
    {
        let found = match &self.current_token().token_type {
            TokenType::Int => Some(DataType::Int),
            TokenType::Float => Some(DataType::Float),
            TokenType::Double => Some(DataType::Double),
            TokenType::Txt => Some(DataType::Txt),
            TokenType::Bool => Some(DataType::Bool),
            TokenType::Auto => Some(DataType::Auto),
            _ => None,
        };
        match found {
            Some(t) => {
                self.advance();
                Ok(t)
            },
            None => Err(String::from_str("Expected data type")),
        }
    }

    fn parse_block(&mut self) -> (r: Result<Vec<Statement>, String>)
        requires
            old(self).wf(),
        ensures
            final(self).wf(),
            final(self).tokens == old(self).tokens,
            yields_all(
                r,
                block(old(self).kinds(), old(self).pos as int),
                old(self).pos as int,
                final(self).pos as int,
            ),
        decreases old(self).tokens.len() - old(self).pos, 14nat,
    {
        let mut statements: Vec<Statement> = Vec::new();
        let ghost toks = self.kinds();
        let ghost start = self.pos as int;
        while !matches!(self.current_token().token_type, TokenType::End | TokenType::Eof)
            invariant
                self.wf(),
                self.tokens == old(self).tokens,
                toks == self.kinds(),
                start == old(self).pos,
                start <= self.pos,
                block(toks, start) == after_prefix(
                    models(statements@),
                    self.pos - start,
                    block(toks, self.pos as int),
                ),
            decreases self.tokens.len() - self.pos,
        {
            let ghost at = self.pos as int;
            let ghost done = models(statements@);
            proof {
                lemma_statement_consumes(toks, at);
            }
            let s = self.parse_statement()?;
            statements.push(s);
            proof {
                assert(models(statements@) =~= done.push(s@));
                lemma_after_prefix_push(
                    done,
                    at - start,
                    s@,
                    (self.pos - at) as nat,
                    block(toks, self.pos as int),
                );
            }
        }
        proof {
            assert(models(statements@) + Seq::empty() =~= models(statements@));
        }
        if matches!(self.current_token().token_type, TokenType::End) {
            self.advance();
        }
        Ok(statements)
    }

    fn parse_statement(&mut self) -> (r: Result<Statement, String>)
        requires
            old(self).wf(),
        ensures
            final(self).wf(),
            final(self).tokens == old(self).tokens,
            yields(
                r,
                statement(old(self).kinds(), old(self).pos as int),
                old(self).pos as int,
                final(self).pos as int,
            ),
        decreases old(self).tokens.len() - old(self).pos, 13nat,
    {
        if matches!(self.current_token().token_type, TokenType::Return) {
            self.parse_return()
        } else if matches!(self.current_token().token_type, TokenType::If) {
            self.parse_if()
        } else if matches!(self.current_token().token_type, TokenType::While) {
            self.parse_while()
        } else if matches!(self.current_token().token_type, TokenType::For) {
            self.parse_for()
        } else if matches!(self.current_token().token_type, TokenType::Try) {
            self.parse_try()
        } else if self.is_var_decl() {
            self.parse_var_decl()
        } else {
            match self.parse_expr() {
                Ok(e) => Ok(Statement::ExprStmt(e)),
                Err(m) => Err(m),
            }
        }
    }

    fn is_var_decl(&self) -> (r: bool)
        requires
            self.wf(),
        ensures
            r == starts_declaration(self.kinds(), self.pos as int),
    {
        matches!(self.current_token().token_type, TokenType::Auto) || (matches!(
            self.current_token().token_type,
            TokenType::Identifier(_)
        ) && matches!(self.peek_token(1).token_type, TokenType::Identifier(_)))
    }

    fn parse_var_decl(&mut self) -> (r: Result<Statement, String>)
        requires
            old(self).wf(),
        ensures
            final(self).wf(),
            final(self).tokens == old(self).tokens,
            yields(
                r,
                declaration(old(self).kinds(), old(self).pos as int),
                old(self).pos as int,
                final(self).pos as int,
            ),
    {
        let var_type = self.parse_type()?;
        let name = match self.take_identifier() {
            Some(name) => name,
            None => {
                return Err(String::from_str("Expected variable name"));
            },
        };
        let value = if matches!(self.current_token().token_type, TokenType::Equal) {
            self.advance();
            Some(self.parse_expr()?)
        } else {
            None
        };
        Ok(Statement::VarDecl { name, var_type, value, is_public: false })
    }

    fn parse_return(&mut self) -> (r: Result<Statement, String>)
        requires
            old(self).wf(),
        ensures
            final(self).wf(),
            final(self).tokens == old(self).tokens,
            yields(
                r,
                return_statement(old(self).kinds(), old(self).pos as int),
                old(self).pos as int,
                final(self).pos as int,
            ),
    {
        self.expect(TokenType::Return)?;
        let value = if matches!(self.current_token().token_type, TokenType::End | TokenType::Eof) {
            None
        } else {
            Some(self.parse_expr()?)
        };
        Ok(Statement::Return(value))
    }

    fn parse_if(&mut self) -> (r: Result<Statement, String>)
        requires
            old(self).wf(),
            kind_at(old(self).kinds(), old(self).pos as int) is If,
        ensures
            final(self).wf(),
            final(self).tokens == old(self).tokens,
            yields(
                r,
                statement(old(self).kinds(), old(self).pos as int),
                old(self).pos as int,
                final(self).pos as int,
            ),
        decreases old(self).tokens.len() - old(self).pos, 0nat,
    {
        self.expect(TokenType::If)?;
        let condition = self.parse_expr()?;
        let body = self.parse_block()?;
        let else_body = if matches!(self.current_token().token_type, TokenType::Else) {
            self.advance();
            Some(self.parse_block()?)
        } else {
            None
        };
        let s = Statement::If { condition, body, else_body };
        proof {
            lemma_statement_model(s);
        }
        Ok(s)
    }

    fn parse_while(&mut self) -> (r: Result<Statement, String>)
        requires
            old(self).wf(),
            kind_at(old(self).kinds(), old(self).pos as int) is While,
        ensures
            final(self).wf(),
            final(self).tokens == old(self).tokens,
            yields(
                r,
                statement(old(self).kinds(), old(self).pos as int),
                old(self).pos as int,
                final(self).pos as int,
            ),
        decreases old(self).tokens.len() - old(self).pos, 0nat,
    {
        self.expect(TokenType::While)?;
        let condition = self.parse_expr()?;
        let body = self.parse_block()?;
        let s = Statement::While { condition, body };
        proof {
            lemma_statement_model(s);
        }
        Ok(s)
    }

    fn parse_for(&mut self) -> (r: Result<Statement, String>)
        requires
            old(self).wf(),
            kind_at(old(self).kinds(), old(self).pos as int) is For,
        ensures
            final(self).wf(),
            final(self).tokens == old(self).tokens,
            yields(
                r,
                statement(old(self).kinds(), old(self).pos as int),
                old(self).pos as int,
                final(self).pos as int,
            ),
        decreases old(self).tokens.len() - old(self).pos, 0nat,
    {
        self.expect(TokenType::For)?;
        let var = match self.take_identifier() {
            Some(name) => name,
            None => {
                return Err(String::from_str("Expected variable name"));
            },
        };
        self.expect(TokenType::Equal)?;
        let start = self.parse_expr()?;
        self.expect(TokenType::Comma)?;
        let end = self.parse_expr()?;
        let body = self.parse_block()?;
        let s = Statement::For { var, start, end, body };
        proof {
            lemma_statement_model(s);
        }
        Ok(s)
    }

    fn parse_try(&mut self) -> (r: Result<Statement, String>)
        requires
            old(self).wf(),
            kind_at(old(self).kinds(), old(self).pos as int) is Try,
        ensures
            final(self).wf(),
            final(self).tokens == old(self).tokens,
            yields(
                r,
                statement(old(self).kinds(), old(self).pos as int),
                old(self).pos as int,
                final(self).pos as int,
            ),
        decreases old(self).tokens.len() - old(self).pos, 0nat,
    {
        self.expect(TokenType::Try)?;
        let body = self.parse_block()?;
        self.expect(TokenType::Catch)?;
        let catch_body = self.parse_block()?;
        let s = Statement::Try { body, catch_body };
        proof {
            lemma_statement_model(s);
        }
        Ok(s)
    }

    fn parse_expr(&mut self) -> (r: Result<Expr, String>)
        requires
            old(self).wf(),
        ensures
            final(self).wf(),
            final(self).tokens == old(self).tokens,
            yields(
                r,
                expression(old(self).kinds(), old(self).pos as int),
                old(self).pos as int,
                final(self).pos as int,
            ),
        decreases old(self).tokens.len() - old(self).pos, 12nat,
    {
        self.parse_binary(1)
    }

    /// The operator of binding level `level` at the current place, as it is
    /// written in the tree.
    fn operator(&self, level: u8) -> (r: Option<&'static str>)
        requires
            self.wf(),
        ensures
            match binary_operator(kind_at(self.kinds(), self.pos as int), level as nat) {
                Some(op) => r is Some && r->0@ == op,
                None => r is None,
            },
    {
        let kind = &self.current_token().token_type;
        if level == 1 {
            match kind {
                TokenType::Or => Some("||"),
                _ => None,
            }
        } else if level == 2 {
            match kind {
                TokenType::And => Some("&&"),
                _ => None,
            }
        } else if level == 3 {
            match kind {
                TokenType::EqualEqual => Some("=="),
                TokenType::NotEqual => Some("!="),
                TokenType::Less => Some("<"),
                TokenType::Greater => Some(">"),
                TokenType::LessEqual => Some("<="),
                TokenType::GreaterEqual => Some(">="),
                _ => None,
            }
        } else if level == 4 {
            match kind {
                TokenType::Plus => Some("+"),
                TokenType::Minus => Some("-"),
                _ => None,
            }
        } else if level == 5 {
            match kind {
                TokenType::Star => Some("*"),
                TokenType::Slash => Some("/"),
                TokenType::Percent => Some("%"),
                _ => None,
            }
        } else {
            None
        }
    }

    /// An expression of binding level `level`: operands of the next tighter
    /// level, joined from the left by the operators of this level.
    fn parse_binary(&mut self, level: u8) -> (r: Result<Expr, String>)
        requires
            old(self).wf(),
        ensures
            final(self).wf(),
            final(self).tokens == old(self).tokens,
            yields(
                r,
                binary(old(self).kinds(), old(self).pos as int, level as nat),
                old(self).pos as int,
                final(self).pos as int,
            ),
        decreases old(self).tokens.len() - old(self).pos, level_rank(level as nat),
    {
        if level > 5 {
            return self.parse_primary();
        }
        let ghost toks = self.kinds();
        let ghost start = self.pos as int;
        let mut left = self.parse_binary(level + 1)?;
        loop
            invariant
                self.wf(),
                self.tokens == old(self).tokens,
                toks == self.kinds(),
                start == old(self).pos,
                start <= self.pos,
                level <= 5,
                binary(toks, start, level as nat) == binary_rest(
                    toks,
                    self.pos as int,
                    level as nat,
                    left@,
                    (self.pos - start) as nat,
                ),
            ensures
                self.wf(),
                self.tokens == old(self).tokens,
                binary(toks, start, level as nat) == Ok::<(crate::syntax::ExprModel, nat), Seq<char>>(
                    (left@, (self.pos - start) as nat),
                ),
            decreases self.tokens.len() - self.pos,
        {
            match self.operator(level) {
                None => {
                    break ;
                },
                Some(op) => {
                    self.advance();
                    let right = self.parse_binary(level + 1)?;
                    left =
                    Expr::BinaryOp {
                        left: Box::new(left),
                        op: String::from_str(op),
                        right: Box::new(right),
                    };
                },
            }
        }
        Ok(left)
    }

    fn parse_primary(&mut self) -> (r: Result<Expr, String>)
        requires
            old(self).wf(),
        ensures
            final(self).wf(),
            final(self).tokens == old(self).tokens,
            yields(
                r,
                primary(old(self).kinds(), old(self).pos as int),
                old(self).pos as int,
                final(self).pos as int,
            ),
        decreases old(self).tokens.len() - old(self).pos, 0nat,
    {
        let ghost toks = self.kinds();
        let ghost start = self.pos as int;
        let found = match &self.current_token().token_type {
            TokenType::Number(n) => Some(Expr::Literal(n.clone())),
            TokenType::String(s) => {
                let mut quoted = String::from_str("\"");
                quoted.append(s.as_str());
                quoted.append("\"");
                Some(Expr::Literal(quoted))
            },
            _ => None,
        };
        if let Some(literal) = found {
            self.advance();
            return Ok(literal);
        }
        if let Some(name) = self.take_identifier() {
            if matches!(self.current_token().token_type, TokenType::LeftParen) {
                self.advance();
                let args = self.parse_arguments()?;
                proof {
                    lemma_call_model(name, args);
                }
                Ok(Expr::FunctionCall { name, args })
            } else {
                Ok(Expr::Identifier(name))
            }
        } else if matches!(self.current_token().token_type, TokenType::LeftParen) {
            self.advance();
            let inner = self.parse_expr()?;
            self.expect(TokenType::RightParen)?;
            Ok(inner)
        } else {
            let mut message = String::from_str("Unexpected token: ");
            message.append(self.current_token().token_type.describe().as_str());
            Err(message)
        }
    }

    /// The arguments of a call, up to and including the closing parenthesis.
    fn parse_arguments(&mut self) -> (r: Result<Vec<Expr>, String>)
        requires
            old(self).wf(),
        ensures
            final(self).wf(),
            final(self).tokens == old(self).tokens,
            yields_all(
                r,
                call_args(old(self).kinds(), old(self).pos as int),
                old(self).pos as int,
                final(self).pos as int,
            ),
        decreases old(self).tokens.len() - old(self).pos, 13nat,
    {
        let mut args: Vec<Expr> = Vec::new();
        let ghost toks = self.kinds();
        let ghost start = self.pos as int;
        while !matches!(self.current_token().token_type, TokenType::RightParen)
            invariant
                self.wf(),
                self.tokens == old(self).tokens,
                toks == self.kinds(),
                start == old(self).pos,
                start <= self.pos,
                call_args(toks, start) == after_prefix(
                    models(args@),
                    self.pos - start,
                    call_args(toks, self.pos as int),
                ),
            decreases self.tokens.len() - self.pos,
        {
            let ghost at = self.pos as int;
            let ghost done = models(args@);
            proof {
                lemma_binary_consumes(toks, at, 1);
                if kind_at(toks, at) is Eof {
                    lemma_binary_at_eof(toks, at, 1);
                }
            }
            let arg = self.parse_expr()?;
            let ghost value = arg@;
            args.push(arg);
            if matches!(self.current_token().token_type, TokenType::Comma) {
                self.advance();
            }
            proof {
                assert(models(args@) =~= done.push(value));
                lemma_after_prefix_push(
                    done,
                    at - start,
                    value,
                    (self.pos - at) as nat,
                    call_args(toks, self.pos as int),
                );
            }
        }
        self.advance();
        proof {
            assert(models(args@) + Seq::empty() =~= models(args@));
        }
        Ok(args)
    }
}

} // verus!
