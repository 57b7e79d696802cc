//! The grammar, as functions from a token sequence and a place in it to what
//! stands there.
//!
//! Each function reads the tokens from `pos` on and yields either a value
//! together with the number of tokens it is made of, or the message of the
//! first token that does not fit. Behind the last token there is only `Eof`.

use crate::syntax::DataType;
use crate::syntax::ExprModel;
use crate::syntax::FunctionModel;
use crate::syntax::RouteModel;
use crate::syntax::StatementModel;
use crate::syntax::TopLevelModel;
use crate::token::TokenKind;
use vstd::prelude::*;

verus! {

/// The kind of the token at `pos`; `Eof` behind the end.
pub open spec fn kind_at(toks: Seq<TokenKind>, pos: int) -> TokenKind {
    if 0 <= pos < toks.len() {
        toks[pos]
    } else {
        TokenKind::Eof
    }
}

/// The number of tokens from `pos` to the end.
pub open spec fn remaining(toks: Seq<TokenKind>, pos: int) -> nat {
    if pos < toks.len() {
        (toks.len() - pos) as nat
    } else {
        0
    }
}

/// The message for a token that is not the one required.
pub open spec fn expected_found(expected: TokenKind, found: TokenKind) -> Seq<char> {
    "Expected "@ + expected.describe() + ", found "@ + found.describe()
}

/// The message for a token that cannot start an expression.
pub open spec fn unexpected(found: TokenKind) -> Seq<char> {
    "Unexpected token: "@ + found.describe()
}

/// The type that a type keyword names.
pub open spec fn data_type_of(kind: TokenKind) -> Option<DataType> {
    match kind {
        TokenKind::Int => Some(DataType::Int),
        TokenKind::Float => Some(DataType::Float),
        TokenKind::Double => Some(DataType::Double),
        TokenKind::Txt => Some(DataType::Txt),
        TokenKind::Bool => Some(DataType::Bool),
        TokenKind::Auto => Some(DataType::Auto),
        _ => None,
    }
}

/// The HTTP method that a method keyword names.
pub open spec fn http_method_of(kind: TokenKind) -> Option<Seq<char>> {
    match kind {
        TokenKind::Get => Some("GET"@),
        TokenKind::Post => Some("POST"@),
        TokenKind::Put => Some("PUT"@),
        TokenKind::Delete => Some("DELETE"@),
        _ => None,
    }
}

/// The operator that `kind` is at binding level `level`, as it is written in
/// the tree. The levels, loosest first: logical or, logical and, comparison,
/// sum, product.
pub open spec fn binary_operator(kind: TokenKind, level: nat) -> Option<Seq<char>> {
    if level == 1 {
        match kind {
            TokenKind::Or => Some("||"@),
            _ => None,
        }
    } else if level == 2 {
        match kind {
            TokenKind::And => Some("&&"@),
            _ => None,
        }
    } else if level == 3 {
        match kind {
            TokenKind::EqualEqual => Some("=="@),
            TokenKind::NotEqual => Some("!="@),
            TokenKind::Less => Some("<"@),
            TokenKind::Greater => Some(">"@),
            TokenKind::LessEqual => Some("<="@),
            TokenKind::GreaterEqual => Some(">="@),
            _ => None,
        }
    } else if level == 4 {
        match kind {
            TokenKind::Plus => Some("+"@),
            TokenKind::Minus => Some("-"@),
            _ => None,
        }
    } else if level == 5 {
        match kind {
            TokenKind::Star => Some("*"@),
            TokenKind::Slash => Some("/"@),
            TokenKind::Percent => Some("%"@),
            _ => None,
        }
    } else {
        None
    }
}

/// The rank of a binding level among the functions that read at one place: a
/// looser level reads its operands through the tighter ones.
pub open spec fn level_rank(level: nat) -> nat {
    if level <= 5 {
        (2 * (6 - level) + 1) as nat
    } else {
        1
    }
}

/// A primary expression: a literal, a name, a call, or an expression in
/// parentheses. A string literal is kept with double quotes around it.
pub open spec fn primary(toks: Seq<TokenKind>, pos: int) -> Result<(ExprModel, nat), Seq<char>>
    decreases remaining(toks, pos), 0nat,
{
    match kind_at(toks, pos) {
        TokenKind::Number(n) => Ok((ExprModel::Literal(n), 1)),
        TokenKind::String(s) => Ok((ExprModel::Literal("\""@ + s + "\""@), 1)),
        TokenKind::Identifier(name) => {
            if kind_at(toks, pos + 1) is LeftParen {
                match call_args(toks, pos + 2) {
                    Ok((args, n)) => Ok((ExprModel::FunctionCall { name, args }, 2 + n)),
                    Err(m) => Err(m),
                }
            } else {
                Ok((ExprModel::Identifier(name), 1))
            }
        },
        TokenKind::LeftParen => {
            match binary(toks, pos + 1, 1) {
                Ok((e, n)) => {
                    if kind_at(toks, pos + 1 + n) is RightParen {
                        Ok((e, n + 2))
                    } else {
                        Err(expected_found(TokenKind::RightParen, kind_at(toks, pos + 1 + n)))
                    }
                },
                Err(m) => Err(m),
            }
        },
        other => Err(unexpected(other)),
    }
}

/// The arguments of a call, from behind the opening parenthesis up to and
/// including the closing one. A comma behind an argument is skipped; none is
/// required.
pub open spec fn call_args(toks: Seq<TokenKind>, pos: int) -> Result<
    (Seq<ExprModel>, nat),
    Seq<char>,
>
    decreases remaining(toks, pos), 12nat,
{
    if kind_at(toks, pos) is RightParen {
        Ok((Seq::empty(), 1))
    } else if kind_at(toks, pos) is Eof {
        Err(unexpected(TokenKind::Eof))
    } else {
        match binary(toks, pos, 1) {
            Ok((e, n)) => {
                if n == 0 {
                    // An expression is never empty: see `lemma_binary_consumes`.
                    Err(unexpected(kind_at(toks, pos)))
                } else {
                    let skip: nat = if kind_at(toks, pos + n) is Comma {
                        1
                    } else {
                        0
                    };
                    match call_args(toks, pos + n + skip) {
                        Ok((rest, k)) => Ok((seq![e] + rest, n + skip + k)),
                        Err(m) => Err(m),
                    }
                }
            },
            Err(m) => Err(m),
        }
    }
}

/// An expression of binding level `level`: operands of the next tighter level
/// with the operators of this level between them, grouped from the left.
/// Behind the tightest level stand the primary expressions.
pub open spec fn binary(toks: Seq<TokenKind>, pos: int, level: nat) -> Result<
    (ExprModel, nat),
    Seq<char>,
>
    decreases remaining(toks, pos), level_rank(level),
{
    if level > 5 {
        primary(toks, pos)
    } else {
        match binary(toks, pos, level + 1) {
            Ok((left, n)) => binary_rest(toks, pos + n, level, left, n),
            Err(m) => Err(m),
        }
    }
}

/// The rest of an expression of level `level` whose operands so far make up
/// `left`, out of `used` tokens: as long as an operator of the level follows,
/// one more operand is read and joined on the right.
pub open spec fn binary_rest(
    toks: Seq<TokenKind>,
    pos: int,
    level: nat,
    left: ExprModel,
    used: nat,
) -> Result<(ExprModel, nat), Seq<char>>
    decreases remaining(toks, pos), (level_rank(level) - 1) as nat,
{
    if 1 <= level <= 5 {
        match binary_operator(kind_at(toks, pos), level) {
            Some(op) => {
                match binary(toks, pos + 1, level + 1) {
                    Ok((right, n)) => binary_rest(
                        toks,
                        pos + 1 + n,
                        level,
                        ExprModel::BinaryOp { left: Box::new(left), op, right: Box::new(right) },
                        used + 1 + n,
                    ),
                    Err(m) => Err(m),
                }
            },
            None => Ok((left, used)),
        }
    } else {
        Ok((left, used))
    }
}

/// An expression.
pub open spec fn expression(toks: Seq<TokenKind>, pos: int) -> Result<(ExprModel, nat), Seq<char>> {
    binary(toks, pos, 1)
}

/// Whether a declaration is taken to start at `pos`: at `auto`, or at a name
/// directly followed by another name.
pub open spec fn starts_declaration(toks: Seq<TokenKind>, pos: int) -> bool {
    kind_at(toks, pos) is Auto || (kind_at(toks, pos) is Identifier && kind_at(toks, pos + 1)
        is Identifier)
}

/// A variable declaration: a type keyword, a name, and optionally `=` and a
/// value.
pub open spec fn declaration(toks: Seq<TokenKind>, pos: int) -> Result<
    (StatementModel, nat),
    Seq<char>,
> {
    match data_type_of(kind_at(toks, pos)) {
        Some(var_type) => {
            match kind_at(toks, pos + 1) {
                TokenKind::Identifier(name) => {
                    if kind_at(toks, pos + 2) is Equal {
                        match expression(toks, pos + 3) {
                            Ok((e, n)) => Ok(
                                (
                                    StatementModel::VarDecl {
                                        name,
                                        var_type,
                                        value: Some(e),
                                        is_public: false,
                                    },
                                    3 + n,
                                ),
                            ),
                            Err(m) => Err(m),
                        }
                    } else {
                        Ok(
                            (
                                StatementModel::VarDecl {
                                    name,
                                    var_type,
                                    value: None,
                                    is_public: false,
                                },
                                2,
                            ),
                        )
                    }
                },
                _ => Err("Expected variable name"@),
            }
        },
        None => Err("Expected data type"@),
    }
}

/// A `return`, with a value unless the block or the input ends behind it.
pub open spec fn return_statement(toks: Seq<TokenKind>, pos: int) -> Result<
    (StatementModel, nat),
    Seq<char>,
> {
    if !(kind_at(toks, pos) is Return) {
        Err(expected_found(TokenKind::Return, kind_at(toks, pos)))
    } else if kind_at(toks, pos + 1) is End || kind_at(toks, pos + 1) is Eof {
        Ok((StatementModel::Return(None), 1))
    } else {
        match expression(toks, pos + 1) {
            Ok((e, n)) => Ok((StatementModel::Return(Some(e)), 1 + n)),
            Err(m) => Err(m),
        }
    }
}

/// A statement.
pub open spec fn statement(toks: Seq<TokenKind>, pos: int) -> Result<
    (StatementModel, nat),
    Seq<char>,
>
    decreases remaining(toks, pos), 0nat,
{
    match kind_at(toks, pos) {
        TokenKind::Return => return_statement(toks, pos),
        TokenKind::If => {
            match expression(toks, pos + 1) {
                Ok((condition, n)) => {
                    match block(toks, pos + 1 + n) {
                        Ok((body, k)) => {
                            if kind_at(toks, pos + 1 + n + k) is Else {
                                match block(toks, pos + 1 + n + k + 1) {
                                    Ok((other, j)) => Ok(
                                        (
                                            StatementModel::If {
                                                condition,
                                                body,
                                                else_body: Some(other),
                                            },
                                            1 + n + k + 1 + j,
                                        ),
                                    ),
                                    Err(m) => Err(m),
                                }
                            } else {
                                Ok(
                                    (
                                        StatementModel::If { condition, body, else_body: None },
                                        1 + n + k,
                                    ),
                                )
                            }
                        },
                        Err(m) => Err(m),
                    }
                },
                Err(m) => Err(m),
            }
        },
        TokenKind::While => {
            match expression(toks, pos + 1) {
                Ok((condition, n)) => {
                    match block(toks, pos + 1 + n) {
                        Ok((body, k)) => Ok((StatementModel::While { condition, body }, 1 + n + k)),
                        Err(m) => Err(m),
                    }
                },
                Err(m) => Err(m),
            }
        },
        TokenKind::For => {
            match kind_at(toks, pos + 1) {
                TokenKind::Identifier(var) => {
                    if !(kind_at(toks, pos + 2) is Equal) {
                        Err(expected_found(TokenKind::Equal, kind_at(toks, pos + 2)))
                    } else {
                        match expression(toks, pos + 3) {
                            Ok((start, n)) => {
                                if !(kind_at(toks, pos + 3 + n) is Comma) {
                                    Err(
                                        expected_found(
                                            TokenKind::Comma,
                                            kind_at(toks, pos + 3 + n),
                                        ),
                                    )
                                } else {
                                    match expression(toks, pos + 3 + n + 1) {
                                        Ok((end, k)) => {
                                            match block(toks, pos + 3 + n + 1 + k) {
                                                Ok((body, j)) => Ok(
                                                    (
                                                        StatementModel::For {
                                                            var,
                                                            start,
                                                            end,
                                                            body,
                                                        },
                                                        3 + n + 1 + k + j,
                                                    ),
                                                ),
                                                Err(m) => Err(m),
                                            }
                                        },
                                        Err(m) => Err(m),
                                    }
                                }
                            },
                            Err(m) => Err(m),
                        }
                    }
                },
                _ => Err("Expected variable name"@),
            }
        },
        TokenKind::Try => {
            match block(toks, pos + 1) {
                Ok((body, n)) => {
                    if !(kind_at(toks, pos + 1 + n) is Catch) {
                        Err(expected_found(TokenKind::Catch, kind_at(toks, pos + 1 + n)))
                    } else {
                        match block(toks, pos + 1 + n + 1) {
                            Ok((catch_body, k)) => Ok(
                                (StatementModel::Try { body, catch_body }, 1 + n + 1 + k),
                            ),
                            Err(m) => Err(m),
                        }
                    }
                },
                Err(m) => Err(m),
            }
        },
        _ => {
            if starts_declaration(toks, pos) {
                declaration(toks, pos)
            } else {
                match expression(toks, pos) {
                    Ok((e, n)) => Ok((StatementModel::ExprStmt(e), n)),
                    Err(m) => Err(m),
                }
            }
        },
    }
}

/// A block: statements up to `end`, which belongs to the block, or up to the
/// end of the input, which is left where it is.
pub open spec fn block(toks: Seq<TokenKind>, pos: int) -> Result<
    (Seq<StatementModel>, nat),
    Seq<char>,
>
    decreases remaining(toks, pos), 1nat,
{
    if kind_at(toks, pos) is End {
        Ok((Seq::empty(), 1))
    } else if kind_at(toks, pos) is Eof {
        Ok((Seq::empty(), 0))
    } else {
        match statement(toks, pos) {
            Ok((s, n)) => {
                if n == 0 {
                    // A statement is never empty: see `lemma_statement_consumes`.
                    Err(unexpected(kind_at(toks, pos)))
                } else {
                    match block(toks, pos + n) {
                        Ok((rest, k)) => Ok((seq![s] + rest, n + k)),
                        Err(m) => Err(m),
                    }
                }
            },
            Err(m) => Err(m),
        }
    }
}

/// The parameters of a function, from behind the opening parenthesis up to
/// but not including the closing one: `name: type` each, a comma behind one
/// skipped but not required.
pub open spec fn parameters(toks: Seq<TokenKind>, pos: int) -> Result<
    (Seq<(Seq<char>, DataType)>, nat),
    Seq<char>,
>
    decreases remaining(toks, pos),
{
    match kind_at(toks, pos) {
        TokenKind::RightParen => Ok((Seq::empty(), 0)),
        TokenKind::Identifier(name) => {
            if !(kind_at(toks, pos + 1) is Colon) {
                Err(expected_found(TokenKind::Colon, kind_at(toks, pos + 1)))
            } else {
                match data_type_of(kind_at(toks, pos + 2)) {
                    Some(t) => {
                        let skip: nat = if kind_at(toks, pos + 3) is Comma {
                            1
                        } else {
                            0
                        };
                        match parameters(toks, pos + 3 + skip) {
                            Ok((rest, k)) => Ok((seq![(name, t)] + rest, 3 + skip + k)),
                            Err(m) => Err(m),
                        }
                    },
                    None => Err("Expected data type"@),
                }
            }
        },
        _ => Err("Expected parameter name"@),
    }
}

/// The return type behind a parameter list and the number of tokens it takes:
/// `->` and a type keyword, or nothing, which means `Auto`.
pub open spec fn return_type(toks: Seq<TokenKind>, pos: int) -> Result<(DataType, nat), Seq<char>> {
    if kind_at(toks, pos) is Arrow {
        match data_type_of(kind_at(toks, pos + 1)) {
            Some(t) => Ok((t, 2)),
            None => Err("Expected data type"@),
        }
    } else {
        Ok((DataType::Auto, 0))
    }
}

/// A function declaration, from `func` on.
pub open spec fn function(toks: Seq<TokenKind>, pos: int, is_public: bool) -> Result<
    (TopLevelModel, nat),
    Seq<char>,
> {
    if !(kind_at(toks, pos) is Func) {
        Err(expected_found(TokenKind::Func, kind_at(toks, pos)))
    } else {
        match kind_at(toks, pos + 1) {
            TokenKind::Identifier(name) => {
                if !(kind_at(toks, pos + 2) is LeftParen) {
                    Err(expected_found(TokenKind::LeftParen, kind_at(toks, pos + 2)))
                } else {
                    match parameters(toks, pos + 3) {
                        Ok((params, n)) => {
                            match return_type(toks, pos + 3 + n + 1) {
                                Ok((ret, k)) => {
                                    match block(toks, pos + 3 + n + 1 + k) {
                                        Ok((body, j)) => Ok(
                                            (
                                                TopLevelModel::Function(
                                                    FunctionModel {
                                                        name,
                                                        params,
                                                        return_type: ret,
                                                        body,
                                                        is_public,
                                                    },
                                                ),
                                                3 + n + 1 + k + j,
                                            ),
                                        ),
                                        Err(m) => Err(m),
                                    }
                                },
                                Err(m) => Err(m),
                            }
                        },
                        Err(m) => Err(m),
                    }
                }
            },
            _ => Err("Expected function name"@),
        }
    }
}

/// A route declaration: `route`, the path as a string literal, a method
/// keyword and the body.
pub open spec fn route(toks: Seq<TokenKind>, pos: int) -> Result<(TopLevelModel, nat), Seq<char>> {
    if !(kind_at(toks, pos) is Route) {
        Err(expected_found(TokenKind::Route, kind_at(toks, pos)))
    } else {
        match kind_at(toks, pos + 1) {
            TokenKind::String(path) => {
                match http_method_of(kind_at(toks, pos + 2)) {
                    Some(method) => {
                        match block(toks, pos + 3) {
                            Ok((body, n)) => Ok(
                                (TopLevelModel::Route(RouteModel { path, method, body }), 3 + n),
                            ),
                            Err(m) => Err(m),
                        }
                    },
                    None => Err("Expected HTTP method"@),
                }
            },
            _ => Err("Expected route path"@),
        }
    }
}

/// An import: `import`, a module name, `from`, a library name.
pub open spec fn import(toks: Seq<TokenKind>, pos: int) -> Result<(TopLevelModel, nat), Seq<char>> {
    if !(kind_at(toks, pos) is Import) {
        Err(expected_found(TokenKind::Import, kind_at(toks, pos)))
    } else {
        match kind_at(toks, pos + 1) {
            TokenKind::Identifier(module) => {
                if !(kind_at(toks, pos + 2) is From) {
                    Err(expected_found(TokenKind::From, kind_at(toks, pos + 2)))
                } else {
                    match kind_at(toks, pos + 3) {
                        TokenKind::Identifier(from) => Ok(
                            (TopLevelModel::Import { module, from }, 4),
                        ),
                        _ => Err("Expected from module"@),
                    }
                }
            },
            _ => Err("Expected module name"@),
        }
    }
}

/// What follows a visibility keyword, or stands without one: a function if
/// `func` comes next, else a statement.
pub open spec fn function_or_statement(toks: Seq<TokenKind>, pos: int, is_public: bool) -> Result<
    (TopLevelModel, nat),
    Seq<char>,
> {
    if kind_at(toks, pos) is Func {
        function(toks, pos, is_public)
    } else {
        match statement(toks, pos) {
            Ok((s, n)) => Ok((TopLevelModel::Statement(s), n)),
            Err(m) => Err(m),
        }
    }
}

/// A top-level item.
pub open spec fn item(toks: Seq<TokenKind>, pos: int) -> Result<(TopLevelModel, nat), Seq<char>> {
    match kind_at(toks, pos) {
        TokenKind::Import => import(toks, pos),
        TokenKind::Route => route(toks, pos),
        TokenKind::Public => {
            match function_or_statement(toks, pos + 1, true) {
                Ok((it, n)) => Ok((it, 1 + n)),
                Err(m) => Err(m),
            }
        },
        TokenKind::Private => {
            match function_or_statement(toks, pos + 1, false) {
                Ok((it, n)) => Ok((it, 1 + n)),
                Err(m) => Err(m),
            }
        },
        _ => function_or_statement(toks, pos, false),
    }
}

/// The items from `pos` up to the first `Eof`, or the first error among them.
pub open spec fn items(toks: Seq<TokenKind>, pos: int) -> Result<Seq<TopLevelModel>, Seq<char>>
    decreases remaining(toks, pos),
{
    if kind_at(toks, pos) is Eof {
        Ok(Seq::empty())
    } else {
        match item(toks, pos) {
            Ok((it, n)) => {
                proof {
                    lemma_item_consumes(toks, pos);
                }
                match items(toks, pos + n) {
                    Ok(rest) => Ok(seq![it] + rest),
                    Err(m) => Err(m),
                }
            },
            Err(m) => Err(m),
        }
    }
}

/// The program that a token sequence spells, or the first error in it.
pub open spec fn program(toks: Seq<TokenKind>) -> Result<Seq<TopLevelModel>, Seq<char>> {
    items(toks, 0)
}

/// A primary expression is made of at least one token.
pub proof fn lemma_primary_consumes(toks: Seq<TokenKind>, pos: int)
    ensures
        primary(toks, pos) matches Ok((_, n)) ==> n >= 1,
{
}

/// The rest of an expression adds to the tokens used so far.
pub proof fn lemma_binary_rest_consumes(
    toks: Seq<TokenKind>,
    pos: int,
    level: nat,
    left: ExprModel,
    used: nat,
)
    ensures
        binary_rest(toks, pos, level, left, used) matches Ok((_, n)) ==> n >= used,
    decreases remaining(toks, pos),
{
    if 1 <= level <= 5 {
        match binary_operator(kind_at(toks, pos), level) {
            Some(op) => {
                match binary(toks, pos + 1, level + 1) {
                    Ok((right, n)) => {
                        lemma_binary_rest_consumes(
                            toks,
                            pos + 1 + n,
                            level,
                            ExprModel::BinaryOp { left: Box::new(left), op, right: Box::new(right) },
                            used + 1 + n,
                        );
                    },
                    Err(_) => {},
                }
            },
            None => {},
        }
    }
}

/// An expression of any level is made of at least one token.
pub proof fn lemma_binary_consumes(toks: Seq<TokenKind>, pos: int, level: nat)
    ensures
        binary(toks, pos, level) matches Ok((_, n)) ==> n >= 1,
    decreases level_rank(level),
{
    if level > 5 {
        lemma_primary_consumes(toks, pos);
    } else {
        lemma_binary_consumes(toks, pos, level + 1);
        match binary(toks, pos, level + 1) {
            Ok((left, n)) => {
                lemma_binary_rest_consumes(toks, pos + n, level, left, n);
            },
            Err(_) => {},
        }
    }
}

/// Where the input ends, no expression starts.
pub proof fn lemma_binary_at_eof(toks: Seq<TokenKind>, pos: int, level: nat)
    requires
        kind_at(toks, pos) is Eof,
    ensures
        binary(toks, pos, level) is Err,
        binary(toks, pos, level)->Err_0 == unexpected(TokenKind::Eof),
    decreases level_rank(level),
{
    if level <= 5 {
        lemma_binary_at_eof(toks, pos, level + 1);
    } else {
        assert(kind_at(toks, pos) == TokenKind::Eof);
        assert(primary(toks, pos) is Err);
    }
}

/// A statement is made of at least one token.
pub proof fn lemma_statement_consumes(toks: Seq<TokenKind>, pos: int)
    ensures
        statement(toks, pos) matches Ok((_, n)) ==> n >= 1,
{
    lemma_binary_consumes(toks, pos, 1);
}

/// A top-level item is made of at least one token, and starts inside the
/// token sequence.
pub proof fn lemma_item_consumes(toks: Seq<TokenKind>, pos: int)
    ensures
        item(toks, pos) matches Ok((_, n)) ==> n >= 1,
{
    lemma_statement_consumes(toks, pos);
}

} // verus!
