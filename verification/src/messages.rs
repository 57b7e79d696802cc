//! The law that no error comes without a message.

use crate::grammar::binary;
use crate::grammar::binary_operator;
use crate::grammar::binary_rest;
use crate::grammar::block;
use crate::grammar::call_args;
use crate::grammar::data_type_of;
use crate::grammar::declaration;
use crate::grammar::expected_found;
use crate::grammar::expression;
use crate::grammar::function;
use crate::grammar::function_or_statement;
use crate::grammar::import;
use crate::grammar::item;
use crate::grammar::items;
use crate::grammar::kind_at;
use crate::grammar::lemma_item_consumes;
use crate::grammar::level_rank;
use crate::grammar::parameters;
use crate::grammar::primary;
use crate::grammar::program;
use crate::grammar::remaining;
use crate::grammar::return_statement;
use crate::grammar::return_type;
use crate::grammar::route;
use crate::grammar::starts_declaration;
use crate::grammar::statement;
use crate::grammar::unexpected;
use crate::source_kinds;
use crate::syntax::ExprModel;
use crate::token::TokenKind;
use crate::translation;
use vstd::prelude::*;

verus! {

/// Whether an outcome is a value, or an error with a message that is not
/// empty.
pub open spec fn has_message<T>(r: Result<T, Seq<char>>) -> bool {
    r matches Err(m) ==> m.len() > 0
}

/// The messages that name a token are not empty.
pub proof fn lemma_token_messages(expected: TokenKind, found: TokenKind)
    ensures
        expected_found(expected, found).len() > 0,
        unexpected(found).len() > 0,
{
    reveal_strlit("Expected ");
    reveal_strlit("Unexpected token: ");
}

/// The messages that name what is missing are not empty.
pub proof fn lemma_fixed_messages()
    ensures
        "Expected variable name"@.len() > 0,
        "Expected data type"@.len() > 0,
        "Expected parameter name"@.len() > 0,
        "Expected function name"@.len() > 0,
        "Expected route path"@.len() > 0,
        "Expected HTTP method"@.len() > 0,
        "Expected module name"@.len() > 0,
        "Expected from module"@.len() > 0,
{
    reveal_strlit("Expected variable name");
    reveal_strlit("Expected data type");
    reveal_strlit("Expected parameter name");
    reveal_strlit("Expected function name");
    reveal_strlit("Expected route path");
    reveal_strlit("Expected HTTP method");
    reveal_strlit("Expected module name");
    reveal_strlit("Expected from module");
}

/// A primary expression that is not there is reported with a message.
pub proof fn lemma_primary_message(toks: Seq<TokenKind>, pos: int)
    ensures
        has_message(primary(toks, pos)),
    decreases remaining(toks, pos), 0nat,
{
    lemma_token_messages(TokenKind::RightParen, kind_at(toks, pos));
    match kind_at(toks, pos) {
        TokenKind::Identifier(name) => {
            if kind_at(toks, pos + 1) is LeftParen {
                lemma_call_args_message(toks, pos + 2);
            }
        },
        TokenKind::LeftParen => {
            lemma_binary_message(toks, pos + 1, 1);
            match binary(toks, pos + 1, 1) {
                Ok((e, n)) => {
                    lemma_token_messages(TokenKind::RightParen, kind_at(toks, pos + 1 + n));
                },
                Err(_) => {},
            }
        },
        _ => {},
    }
}

/// Arguments that cannot be read are reported with a message.
pub proof fn lemma_call_args_message(toks: Seq<TokenKind>, pos: int)
    ensures
        has_message(call_args(toks, pos)),
    decreases remaining(toks, pos), 12nat,
{
    lemma_token_messages(TokenKind::Eof, kind_at(toks, pos));
    lemma_token_messages(TokenKind::Eof, TokenKind::Eof);
    if kind_at(toks, pos) is RightParen {
    } else if kind_at(toks, pos) is Eof {
    } else {
        lemma_binary_message(toks, pos, 1);
        match binary(toks, pos, 1) {
            Ok((e, n)) => {
                if n != 0 {
                    let skip: nat = if kind_at(toks, pos + n) is Comma {
                        1
                    } else {
                        0
                    };
                    lemma_call_args_message(toks, pos + n + skip);
                }
            },
            Err(_) => {},
        }
    }
}

/// An expression that cannot be read is reported with a message.
pub proof fn lemma_binary_message(toks: Seq<TokenKind>, pos: int, level: nat)
    ensures
        has_message(binary(toks, pos, level)),
    decreases remaining(toks, pos), level_rank(level),
{
    if level > 5 {
        lemma_primary_message(toks, pos);
    } else {
        lemma_binary_message(toks, pos, level + 1);
        match binary(toks, pos, level + 1) {
            Ok((left, n)) => {
                lemma_binary_rest_message(toks, pos + n, level, left, n);
            },
            Err(_) => {},
        }
    }
}

/// The rest of an expression that cannot be read is reported with a message.
pub proof fn lemma_binary_rest_message(
    toks: Seq<TokenKind>,
    pos: int,
    level: nat,
    left: ExprModel,
    used: nat,
)
    ensures
        has_message(binary_rest(toks, pos, level, left, used)),
    decreases remaining(toks, pos), (level_rank(level) - 1) as nat,
{
    if 1 <= level <= 5 {
        match binary_operator(kind_at(toks, pos), level) {
            Some(op) => {
                lemma_binary_message(toks, pos + 1, level + 1);
                match binary(toks, pos + 1, level + 1) {
                    Ok((right, n)) => {
                        lemma_binary_rest_message(
                            toks,
                            pos + 1 + n,
                            level,
                            ExprModel::BinaryOp { left: Box::new(left), op, right: Box::new(right) },
                            used + 1 + n,
                        );
                    },
                    Err(_) => {},
                }
            },
            None => {},
        }
    }
}

/// A declaration or a `return` that cannot be read is reported with a
/// message.
pub proof fn lemma_simple_statement_message(toks: Seq<TokenKind>, pos: int)
    ensures
        has_message(declaration(toks, pos)),
        has_message(return_statement(toks, pos)),
{
    lemma_fixed_messages();
    lemma_token_messages(TokenKind::Return, kind_at(toks, pos));
    lemma_binary_message(toks, pos + 3, 1);
    lemma_binary_message(toks, pos + 1, 1);
}

/// A statement that cannot be read is reported with a message.
pub proof fn lemma_statement_message(toks: Seq<TokenKind>, pos: int)
    ensures
        has_message(statement(toks, pos)),
    decreases remaining(toks, pos), 0nat,
{
    lemma_fixed_messages();
    lemma_simple_statement_message(toks, pos);
    match kind_at(toks, pos) {
        TokenKind::Return => {},
        TokenKind::If => {
            lemma_binary_message(toks, pos + 1, 1);
            match expression(toks, pos + 1) {
                Ok((condition, n)) => {
                    lemma_block_message(toks, pos + 1 + n);
                    match block(toks, pos + 1 + n) {
                        Ok((body, k)) => {
                            if kind_at(toks, pos + 1 + n + k) is Else {
                                lemma_block_message(toks, pos + 1 + n + k + 1);
                            }
                        },
                        Err(_) => {},
                    }
                },
                Err(_) => {},
            }
        },
        TokenKind::While => {
            lemma_binary_message(toks, pos + 1, 1);
            match expression(toks, pos + 1) {
                Ok((condition, n)) => {
                    lemma_block_message(toks, pos + 1 + n);
                },
                Err(_) => {},
            }
        },
        TokenKind::For => {
            lemma_token_messages(TokenKind::Equal, kind_at(toks, pos + 2));
            lemma_binary_message(toks, pos + 3, 1);
            match expression(toks, pos + 3) {
                Ok((start, n)) => {
                    lemma_token_messages(TokenKind::Comma, kind_at(toks, pos + 3 + n));
                    lemma_binary_message(toks, pos + 3 + n + 1, 1);
                    match expression(toks, pos + 3 + n + 1) {
                        Ok((end, k)) => {
                            lemma_block_message(toks, pos + 3 + n + 1 + k);
                        },
                        Err(_) => {},
                    }
                },
                Err(_) => {},
            }
        },
        TokenKind::Try => {
            lemma_block_message(toks, pos + 1);
            match block(toks, pos + 1) {
                Ok((body, n)) => {
                    lemma_token_messages(TokenKind::Catch, kind_at(toks, pos + 1 + n));
                    lemma_block_message(toks, pos + 1 + n + 1);
                },
                Err(_) => {},
            }
        },
        _ => {
            if !starts_declaration(toks, pos) {
                lemma_binary_message(toks, pos, 1);
            }
        },
    }
}

/// A block that cannot be read is reported with a message.
pub proof fn lemma_block_message(toks: Seq<TokenKind>, pos: int)
    ensures
        has_message(block(toks, pos)),
    decreases remaining(toks, pos), 1nat,
{
    lemma_token_messages(TokenKind::Eof, kind_at(toks, pos));
    if kind_at(toks, pos) is End {
    } else if kind_at(toks, pos) is Eof {
    } else {
        lemma_statement_message(toks, pos);
        match statement(toks, pos) {
            Ok((s, n)) => {
                if n != 0 {
                    lemma_block_message(toks, pos + n);
                }
            },
            Err(_) => {},
        }
    }
}

/// Parameters that cannot be read are reported with a message.
pub proof fn lemma_parameters_message(toks: Seq<TokenKind>, pos: int)
    ensures
        has_message(parameters(toks, pos)),
    decreases remaining(toks, pos),
{
    lemma_fixed_messages();
    lemma_token_messages(TokenKind::Colon, kind_at(toks, pos + 1));
    match kind_at(toks, pos) {
        TokenKind::Identifier(name) => {
            if kind_at(toks, pos + 1) is Colon {
                match data_type_of(kind_at(toks, pos + 2)) {
                    Some(t) => {
                        let skip: nat = if kind_at(toks, pos + 3) is Comma {
                            1
                        } else {
                            0
                        };
                        lemma_parameters_message(toks, pos + 3 + skip);
                    },
                    None => {},
                }
            }
        },
        _ => {},
    }
}

/// A function, or a statement in the place of one, that cannot be read is
/// reported with a message.
pub proof fn lemma_function_message(toks: Seq<TokenKind>, pos: int, is_public: bool)
    ensures
        has_message(function(toks, pos, is_public)),
        has_message(function_or_statement(toks, pos, is_public)),
{
    lemma_fixed_messages();
    lemma_token_messages(TokenKind::Func, kind_at(toks, pos));
    lemma_token_messages(TokenKind::LeftParen, kind_at(toks, pos + 2));
    lemma_statement_message(toks, pos);
    lemma_parameters_message(toks, pos + 3);
    match parameters(toks, pos + 3) {
        Ok((params, n)) => {
            match return_type(toks, pos + 3 + n + 1) {
                Ok((ret, k)) => {
                    lemma_block_message(toks, pos + 3 + n + 1 + k);
                },
                Err(_) => {},
            }
        },
        Err(_) => {},
    }
}

/// A top-level item that cannot be read is reported with a message.
pub proof fn lemma_item_message(toks: Seq<TokenKind>, pos: int)
    ensures
        has_message(item(toks, pos)),
        has_message(route(toks, pos)),
        has_message(import(toks, pos)),
{
    lemma_fixed_messages();
    lemma_token_messages(TokenKind::Route, kind_at(toks, pos));
    lemma_token_messages(TokenKind::Import, kind_at(toks, pos));
    lemma_token_messages(TokenKind::From, kind_at(toks, pos + 2));
    lemma_block_message(toks, pos + 3);
    lemma_function_message(toks, pos, false);
    lemma_function_message(toks, pos + 1, true);
    lemma_function_message(toks, pos + 1, false);
}

/// Items that cannot be read are reported with a message.
pub proof fn lemma_items_message(toks: Seq<TokenKind>, pos: int)
    ensures
        has_message(items(toks, pos)),
    decreases remaining(toks, pos),
{
    if !(kind_at(toks, pos) is Eof) {
        lemma_item_message(toks, pos);
        lemma_item_consumes(toks, pos);
        match item(toks, pos) {
            Ok((it, n)) => {
                lemma_items_message(toks, pos + n);
            },
            Err(_) => {},
        }
    }
}

/// Whenever a token sequence is no program, and whenever a source text has
/// no translation, there is a message that says why, and it is not empty.
pub proof fn lemma_every_error_has_a_message(toks: Seq<TokenKind>, source: Seq<char>)
    ensures
        has_message(program(toks)),
        has_message(translation(source)),
{
    lemma_items_message(toks, 0);
    lemma_items_message(source_kinds(source), 0);
}

} // verus!
