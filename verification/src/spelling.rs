//! How tokens are written in emitted code, and the law that the text emitted
//! for an expression is the writing of its tokens.
//!
//! Together with [`crate::precedence`] this says what an emitted expression
//! means: its text spells a token sequence, and that sequence is read back
//! as the expression it was emitted for.

use crate::emit::expr_text;
use crate::emit::expr_texts;
use crate::emit::operator_text;
use crate::grammar::binary_operator;
use crate::grammar::expression;
use crate::grammar::kind_at;
use crate::precedence::argument_tokens;
use crate::precedence::ends_expression;
use crate::precedence::expr_tokens;
use crate::precedence::is_quoted;
use crate::precedence::lemma_expression_round_trip;
use crate::precedence::lemma_operator_token;
use crate::precedence::needs_no_parentheses;
use crate::precedence::operator_level;
use crate::precedence::operator_token;
use crate::syntax::ExprModel;
use crate::text::join;
use crate::text::strip_leading;
use crate::text::strip_trailing;
use crate::text::trim_matching;
use crate::token::TokenKind;
use vstd::prelude::*;

verus! {

/// The operator that a token is at one of the binding levels, as it is
/// written in the tree.
pub open spec fn operator_of(kind: TokenKind) -> Option<Seq<char>> {
    if binary_operator(kind, 1) is Some {
        binary_operator(kind, 1)
    } else if binary_operator(kind, 2) is Some {
        binary_operator(kind, 2)
    } else if binary_operator(kind, 3) is Some {
        binary_operator(kind, 3)
    } else if binary_operator(kind, 4) is Some {
        binary_operator(kind, 4)
    } else {
        binary_operator(kind, 5)
    }
}

/// How a token of an expression is written in emitted code: a name and a
/// numeric literal as they are, a string literal between double quotes and
/// made an owned string, an operator between two spaces, a comma with a
/// space behind it.
pub open spec fn token_text(kind: TokenKind) -> Seq<char> {
    match kind {
        TokenKind::Identifier(name) => name,
        TokenKind::Number(s) => s,
        TokenKind::String(s) => "\""@ + s + "\".to_string()"@,
        TokenKind::LeftParen => "("@,
        TokenKind::RightParen => ")"@,
        TokenKind::Comma => ", "@,
        _ => match operator_of(kind) {
            Some(op) => " "@ + operator_text(op) + " "@,
            None => Seq::empty(),
        },
    }
}

/// The tokens written one after another.
pub open spec fn spelling(toks: Seq<TokenKind>) -> Seq<char>
    decreases toks.len(),
{
    if toks.len() == 0 {
        Seq::empty()
    } else {
        spelling(toks.drop_last()) + token_text(toks.last())
    }
}

/// Whether every literal in an expression is written as the token that
/// spells it: a quoted text has no further double quote at either end of
/// what is quoted, and no other literal starts with a double quote.
pub open spec fn literals_are_plain(e: ExprModel) -> bool
    decreases e,
{
    match e {
        ExprModel::Literal(s) => if is_quoted(s) {
            s.len() == 2 || (s[1] != '"' && s[s.len() - 2] != '"')
        } else {
            !(s.len() > 0 && s[0] == '"')
        },
        ExprModel::Identifier(_) => true,
        ExprModel::BinaryOp { left, op, right } => literals_are_plain(*left) && literals_are_plain(
            *right,
        ),
        ExprModel::FunctionCall { name, args } => forall|i: int|
            0 <= i < args.len() ==> literals_are_plain(#[trigger] args[i]),
    }
}

/// The writing of two token sequences, one behind the other, is the writing
/// of the first followed by that of the second.
pub proof fn lemma_spelling_concat(first: Seq<TokenKind>, second: Seq<TokenKind>)
    ensures
        spelling(first + second) == spelling(first) + spelling(second),
    decreases second.len(),
{
    if second.len() == 0 {
        assert(first + second =~= first);
        assert(spelling(first) + Seq::<char>::empty() =~= spelling(first));
    } else {
        let whole = first + second;
        assert(whole.drop_last() =~= first + second.drop_last());
        assert(whole.last() == second.last());
        lemma_spelling_concat(first, second.drop_last());
        assert(spelling(first) + spelling(second.drop_last()) + token_text(second.last())
            =~= spelling(first) + (spelling(second.drop_last()) + token_text(second.last())));
    }
}

/// The writing of a single token.
pub proof fn lemma_spelling_one(kind: TokenKind)
    ensures
        spelling(seq![kind]) == token_text(kind),
{
    let one = seq![kind];
    assert(one.drop_last().len() == 0);
    assert(spelling(one.drop_last()) == Seq::<char>::empty());
    assert(one.last() == kind);
    assert(Seq::<char>::empty() + token_text(kind) =~= token_text(kind));
}

/// The token of an operator is written as the operator between two spaces.
pub proof fn lemma_operator_spelling(op: Seq<char>)
    requires
        1 <= operator_level(op) <= 5,
    ensures
        token_text(operator_token(op)) == " "@ + operator_text(op) + " "@,
{
    lemma_operator_token(op, 1);
    lemma_operator_token(op, 2);
    lemma_operator_token(op, 3);
    lemma_operator_token(op, 4);
    lemma_operator_token(op, 5);
}

/// Nothing is stripped from the start of a text that does not start with
/// the character.
pub proof fn lemma_strip_leading_stops(s: Seq<char>, c: char)
    requires
        s.len() == 0 || s[0] != c,
    ensures
        strip_leading(s, c) == s,
{
}

/// Nothing is stripped from the end of a text that does not end with the
/// character.
pub proof fn lemma_strip_trailing_stops(s: Seq<char>, c: char)
    requires
        s.len() == 0 || s.last() != c,
    ensures
        strip_trailing(s, c) == s,
{
}

/// Taking the double quotes off a quoted text leaves what is quoted, where
/// that has no double quote at either end.
pub proof fn lemma_trim_quoted(s: Seq<char>)
    requires
        is_quoted(s),
        s.len() == 2 || (s[1] != '"' && s[s.len() - 2] != '"'),
    ensures
        trim_matching(s, '"') == s.subrange(1, s.len() - 1),
{
    let inner = s.subrange(1, s.len() - 1);
    let tail = s.drop_first();
    assert(tail.last() == '"');
    assert(tail.drop_last() =~= inner);
    if s.len() == 2 {
        assert(tail.drop_first() =~= Seq::<char>::empty());
        assert(strip_leading(tail, '"') == strip_leading(tail.drop_first(), '"'));
        lemma_strip_leading_stops(tail.drop_first(), '"');
        assert(strip_leading(s, '"') =~= Seq::<char>::empty());
        assert(inner =~= Seq::<char>::empty());
    } else {
        assert(tail[0] == s[1]);
        lemma_strip_leading_stops(tail, '"');
        assert(strip_leading(s, '"') == tail);
        assert(inner.last() == s[s.len() - 2]);
        lemma_strip_trailing_stops(inner, '"');
        assert(strip_trailing(tail, '"') == strip_trailing(inner, '"'));
    }
}

/// The texts of expressions, one by one, are the text of the first followed
/// by the texts of the others.
pub proof fn lemma_expr_texts_front(args: Seq<ExprModel>)
    requires
        args.len() > 0,
    ensures
        expr_texts(args) == seq![expr_text(args[0])] + expr_texts(args.drop_first()),
    decreases args.len(),
{
    if args.len() == 1 {
        assert(args.drop_last().len() == 0);
        assert(args.drop_first().len() == 0);
        assert(expr_texts(args.drop_last()) == Seq::<Seq<char>>::empty());
        assert(expr_texts(args.drop_first()) == Seq::<Seq<char>>::empty());
        assert(args.last() == args[0]);
        assert(expr_texts(args) =~= seq![expr_text(args[0])] + Seq::<Seq<char>>::empty());
    } else {
        lemma_expr_texts_front(args.drop_last());
        assert(args.drop_last().drop_first() =~= args.drop_first().drop_last());
        assert(args.drop_last()[0] == args[0]);
        assert(args.drop_first().last() == args.last());
        assert(expr_texts(args) =~= seq![expr_text(args[0])] + expr_texts(args.drop_first()));
    }
}

/// Joining a part with others behind it puts the separator between the part
/// and what the others are joined to.
pub proof fn lemma_join_front(x: Seq<char>, others: Seq<Seq<char>>, sep: Seq<char>)
    requires
        others.len() > 0,
    ensures
        join(seq![x] + others, sep) == x + sep + join(others, sep),
    decreases others.len(),
{
    let whole = seq![x] + others;
    assert(whole.drop_last() =~= seq![x] + others.drop_last());
    assert(whole.last() == others.last());
    if others.len() == 1 {
        assert(whole.drop_last() =~= seq![x]);
        assert(join(whole.drop_last(), sep) == x);
    } else {
        lemma_join_front(x, others.drop_last(), sep);
        assert(x + sep + join(others.drop_last(), sep) + sep + others.last() =~= x + sep + (join(
            others.drop_last(),
            sep,
        ) + sep + others.last()));
    }
}

/// The text emitted for an expression that needs no parentheses is the
/// writing of the tokens that spell it.
pub proof fn lemma_text_is_spelling(e: ExprModel)
    requires
        needs_no_parentheses(e),
        literals_are_plain(e),
    ensures
        expr_text(e) == spelling(expr_tokens(e)),
    decreases e, 1nat,
{
    match e {
        ExprModel::Literal(s) => {
            lemma_spelling_one(expr_tokens(e)[0]);
            assert(expr_tokens(e) =~= seq![expr_tokens(e)[0]]);
            if is_quoted(s) {
                lemma_trim_quoted(s);
            }
        },
        ExprModel::Identifier(name) => {
            lemma_spelling_one(TokenKind::Identifier(name));
        },
        ExprModel::BinaryOp { left, op, right } => {
            let first = expr_tokens(*left);
            let sign = seq![operator_token(op)];
            let second = expr_tokens(*right);
            lemma_text_is_spelling(*left);
            lemma_text_is_spelling(*right);
            lemma_spelling_concat(first + sign, second);
            lemma_spelling_concat(first, sign);
            lemma_spelling_one(operator_token(op));
            lemma_operator_spelling(op);
            assert(expr_text(e) =~= expr_text(*left) + (" "@ + operator_text(op) + " "@)
                + expr_text(*right));
        },
        ExprModel::FunctionCall { name, args } => {
            let head = seq![TokenKind::Identifier(name), TokenKind::LeftParen];
            let middle = argument_tokens(args);
            let tail = seq![TokenKind::RightParen];
            lemma_spelling_concat(head + middle, tail);
            lemma_spelling_concat(head, middle);
            lemma_spelling_one(TokenKind::RightParen);
            assert(head =~= seq![TokenKind::Identifier(name)] + seq![TokenKind::LeftParen]);
            lemma_spelling_concat(seq![TokenKind::Identifier(name)], seq![TokenKind::LeftParen]);
            lemma_spelling_one(TokenKind::Identifier(name));
            lemma_spelling_one(TokenKind::LeftParen);
            lemma_arguments_spelling(args);
        },
    }
}

/// The writing of the tokens of an argument list is the texts of the
/// arguments with a comma and a space between each two.
pub proof fn lemma_arguments_spelling(args: Seq<ExprModel>)
    requires
        forall|i: int| 0 <= i < args.len() ==> needs_no_parentheses(#[trigger] args[i]),
        forall|i: int| 0 <= i < args.len() ==> literals_are_plain(#[trigger] args[i]),
    ensures
        spelling(argument_tokens(args)) == join(expr_texts(args), ", "@),
    decreases args, 0nat,
{
    if args.len() == 0 {
    } else {
        assert(needs_no_parentheses(args[0]) && literals_are_plain(args[0]));
        lemma_text_is_spelling(args[0]);
        lemma_expr_texts_front(args);
        let rest = args.drop_first();
        if args.len() == 1 {
            assert(rest =~= Seq::<ExprModel>::empty());
            assert(expr_texts(args) =~= seq![expr_text(args[0])]);
        } else {
            assert forall|i: int| 0 <= i < rest.len() implies needs_no_parentheses(
                #[trigger] rest[i],
            ) && literals_are_plain(rest[i]) by {
                assert(rest[i] == args[i + 1]);
            }
            lemma_arguments_spelling(rest);
            let first = expr_tokens(args[0]);
            let comma = seq![TokenKind::Comma];
            lemma_spelling_concat(first + comma, argument_tokens(rest));
            lemma_spelling_concat(first, comma);
            lemma_spelling_one(TokenKind::Comma);
            lemma_expr_texts_front(rest);
            lemma_join_front(expr_text(args[0]), expr_texts(rest), ", "@);
        }
    }
}

/// What is emitted for an expression that needs no parentheses means the
/// expression itself: the text is the writing of a token sequence, and that
/// sequence, followed by a token that ends an expression or by nothing, is
/// read back as the expression.
pub proof fn lemma_emitted_expression_reads_back(e: ExprModel, rest: Seq<TokenKind>)
    requires
        needs_no_parentheses(e),
        literals_are_plain(e),
        ends_expression(kind_at(rest, 0), 1),
    ensures
        expr_text(e) == spelling(expr_tokens(e)),
        expression(expr_tokens(e) + rest, 0) == Ok::<(ExprModel, nat), Seq<char>>(
            (e, expr_tokens(e).len()),
        ),
{
    lemma_text_is_spelling(e);
    lemma_expression_round_trip(e, rest);
}

/// Emitting an expression and reading the emitted tokens gives the
/// expression back: for an expression that needs no parentheses and whose
/// literals are plain, the emitted text is the writing of its tokens, and the
/// tokens are read as the expression.
pub proof fn lemma_emitted_expression_round_trip(e: ExprModel)
    requires
        needs_no_parentheses(e),
        literals_are_plain(e),
    ensures
        expr_text(e) == spelling(expr_tokens(e)),
        expression(expr_tokens(e), 0) == Ok::<(ExprModel, nat), Seq<char>>(
            (e, expr_tokens(e).len()),
        ),
{
    let nothing = Seq::<TokenKind>::empty();
    assert(expr_tokens(e) + nothing =~= expr_tokens(e));
    lemma_emitted_expression_reads_back(e, nothing);
}

} // verus!
