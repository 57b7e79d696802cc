//! Expressions that need no parentheses, and the law that the grammar reads
//! them back as they are.
//!
//! Expressions are emitted without parentheses. An expression keeps its
//! shape under the grammar's binding levels exactly if no operand binds more
//! loosely than its place allows: the left operand of an operator at least
//! as tightly as the operator, the right operand more tightly.

use crate::grammar::binary;
use crate::grammar::binary_operator;
use crate::grammar::binary_rest;
use crate::grammar::call_args;
use crate::grammar::expression;
use crate::grammar::kind_at;
use crate::grammar::lemma_binary_rest_consumes;
use crate::grammar::level_rank;
use crate::grammar::primary;
use crate::grammar::remaining;
use crate::syntax::ExprModel;
use crate::token::TokenKind;
use vstd::prelude::*;

verus! {

/// The binding level of an operator as it is written in the tree, from 1 for
/// the loosest to 5 for the tightest; 0 for a text that is no operator.
pub open spec fn operator_level(op: Seq<char>) -> nat {
    if op == "||"@ {
        1
    } else if op == "&&"@ {
        2
    } else if op == "=="@ || op == "!="@ || op == "<"@ || op == ">"@ || op == "<="@ || op
        == ">="@ {
        3
    } else if op == "+"@ || op == "-"@ {
        4
    } else if op == "*"@ || op == "/"@ || op == "%"@ {
        5
    } else {
        0
    }
}

/// The token that spells an operator.
pub open spec fn operator_token(op: Seq<char>) -> TokenKind {
    if op == "||"@ {
        TokenKind::Or
    } else if op == "&&"@ {
        TokenKind::And
    } else if op == "=="@ {
        TokenKind::EqualEqual
    } else if op == "!="@ {
        TokenKind::NotEqual
    } else if op == "<"@ {
        TokenKind::Less
    } else if op == ">"@ {
        TokenKind::Greater
    } else if op == "<="@ {
        TokenKind::LessEqual
    } else if op == ">="@ {
        TokenKind::GreaterEqual
    } else if op == "+"@ {
        TokenKind::Plus
    } else if op == "-"@ {
        TokenKind::Minus
    } else if op == "*"@ {
        TokenKind::Star
    } else if op == "/"@ {
        TokenKind::Slash
    } else {
        TokenKind::Percent
    }
}

/// How tightly an expression binds: an operation as its operator, anything
/// else more tightly than every operator.
pub open spec fn expr_level(e: ExprModel) -> nat {
    match e {
        ExprModel::BinaryOp { left, op, right } => operator_level(op),
        _ => 6,
    }
}

/// Whether a literal is a text between two double quotes.
pub open spec fn is_quoted(s: Seq<char>) -> bool {
    s.len() >= 2 && s[0] == '"' && s.last() == '"'
}

/// The token that spells a literal: a string literal for a quoted text, a
/// numeric literal for any other.
pub open spec fn literal_token(s: Seq<char>) -> TokenKind {
    if is_quoted(s) {
        TokenKind::String(s.subrange(1, s.len() - 1))
    } else {
        TokenKind::Number(s)
    }
}

/// Whether an expression keeps its shape without parentheses: every
/// operation in it has one of the grammar's operators, a left operand that
/// binds at least as tightly as the operator and a right operand that binds
/// more tightly.
pub open spec fn needs_no_parentheses(e: ExprModel) -> bool
    decreases e,
{
    match e {
        ExprModel::Literal(_) => true,
        ExprModel::Identifier(_) => true,
        ExprModel::BinaryOp { left, op, right } => {
            &&& 1 <= operator_level(op) <= 5
            &&& needs_no_parentheses(*left)
            &&& needs_no_parentheses(*right)
            &&& expr_level(*left) >= operator_level(op)
            &&& expr_level(*right) > operator_level(op)
        },
        ExprModel::FunctionCall { name, args } => forall|i: int|
            0 <= i < args.len() ==> needs_no_parentheses(#[trigger] args[i]),
    }
}

/// The tokens that spell the arguments of a call, with a comma between each
/// two.
pub open spec fn argument_tokens(args: Seq<ExprModel>) -> Seq<TokenKind>
    decreases args,
{
    if args.len() == 0 {
        Seq::empty()
    } else if args.len() == 1 {
        expr_tokens(args[0])
    } else {
        expr_tokens(args[0]) + seq![TokenKind::Comma] + argument_tokens(args.drop_first())
    }
}

/// The tokens that spell an expression without any parentheses but those of
/// calls.
pub open spec fn expr_tokens(e: ExprModel) -> Seq<TokenKind>
    decreases e,
{
    match e {
        ExprModel::Literal(s) => seq![literal_token(s)],
        ExprModel::Identifier(name) => seq![TokenKind::Identifier(name)],
        ExprModel::BinaryOp { left, op, right } => expr_tokens(*left) + seq![operator_token(op)]
            + expr_tokens(*right),
        ExprModel::FunctionCall { name, args } => seq![
            TokenKind::Identifier(name),
            TokenKind::LeftParen,
        ] + argument_tokens(args) + seq![TokenKind::RightParen],
    }
}

/// Whether a token can stand behind an expression without being taken for a
/// part of it: it is no operator of level `level` or tighter and no opening
/// parenthesis.
pub open spec fn ends_expression(kind: TokenKind, level: nat) -> bool {
    &&& !(kind is LeftParen)
    &&& forall|l: nat| level <= l ==> (#[trigger] binary_operator(kind, l)) is None
}

/// Whether the tokens `part` stand in `toks` from `pos` on.
pub open spec fn spells_at(toks: Seq<TokenKind>, pos: int, part: Seq<TokenKind>) -> bool {
    &&& 0 <= pos
    &&& forall|i: int| 0 <= i < part.len() ==> #[trigger] part[i] == kind_at(toks, pos + i)
}

/// Where two parts stand one behind the other, each stands at its place.
pub proof fn lemma_spells_split(
    toks: Seq<TokenKind>,
    pos: int,
    first: Seq<TokenKind>,
    second: Seq<TokenKind>,
)
    requires
        spells_at(toks, pos, first + second),
    ensures
        spells_at(toks, pos, first),
        spells_at(toks, pos + first.len(), second),
{
    let whole = first + second;
    assert forall|i: int| 0 <= i < first.len() implies #[trigger] first[i] == kind_at(
        toks,
        pos + i,
    ) by {
        assert(whole[i] == first[i]);
    }
    assert forall|i: int| 0 <= i < second.len() implies #[trigger] second[i] == kind_at(
        toks,
        pos + first.len() + i,
    ) by {
        assert(whole[first.len() + i] == second[i]);
    }
}

/// The token of an operator is an operator of the operator's level, and of
/// no other.
pub proof fn lemma_operator_token(op: Seq<char>, level: nat)
    requires
        1 <= operator_level(op) <= 5,
    ensures
        binary_operator(operator_token(op), level) == if level == operator_level(op) {
            Some(op)
        } else {
            None
        },
        !(operator_token(op) is LeftParen),
        !(operator_token(op) is RightParen),
        !(operator_token(op) is Eof),
{
}

/// An expression is spelled by at least one token, and the first is a
/// literal or a name.
pub proof fn lemma_first_token(e: ExprModel)
    ensures
        expr_tokens(e).len() >= 1,
        expr_tokens(e)[0] is Number || expr_tokens(e)[0] is String || expr_tokens(e)[0]
            is Identifier,
    decreases e,
{
    match e {
        ExprModel::BinaryOp { left, op, right } => {
            lemma_first_token(*left);
        },
        _ => {},
    }
}

/// An expression that needs no parentheses and binds at least as tightly as
/// `level` is read back from its tokens as it is, at that level, where a
/// token follows that ends it.
pub proof fn lemma_reads_back(toks: Seq<TokenKind>, pos: int, e: ExprModel, level: nat)
    requires
        needs_no_parentheses(e),
        1 <= level <= 6,
        expr_level(e) >= level,
        spells_at(toks, pos, expr_tokens(e)),
        ends_expression(kind_at(toks, pos + expr_tokens(e).len()), level),
    ensures
        binary(toks, pos, level) == Ok::<(ExprModel, nat), Seq<char>>((e, expr_tokens(e).len())),
    decreases e, 6 - level, 1nat,
{
    let n = expr_tokens(e).len();
    let follower = kind_at(toks, pos + n);
    if level <= 5 {
        lemma_reads_chain(toks, pos, e, level);
        assert(binary_operator(follower, level) is None);
    } else {
        assert(binary(toks, pos, level) == primary(toks, pos));
        match e {
            ExprModel::Literal(s) => {
                assert(expr_tokens(e)[0] == kind_at(toks, pos + 0));
                if is_quoted(s) {
                    assert("\""@ + s.subrange(1, s.len() - 1) + "\""@ =~= s) by {
                        reveal_strlit("\"");
                    }
                }
            },
            ExprModel::Identifier(name) => {
                assert(expr_tokens(e)[0] == kind_at(toks, pos + 0));
            },
            ExprModel::BinaryOp { left, op, right } => {},
            ExprModel::FunctionCall { name, args } => {
                let head = seq![TokenKind::Identifier(name), TokenKind::LeftParen];
                let middle = argument_tokens(args);
                let tail = seq![TokenKind::RightParen];
                assert(expr_tokens(e) == head + middle + tail);
                lemma_spells_split(toks, pos, head + middle, tail);
                lemma_spells_split(toks, pos, head, middle);
                assert(head[0] == kind_at(toks, pos + 0));
                assert(head[1] == kind_at(toks, pos + 1));
                assert(tail[0] == kind_at(toks, pos + 2 + middle.len() + 0));
                lemma_reads_arguments(toks, pos + 2, args);
            },
        }
    }
}

/// Reading at `level`, the operands of an expression of that level are
/// joined one by one until the whole expression is reached.
pub proof fn lemma_reads_chain(toks: Seq<TokenKind>, pos: int, e: ExprModel, level: nat)
    requires
        needs_no_parentheses(e),
        1 <= level <= 5,
        expr_level(e) >= level,
        spells_at(toks, pos, expr_tokens(e)),
        ends_expression(kind_at(toks, pos + expr_tokens(e).len()), level + 1),
    ensures
        binary(toks, pos, level) == binary_rest(
            toks,
            pos + expr_tokens(e).len(),
            level,
            e,
            expr_tokens(e).len(),
        ),
    decreases e, 6 - level, 0nat,
{
    let n = expr_tokens(e).len();
    if expr_level(e) > level {
        lemma_reads_back(toks, pos, e, level + 1);
    } else {
        match e {
            ExprModel::BinaryOp { left, op, right } => {
                let first = expr_tokens(*left);
                let sign = seq![operator_token(op)];
                let second = expr_tokens(*right);
                assert(expr_tokens(e) == first + sign + second);
                lemma_spells_split(toks, pos, first + sign, second);
                lemma_spells_split(toks, pos, first, sign);
                assert(sign[0] == kind_at(toks, pos + first.len() + 0));
                assert forall|l: nat| level + 1 <= l implies (#[trigger] binary_operator(
                    operator_token(op),
                    l,
                )) is None by {
                    lemma_operator_token(op, l);
                }
                lemma_operator_token(op, level);
                lemma_reads_chain(toks, pos, *left, level);
                lemma_reads_back(toks, pos + first.len() + 1, *right, level + 1);
            },
            _ => {},
        }
    }
}

/// The arguments of a call that need no parentheses are read back from
/// their tokens as they are, up to the closing parenthesis.
pub proof fn lemma_reads_arguments(toks: Seq<TokenKind>, pos: int, args: Seq<ExprModel>)
    requires
        forall|i: int| 0 <= i < args.len() ==> needs_no_parentheses(#[trigger] args[i]),
        spells_at(toks, pos, argument_tokens(args)),
        kind_at(toks, pos + argument_tokens(args).len()) is RightParen,
    ensures
        call_args(toks, pos) == Ok::<(Seq<ExprModel>, nat), Seq<char>>(
            (args, (argument_tokens(args).len() + 1) as nat),
        ),
    decreases args, 0nat, 0nat,
{
    if args.len() == 0 {
        assert(args =~= Seq::<ExprModel>::empty());
    } else {
        let first = expr_tokens(args[0]);
        lemma_first_token(args[0]);
        assert(needs_no_parentheses(args[0]));
        if args.len() == 1 {
            assert(first[0] == kind_at(toks, pos + 0));
            lemma_reads_back(toks, pos, args[0], 1);
            assert(call_args(toks, pos + first.len()) == Ok::<(Seq<ExprModel>, nat), Seq<char>>(
                (Seq::empty(), 1),
            ));
            assert(seq![args[0]] + Seq::<ExprModel>::empty() =~= args);
        } else {
            let rest = args.drop_first();
            let comma = seq![TokenKind::Comma];
            let others = argument_tokens(rest);
            assert(argument_tokens(args) == first + comma + others);
            lemma_spells_split(toks, pos, first + comma, others);
            lemma_spells_split(toks, pos, first, comma);
            assert(first[0] == kind_at(toks, pos + 0));
            assert(comma[0] == kind_at(toks, pos + first.len() + 0));
            lemma_reads_back(toks, pos, args[0], 1);
            assert forall|i: int| 0 <= i < rest.len() implies needs_no_parentheses(
                #[trigger] rest[i],
            ) by {
                assert(rest[i] == args[i + 1]);
            }
            lemma_reads_arguments(toks, pos + first.len() + 1, rest);
            assert(seq![args[0]] + rest =~= args);
        }
    }
}

/// Parsing gives back every expression that needs no parentheses: where its
/// tokens are followed by a token that ends an expression, or by nothing,
/// they are read as the expression itself, and all of them are used.
pub proof fn lemma_expression_round_trip(e: ExprModel, rest: Seq<TokenKind>)
    requires
        needs_no_parentheses(e),
        ends_expression(kind_at(rest, 0), 1),
    ensures
        expression(expr_tokens(e) + rest, 0) == Ok::<(ExprModel, nat), Seq<char>>(
            (e, expr_tokens(e).len()),
        ),
{
    let toks = expr_tokens(e) + rest;
    let n = expr_tokens(e).len() as int;
    assert(kind_at(toks, 0 + n) == kind_at(rest, 0)) by {
        if rest.len() > 0 {
            assert(toks[n] == rest[0]);
        }
    }
    assert forall|i: int| 0 <= i < n implies #[trigger] expr_tokens(e)[i] == kind_at(
        toks,
        0 + i,
    ) by {
        assert(toks[i] == expr_tokens(e)[i]);
    }
    lemma_reads_back(toks, 0, e, 1);
}

/// The binding levels alone decide how an expression without parentheses is
/// read: the tokens of an expression that needs no parentheses, taken by
/// themselves, are read as the expression.
pub proof fn lemma_precedence_decides(e: ExprModel)
    requires
        needs_no_parentheses(e),
    ensures
        expression(expr_tokens(e), 0) == Ok::<(ExprModel, nat), Seq<char>>(
            (e, expr_tokens(e).len()),
        ),
{
    let nothing = Seq::<TokenKind>::empty();
    assert(expr_tokens(e) + nothing =~= expr_tokens(e));
    lemma_expression_round_trip(e, nothing);
}

/// Whether none of the `n` tokens from `pos` on is an opening parenthesis.
pub open spec fn no_parentheses(toks: Seq<TokenKind>, pos: int, n: nat) -> bool {
    forall|i: int| pos <= i < pos + n ==> !(#[trigger] kind_at(toks, i) is LeftParen)
}

/// The operator that a token is at a binding level has that level.
pub proof fn lemma_operator_level(kind: TokenKind, level: nat)
    ensures
        binary_operator(kind, level) matches Some(op) ==> operator_level(op) == level && 1 <= level
            <= 5,
{
    reveal_strlit("||");
    reveal_strlit("&&");
    reveal_strlit("==");
    reveal_strlit("!=");
    reveal_strlit("<");
    reveal_strlit(">");
    reveal_strlit("<=");
    reveal_strlit(">=");
    reveal_strlit("+");
    reveal_strlit("-");
    reveal_strlit("*");
    reveal_strlit("/");
    reveal_strlit("%");
    assert("||"@[0] == '|');
    assert("&&"@[0] == '&');
    assert("=="@[0] == '=');
    assert("!="@[0] == '!');
    assert("<"@[0] == '<');
    assert(">"@[0] == '>');
    assert("<="@[0] == '<');
    assert(">="@[0] == '>');
    assert("+"@[0] == '+');
    assert("-"@[0] == '-');
    assert("*"@[0] == '*');
    assert("/"@[0] == '/');
    assert("%"@[0] == '%');
}

/// Whether an expression is made of operators, names and literals alone:
/// there is no call in it.
pub open spec fn has_no_call(e: ExprModel) -> bool
    decreases e,
{
    match e {
        ExprModel::Literal(_) => true,
        ExprModel::Identifier(_) => true,
        ExprModel::BinaryOp { left, op, right } => has_no_call(*left) && has_no_call(*right),
        ExprModel::FunctionCall { name, args } => false,
    }
}

/// Whether none of the tokens is a parenthesis.
pub open spec fn no_parenthesis_tokens(toks: Seq<TokenKind>) -> bool {
    forall|i: int|
        0 <= i < toks.len() ==> !(#[trigger] toks[i] is LeftParen) && !(toks[i] is RightParen)
}

/// An expression without a call is spelled without a parenthesis.
pub proof fn lemma_spelled_without_parentheses(e: ExprModel)
    requires
        has_no_call(e),
    ensures
        no_parenthesis_tokens(expr_tokens(e)),
    decreases e,
{
    match e {
        ExprModel::BinaryOp { left, op, right } => {
            lemma_spelled_without_parentheses(*left);
            lemma_spelled_without_parentheses(*right);
            let first = expr_tokens(*left);
            let second = expr_tokens(*right);
            let all = expr_tokens(e);
            assert forall|i: int| 0 <= i < all.len() implies !(#[trigger] all[i] is LeftParen)
                && !(all[i] is RightParen) by {
                if i < first.len() {
                    assert(all[i] == first[i]);
                } else if i == first.len() {
                    assert(all[i] == operator_token(op));
                } else {
                    assert(all[i] == second[i - first.len() - 1]);
                }
            }
        },
        _ => {},
    }
}

/// What is read at a binding level from tokens without parentheses needs no
/// parentheses, holds no call and binds at least as tightly as the level.
pub proof fn lemma_read_needs_no_parentheses(toks: Seq<TokenKind>, pos: int, level: nat)
    requires
        1 <= level <= 6,
        binary(toks, pos, level) matches Ok((e, n)) && no_parentheses(toks, pos, n),
    ensures
        binary(toks, pos, level) matches Ok((e, n)) && needs_no_parentheses(e) && has_no_call(e)
            && expr_level(e) >= level,
    decreases remaining(toks, pos), level_rank(level),
{
    if level > 5 {
        let (e, n) = primary(toks, pos)->Ok_0;
        match kind_at(toks, pos) {
            TokenKind::Identifier(name) => {
                if kind_at(toks, pos + 1) is LeftParen {
                    assert(!(kind_at(toks, pos + 1) is LeftParen));
                }
            },
            TokenKind::LeftParen => {
                assert(!(kind_at(toks, pos) is LeftParen));
            },
            _ => {},
        }
        assert(expr_level(e) == 6);
    } else {
        let (left, used) = binary(toks, pos, level + 1)->Ok_0;
        let (e, n) = binary(toks, pos, level)->Ok_0;
        lemma_binary_rest_consumes(toks, pos + used, level, left, used);
        assert(no_parentheses(toks, pos, used)) by {
            assert forall|i: int| pos <= i < pos + used implies !(#[trigger] kind_at(toks, i)
                is LeftParen) by {}
        }
        lemma_read_needs_no_parentheses(toks, pos, level + 1);
        lemma_rest_needs_no_parentheses(toks, pos + used, level, left, used);
    }
}

/// Joining further operands read from tokens without parentheses to an
/// expression that needs none gives an expression that needs none.
pub proof fn lemma_rest_needs_no_parentheses(
    toks: Seq<TokenKind>,
    pos: int,
    level: nat,
    left: ExprModel,
    used: nat,
)
    requires
        1 <= level <= 5,
        needs_no_parentheses(left),
        has_no_call(left),
        expr_level(left) >= level,
        binary_rest(toks, pos, level, left, used) matches Ok((e, n)) && n >= used && no_parentheses(
            toks,
            pos,
            (n - used) as nat,
        ),
    ensures
        binary_rest(toks, pos, level, left, used) matches Ok((e, n)) && needs_no_parentheses(e)
            && has_no_call(e) && expr_level(e) >= level,
    decreases remaining(toks, pos), (level_rank(level) - 1) as nat,
{
    let (e, n) = binary_rest(toks, pos, level, left, used)->Ok_0;
    match binary_operator(kind_at(toks, pos), level) {
        Some(op) => {
            lemma_operator_level(kind_at(toks, pos), level);
            let (right, k) = binary(toks, pos + 1, level + 1)->Ok_0;
            let joined = ExprModel::BinaryOp { left: Box::new(left), op, right: Box::new(right) };
            lemma_binary_rest_consumes(toks, pos + 1 + k, level, joined, used + 1 + k);
            assert(no_parentheses(toks, pos + 1, k)) by {
                assert forall|i: int| pos + 1 <= i < pos + 1 + k implies !(#[trigger] kind_at(
                    toks,
                    i,
                ) is LeftParen) by {}
            }
            lemma_read_needs_no_parentheses(toks, pos + 1, level + 1);
            assert(no_parentheses(toks, pos + 1 + k, (n - (used + 1 + k)) as nat)) by {
                assert forall|i: int|
                    pos + 1 + k <= i < pos + 1 + k + (n - (used + 1 + k)) implies !(
                #[trigger] kind_at(toks, i) is LeftParen) by {}
            }
            lemma_rest_needs_no_parentheses(toks, pos + 1 + k, level, joined, used + 1 + k);
        },
        None => {},
    }
}

/// An expression of operators, names and literals keeps its shape: what is
/// read from tokens without parentheses is spelled without parentheses, and
/// is read again, as the same expression, from the tokens that spell it.
pub proof fn lemma_operators_round_trip(toks: Seq<TokenKind>, pos: int)
    requires
        expression(toks, pos) matches Ok((e, n)) && no_parentheses(toks, pos, n),
    ensures
        expression(toks, pos) matches Ok((e, n)) && needs_no_parentheses(e) && has_no_call(e)
            && no_parenthesis_tokens(expr_tokens(e)) && expression(expr_tokens(e), 0) == Ok::<
            (ExprModel, nat),
            Seq<char>,
        >((e, expr_tokens(e).len())),
{
    lemma_read_needs_no_parentheses(toks, pos, 1);
    lemma_spelled_without_parentheses(expression(toks, pos)->Ok_0.0);
    lemma_precedence_decides(expression(toks, pos)->Ok_0.0);
}

} // verus!
