//! The grammar of the language: what syntax tree a sequence of tokens
//! stands for.
//!
//! Every rule reads the tokens from a place on and gives what it read and
//! the place after it, or the first place where the tokens do not fit and
//! what was wanted there.

use vstd::prelude::*;
use crate::ast::{BinaryOperator, UnaryOperator};
use crate::span::Span;
use crate::syntax::{ExprView, FuncView, MemberView, ParamView, SignatureView, StmtView, TargetView};
use crate::token::{Keyword, Symbol, TokenKind, TokenView};

verus! {

/// What was wanted where the tokens do not fit.
#[derive(Clone, Copy, Debug, PartialEq, Eq, Structural)]
pub enum Expected {
    Symbol(Symbol),
    Keyword(Keyword),
    Identifier,
    /// An identifier or a keyword, as a name after a dot.
    Name,
    /// A string literal.
    Text,
    Expression,
    /// A declaration after `экспорт`.
    Declaration,
    /// A member of a class.
    Member,
    /// Something that can be assigned to.
    Target,
    /// A statement, or the end of the tokens.
    Statement,
    /// A rule that reads at least one token.
    Progress,
    /// Fewer tokens: no more than places can be counted for.
    Fewer,
}

/// Where the tokens do not fit, counted in tokens, and what was wanted
/// there.
#[derive(Clone, Copy, Debug, PartialEq, Eq, Structural)]
pub struct Failure {
    pub expected: Expected,
    pub at: usize,
}

pub type Parsed<T> = Result<(T, nat), Failure>;

pub open spec fn fail(expected: Expected, pos: nat) -> Failure {
    Failure { expected, at: pos as usize }
}

/// The kind of the token at a place; past the tokens, the end marker.
pub open spec fn kind_at(tokens: Seq<TokenView>, pos: nat) -> TokenKind {
    if pos < tokens.len() {
        tokens[pos as int].kind
    } else {
        TokenKind::End
    }
}

/// The text of the token at a place.
pub open spec fn text_at(tokens: Seq<TokenView>, pos: nat) -> Seq<char> {
    if pos < tokens.len() {
        tokens[pos as int].text
    } else {
        Seq::empty()
    }
}

pub open spec fn is_symbol(tokens: Seq<TokenView>, pos: nat, symbol: Symbol) -> bool {
    kind_at(tokens, pos) == TokenKind::Symbol(symbol)
}

pub open spec fn is_keyword(tokens: Seq<TokenView>, pos: nat, keyword: Keyword) -> bool {
    kind_at(tokens, pos) == TokenKind::Keyword(keyword)
}

/// The bytes of the source that the tokens from `first` up to `next`
/// cover.
pub open spec fn cover(tokens: Seq<TokenView>, first: nat, next: nat) -> Span {
    if first < next <= tokens.len() {
        Span { start: tokens[first as int].span.start, end: tokens[next - 1].span.end }
    } else {
        Span { start: 0, end: 0 }
    }
}

/// A result that goes forward: one that ends at `least` or later, within
/// the tokens. Every rule of the grammar ends so; a result that did not
/// would count as a failure.
pub open spec fn forward<T>(tokens: Seq<TokenView>, least: nat, r: Parsed<T>) -> Parsed<T> {
    match r {
        Ok((_, next)) => if least <= next <= tokens.len() {
            r
        } else {
            Err(fail(Expected::Progress, least))
        },
        Err(_) => r,
    }
}

/// The symbol at `pos`: the place after it.
pub open spec fn symbol_at(tokens: Seq<TokenView>, pos: nat, symbol: Symbol) -> Result<nat, Failure> {
    if is_symbol(tokens, pos, symbol) {
        Ok(pos + 1)
    } else {
        Err(fail(Expected::Symbol(symbol), pos))
    }
}

/// The keyword at `pos`: the place after it.
pub open spec fn keyword_at(tokens: Seq<TokenView>, pos: nat, keyword: Keyword) -> Result<nat, Failure> {
    if is_keyword(tokens, pos, keyword) {
        Ok(pos + 1)
    } else {
        Err(fail(Expected::Keyword(keyword), pos))
    }
}

/// The identifier at `pos`.
pub open spec fn identifier_at(tokens: Seq<TokenView>, pos: nat) -> Parsed<Seq<char>> {
    if kind_at(tokens, pos) == TokenKind::Identifier {
        Ok((text_at(tokens, pos), pos + 1))
    } else {
        Err(fail(Expected::Identifier, pos))
    }
}

/// The name at `pos`: an identifier, or a keyword that stands as a name.
pub open spec fn name_at(tokens: Seq<TokenView>, pos: nat) -> Parsed<Seq<char>> {
    if kind_at(tokens, pos) == TokenKind::Identifier || kind_at(tokens, pos) is Keyword {
        Ok((text_at(tokens, pos), pos + 1))
    } else {
        Err(fail(Expected::Name, pos))
    }
}

/// The type annotation at `pos`, if one stands there: `: name`.
pub open spec fn annotation_at(tokens: Seq<TokenView>, pos: nat) -> Parsed<Option<Seq<char>>> {
    if is_symbol(tokens, pos, Symbol::Colon) {
        match identifier_at(tokens, pos + 1) {
            Ok((name, next)) => Ok((Some(name), next)),
            Err(failure) => Err(failure),
        }
    } else {
        Ok((None, pos))
    }
}

/// One parameter: `name` or `name: type`.
pub open spec fn parameter_at(tokens: Seq<TokenView>, pos: nat) -> Parsed<ParamView> {
    match identifier_at(tokens, pos) {
        Ok((name, after_name)) => match annotation_at(tokens, after_name) {
            Ok((type_annotation, next)) => Ok(
                (ParamView { name, type_annotation, span: cover(tokens, pos, next) }, next),
            ),
            Err(failure) => Err(failure),
        },
        Err(failure) => Err(failure),
    }
}

/// Parameters with commas between them, up to the closing parenthesis.
#[verifier::opaque]
pub open spec fn parameters_from(tokens: Seq<TokenView>, pos: nat, read: Seq<ParamView>) -> Parsed<Seq<ParamView>>
    decreases tokens.len() - pos,
{
    match parameter_at(tokens, pos) {
        Ok((parameter, next)) => if is_symbol(tokens, next, Symbol::Comma) {
            if pos < next < tokens.len() {
                parameters_from(tokens, next + 1, read.push(parameter))
            } else {
                Err(fail(Expected::Progress, pos))
            }
        } else if is_symbol(tokens, next, Symbol::RightParen) {
            Ok((read.push(parameter), next + 1))
        } else {
            Err(fail(Expected::Symbol(Symbol::RightParen), next))
        },
        Err(failure) => Err(failure),
    }
}

/// A parameter list in parentheses.
pub open spec fn parameters_at(tokens: Seq<TokenView>, pos: nat) -> Parsed<Seq<ParamView>> {
    if !is_symbol(tokens, pos, Symbol::LeftParen) {
        Err(fail(Expected::Symbol(Symbol::LeftParen), pos))
    } else if is_symbol(tokens, pos + 1, Symbol::RightParen) {
        Ok((Seq::empty(), pos + 2))
    } else {
        parameters_from(tokens, pos + 1, Seq::empty())
    }
}

/// The binary operator that the token at `pos` is.
pub open spec fn operator_at(tokens: Seq<TokenView>, pos: nat) -> Option<BinaryOperator> {
    match kind_at(tokens, pos) {
        TokenKind::Keyword(Keyword::And) => Some(BinaryOperator::And),
        TokenKind::Keyword(Keyword::Or) => Some(BinaryOperator::Or),
        TokenKind::Symbol(Symbol::Equal) => Some(BinaryOperator::Equal),
        TokenKind::Symbol(Symbol::NotEqual) => Some(BinaryOperator::NotEqual),
        TokenKind::Symbol(Symbol::LessEqual) => Some(BinaryOperator::LessEqual),
        TokenKind::Symbol(Symbol::GreaterEqual) => Some(BinaryOperator::GreaterEqual),
        TokenKind::Symbol(Symbol::Less) => Some(BinaryOperator::Less),
        TokenKind::Symbol(Symbol::Greater) => Some(BinaryOperator::Greater),
        TokenKind::Symbol(Symbol::Plus) => Some(BinaryOperator::Add),
        TokenKind::Symbol(Symbol::Minus) => Some(BinaryOperator::Subtract),
        TokenKind::Symbol(Symbol::Star) => Some(BinaryOperator::Multiply),
        TokenKind::Symbol(Symbol::Slash) => Some(BinaryOperator::Divide),
        TokenKind::Symbol(Symbol::Percent) => Some(BinaryOperator::Modulo),
        _ => None,
    }
}

/// The unary operator that the token at `pos` is.
pub open spec fn prefix_at(tokens: Seq<TokenView>, pos: nat) -> Option<UnaryOperator> {
    match kind_at(tokens, pos) {
        TokenKind::Symbol(Symbol::Minus) => Some(UnaryOperator::Negate),
        TokenKind::Symbol(Symbol::Bang) => Some(UnaryOperator::Not),
        _ => None,
    }
}

/// Whether the token at `pos` ends a block.
pub open spec fn closes_block(tokens: Seq<TokenView>, pos: nat) -> bool {
    kind_at(tokens, pos) == TokenKind::End || is_keyword(tokens, pos, Keyword::End) || is_keyword(
        tokens,
        pos,
        Keyword::Else,
    ) || is_keyword(tokens, pos, Keyword::Catch)
}

/// What an expression is as the left side of an assignment.
pub open spec fn target_of(e: ExprView) -> Option<TargetView> {
    match e {
        ExprView::Identifier(name, _) => Some(TargetView::Identifier(name)),
        ExprView::FieldAccess { object, field, .. } => Some(TargetView::FieldAccess(object, field)),
        ExprView::Index { object, index, .. } => Some(TargetView::Index(object, index)),
        _ => None,
    }
}

/// Where the symbol that closes a list is looked for after the item that
/// ends at `pos`: there, or behind one semicolon that stands before it. (A
/// list that ends its line gets such a semicolon where semicolons that need
/// not be written are put in.)
pub open spec fn closing_at(tokens: Seq<TokenView>, pos: nat, close: Symbol) -> nat {
    if is_symbol(tokens, pos, Symbol::Semicolon) && is_symbol(tokens, pos + 1, close) {
        pos + 1
    } else {
        pos
    }
}

/// Where a list that is not closed is said to fail: at the token that
/// follows its last item, or behind it where it is a semicolon, so that
/// the failure lies at what was written and not at a semicolon that the
/// end of a line stands for.
pub open spec fn behind_semicolon(tokens: Seq<TokenView>, pos: nat) -> nat {
    if is_symbol(tokens, pos, Symbol::Semicolon) {
        pos + 1
    } else {
        pos
    }
}

/// A function expression: `функ (parameters) [: type] statements конец`.
#[verifier::opaque]
pub open spec fn lambda_at(tokens: Seq<TokenView>, pos: nat) -> Parsed<ExprView>
    decreases tokens.len() - pos, 0nat,
{
    if !is_keyword(tokens, pos, Keyword::Func) {
        Err(fail(Expected::Keyword(Keyword::Func), pos))
    } else {
        match forward(tokens, pos + 1, parameters_at(tokens, pos + 1)) {
            Ok((params, after_params)) => match forward(tokens, after_params, annotation_at(tokens, after_params)) {
                Ok((_, start)) => match forward(tokens, start, block_from(tokens, start, Seq::empty())) {
                    Ok((body, end)) => match keyword_at(tokens, end, Keyword::End) {
                        Ok(next) => Ok((ExprView::Lambda { params, body, span: cover(tokens, pos, next) }, next)),
                        Err(failure) => Err(failure),
                    },
                    Err(failure) => Err(failure),
                },
                Err(failure) => Err(failure),
            },
            Err(failure) => Err(failure),
        }
    }
}

/// Expressions with commas between them, up to the closing symbol.
#[verifier::opaque]
pub open spec fn expressions_until(tokens: Seq<TokenView>, pos: nat, read: Seq<ExprView>, close: Symbol) -> Parsed<
    Seq<ExprView>,
>
    decreases tokens.len() - pos, 6nat,
{
    match forward(tokens, pos + 1, expression_at(tokens, pos)) {
        Ok((item, next)) => if is_symbol(tokens, next, Symbol::Comma) {
            expressions_until(tokens, next + 1, read.push(item), close)
        } else if is_symbol(tokens, closing_at(tokens, next, close), close) {
            Ok((read.push(item), closing_at(tokens, next, close) + 1))
        } else {
            Err(fail(Expected::Symbol(close), behind_semicolon(tokens, next)))
        },
        Err(failure) => Err(failure),
    }
}

/// A list of expressions after its opening symbol, which may be empty.
#[verifier::opaque]
pub open spec fn list_at(tokens: Seq<TokenView>, pos: nat, close: Symbol) -> Parsed<Seq<ExprView>>
    decreases tokens.len() - pos, 7nat,
{
    if is_symbol(tokens, pos, close) {
        Ok((Seq::empty(), pos + 1))
    } else {
        expressions_until(tokens, pos, Seq::empty(), close)
    }
}

/// Pairs `key: value` with commas between them, up to the closing brace.
#[verifier::opaque]
pub open spec fn pairs_until(tokens: Seq<TokenView>, pos: nat, read: Seq<(ExprView, ExprView)>) -> Parsed<
    Seq<(ExprView, ExprView)>,
>
    decreases tokens.len() - pos, 6nat,
{
    match forward(tokens, pos + 1, expression_at(tokens, pos)) {
        Ok((key, colon)) => if !is_symbol(tokens, colon, Symbol::Colon) {
            Err(fail(Expected::Symbol(Symbol::Colon), colon))
        } else {
            match forward(tokens, colon + 2, expression_at(tokens, colon + 1)) {
                Ok((value, next)) => if is_symbol(tokens, next, Symbol::Comma) {
                    pairs_until(tokens, next + 1, read.push((key, value)))
                } else if is_symbol(tokens, closing_at(tokens, next, Symbol::RightBrace), Symbol::RightBrace) {
                    Ok((read.push((key, value)), closing_at(tokens, next, Symbol::RightBrace) + 1))
                } else {
                    Err(fail(Expected::Symbol(Symbol::RightBrace), behind_semicolon(tokens, next)))
                },
                Err(failure) => Err(failure),
            }
        },
        Err(failure) => Err(failure),
    }
}

/// The end of a slice, after its colon: `]` or `end]`. The slice covers
/// the brackets.
#[verifier::opaque]
pub open spec fn slice_end_at(tokens: Seq<TokenView>, open: nat, start: Option<Box<ExprView>>, pos: nat) -> Parsed<
    ExprView,
>
    decreases tokens.len() - pos, 6nat,
{
    if is_symbol(tokens, pos, Symbol::RightBracket) {
        Ok((ExprView::Range { start, end: None, span: cover(tokens, open, pos + 1) }, pos + 1))
    } else {
        match forward(tokens, pos + 1, expression_at(tokens, pos)) {
            Ok((end, close)) => if is_symbol(tokens, close, Symbol::RightBracket) {
                Ok(
                    (
                        ExprView::Range { start, end: Some(Box::new(end)), span: cover(tokens, open, close + 1) },
                        close + 1,
                    ),
                )
            } else {
                Err(fail(Expected::Symbol(Symbol::RightBracket), close))
            },
            Err(failure) => Err(failure),
        }
    }
}

/// What stands in brackets after an expression, the opening bracket at
/// `open`: an index `[e]` or a slice `[a:b]` with either end optional.
#[verifier::opaque]
pub open spec fn index_at(tokens: Seq<TokenView>, open: nat) -> Parsed<ExprView>
    decreases tokens.len() - (open + 1), 7nat,
{
    let pos = open + 1;
    if is_symbol(tokens, pos, Symbol::Colon) {
        slice_end_at(tokens, open, None, pos + 1)
    } else {
        match forward(tokens, pos + 1, expression_at(tokens, pos)) {
            Ok((first, next)) => if is_symbol(tokens, next, Symbol::Colon) {
                slice_end_at(tokens, open, Some(Box::new(first)), next + 1)
            } else if is_symbol(tokens, next, Symbol::RightBracket) {
                Ok((first, next + 1))
            } else {
                Err(fail(Expected::Symbol(Symbol::RightBracket), next))
            },
            Err(failure) => Err(failure),
        }
    }
}

/// A primary expression: a literal, a name, `это`, `родитель.name`, a
/// function expression, an expression in parentheses, an array or a
/// dictionary literal.
#[verifier::opaque]
pub open spec fn primary_at(tokens: Seq<TokenView>, pos: nat) -> Parsed<ExprView>
    decreases tokens.len() - pos, 1nat,
{
    match kind_at(tokens, pos) {
        TokenKind::Number => Ok((ExprView::Number(tokens[pos as int].number, cover(tokens, pos, pos + 1)), pos + 1)),
        TokenKind::Text => Ok((ExprView::String(text_at(tokens, pos), cover(tokens, pos, pos + 1)), pos + 1)),
        TokenKind::Identifier => Ok(
            (ExprView::Identifier(text_at(tokens, pos), cover(tokens, pos, pos + 1)), pos + 1),
        ),
        TokenKind::Keyword(Keyword::True) => Ok((ExprView::Boolean(true, cover(tokens, pos, pos + 1)), pos + 1)),
        TokenKind::Keyword(Keyword::False) => Ok((ExprView::Boolean(false, cover(tokens, pos, pos + 1)), pos + 1)),
        TokenKind::Keyword(Keyword::This) => Ok((ExprView::This(cover(tokens, pos, pos + 1)), pos + 1)),
        TokenKind::Keyword(Keyword::Super) => if !is_symbol(tokens, pos + 1, Symbol::Dot) {
            Err(fail(Expected::Symbol(Symbol::Dot), pos + 1))
        } else {
            match name_at(tokens, pos + 2) {
                Ok((method, next)) => Ok((ExprView::Super(method, cover(tokens, pos, next)), next)),
                Err(failure) => Err(failure),
            }
        },
        TokenKind::Keyword(Keyword::Func) => lambda_at(tokens, pos),
        TokenKind::Symbol(Symbol::LeftParen) => match forward(tokens, pos + 2, expression_at(tokens, pos + 1)) {
            Ok((inner, close)) => match symbol_at(tokens, close, Symbol::RightParen) {
                Ok(next) => Ok((inner, next)),
                Err(failure) => Err(failure),
            },
            Err(failure) => Err(failure),
        },
        TokenKind::Symbol(Symbol::LeftBracket) => match list_at(tokens, pos + 1, Symbol::RightBracket) {
            Ok((elements, next)) => Ok((ExprView::ArrayLiteral { elements, span: cover(tokens, pos, next) }, next)),
            Err(failure) => Err(failure),
        },
        TokenKind::Symbol(Symbol::LeftBrace) => if is_symbol(tokens, pos + 1, Symbol::RightBrace) {
            Ok((ExprView::DictLiteral { pairs: Seq::empty(), span: cover(tokens, pos, pos + 2) }, pos + 2))
        } else {
            match pairs_until(tokens, pos + 1, Seq::empty()) {
                Ok((pairs, next)) => Ok((ExprView::DictLiteral { pairs, span: cover(tokens, pos, next) }, next)),
                Err(failure) => Err(failure),
            }
        },
        _ => Err(fail(Expected::Expression, pos)),
    }
}

/// What follows a primary expression: calls, field accesses and indexes,
/// each applied to what stands before it. The expression began at
/// `first`.
#[verifier::opaque]
pub open spec fn postfix_from(tokens: Seq<TokenView>, first: nat, object: ExprView, pos: nat) -> Parsed<ExprView>
    decreases tokens.len() - pos, 0nat,
{
    if is_symbol(tokens, pos, Symbol::LeftParen) {
        match forward(tokens, pos + 2, list_at(tokens, pos + 1, Symbol::RightParen)) {
            Ok((arguments, next)) => postfix_from(
                tokens,
                first,
                ExprView::Call { callee: Box::new(object), arguments, span: cover(tokens, first, next) },
                next,
            ),
            Err(failure) => Err(failure),
        }
    } else if is_symbol(tokens, pos, Symbol::Dot) {
        match name_at(tokens, pos + 1) {
            Ok((field, next)) => postfix_from(
                tokens,
                first,
                ExprView::FieldAccess { object: Box::new(object), field, span: cover(tokens, first, pos + 2) },
                pos + 2,
            ),
            Err(failure) => Err(failure),
        }
    } else if is_symbol(tokens, pos, Symbol::LeftBracket) {
        match forward(tokens, pos + 2, index_at(tokens, pos)) {
            Ok((index, next)) => postfix_from(
                tokens,
                first,
                ExprView::Index { object: Box::new(object), index: Box::new(index), span: cover(tokens, first, next) },
                next,
            ),
            Err(failure) => Err(failure),
        }
    } else {
        Ok((object, pos))
    }
}

/// A primary expression with what follows it.
#[verifier::opaque]
pub open spec fn postfix_at(tokens: Seq<TokenView>, pos: nat) -> Parsed<ExprView>
    decreases tokens.len() - pos, 2nat,
{
    match forward(tokens, pos + 1, primary_at(tokens, pos)) {
        Ok((object, next)) => postfix_from(tokens, pos, object, next),
        Err(failure) => Err(failure),
    }
}

/// An expression with its prefix operators, `-` and `!`.
#[verifier::opaque]
pub open spec fn unary_at(tokens: Seq<TokenView>, pos: nat) -> Parsed<ExprView>
    decreases tokens.len() - pos, 3nat,
{
    match prefix_at(tokens, pos) {
        Some(operator) => match unary_at(tokens, pos + 1) {
            Ok((operand, next)) => Ok(
                (ExprView::Unary { operator, operand: Box::new(operand), span: cover(tokens, pos, next) }, next),
            ),
            Err(failure) => Err(failure),
        },
        None => postfix_at(tokens, pos),
    }
}

/// The binary operators that follow `left` and bind at least as strongly
/// as `least`, each with its right side, taken from left to right. The
/// expression began at `first`.
#[verifier::opaque]
pub open spec fn binary_from(tokens: Seq<TokenView>, first: nat, left: ExprView, pos: nat, least: nat) -> Parsed<
    ExprView,
>
    decreases tokens.len() - pos, 0nat,
{
    match operator_at(tokens, pos) {
        Some(operator) => if operator.binding() >= least {
            match forward(tokens, pos + 2, binary_at(tokens, pos + 1, operator.binding() as nat + 1)) {
                Ok((right, next)) => binary_from(
                    tokens,
                    first,
                    ExprView::Binary {
                        left: Box::new(left),
                        operator,
                        right: Box::new(right),
                        span: cover(tokens, first, next),
                    },
                    next,
                    least,
                ),
                Err(failure) => Err(failure),
            }
        } else {
            Ok((left, pos))
        },
        None => Ok((left, pos)),
    }
}

/// An expression of binary operators that bind at least as strongly as
/// `least`.
#[verifier::opaque]
pub open spec fn binary_at(tokens: Seq<TokenView>, pos: nat, least: nat) -> Parsed<ExprView>
    decreases tokens.len() - pos, 4nat,
{
    match forward(tokens, pos + 1, unary_at(tokens, pos)) {
        Ok((left, next)) => binary_from(tokens, pos, left, next, least),
        Err(failure) => Err(failure),
    }
}

/// An expression.
#[verifier::opaque]
pub open spec fn expression_at(tokens: Seq<TokenView>, pos: nat) -> Parsed<ExprView>
    decreases tokens.len() - pos, 5nat,
{
    binary_at(tokens, pos, 0)
}

/// `использовать "path" [как name];`
pub open spec fn import_at(tokens: Seq<TokenView>, pos: nat) -> Parsed<StmtView> {
    if !is_keyword(tokens, pos, Keyword::Use) {
        Err(fail(Expected::Keyword(Keyword::Use), pos))
    } else {
        if kind_at(tokens, pos + 1) != TokenKind::Text {
            Err(fail(Expected::Text, pos + 1))
        } else {
            let path = text_at(tokens, pos + 1);
            if is_keyword(tokens, pos + 2, Keyword::As) {
                match identifier_at(tokens, pos + 3) {
                    Ok((alias, end)) => match symbol_at(tokens, end, Symbol::Semicolon) {
                        Ok(next) => Ok(
                            (StmtView::Import { path, alias: Some(alias), span: cover(tokens, pos, next) }, next),
                        ),
                        Err(failure) => Err(failure),
                    },
                    Err(failure) => Err(failure),
                }
            } else {
                match symbol_at(tokens, pos + 2, Symbol::Semicolon) {
                    Ok(next) => Ok((StmtView::Import { path, alias: None, span: cover(tokens, pos, next) }, next)),
                    Err(failure) => Err(failure),
                }
            }
        }
    }
}

/// Where a declaration begins whose keyword stands at `pos`: at `экспорт`
/// where it is exported.
pub open spec fn declared_from(pos: nat, exported: bool) -> nat {
    if exported && pos > 0 {
        (pos - 1) as nat
    } else {
        pos
    }
}

/// `пер name [: type] [= expression];`
#[verifier::opaque]
pub open spec fn var_at(tokens: Seq<TokenView>, pos: nat, exported: bool) -> Parsed<StmtView>
    decreases tokens.len() - pos, 7nat,
{
    if !is_keyword(tokens, pos, Keyword::Var) {
        Err(fail(Expected::Keyword(Keyword::Var), pos))
    } else {
        match identifier_at(tokens, pos + 1) {
            Ok((name, after_name)) => match forward(tokens, pos + 2, annotation_at(tokens, after_name)) {
                Ok((type_annotation, after_type)) => if is_symbol(tokens, after_type, Symbol::Assign) {
                    match expression_at(tokens, after_type + 1) {
                        Ok((value, end)) => match symbol_at(tokens, end, Symbol::Semicolon) {
                            Ok(next) => Ok(
                                (
                                    StmtView::VarDecl {
                                        name,
                                        type_annotation,
                                        initializer: Some(value),
                                        is_exported: exported,
                                        span: cover(tokens, declared_from(pos, exported), next),
                                    },
                                    next,
                                ),
                            ),
                            Err(failure) => Err(failure),
                        },
                        Err(failure) => Err(failure),
                    }
                } else {
                    match symbol_at(tokens, after_type, Symbol::Semicolon) {
                        Ok(next) => Ok(
                            (
                                StmtView::VarDecl {
                                    name,
                                    type_annotation,
                                    initializer: None,
                                    is_exported: exported,
                                    span: cover(tokens, declared_from(pos, exported), next),
                                },
                                next,
                            ),
                        ),
                        Err(failure) => Err(failure),
                    }
                },
                Err(failure) => Err(failure),
            },
            Err(failure) => Err(failure),
        }
    }
}

/// `функ name (parameters) [: type] statements конец`
#[verifier::opaque]
pub open spec fn func_at(tokens: Seq<TokenView>, pos: nat, exported: bool) -> Parsed<FuncView>
    decreases tokens.len() - pos, 7nat,
{
    if !is_keyword(tokens, pos, Keyword::Func) {
        Err(fail(Expected::Keyword(Keyword::Func), pos))
    } else {
        match identifier_at(tokens, pos + 1) {
            Ok((name, after_name)) => match forward(tokens, pos + 2, parameters_at(tokens, after_name)) {
                Ok((params, after_params)) => match forward(tokens, after_params, annotation_at(tokens, after_params)) {
                    Ok((_, start)) => match forward(tokens, start, block_from(tokens, start, Seq::empty())) {
                        Ok((body, end)) => match keyword_at(tokens, end, Keyword::End) {
                            Ok(next) => Ok(
                                (
                                    FuncView {
                                        name,
                                        params,
                                        body,
                                        annotations: Seq::empty(),
                                        is_exported: exported,
                                        span: cover(tokens, declared_from(pos, exported), next),
                                    },
                                    next,
                                ),
                            ),
                            Err(failure) => Err(failure),
                        },
                        Err(failure) => Err(failure),
                    },
                    Err(failure) => Err(failure),
                },
                Err(failure) => Err(failure),
            },
            Err(failure) => Err(failure),
        }
    }
}

/// `конструктор (parameters) statements конец`
#[verifier::opaque]
pub open spec fn constructor_at(tokens: Seq<TokenView>, pos: nat) -> Parsed<MemberView>
    decreases tokens.len() - pos, 7nat,
{
    if !is_keyword(tokens, pos, Keyword::Constructor) {
        Err(fail(Expected::Keyword(Keyword::Constructor), pos))
    } else {
        match forward(tokens, pos + 1, parameters_at(tokens, pos + 1)) {
            Ok((params, start)) => match forward(tokens, start, block_from(tokens, start, Seq::empty())) {
                Ok((body, end)) => match keyword_at(tokens, end, Keyword::End) {
                    Ok(next) => Ok((MemberView::Constructor { params, body, span: cover(tokens, pos, next) }, next)),
                    Err(failure) => Err(failure),
                },
                Err(failure) => Err(failure),
            },
            Err(failure) => Err(failure),
        }
    }
}

/// A field of a class: `name [: type] [;]`
pub open spec fn field_at(tokens: Seq<TokenView>, pos: nat) -> Parsed<MemberView> {
    match identifier_at(tokens, pos) {
        Ok((name, after_name)) => match annotation_at(tokens, after_name) {
            Ok((type_annotation, end)) => Ok(
                (
                    MemberView::Field { name, type_annotation },
                    if is_symbol(tokens, end, Symbol::Semicolon) {
                        end + 1
                    } else {
                        end
                    },
                ),
            ),
            Err(failure) => Err(failure),
        },
        Err(failure) => Err(failure),
    }
}

/// The members of a class, up to its `конец`.
#[verifier::opaque]
pub open spec fn members_from(tokens: Seq<TokenView>, pos: nat, read: Seq<MemberView>) -> Parsed<Seq<MemberView>>
    decreases tokens.len() - pos, 9nat,
{
    if is_keyword(tokens, pos, Keyword::End) {
        Ok((read, pos))
    } else if is_keyword(tokens, pos, Keyword::Constructor) {
        match forward(tokens, pos + 1, constructor_at(tokens, pos)) {
            Ok((member, next)) => members_from(tokens, next, read.push(member)),
            Err(failure) => Err(failure),
        }
    } else if is_keyword(tokens, pos, Keyword::Func) {
        match forward(tokens, pos + 1, func_at(tokens, pos, false)) {
            Ok((method, next)) => members_from(tokens, next, read.push(MemberView::Method(method))),
            Err(failure) => Err(failure),
        }
    } else if kind_at(tokens, pos) == TokenKind::Identifier {
        match forward(tokens, pos + 1, field_at(tokens, pos)) {
            Ok((member, next)) => members_from(tokens, next, read.push(member)),
            Err(failure) => Err(failure),
        }
    } else {
        Err(fail(Expected::Member, pos))
    }
}

/// Identifiers with commas between them.
#[verifier::opaque]
pub open spec fn identifiers_from(tokens: Seq<TokenView>, pos: nat, read: Seq<Seq<char>>) -> Parsed<Seq<Seq<char>>>
    decreases tokens.len() - pos,
{
    match identifier_at(tokens, pos) {
        Ok((name, next)) => if is_symbol(tokens, next, Symbol::Comma) && next < tokens.len() {
            identifiers_from(tokens, next + 1, read.push(name))
        } else {
            Ok((read.push(name), next))
        },
        Err(failure) => Err(failure),
    }
}

/// `[реализует name, name, ...]`
pub open spec fn implements_at(tokens: Seq<TokenView>, pos: nat) -> Parsed<Seq<Seq<char>>> {
    if is_keyword(tokens, pos, Keyword::Implements) {
        identifiers_from(tokens, pos + 1, Seq::empty())
    } else {
        Ok((Seq::empty(), pos))
    }
}

/// `[наследует name]`
pub open spec fn extends_at(tokens: Seq<TokenView>, pos: nat) -> Parsed<Option<Seq<char>>> {
    if is_keyword(tokens, pos, Keyword::Extends) {
        match identifier_at(tokens, pos + 1) {
            Ok((name, next)) => Ok((Some(name), next)),
            Err(failure) => Err(failure),
        }
    } else {
        Ok((None, pos))
    }
}

/// `класс name [наследует name] [реализует names] members конец`
#[verifier::opaque]
pub open spec fn class_at(tokens: Seq<TokenView>, pos: nat, exported: bool) -> Parsed<StmtView>
    decreases tokens.len() - pos, 7nat,
{
    if !is_keyword(tokens, pos, Keyword::Class) {
        Err(fail(Expected::Keyword(Keyword::Class), pos))
    } else {
        match identifier_at(tokens, pos + 1) {
            Ok((name, after_name)) => match forward(tokens, pos + 2, extends_at(tokens, after_name)) {
                Ok((extends, after_extends)) => match forward(tokens, after_extends, implements_at(tokens, after_extends)) {
                    Ok((implements, start)) => match members_from(tokens, start, Seq::empty()) {
                        Ok((members, end)) => match keyword_at(tokens, end, Keyword::End) {
                            Ok(next) => Ok(
                                (
                                    StmtView::ClassDecl {
                                        name,
                                        extends,
                                        implements,
                                        members,
                                        annotations: Seq::empty(),
                                        is_exported: exported,
                                        span: cover(tokens, declared_from(pos, exported), next),
                                    },
                                    next,
                                ),
                            ),
                            Err(failure) => Err(failure),
                        },
                        Err(failure) => Err(failure),
                    },
                    Err(failure) => Err(failure),
                },
                Err(failure) => Err(failure),
            },
            Err(failure) => Err(failure),
        }
    }
}

/// `функ name (parameters);`
pub open spec fn signature_at(tokens: Seq<TokenView>, pos: nat) -> Parsed<SignatureView> {
    match identifier_at(tokens, pos + 1) {
        Ok((name, after_name)) => match parameters_at(tokens, after_name) {
            Ok((params, end)) => match symbol_at(tokens, end, Symbol::Semicolon) {
                Ok(next) => Ok((SignatureView { name, params, span: cover(tokens, pos, next) }, next)),
                Err(failure) => Err(failure),
            },
            Err(failure) => Err(failure),
        },
        Err(failure) => Err(failure),
    }
}

/// The method signatures of an interface, up to the first token that
/// begins none.
#[verifier::opaque]
pub open spec fn signatures_from(tokens: Seq<TokenView>, pos: nat, read: Seq<SignatureView>) -> Parsed<
    Seq<SignatureView>,
>
    decreases tokens.len() - pos,
{
    if !is_keyword(tokens, pos, Keyword::Func) {
        Ok((read, pos))
    } else {
        match signature_at(tokens, pos) {
            Ok((signature, next)) => if pos < next <= tokens.len() {
                signatures_from(tokens, next, read.push(signature))
            } else {
                Err(fail(Expected::Progress, pos))
            },
            Err(failure) => Err(failure),
        }
    }
}

/// `интерфейс name signatures конец`
pub open spec fn interface_at(tokens: Seq<TokenView>, pos: nat, exported: bool) -> Parsed<StmtView> {
    if !is_keyword(tokens, pos, Keyword::Interface) {
        Err(fail(Expected::Keyword(Keyword::Interface), pos))
    } else {
        match identifier_at(tokens, pos + 1) {
            Ok((name, start)) => match signatures_from(tokens, start, Seq::empty()) {
                Ok((methods, end)) => match keyword_at(tokens, end, Keyword::End) {
                    Ok(next) => Ok(
                        (
                            StmtView::InterfaceDecl {
                                name,
                                methods,
                                is_exported: exported,
                                span: cover(tokens, declared_from(pos, exported), next),
                            },
                            next,
                        ),
                    ),
                    Err(failure) => Err(failure),
                },
                Err(failure) => Err(failure),
            },
            Err(failure) => Err(failure),
        }
    }
}

/// `аннотация name statements конец`
#[verifier::opaque]
pub open spec fn annotation_decl_at(tokens: Seq<TokenView>, pos: nat, exported: bool) -> Parsed<StmtView>
    decreases tokens.len() - pos, 7nat,
{
    if !is_keyword(tokens, pos, Keyword::Annotation) {
        Err(fail(Expected::Keyword(Keyword::Annotation), pos))
    } else {
        match identifier_at(tokens, pos + 1) {
            Ok((name, start)) => match block_from(tokens, start, Seq::empty()) {
                Ok((body, end)) => match keyword_at(tokens, end, Keyword::End) {
                    Ok(next) => Ok(
                        (
                            StmtView::AnnotationDecl {
                                name,
                                body,
                                is_exported: exported,
                                span: cover(tokens, declared_from(pos, exported), next),
                            },
                            next,
                        ),
                    ),
                    Err(failure) => Err(failure),
                },
                Err(failure) => Err(failure),
            },
            Err(failure) => Err(failure),
        }
    }
}

/// What may follow the first branch of an `если`: nothing,
/// `иначе statements`, or `иначе если condition statements` and what may
/// follow that; the last stands as one nested `если` in the branch.
#[verifier::opaque]
pub open spec fn else_at(tokens: Seq<TokenView>, pos: nat) -> Parsed<Option<Seq<StmtView>>>
    decreases tokens.len() - pos, 7nat,
{
    if !is_keyword(tokens, pos, Keyword::Else) {
        Ok((None, pos))
    } else if is_keyword(tokens, pos + 1, Keyword::If) {
        match forward(tokens, pos + 3, expression_at(tokens, pos + 2)) {
            Ok((condition, start)) => match forward(tokens, start, block_from(tokens, start, Seq::empty())) {
                Ok((then_branch, end)) => match else_at(tokens, end) {
                    Ok((else_branch, next)) => Ok(
                        (
                            Some(
                                seq![
                                    StmtView::If {
                                        condition,
                                        then_branch,
                                        else_branch,
                                        span: cover(tokens, pos + 1, next),
                                    },
                                ],
                            ),
                            next,
                        ),
                    ),
                    Err(failure) => Err(failure),
                },
                Err(failure) => Err(failure),
            },
            Err(failure) => Err(failure),
        }
    } else {
        match block_from(tokens, pos + 1, Seq::empty()) {
            Ok((statements, next)) => Ok((Some(statements), next)),
            Err(failure) => Err(failure),
        }
    }
}

/// `если condition statements [иначе ...] конец`
#[verifier::opaque]
pub open spec fn if_at(tokens: Seq<TokenView>, pos: nat) -> Parsed<StmtView>
    decreases tokens.len() - pos, 7nat,
{
    if !is_keyword(tokens, pos, Keyword::If) {
        Err(fail(Expected::Keyword(Keyword::If), pos))
    } else {
        match forward(tokens, pos + 2, expression_at(tokens, pos + 1)) {
            Ok((condition, start)) => match forward(tokens, start, block_from(tokens, start, Seq::empty())) {
                Ok((then_branch, after_then)) => match else_at(tokens, after_then) {
                    Ok((else_branch, end)) => match keyword_at(tokens, end, Keyword::End) {
                        Ok(next) => Ok(
                            (StmtView::If { condition, then_branch, else_branch, span: cover(tokens, pos, next) }, next),
                        ),
                        Err(failure) => Err(failure),
                    },
                    Err(failure) => Err(failure),
                },
                Err(failure) => Err(failure),
            },
            Err(failure) => Err(failure),
        }
    }
}

/// `пока condition statements конец`
#[verifier::opaque]
pub open spec fn while_at(tokens: Seq<TokenView>, pos: nat) -> Parsed<StmtView>
    decreases tokens.len() - pos, 7nat,
{
    if !is_keyword(tokens, pos, Keyword::While) {
        Err(fail(Expected::Keyword(Keyword::While), pos))
    } else {
        match forward(tokens, pos + 2, expression_at(tokens, pos + 1)) {
            Ok((condition, start)) => match block_from(tokens, start, Seq::empty()) {
                Ok((body, end)) => match keyword_at(tokens, end, Keyword::End) {
                    Ok(next) => Ok((StmtView::While { condition, body, span: cover(tokens, pos, next) }, next)),
                    Err(failure) => Err(failure),
                },
                Err(failure) => Err(failure),
            },
            Err(failure) => Err(failure),
        }
    }
}

/// Whether the handler that begins at `pos` names what it catches: an
/// identifier that no parenthesis follows.
pub open spec fn names_caught(tokens: Seq<TokenView>, pos: nat) -> bool {
    kind_at(tokens, pos) == TokenKind::Identifier && !is_symbol(tokens, pos + 1, Symbol::LeftParen)
}

/// `попытка statements перехват [name] statements конец`
#[verifier::opaque]
pub open spec fn try_at(tokens: Seq<TokenView>, pos: nat) -> Parsed<StmtView>
    decreases tokens.len() - pos, 7nat,
{
    if !is_keyword(tokens, pos, Keyword::Try) {
        Err(fail(Expected::Keyword(Keyword::Try), pos))
    } else {
        match forward(tokens, pos + 1, block_from(tokens, pos + 1, Seq::empty())) {
            Ok((try_body, catch)) => if !is_keyword(tokens, catch, Keyword::Catch) {
                Err(fail(Expected::Keyword(Keyword::Catch), catch))
            } else {
                let named = names_caught(tokens, catch + 1);
                let start = if named {
                    catch + 2
                } else {
                    catch + 1
                };
                match block_from(tokens, start, Seq::empty()) {
                    Ok((catch_body, end)) => match keyword_at(tokens, end, Keyword::End) {
                        Ok(next) => Ok(
                            (
                                StmtView::Try {
                                    try_body,
                                    catch_var: if named {
                                        Some(text_at(tokens, catch + 1))
                                    } else {
                                        None
                                    },
                                    catch_body,
                                    span: cover(tokens, pos, next),
                                },
                                next,
                            ),
                        ),
                        Err(failure) => Err(failure),
                    },
                    Err(failure) => Err(failure),
                }
            },
            Err(failure) => Err(failure),
        }
    }
}

/// `исключение expression;`
#[verifier::opaque]
pub open spec fn throw_at(tokens: Seq<TokenView>, pos: nat) -> Parsed<StmtView>
    decreases tokens.len() - pos, 7nat,
{
    if !is_keyword(tokens, pos, Keyword::Throw) {
        Err(fail(Expected::Keyword(Keyword::Throw), pos))
    } else {
        match expression_at(tokens, pos + 1) {
            Ok((expression, end)) => match symbol_at(tokens, end, Symbol::Semicolon) {
                Ok(next) => Ok((StmtView::Throw { expression, span: cover(tokens, pos, next) }, next)),
                Err(failure) => Err(failure),
            },
            Err(failure) => Err(failure),
        }
    }
}

/// `возврат [expression];`
#[verifier::opaque]
pub open spec fn return_at(tokens: Seq<TokenView>, pos: nat) -> Parsed<StmtView>
    decreases tokens.len() - pos, 7nat,
{
    if !is_keyword(tokens, pos, Keyword::Return) {
        Err(fail(Expected::Keyword(Keyword::Return), pos))
    } else {
        if is_symbol(tokens, pos + 1, Symbol::Semicolon) {
            Ok((StmtView::Return { value: None, span: cover(tokens, pos, pos + 2) }, pos + 2))
        } else {
            match expression_at(tokens, pos + 1) {
                Ok((value, end)) => match symbol_at(tokens, end, Symbol::Semicolon) {
                    Ok(next) => Ok((StmtView::Return { value: Some(value), span: cover(tokens, pos, next) }, next)),
                    Err(failure) => Err(failure),
                },
                Err(failure) => Err(failure),
            }
        }
    }
}

/// `expression;` or `target = expression;`
#[verifier::opaque]
pub open spec fn simple_at(tokens: Seq<TokenView>, pos: nat) -> Parsed<StmtView>
    decreases tokens.len() - pos, 7nat,
{
    match forward(tokens, pos + 1, expression_at(tokens, pos)) {
        Ok((left, after_left)) => if is_symbol(tokens, after_left, Symbol::Assign) {
            match target_of(left) {
                Some(target) => match expression_at(tokens, after_left + 1) {
                    Ok((value, end)) => match symbol_at(tokens, end, Symbol::Semicolon) {
                        Ok(next) => Ok(
                            (StmtView::Assignment { target, value, span: cover(tokens, pos, next) }, next),
                        ),
                        Err(failure) => Err(failure),
                    },
                    Err(failure) => Err(failure),
                },
                None => Err(fail(Expected::Target, pos)),
            }
        } else {
            match symbol_at(tokens, after_left, Symbol::Semicolon) {
                Ok(next) => Ok((StmtView::Expression(left), next)),
                Err(failure) => Err(failure),
            }
        },
        Err(failure) => Err(failure),
    }
}

/// The declaration whose keyword stands at `pos`.
#[verifier::opaque]
pub open spec fn declaration_at(tokens: Seq<TokenView>, pos: nat, exported: bool) -> Parsed<StmtView>
    decreases tokens.len() - pos, 8nat,
{
    match kind_at(tokens, pos) {
        TokenKind::Keyword(Keyword::Var) => var_at(tokens, pos, exported),
        TokenKind::Keyword(Keyword::Func) => match func_at(tokens, pos, exported) {
            Ok((function, next)) => Ok((StmtView::FuncDecl(function), next)),
            Err(failure) => Err(failure),
        },
        TokenKind::Keyword(Keyword::Class) => class_at(tokens, pos, exported),
        TokenKind::Keyword(Keyword::Interface) => interface_at(tokens, pos, exported),
        TokenKind::Keyword(Keyword::Annotation) => annotation_decl_at(tokens, pos, exported),
        _ => Err(fail(Expected::Declaration, pos)),
    }
}

/// One statement.
#[verifier::opaque]
pub open spec fn statement_at(tokens: Seq<TokenView>, pos: nat) -> Parsed<StmtView>
    decreases tokens.len() - pos, 9nat,
{
    match kind_at(tokens, pos) {
        TokenKind::Keyword(Keyword::Use) => import_at(tokens, pos),
        TokenKind::Keyword(Keyword::Export) => declaration_at(tokens, pos + 1, true),
        TokenKind::Keyword(Keyword::Var) | TokenKind::Keyword(Keyword::Func) | TokenKind::Keyword(
            Keyword::Class,
        ) | TokenKind::Keyword(Keyword::Interface) | TokenKind::Keyword(Keyword::Annotation) => declaration_at(
            tokens,
            pos,
            false,
        ),
        TokenKind::Keyword(Keyword::Try) => try_at(tokens, pos),
        TokenKind::Keyword(Keyword::Throw) => throw_at(tokens, pos),
        TokenKind::Keyword(Keyword::If) => if_at(tokens, pos),
        TokenKind::Keyword(Keyword::While) => while_at(tokens, pos),
        TokenKind::Keyword(Keyword::Return) => return_at(tokens, pos),
        _ => simple_at(tokens, pos),
    }
}

/// Statements up to the token that ends their block.
#[verifier::opaque]
pub open spec fn block_from(tokens: Seq<TokenView>, pos: nat, read: Seq<StmtView>) -> Parsed<Seq<StmtView>>
    decreases tokens.len() - pos, 10nat,
{
    if closes_block(tokens, pos) {
        Ok((read, pos))
    } else {
        match forward(tokens, pos + 1, statement_at(tokens, pos)) {
            Ok((statement, next)) => block_from(tokens, next, read.push(statement)),
            Err(failure) => Err(failure),
        }
    }
}

/// The program that the tokens stand for: statements up to the end
/// marker.
pub open spec fn program_of(tokens: Seq<TokenView>) -> Result<Seq<StmtView>, Failure> {
    if tokens.len() > usize::MAX - 4 {
        Err(fail(Expected::Fewer, 0))
    } else {
        program_within(tokens)
    }
}

/// The program that tokens stand for whose places can be counted.
pub open spec fn program_within(tokens: Seq<TokenView>) -> Result<Seq<StmtView>, Failure> {
    match block_from(tokens, 0, Seq::empty()) {
        Ok((statements, end)) => if kind_at(tokens, end) == TokenKind::End {
            Ok(statements)
        } else {
            Err(fail(Expected::Statement, end))
        },
        Err(failure) => Err(failure),
    }
}

} // verus!
