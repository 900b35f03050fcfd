//! The parser: from tokens to the syntax tree that the grammar says they
//! stand for.

use vstd::prelude::*;
use vstd::utf8::encode_utf8;
use crate::ast::{
    Annotation, ArrayLiteralExpr, AssignmentStatement, AssignmentTarget, AnnotationDecl, BinaryExpr, BinaryOperator, CallExpr,
    ClassDecl, ClassMember, ConstructorDecl, DictLiteralExpr, Expression, FieldAccessExpr, FuncDecl, IfStatement,
    ImportStatement, IndexExpr, InterfaceDecl, LambdaExpr, MethodSignature, Parameter, Program, RangeExpr,
    ReturnStatement, Statement, ThrowStatement, TryStatement, UnaryExpr, UnaryOperator, VarDecl, WhileStatement,
};
use crate::grammar::{
    annotation_at, annotation_decl_at, behind_semicolon, binary_at, closing_at, binary_from, block_from, class_at, closes_block,
    constructor_at, cover, declaration_at, declared_from, else_at, expression_at, expressions_until, fail, field_at,
    forward, func_at, identifier_at, identifiers_from, if_at, import_at, index_at, interface_at, is_keyword,
    is_symbol, kind_at, lambda_at, list_at, members_from, name_at, operator_at, pairs_until, parameter_at,
    parameters_at, parameters_from, postfix_at, postfix_from, prefix_at, primary_at, program_of, return_at,
    signature_at, signatures_from, simple_at, slice_end_at, statement_at, target_of, text_at, throw_at, try_at,
    unary_at, var_at, while_at, Expected, Failure, Parsed,
};
use crate::heap::text_views;
use crate::lexer::{lex, lexed, LexFailure};
use crate::places::{placed, placed_failure, Places};
use crate::number::Number;
use crate::parse_error::PonosParseError;
use crate::preprocess::{preprocess_semicolons, with_semicolons};
use crate::span::Span;
use crate::syntax_error::{lex_error, syntax_error, tells_failure, tells_lex_failure};
use crate::syntax::{
    annotation_views, AnnotationView, expr_view, expr_views, func_view, member_view, member_views, optional_boxed_view, optional_stmt_views,
    optional_text, pair_views, param_views, signature_views, stmt_view, stmt_views, target_view, ExprView, FuncView,
    MemberView, ParamView, SignatureView, StmtView,
};
use crate::token::{token_views, Keyword, Symbol, Token, TokenKind, TokenView};

verus! {

/// Whether the places after the tokens can be counted.
pub open spec fn countable(tokens: &Vec<Token>) -> bool {
    tokens.len() + 4 <= usize::MAX
}

/// Whether what was read of an expression is what the rule gives, and
/// ends at `least` or later.
pub open spec fn read_expression(
    rule: Parsed<ExprView>,
    r: Result<(Expression, usize), Failure>,
    least: int,
    len: int,
) -> bool {
    match r {
        Ok((e, next)) => rule == Ok::<(ExprView, nat), Failure>((expr_view(e), next as nat)) && least <= next <= len,
        Err(failure) => rule == Err::<(ExprView, nat), Failure>(failure) && !(failure.expected is Progress),
    }
}

pub open spec fn read_expressions(
    rule: Parsed<Seq<ExprView>>,
    r: Result<(Vec<Expression>, usize), Failure>,
    least: int,
    len: int,
) -> bool {
    match r {
        Ok((items, next)) => rule == Ok::<(Seq<ExprView>, nat), Failure>((expr_views(items), next as nat)) && least
            <= next <= len,
        Err(failure) => rule == Err::<(Seq<ExprView>, nat), Failure>(failure) && !(failure.expected is Progress),
    }
}

pub open spec fn read_pairs(
    rule: Parsed<Seq<(ExprView, ExprView)>>,
    r: Result<(Vec<(Expression, Expression)>, usize), Failure>,
    least: int,
    len: int,
) -> bool {
    match r {
        Ok((pairs, next)) => rule == Ok::<(Seq<(ExprView, ExprView)>, nat), Failure>(
            (pair_views(pairs), next as nat),
        ) && least <= next <= len,
        Err(failure) => rule == Err::<(Seq<(ExprView, ExprView)>, nat), Failure>(failure) && !(failure.expected is Progress),
    }
}

pub open spec fn read_statement(
    rule: Parsed<StmtView>,
    r: Result<(Statement, usize), Failure>,
    least: int,
    len: int,
) -> bool {
    match r {
        Ok((s, next)) => rule == Ok::<(StmtView, nat), Failure>((stmt_view(s), next as nat)) && least <= next <= len,
        Err(failure) => rule == Err::<(StmtView, nat), Failure>(failure) && !(failure.expected is Progress),
    }
}

pub open spec fn read_block(
    rule: Parsed<Seq<StmtView>>,
    r: Result<(Vec<Statement>, usize), Failure>,
    least: int,
    len: int,
) -> bool {
    match r {
        Ok((items, next)) => rule == Ok::<(Seq<StmtView>, nat), Failure>((stmt_views(items), next as nat)) && least
            <= next <= len,
        Err(failure) => rule == Err::<(Seq<StmtView>, nat), Failure>(failure) && !(failure.expected is Progress),
    }
}

pub open spec fn read_text(rule: Parsed<Seq<char>>, r: Result<(String, usize), Failure>, least: int, len: int) -> bool {
    match r {
        Ok((text, next)) => rule == Ok::<(Seq<char>, nat), Failure>((text@, next as nat)) && least <= next <= len,
        Err(failure) => rule == Err::<(Seq<char>, nat), Failure>(failure) && !(failure.expected is Progress),
    }
}

pub open spec fn read_optional_text(
    rule: Parsed<Option<Seq<char>>>,
    r: Result<(Option<String>, usize), Failure>,
    least: int,
    len: int,
) -> bool {
    match r {
        Ok((text, next)) => rule == Ok::<(Option<Seq<char>>, nat), Failure>((optional_text(text), next as nat))
            && least <= next <= len,
        Err(failure) => rule == Err::<(Option<Seq<char>>, nat), Failure>(failure) && !(failure.expected is Progress),
    }
}

pub open spec fn read_parameters(
    rule: Parsed<Seq<ParamView>>,
    r: Result<(Vec<Parameter>, usize), Failure>,
    least: int,
    len: int,
) -> bool {
    match r {
        Ok((params, next)) => rule == Ok::<(Seq<ParamView>, nat), Failure>((param_views(params@), next as nat))
            && least <= next <= len,
        Err(failure) => rule == Err::<(Seq<ParamView>, nat), Failure>(failure) && !(failure.expected is Progress),
    }
}

pub open spec fn read_function(
    rule: Parsed<FuncView>,
    r: Result<(FuncDecl, usize), Failure>,
    least: int,
    len: int,
) -> bool {
    match r {
        Ok((f, next)) => rule == Ok::<(FuncView, nat), Failure>((func_view(f), next as nat)) && least <= next <= len,
        Err(failure) => rule == Err::<(FuncView, nat), Failure>(failure) && !(failure.expected is Progress),
    }
}

pub open spec fn read_member(
    rule: Parsed<MemberView>,
    r: Result<(ClassMember, usize), Failure>,
    least: int,
    len: int,
) -> bool {
    match r {
        Ok((m, next)) => rule == Ok::<(MemberView, nat), Failure>((member_view(m), next as nat)) && least <= next
            <= len,
        Err(failure) => rule == Err::<(MemberView, nat), Failure>(failure) && !(failure.expected is Progress),
    }
}

pub open spec fn read_members(
    rule: Parsed<Seq<MemberView>>,
    r: Result<(Vec<ClassMember>, usize), Failure>,
    least: int,
    len: int,
) -> bool {
    match r {
        Ok((members, next)) => rule == Ok::<(Seq<MemberView>, nat), Failure>((member_views(members), next as nat))
            && least <= next <= len,
        Err(failure) => rule == Err::<(Seq<MemberView>, nat), Failure>(failure) && !(failure.expected is Progress),
    }
}

fn kind(tokens: &Vec<Token>, pos: usize) -> (r: TokenKind)
    ensures
        token_views(tokens@).len() == tokens.len(),
        r == kind_at(token_views(tokens@), pos as nat),
{
    if pos < tokens.len() {
        tokens[pos].kind
    } else {
        TokenKind::End
    }
}

fn text(tokens: &Vec<Token>, pos: usize) -> (r: String)
    ensures
        token_views(tokens@).len() == tokens.len(),
        r@ == text_at(token_views(tokens@), pos as nat),
{
    if pos < tokens.len() {
        tokens[pos].text.clone()
    } else {
        let empty = String::new();
        assert(empty@ =~= Seq::empty());
        empty
    }
}

fn has_symbol(tokens: &Vec<Token>, pos: usize, symbol: Symbol) -> (r: bool)
    ensures
        token_views(tokens@).len() == tokens.len(),
        r == is_symbol(token_views(tokens@), pos as nat, symbol),
{
    kind(tokens, pos) == TokenKind::Symbol(symbol)
}

fn has_keyword(tokens: &Vec<Token>, pos: usize, keyword: Keyword) -> (r: bool)
    ensures
        token_views(tokens@).len() == tokens.len(),
        r == is_keyword(token_views(tokens@), pos as nat, keyword),
{
    kind(tokens, pos) == TokenKind::Keyword(keyword)
}

fn span_over(tokens: &Vec<Token>, first: usize, next: usize) -> (r: Span)
    ensures
        token_views(tokens@).len() == tokens.len(),
        r == cover(token_views(tokens@), first as nat, next as nat),
{
    if first < next && next <= tokens.len() {
        Span { start: tokens[first].span.start, end: tokens[next - 1].span.end }
    } else {
        Span { start: 0, end: 0 }
    }
}

fn closing(tokens: &Vec<Token>, pos: usize, close: Symbol) -> (r: usize)
    requires
        pos <= tokens.len(),
    ensures
        r == closing_at(token_views(tokens@), pos as nat, close),
        pos <= r <= tokens.len(),
        r < tokens.len() || r == pos,
{
    if has_symbol(tokens, pos, Symbol::Semicolon) && has_symbol(tokens, pos + 1, close) {
        pos + 1
    } else {
        pos
    }
}

fn behind(tokens: &Vec<Token>, pos: usize) -> (r: usize)
    requires
        pos <= tokens.len(),
    ensures
        r == behind_semicolon(token_views(tokens@), pos as nat),
{
    if has_symbol(tokens, pos, Symbol::Semicolon) {
        pos + 1
    } else {
        pos
    }
}

fn failure(expected: Expected, pos: usize) -> (r: Failure)
    ensures
        r == fail(expected, pos as nat),
{
    Failure { expected, at: pos }
}

fn identifier(tokens: &Vec<Token>, pos: usize) -> (r: Result<(String, usize), Failure>)
    ensures
        read_text(identifier_at(token_views(tokens@), pos as nat), r, pos + 1, tokens.len() as int),
{
    if kind(tokens, pos) == TokenKind::Identifier {
        Ok((text(tokens, pos), pos + 1))
    } else {
        Err(failure(Expected::Identifier, pos))
    }
}

fn name(tokens: &Vec<Token>, pos: usize) -> (r: Result<(String, usize), Failure>)
    ensures
        read_text(name_at(token_views(tokens@), pos as nat), r, pos + 1, tokens.len() as int),
{
    let found = kind(tokens, pos);
    let named = match found {
        TokenKind::Identifier => true,
        TokenKind::Keyword(_) => true,
        _ => false,
    };
    if named {
        Ok((text(tokens, pos), pos + 1))
    } else {
        Err(failure(Expected::Name, pos))
    }
}

fn annotation(tokens: &Vec<Token>, pos: usize) -> (r: Result<(Option<String>, usize), Failure>)
    requires
        pos <= tokens.len(),
        countable(tokens),
    ensures
        read_optional_text(annotation_at(token_views(tokens@), pos as nat), r, pos as int, tokens.len() as int),
{
    if has_symbol(tokens, pos, Symbol::Colon) {
        match identifier(tokens, pos + 1) {
            Ok((name, next)) => Ok((Some(name), next)),
            Err(f) => Err(f),
        }
    } else {
        Ok((None, pos))
    }
}

#[verifier::spinoff_prover]
fn parse_parameter(tokens: &Vec<Token>, pos: usize) -> (r: Result<(Parameter, usize), Failure>)
    requires
        pos <= tokens.len(),
        countable(tokens),
    ensures
        match r {
            Ok((p, next)) => parameter_at(token_views(tokens@), pos as nat) == Ok::<(ParamView, nat), Failure>(
                (p@, next as nat),
            ) && pos < next <= tokens.len(),
            Err(f) => parameter_at(token_views(tokens@), pos as nat) == Err::<(ParamView, nat), Failure>(f) && !(f.expected is Progress),
        },
{
    match identifier(tokens, pos) {
        Ok((name, after_name)) => match annotation(tokens, after_name) {
            Ok((type_annotation, next)) => Ok(
                (Parameter { name, type_annotation, span: span_over(tokens, pos, next) }, next),
            ),
            Err(f) => Err(f),
        },
        Err(f) => Err(f),
    }
}

#[verifier::spinoff_prover]
fn parse_parameters(tokens: &Vec<Token>, pos: usize) -> (r: Result<(Vec<Parameter>, usize), Failure>)
    requires
        pos <= tokens.len(),
        countable(tokens),
    ensures
        read_parameters(parameters_at(token_views(tokens@), pos as nat), r, pos + 2, tokens.len() as int),
{
    proof {
        reveal(parameters_from);
        assert(token_views(tokens@).len() == tokens.len());
    }
    if !has_symbol(tokens, pos, Symbol::LeftParen) {
        return Err(failure(Expected::Symbol(Symbol::LeftParen), pos));
    }
    let mut read: Vec<Parameter> = Vec::new();
    if has_symbol(tokens, pos + 1, Symbol::RightParen) {
        assert(param_views(read@) =~= Seq::empty());
        return Ok((read, pos + 2));
    }
    let ghost views = token_views(tokens@);
    let mut at: usize = pos + 1;
    assert(param_views(read@) =~= Seq::empty());
    loop
        invariant
            pos < at <= tokens.len(),
            countable(tokens),
            views == token_views(tokens@),
            parameters_from(views, at as nat, param_views(read@)) == parameters_at(views, pos as nat),
        decreases tokens.len() - at,
    {
        proof {
            reveal(parameters_from);
            assert(token_views(tokens@).len() == tokens.len());
        }
        match parse_parameter(tokens, at) {
            Ok((p, next)) => {
                let ghost before = param_views(read@);
                read.push(p);
                assert(param_views(read@) =~= before.push(p@));
                if has_symbol(tokens, next, Symbol::Comma) {
                    at = next + 1;
                } else if has_symbol(tokens, next, Symbol::RightParen) {
                    return Ok((read, next + 1));
                } else {
                    return Err(failure(Expected::Symbol(Symbol::RightParen), next));
                }
            },
            Err(f) => {
                return Err(f);
            },
        }
    }
}

fn operator(tokens: &Vec<Token>, pos: usize) -> (r: Option<BinaryOperator>)
    ensures
        r == operator_at(token_views(tokens@), pos as nat),
{
    match kind(tokens, pos) {
        TokenKind::Keyword(Keyword::And) => Some(BinaryOperator::And),
        TokenKind::Keyword(Keyword::Or) => Some(BinaryOperator::Or),
        TokenKind::Symbol(Symbol::Equal) => Some(BinaryOperator::Equal),
        TokenKind::Symbol(Symbol::NotEqual) => Some(BinaryOperator::NotEqual),
        TokenKind::Symbol(Symbol::LessEqual) => Some(BinaryOperator::LessEqual),
        TokenKind::Symbol(Symbol::GreaterEqual) => Some(BinaryOperator::GreaterEqual),
        TokenKind::Symbol(Symbol::Less) => Some(BinaryOperator::Less),
        TokenKind::Symbol(Symbol::Greater) => Some(BinaryOperator::Greater),
        TokenKind::Symbol(Symbol::Plus) => Some(BinaryOperator::Add),
        TokenKind::Symbol(Symbol::Minus) => Some(BinaryOperator::Subtract),
        TokenKind::Symbol(Symbol::Star) => Some(BinaryOperator::Multiply),
        TokenKind::Symbol(Symbol::Slash) => Some(BinaryOperator::Divide),
        TokenKind::Symbol(Symbol::Percent) => Some(BinaryOperator::Modulo),
        _ => None,
    }
}

fn prefix(tokens: &Vec<Token>, pos: usize) -> (r: Option<UnaryOperator>)
    ensures
        r == prefix_at(token_views(tokens@), pos as nat),
{
    match kind(tokens, pos) {
        TokenKind::Symbol(Symbol::Minus) => Some(UnaryOperator::Negate),
        TokenKind::Symbol(Symbol::Bang) => Some(UnaryOperator::Not),
        _ => None,
    }
}

fn closes(tokens: &Vec<Token>, pos: usize) -> (r: bool)
    ensures
        r == closes_block(token_views(tokens@), pos as nat),
{
    match kind(tokens, pos) {
        TokenKind::End => true,
        TokenKind::Keyword(Keyword::End) => true,
        TokenKind::Keyword(Keyword::Else) => true,
        TokenKind::Keyword(Keyword::Catch) => true,
        _ => false,
    }
}

fn target(e: Expression) -> (r: Option<AssignmentTarget>)
    ensures
        match r {
            Some(t) => target_of(expr_view(e)) == Some(target_view(t)),
            None => target_of(expr_view(e)) is None,
        },
{
    match e {
        Expression::Identifier(name, _) => Some(AssignmentTarget::Identifier(name)),
        Expression::FieldAccess(access) => {
            let access = *access;
            Some(AssignmentTarget::FieldAccess(Box::new(access.object), access.field))
        },
        Expression::Index(index) => {
            let index = *index;
            Some(AssignmentTarget::Index(Box::new(index.object), Box::new(index.index)))
        },
        _ => None,
    }
}

fn push_expression(read: &mut Vec<Expression>, item: Expression)
    ensures
        expr_views(*final(read)) == expr_views(*old(read)).push(expr_view(item)),
{
    read.push(item);
    assert(expr_views(*read) =~= expr_views(*old(read)).push(expr_view(item)));
}

fn push_pair(read: &mut Vec<(Expression, Expression)>, key: Expression, value: Expression)
    ensures
        pair_views(*final(read)) == pair_views(*old(read)).push((expr_view(key), expr_view(value))),
{
    read.push((key, value));
    assert(pair_views(*read) =~= pair_views(*old(read)).push((expr_view(key), expr_view(value))));
}

fn push_statement(read: &mut Vec<Statement>, item: Statement)
    ensures
        stmt_views(*final(read)) == stmt_views(*old(read)).push(stmt_view(item)),
{
    read.push(item);
    assert(stmt_views(*read) =~= stmt_views(*old(read)).push(stmt_view(item)));
}

fn push_member(read: &mut Vec<ClassMember>, item: ClassMember)
    ensures
        member_views(*final(read)) == member_views(*old(read)).push(member_view(item)),
{
    read.push(item);
    assert(member_views(*read) =~= member_views(*old(read)).push(member_view(item)));
}

fn no_expressions() -> (r: Vec<Expression>)
    ensures
        expr_views(r) == Seq::<ExprView>::empty(),
{
    let r: Vec<Expression> = Vec::new();
    assert(expr_views(r) =~= Seq::<ExprView>::empty());
    r
}

fn no_pairs() -> (r: Vec<(Expression, Expression)>)
    ensures
        pair_views(r) == Seq::<(ExprView, ExprView)>::empty(),
{
    let r: Vec<(Expression, Expression)> = Vec::new();
    assert(pair_views(r) =~= Seq::<(ExprView, ExprView)>::empty());
    r
}

fn no_statements() -> (r: Vec<Statement>)
    ensures
        stmt_views(r) == Seq::<StmtView>::empty(),
{
    let r: Vec<Statement> = Vec::new();
    assert(stmt_views(r) =~= Seq::<StmtView>::empty());
    r
}

fn no_annotations() -> (r: Vec<Annotation>)
    ensures
        annotation_views(r) == Seq::<AnnotationView>::empty(),
{
    let r: Vec<Annotation> = Vec::new();
    assert(annotation_views(r) =~= Seq::<AnnotationView>::empty());
    r
}

fn no_members() -> (r: Vec<ClassMember>)
    ensures
        member_views(r) == Seq::<MemberView>::empty(),
{
    let r: Vec<ClassMember> = Vec::new();
    assert(member_views(r) =~= Seq::<MemberView>::empty());
    r
}

/// A function expression, the keyword `функ` at `pos`.
#[verifier::spinoff_prover]
fn parse_lambda_expr(tokens: &Vec<Token>, pos: usize) -> (r: Result<(Expression, usize), Failure>)
    requires
        pos <= tokens.len(),
        countable(tokens),
    ensures
        read_expression(lambda_at(token_views(tokens@), pos as nat), r, pos + 1, tokens.len() as int),
    decreases tokens.len() - pos, 0nat,
{
    proof {
        reveal(lambda_at);
        reveal(block_from);
        reveal(parameters_from);
        assert(token_views(tokens@).len() == tokens.len());
    }
    if !has_keyword(tokens, pos, Keyword::Func) {
        return Err(failure(Expected::Keyword(Keyword::Func), pos));
    }
    let (params, after_params) = match parse_parameters(tokens, pos + 1) {
        Ok(read) => read,
        Err(f) => {
            return Err(f);
        },
    };
    let (_, start) = match annotation(tokens, after_params) {
        Ok(read) => read,
        Err(f) => {
            return Err(f);
        },
    };
    let (body, end) = match parse_block(tokens, start) {
        Ok(read) => read,
        Err(f) => {
            return Err(f);
        },
    };
    if !has_keyword(tokens, end, Keyword::End) {
        return Err(failure(Expected::Keyword(Keyword::End), end));
    }
    let next = end + 1;
    Ok((Expression::Lambda(Box::new(LambdaExpr { params, body, span: span_over(tokens, pos, next) })), next))
}

/// Expressions with commas between them, up to the closing symbol.
#[verifier::spinoff_prover]
fn parse_expressions(tokens: &Vec<Token>, pos: usize, close: Symbol) -> (r: Result<(Vec<Expression>, usize), Failure>)
    requires
        pos <= tokens.len(),
        countable(tokens),
    ensures
        read_expressions(
            expressions_until(token_views(tokens@), pos as nat, Seq::empty(), close),
            r,
            pos + 1,
            tokens.len() as int,
        ),
    decreases tokens.len() - pos, 6nat,
{
    proof {
        reveal(expressions_until);
        reveal(expression_at);
        assert(token_views(tokens@).len() == tokens.len());
    }
    let ghost views = token_views(tokens@);
    let mut read = no_expressions();
    let mut at: usize = pos;
    loop
        invariant
            pos <= at <= tokens.len(),
            countable(tokens),
            views == token_views(tokens@),
            expressions_until(views, at as nat, expr_views(read), close) == expressions_until(
                views,
                pos as nat,
                Seq::empty(),
                close,
            ),
        decreases tokens.len() - at,
    {
        proof {
            reveal(expressions_until);
            reveal(expression_at);
            assert(token_views(tokens@).len() == tokens.len());
        }
        match parse_expression(tokens, at) {
            Ok((item, next)) => {
                push_expression(&mut read, item);
                if has_symbol(tokens, next, Symbol::Comma) {
                    at = next + 1;
                } else {
                    let end = closing(tokens, next, close);
                    if has_symbol(tokens, end, close) {
                        return Ok((read, end + 1));
                    } else {
                        return Err(failure(Expected::Symbol(close), behind(tokens, next)));
                    }
                }
            },
            Err(f) => {
                return Err(f);
            },
        }
    }
}

/// A list of expressions after its opening symbol.
#[verifier::spinoff_prover]
fn parse_list(tokens: &Vec<Token>, pos: usize, close: Symbol) -> (r: Result<(Vec<Expression>, usize), Failure>)
    requires
        pos <= tokens.len(),
        countable(tokens),
    ensures
        read_expressions(list_at(token_views(tokens@), pos as nat, close), r, pos + 1, tokens.len() as int),
    decreases tokens.len() - pos, 7nat,
{
    proof {
        reveal(list_at);
        reveal(expressions_until);
        assert(token_views(tokens@).len() == tokens.len());
    }
    if has_symbol(tokens, pos, close) {
        Ok((no_expressions(), pos + 1))
    } else {
        parse_expressions(tokens, pos, close)
    }
}

/// The pairs of a dictionary literal, up to the closing brace.
#[verifier::spinoff_prover]
fn parse_pairs(tokens: &Vec<Token>, pos: usize) -> (r: Result<(Vec<(Expression, Expression)>, usize), Failure>)
    requires
        pos <= tokens.len(),
        countable(tokens),
    ensures
        read_pairs(pairs_until(token_views(tokens@), pos as nat, Seq::empty()), r, pos + 1, tokens.len() as int),
    decreases tokens.len() - pos, 6nat,
{
    proof {
        reveal(pairs_until);
        reveal(expression_at);
        assert(token_views(tokens@).len() == tokens.len());
    }
    let ghost views = token_views(tokens@);
    let mut read = no_pairs();
    let mut at: usize = pos;
    loop
        invariant
            pos <= at <= tokens.len(),
            countable(tokens),
            views == token_views(tokens@),
            pairs_until(views, at as nat, pair_views(read)) == pairs_until(views, pos as nat, Seq::empty()),
        decreases tokens.len() - at,
    {
        proof {
            reveal(pairs_until);
            reveal(expression_at);
            assert(token_views(tokens@).len() == tokens.len());
        }
        let (key, colon) = match parse_expression(tokens, at) {
            Ok(read) => read,
            Err(f) => {
                return Err(f);
            },
        };
        if !has_symbol(tokens, colon, Symbol::Colon) {
            return Err(failure(Expected::Symbol(Symbol::Colon), colon));
        }
        let (value, next) = match parse_expression(tokens, colon + 1) {
            Ok(read) => read,
            Err(f) => {
                return Err(f);
            },
        };
        push_pair(&mut read, key, value);
        if has_symbol(tokens, next, Symbol::Comma) {
            at = next + 1;
        } else {
            let end = closing(tokens, next, Symbol::RightBrace);
            if has_symbol(tokens, end, Symbol::RightBrace) {
                return Ok((read, end + 1));
            } else {
                return Err(failure(Expected::Symbol(Symbol::RightBrace), behind(tokens, next)));
            }
        }
    }
}

/// The end of a slice, after its colon.
#[verifier::spinoff_prover]
fn parse_slice_end(tokens: &Vec<Token>, open: usize, start: Option<Box<Expression>>, pos: usize) -> (r: Result<
    (Expression, usize),
    Failure,
>)
    requires
        pos <= tokens.len(),
        countable(tokens),
    ensures
        read_expression(
            slice_end_at(token_views(tokens@), open as nat, optional_boxed_view(start), pos as nat),
            r,
            pos + 1,
            tokens.len() as int,
        ),
    decreases tokens.len() - pos, 6nat,
{
    proof {
        reveal(slice_end_at);
        reveal(expression_at);
        assert(token_views(tokens@).len() == tokens.len());
    }
    if has_symbol(tokens, pos, Symbol::RightBracket) {
        let next = pos + 1;
        Ok((Expression::Range(Box::new(RangeExpr { start, end: None, span: span_over(tokens, open, next) })), next))
    } else {
        match parse_expression(tokens, pos) {
            Ok((end, close)) => {
                if has_symbol(tokens, close, Symbol::RightBracket) {
                    let next = close + 1;
                    Ok(
                        (
                            Expression::Range(
                                Box::new(
                                    RangeExpr { start, end: Some(Box::new(end)), span: span_over(tokens, open, next) },
                                ),
                            ),
                            next,
                        ),
                    )
                } else {
                    Err(failure(Expected::Symbol(Symbol::RightBracket), close))
                }
            },
            Err(f) => Err(f),
        }
    }
}

/// What stands in brackets, the opening bracket at `open`.
#[verifier::spinoff_prover]
fn parse_index(tokens: &Vec<Token>, open: usize) -> (r: Result<(Expression, usize), Failure>)
    requires
        open < tokens.len(),
        countable(tokens),
    ensures
        read_expression(index_at(token_views(tokens@), open as nat), r, open + 2, tokens.len() as int),
    decreases tokens.len() - (open + 1), 7nat,
{
    proof {
        reveal(index_at);
        reveal(expression_at);
        reveal(slice_end_at);
        assert(token_views(tokens@).len() == tokens.len());
    }
    let pos = open + 1;
    if has_symbol(tokens, pos, Symbol::Colon) {
        parse_slice_end(tokens, open, None, pos + 1)
    } else {
        match parse_expression(tokens, pos) {
            Ok((first, next)) => {
                if has_symbol(tokens, next, Symbol::Colon) {
                    parse_slice_end(tokens, open, Some(Box::new(first)), next + 1)
                } else if has_symbol(tokens, next, Symbol::RightBracket) {
                    Ok((first, next + 1))
                } else {
                    Err(failure(Expected::Symbol(Symbol::RightBracket), next))
                }
            },
            Err(f) => Err(f),
        }
    }
}

/// A primary expression.
#[verifier::spinoff_prover]
fn parse_primary_expression(tokens: &Vec<Token>, pos: usize) -> (r: Result<(Expression, usize), Failure>)
    requires
        pos <= tokens.len(),
        countable(tokens),
    ensures
        read_expression(primary_at(token_views(tokens@), pos as nat), r, pos + 1, tokens.len() as int),
    decreases tokens.len() - pos, 1nat,
{
    proof {
        reveal(primary_at);
        reveal(expression_at);
        reveal(lambda_at);
        reveal(list_at);
        reveal(pairs_until);
        assert(token_views(tokens@).len() == tokens.len());
    }
    match kind(tokens, pos) {
        TokenKind::Number => Ok((Expression::Number(tokens[pos].number, span_over(tokens, pos, pos + 1)), pos + 1)),
        TokenKind::Text => Ok((Expression::String(text(tokens, pos), span_over(tokens, pos, pos + 1)), pos + 1)),
        TokenKind::Identifier => Ok(
            (Expression::Identifier(text(tokens, pos), span_over(tokens, pos, pos + 1)), pos + 1),
        ),
        TokenKind::Keyword(Keyword::True) => Ok((Expression::Boolean(true, span_over(tokens, pos, pos + 1)), pos + 1)),
        TokenKind::Keyword(Keyword::False) => Ok(
            (Expression::Boolean(false, span_over(tokens, pos, pos + 1)), pos + 1),
        ),
        TokenKind::Keyword(Keyword::This) => Ok((Expression::This(span_over(tokens, pos, pos + 1)), pos + 1)),
        TokenKind::Keyword(Keyword::Super) => {
            if !has_symbol(tokens, pos + 1, Symbol::Dot) {
                Err(failure(Expected::Symbol(Symbol::Dot), pos + 1))
            } else {
                match name(tokens, pos + 2) {
                    Ok((method, next)) => Ok((Expression::Super(method, span_over(tokens, pos, next)), next)),
                    Err(f) => Err(f),
                }
            }
        },
        TokenKind::Keyword(Keyword::Func) => parse_lambda_expr(tokens, pos),
        TokenKind::Symbol(Symbol::LeftParen) => match parse_expression(tokens, pos + 1) {
            Ok((inner, close)) => {
                if has_symbol(tokens, close, Symbol::RightParen) {
                    Ok((inner, close + 1))
                } else {
                    Err(failure(Expected::Symbol(Symbol::RightParen), close))
                }
            },
            Err(f) => Err(f),
        },
        TokenKind::Symbol(Symbol::LeftBracket) => match parse_list(tokens, pos + 1, Symbol::RightBracket) {
            Ok((elements, next)) => Ok(
                (
                    Expression::ArrayLiteral(
                        Box::new(ArrayLiteralExpr { elements, span: span_over(tokens, pos, next) }),
                    ),
                    next,
                ),
            ),
            Err(f) => Err(f),
        },
        TokenKind::Symbol(Symbol::LeftBrace) => {
            if has_symbol(tokens, pos + 1, Symbol::RightBrace) {
                Ok(
                    (
                        Expression::DictLiteral(
                            Box::new(DictLiteralExpr { pairs: no_pairs(), span: span_over(tokens, pos, pos + 2) }),
                        ),
                        pos + 2,
                    ),
                )
            } else {
                match parse_pairs(tokens, pos + 1) {
                    Ok((pairs, next)) => Ok(
                        (
                            Expression::DictLiteral(
                                Box::new(DictLiteralExpr { pairs, span: span_over(tokens, pos, next) }),
                            ),
                            next,
                        ),
                    ),
                    Err(f) => Err(f),
                }
            }
        },
        _ => Err(failure(Expected::Expression, pos)),
    }
}

/// What follows a primary expression.
#[verifier::spinoff_prover]
fn parse_postfix_rest(tokens: &Vec<Token>, first: usize, object: Expression, pos: usize) -> (r: Result<
    (Expression, usize),
    Failure,
>)
    requires
        pos <= tokens.len(),
        countable(tokens),
    ensures
        read_expression(
            postfix_from(token_views(tokens@), first as nat, expr_view(object), pos as nat),
            r,
            pos as int,
            tokens.len() as int,
        ),
    decreases tokens.len() - pos, 0nat,
{
    proof {
        reveal(postfix_from);
        reveal(index_at);
        reveal(list_at);
        assert(token_views(tokens@).len() == tokens.len());
    }
    let ghost views = token_views(tokens@);
    let mut so_far = object;
    let mut at: usize = pos;
    loop
        invariant
            pos <= at <= tokens.len(),
            countable(tokens),
            views == token_views(tokens@),
            postfix_from(views, first as nat, expr_view(so_far), at as nat) == postfix_from(
                views,
                first as nat,
                expr_view(object),
                pos as nat,
            ),
        decreases tokens.len() - at,
    {
        proof {
            reveal(postfix_from);
            reveal(index_at);
            reveal(list_at);
            assert(token_views(tokens@).len() == tokens.len());
        }
        if has_symbol(tokens, at, Symbol::LeftParen) {
            match parse_list(tokens, at + 1, Symbol::RightParen) {
                Ok((arguments, next)) => {
                    so_far =
                    Expression::Call(
                        Box::new(CallExpr { callee: so_far, arguments, span: span_over(tokens, first, next) }),
                    );
                    at = next;
                },
                Err(f) => {
                    return Err(f);
                },
            }
        } else if has_symbol(tokens, at, Symbol::Dot) {
            match name(tokens, at + 1) {
                Ok((field, next)) => {
                    so_far =
                    Expression::FieldAccess(
                        Box::new(FieldAccessExpr { object: so_far, field, span: span_over(tokens, first, at + 2) }),
                    );
                    at = at + 2;
                },
                Err(f) => {
                    return Err(f);
                },
            }
        } else if has_symbol(tokens, at, Symbol::LeftBracket) {
            match parse_index(tokens, at) {
                Ok((index, next)) => {
                    so_far =
                    Expression::Index(Box::new(IndexExpr { object: so_far, index, span: span_over(tokens, first, next) }));
                    at = next;
                },
                Err(f) => {
                    return Err(f);
                },
            }
        } else {
            return Ok((so_far, at));
        }
    }
}

/// A primary expression with what follows it.
#[verifier::spinoff_prover]
fn parse_postfix_expression(tokens: &Vec<Token>, pos: usize) -> (r: Result<(Expression, usize), Failure>)
    requires
        pos <= tokens.len(),
        countable(tokens),
    ensures
        read_expression(postfix_at(token_views(tokens@), pos as nat), r, pos + 1, tokens.len() as int),
    decreases tokens.len() - pos, 2nat,
{
    proof {
        reveal(postfix_at);
        reveal(postfix_from);
        reveal(primary_at);
        assert(token_views(tokens@).len() == tokens.len());
    }
    match parse_primary_expression(tokens, pos) {
        Ok((object, next)) => parse_postfix_rest(tokens, pos, object, next),
        Err(f) => Err(f),
    }
}

/// An expression with its prefix operators.
#[verifier::spinoff_prover]
fn parse_unary_expression(tokens: &Vec<Token>, pos: usize) -> (r: Result<(Expression, usize), Failure>)
    requires
        pos <= tokens.len(),
        countable(tokens),
    ensures
        read_expression(unary_at(token_views(tokens@), pos as nat), r, pos + 1, tokens.len() as int),
    decreases tokens.len() - pos, 3nat,
{
    proof {
        reveal(unary_at);
        reveal(postfix_at);
        assert(token_views(tokens@).len() == tokens.len());
    }
    match prefix(tokens, pos) {
        Some(operator) => match parse_unary_expression(tokens, pos + 1) {
            Ok((operand, next)) => Ok(
                (
                    Expression::Unary(Box::new(UnaryExpr { operator, operand, span: span_over(tokens, pos, next) })),
                    next,
                ),
            ),
            Err(f) => Err(f),
        },
        None => parse_postfix_expression(tokens, pos),
    }
}

/// The binary operators that follow `left`, with their right sides.
#[verifier::spinoff_prover]
fn parse_binary_rest(tokens: &Vec<Token>, first: usize, left: Expression, pos: usize, least: u8) -> (r: Result<
    (Expression, usize),
    Failure,
>)
    requires
        pos <= tokens.len(),
        countable(tokens),
    ensures
        read_expression(
            binary_from(token_views(tokens@), first as nat, expr_view(left), pos as nat, least as nat),
            r,
            pos as int,
            tokens.len() as int,
        ),
    decreases tokens.len() - pos, 0nat,
{
    proof {
        reveal(binary_from);
        reveal(binary_at);
        assert(token_views(tokens@).len() == tokens.len());
    }
    let ghost views = token_views(tokens@);
    let mut so_far = left;
    let mut at: usize = pos;
    loop
        invariant
            pos <= at <= tokens.len(),
            countable(tokens),
            views == token_views(tokens@),
            binary_from(views, first as nat, expr_view(so_far), at as nat, least as nat) == binary_from(
                views,
                first as nat,
                expr_view(left),
                pos as nat,
                least as nat,
            ),
        decreases tokens.len() - at,
    {
        proof {
            reveal(binary_from);
            reveal(binary_at);
            assert(token_views(tokens@).len() == tokens.len());
        }
        match operator(tokens, at) {
            Some(operator) => {
                let binding: u8 = operator.precedence();
                if binding >= least {
                    match parse_binary_expression(tokens, at + 1, binding + 1) {
                        Ok((right, next)) => {
                            so_far =
                            Expression::Binary(
                                Box::new(
                                    BinaryExpr { left: so_far, operator, right, span: span_over(tokens, first, next) },
                                ),
                            );
                            at = next;
                        },
                        Err(f) => {
                            return Err(f);
                        },
                    }
                } else {
                    return Ok((so_far, at));
                }
            },
            None => {
                return Ok((so_far, at));
            },
        }
    }
}

/// An expression of binary operators that bind at least as strongly as
/// `least`.
#[verifier::spinoff_prover]
fn parse_binary_expression(tokens: &Vec<Token>, pos: usize, least: u8) -> (r: Result<(Expression, usize), Failure>)
    requires
        pos <= tokens.len(),
        countable(tokens),
    ensures
        read_expression(binary_at(token_views(tokens@), pos as nat, least as nat), r, pos + 1, tokens.len() as int),
    decreases tokens.len() - pos, 4nat,
{
    proof {
        reveal(binary_at);
        reveal(binary_from);
        reveal(unary_at);
        assert(token_views(tokens@).len() == tokens.len());
    }
    match parse_unary_expression(tokens, pos) {
        Ok((left, next)) => parse_binary_rest(tokens, pos, left, next, least),
        Err(f) => Err(f),
    }
}

/// Reads the expression that begins at token `pos`.
#[verifier::spinoff_prover]
pub fn parse_expression(tokens: &Vec<Token>, pos: usize) -> (r: Result<(Expression, usize), Failure>)
    requires
        pos <= tokens.len(),
        countable(tokens),
    ensures
        read_expression(expression_at(token_views(tokens@), pos as nat), r, pos + 1, tokens.len() as int),
    decreases tokens.len() - pos, 5nat,
{
    proof {
        reveal(expression_at);
        reveal(binary_at);
        assert(token_views(tokens@).len() == tokens.len());
    }
    parse_binary_expression(tokens, pos, 0)
}

fn declared(pos: usize, exported: bool) -> (r: usize)
    ensures
        r == declared_from(pos as nat, exported),
{
    if exported && pos > 0 {
        pos - 1
    } else {
        pos
    }
}

/// Reads the import whose keyword `использовать` stands at token `pos`.
#[verifier::spinoff_prover]
pub fn parse_import_statement(tokens: &Vec<Token>, pos: usize) -> (r: Result<(Statement, usize), Failure>)
    requires
        pos <= tokens.len(),
        countable(tokens),
    ensures
        read_statement(import_at(token_views(tokens@), pos as nat), r, pos + 1, tokens.len() as int),
{
    if !has_keyword(tokens, pos, Keyword::Use) {
        return Err(failure(Expected::Keyword(Keyword::Use), pos));
    }
    if kind(tokens, pos + 1) != TokenKind::Text {
        return Err(failure(Expected::Text, pos + 1));
    }
    let path = text(tokens, pos + 1);
    if has_keyword(tokens, pos + 2, Keyword::As) {
        match identifier(tokens, pos + 3) {
            Ok((alias, end)) => {
                if !has_symbol(tokens, end, Symbol::Semicolon) {
                    return Err(failure(Expected::Symbol(Symbol::Semicolon), end));
                }
                let next = end + 1;
                Ok(
                    (
                        Statement::Import(
                            ImportStatement { path, alias: Some(alias), span: span_over(tokens, pos, next) },
                        ),
                        next,
                    ),
                )
            },
            Err(f) => Err(f),
        }
    } else {
        if !has_symbol(tokens, pos + 2, Symbol::Semicolon) {
            return Err(failure(Expected::Symbol(Symbol::Semicolon), pos + 2));
        }
        let next = pos + 3;
        Ok((Statement::Import(ImportStatement { path, alias: None, span: span_over(tokens, pos, next) }), next))
    }
}

/// Reads the variable declaration whose keyword `пер` stands at token
/// `pos`; `exported` says whether `экспорт` stands before it.
#[verifier::spinoff_prover]
pub fn parse_var_statement(tokens: &Vec<Token>, pos: usize, exported: bool) -> (r: Result<(Statement, usize), Failure>)
    requires
        pos <= tokens.len(),
        countable(tokens),
    ensures
        read_statement(var_at(token_views(tokens@), pos as nat, exported), r, pos + 1, tokens.len() as int),
    decreases tokens.len() - pos, 7nat,
{
    proof {
        reveal(var_at);
        reveal(expression_at);
        assert(token_views(tokens@).len() == tokens.len());
    }
    if !has_keyword(tokens, pos, Keyword::Var) {
        return Err(failure(Expected::Keyword(Keyword::Var), pos));
    }
    let (name, after_name) = match identifier(tokens, pos + 1) {
        Ok(read) => read,
        Err(f) => {
            return Err(f);
        },
    };
    let (type_annotation, after_type) = match annotation(tokens, after_name) {
        Ok(read) => read,
        Err(f) => {
            return Err(f);
        },
    };
    let first = declared(pos, exported);
    if has_symbol(tokens, after_type, Symbol::Assign) {
        let (value, end) = match parse_expression(tokens, after_type + 1) {
            Ok(read) => read,
            Err(f) => {
                return Err(f);
            },
        };
        if !has_symbol(tokens, end, Symbol::Semicolon) {
            return Err(failure(Expected::Symbol(Symbol::Semicolon), end));
        }
        let next = end + 1;
        Ok(
            (
                Statement::VarDecl(
                    VarDecl {
                        name,
                        type_annotation,
                        initializer: Some(value),
                        is_exported: exported,
                        span: span_over(tokens, first, next),
                    },
                ),
                next,
            ),
        )
    } else {
        if !has_symbol(tokens, after_type, Symbol::Semicolon) {
            return Err(failure(Expected::Symbol(Symbol::Semicolon), after_type));
        }
        let next = after_type + 1;
        Ok(
            (
                Statement::VarDecl(
                    VarDecl {
                        name,
                        type_annotation,
                        initializer: None,
                        is_exported: exported,
                        span: span_over(tokens, first, next),
                    },
                ),
                next,
            ),
        )
    }
}

/// Reads the function declaration whose keyword `функ` stands at token
/// `pos`; `exported` says whether `экспорт` stands before it.
#[verifier::spinoff_prover]
pub fn parse_function_declaration(tokens: &Vec<Token>, pos: usize, exported: bool) -> (r: Result<
    (FuncDecl, usize),
    Failure,
>)
    requires
        pos <= tokens.len(),
        countable(tokens),
    ensures
        read_function(func_at(token_views(tokens@), pos as nat, exported), r, pos + 1, tokens.len() as int),
    decreases tokens.len() - pos, 7nat,
{
    proof {
        reveal(func_at);
        reveal(block_from);
        reveal(parameters_from);
        assert(token_views(tokens@).len() == tokens.len());
    }
    if !has_keyword(tokens, pos, Keyword::Func) {
        return Err(failure(Expected::Keyword(Keyword::Func), pos));
    }
    let (name, after_name) = match identifier(tokens, pos + 1) {
        Ok(read) => read,
        Err(f) => {
            return Err(f);
        },
    };
    let (params, after_params) = match parse_parameters(tokens, after_name) {
        Ok(read) => read,
        Err(f) => {
            return Err(f);
        },
    };
    let (_, start) = match annotation(tokens, after_params) {
        Ok(read) => read,
        Err(f) => {
            return Err(f);
        },
    };
    let (body, end) = match parse_block(tokens, start) {
        Ok(read) => read,
        Err(f) => {
            return Err(f);
        },
    };
    if !has_keyword(tokens, end, Keyword::End) {
        return Err(failure(Expected::Keyword(Keyword::End), end));
    }
    let next = end + 1;
    let first = declared(pos, exported);
    Ok(
        (
            FuncDecl {
                name,
                params,
                body,
                annotations: no_annotations(),
                is_exported: exported,
                span: span_over(tokens, first, next),
            },
            next,
        ),
    )
}

/// Reads the constructor whose keyword stands at token `pos`.
#[verifier::spinoff_prover]
pub fn parse_constructor_declaration(tokens: &Vec<Token>, pos: usize) -> (r: Result<(ClassMember, usize), Failure>)
    requires
        pos <= tokens.len(),
        countable(tokens),
    ensures
        read_member(constructor_at(token_views(tokens@), pos as nat), r, pos + 1, tokens.len() as int),
    decreases tokens.len() - pos, 7nat,
{
    proof {
        reveal(constructor_at);
        reveal(block_from);
        reveal(parameters_from);
        assert(token_views(tokens@).len() == tokens.len());
    }
    if !has_keyword(tokens, pos, Keyword::Constructor) {
        return Err(failure(Expected::Keyword(Keyword::Constructor), pos));
    }
    let (params, start) = match parse_parameters(tokens, pos + 1) {
        Ok(read) => read,
        Err(f) => {
            return Err(f);
        },
    };
    let (body, end) = match parse_block(tokens, start) {
        Ok(read) => read,
        Err(f) => {
            return Err(f);
        },
    };
    if !has_keyword(tokens, end, Keyword::End) {
        return Err(failure(Expected::Keyword(Keyword::End), end));
    }
    let next = end + 1;
    Ok((ClassMember::Constructor(ConstructorDecl { params, body, span: span_over(tokens, pos, next) }), next))
}

/// A field of a class.
#[verifier::spinoff_prover]
fn parse_field(tokens: &Vec<Token>, pos: usize) -> (r: Result<(ClassMember, usize), Failure>)
    requires
        pos <= tokens.len(),
        countable(tokens),
    ensures
        read_member(field_at(token_views(tokens@), pos as nat), r, pos + 1, tokens.len() as int),
{
    let (name, after_name) = match identifier(tokens, pos) {
        Ok(read) => read,
        Err(f) => {
            return Err(f);
        },
    };
    let (type_annotation, end) = match annotation(tokens, after_name) {
        Ok(read) => read,
        Err(f) => {
            return Err(f);
        },
    };
    let next = if has_symbol(tokens, end, Symbol::Semicolon) {
        end + 1
    } else {
        end
    };
    Ok((ClassMember::Field { name, type_annotation }, next))
}

/// The members of a class, up to its `конец`.
#[verifier::spinoff_prover]
fn parse_class_members(tokens: &Vec<Token>, pos: usize) -> (r: Result<(Vec<ClassMember>, usize), Failure>)
    requires
        pos <= tokens.len(),
        countable(tokens),
    ensures
        read_members(members_from(token_views(tokens@), pos as nat, Seq::empty()), r, pos as int, tokens.len() as int),
    decreases tokens.len() - pos, 9nat,
{
    proof {
        reveal(members_from);
        reveal(constructor_at);
        reveal(func_at);
        assert(token_views(tokens@).len() == tokens.len());
    }
    let ghost views = token_views(tokens@);
    let mut read = no_members();
    let mut at: usize = pos;
    loop
        invariant
            pos <= at <= tokens.len(),
            countable(tokens),
            views == token_views(tokens@),
            members_from(views, at as nat, member_views(read)) == members_from(views, pos as nat, Seq::empty()),
        decreases tokens.len() - at,
    {
        proof {
            reveal(members_from);
            reveal(constructor_at);
            reveal(func_at);
            assert(token_views(tokens@).len() == tokens.len());
        }
        if has_keyword(tokens, at, Keyword::End) {
            return Ok((read, at));
        } else if has_keyword(tokens, at, Keyword::Constructor) {
            match parse_constructor_declaration(tokens, at) {
                Ok((member, next)) => {
                    push_member(&mut read, member);
                    at = next;
                },
                Err(f) => {
                    return Err(f);
                },
            }
        } else if has_keyword(tokens, at, Keyword::Func) {
            match parse_function_declaration(tokens, at, false) {
                Ok((method, next)) => {
                    push_member(&mut read, ClassMember::Method(method));
                    at = next;
                },
                Err(f) => {
                    return Err(f);
                },
            }
        } else if kind(tokens, at) == TokenKind::Identifier {
            match parse_field(tokens, at) {
                Ok((member, next)) => {
                    push_member(&mut read, member);
                    at = next;
                },
                Err(f) => {
                    return Err(f);
                },
            }
        } else {
            return Err(failure(Expected::Member, at));
        }
    }
}

/// Identifiers with commas between them.
#[verifier::spinoff_prover]
fn parse_identifier_list(tokens: &Vec<Token>, pos: usize) -> (r: Result<(Vec<String>, usize), Failure>)
    requires
        pos <= tokens.len(),
        countable(tokens),
    ensures
        match r {
            Ok((names, next)) => identifiers_from(token_views(tokens@), pos as nat, Seq::empty()) == Ok::<
                (Seq<Seq<char>>, nat),
                Failure,
            >((text_views(names@), next as nat)) && pos < next <= tokens.len(),
            Err(f) => identifiers_from(token_views(tokens@), pos as nat, Seq::empty()) == Err::<
                (Seq<Seq<char>>, nat),
                Failure,
            >(f) && !(f.expected is Progress),
        },
{
    proof {
        reveal(identifiers_from);
        assert(token_views(tokens@).len() == tokens.len());
    }
    let ghost views = token_views(tokens@);
    let mut read: Vec<String> = Vec::new();
    assert(text_views(read@) =~= Seq::empty());
    let mut at: usize = pos;
    loop
        invariant
            pos <= at <= tokens.len(),
            countable(tokens),
            views == token_views(tokens@),
            identifiers_from(views, at as nat, text_views(read@)) == identifiers_from(
                views,
                pos as nat,
                Seq::empty(),
            ),
        decreases tokens.len() - at,
    {
        proof {
            reveal(identifiers_from);
            assert(token_views(tokens@).len() == tokens.len());
        }
        match identifier(tokens, at) {
            Ok((name, next)) => {
                let ghost before = text_views(read@);
                read.push(name);
                assert(text_views(read@) =~= before.push(name@));
                if has_symbol(tokens, next, Symbol::Comma) {
                    at = next + 1;
                } else {
                    return Ok((read, next));
                }
            },
            Err(f) => {
                return Err(f);
            },
        }
    }
}

/// Reads the class declaration whose keyword `класс` stands at token
/// `pos`; `exported` says whether `экспорт` stands before it.
#[verifier::spinoff_prover]
pub fn parse_class_declaration(tokens: &Vec<Token>, pos: usize, exported: bool) -> (r: Result<(Statement, usize), Failure>)
    requires
        pos <= tokens.len(),
        countable(tokens),
    ensures
        read_statement(class_at(token_views(tokens@), pos as nat, exported), r, pos + 1, tokens.len() as int),
    decreases tokens.len() - pos, 7nat,
{
    proof {
        reveal(class_at);
        reveal(identifiers_from);
        reveal(members_from);
        assert(token_views(tokens@).len() == tokens.len());
    }
    if !has_keyword(tokens, pos, Keyword::Class) {
        return Err(failure(Expected::Keyword(Keyword::Class), pos));
    }
    let (name, after_name) = match identifier(tokens, pos + 1) {
        Ok(read) => read,
        Err(f) => {
            return Err(f);
        },
    };
    let mut extends: Option<String> = None;
    let mut after_extends: usize = after_name;
    if has_keyword(tokens, after_name, Keyword::Extends) {
        match identifier(tokens, after_name + 1) {
            Ok((parent, next)) => {
                extends = Some(parent);
                after_extends = next;
            },
            Err(f) => {
                return Err(f);
            },
        }
    }
    let mut implements: Vec<String> = Vec::new();
    let mut start: usize = after_extends;
    assert(text_views(implements@) =~= Seq::empty());
    if has_keyword(tokens, after_extends, Keyword::Implements) {
        match parse_identifier_list(tokens, after_extends + 1) {
            Ok((names, next)) => {
                implements = names;
                start = next;
            },
            Err(f) => {
                return Err(f);
            },
        }
    }
    let (members, end) = match parse_class_members(tokens, start) {
        Ok(read) => read,
        Err(f) => {
            return Err(f);
        },
    };
    if !has_keyword(tokens, end, Keyword::End) {
        return Err(failure(Expected::Keyword(Keyword::End), end));
    }
    let next = end + 1;
    let first = declared(pos, exported);
    Ok(
        (
            Statement::ClassDecl(
                ClassDecl {
                    name,
                    extends,
                    implements,
                    members,
                    annotations: no_annotations(),
                    is_exported: exported,
                    span: span_over(tokens, first, next),
                },
            ),
            next,
        ),
    )
}

/// A method signature of an interface, the keyword `функ` at `pos`.
#[verifier::spinoff_prover]
fn parse_method_signature(tokens: &Vec<Token>, pos: usize) -> (r: Result<(MethodSignature, usize), Failure>)
    requires
        pos <= tokens.len(),
        countable(tokens),
    ensures
        match r {
            Ok((s, next)) => signature_at(token_views(tokens@), pos as nat) == Ok::<(SignatureView, nat), Failure>(
                (s@, next as nat),
            ) && pos < next <= tokens.len(),
            Err(f) => signature_at(token_views(tokens@), pos as nat) == Err::<(SignatureView, nat), Failure>(f) && !(f.expected is Progress),
        },
{
    let (name, after_name) = match identifier(tokens, pos + 1) {
        Ok(read) => read,
        Err(f) => {
            return Err(f);
        },
    };
    let (params, end) = match parse_parameters(tokens, after_name) {
        Ok(read) => read,
        Err(f) => {
            return Err(f);
        },
    };
    if !has_symbol(tokens, end, Symbol::Semicolon) {
        return Err(failure(Expected::Symbol(Symbol::Semicolon), end));
    }
    let next = end + 1;
    Ok((MethodSignature { name, params, span: span_over(tokens, pos, next) }, next))
}

/// Reads the interface declaration whose keyword `интерфейс` stands at
/// token `pos`; `exported` says whether `экспорт` stands before it.
#[verifier::spinoff_prover]
pub fn parse_interface_declaration(tokens: &Vec<Token>, pos: usize, exported: bool) -> (r: Result<
    (Statement, usize),
    Failure,
>)
    requires
        pos <= tokens.len(),
        countable(tokens),
    ensures
        read_statement(interface_at(token_views(tokens@), pos as nat, exported), r, pos + 1, tokens.len() as int),
{
    proof {
        reveal(signatures_from);
        reveal(parameters_from);
        assert(token_views(tokens@).len() == tokens.len());
    }
    if !has_keyword(tokens, pos, Keyword::Interface) {
        return Err(failure(Expected::Keyword(Keyword::Interface), pos));
    }
    let (name, start) = match identifier(tokens, pos + 1) {
        Ok(read) => read,
        Err(f) => {
            return Err(f);
        },
    };
    let ghost views = token_views(tokens@);
    let mut methods: Vec<MethodSignature> = Vec::new();
    assert(signature_views(methods@) =~= Seq::empty());
    let mut at: usize = start;
    while has_keyword(tokens, at, Keyword::Func)
        invariant
            start <= at <= tokens.len(),
            countable(tokens),
            views == token_views(tokens@),
            is_keyword(views, pos as nat, Keyword::Interface),
            identifier_at(views, (pos + 1) as nat) == Ok::<(Seq<char>, nat), Failure>((name@, start as nat)),
            signatures_from(views, at as nat, signature_views(methods@)) == signatures_from(
                views,
                start as nat,
                Seq::empty(),
            ),
        decreases tokens.len() - at,
    {
        proof {
            reveal(signatures_from);
            reveal(parameters_from);
            assert(token_views(tokens@).len() == tokens.len());
        }
        match parse_method_signature(tokens, at) {
            Ok((signature, next)) => {
                let ghost before = signature_views(methods@);
                methods.push(signature);
                assert(signature_views(methods@) =~= before.push(signature@));
                at = next;
            },
            Err(f) => {
                return Err(f);
            },
        }
    }
    if !has_keyword(tokens, at, Keyword::End) {
        return Err(failure(Expected::Keyword(Keyword::End), at));
    }
    let next = at + 1;
    let first = declared(pos, exported);
    Ok(
        (
            Statement::InterfaceDecl(
                InterfaceDecl { name, methods, is_exported: exported, span: span_over(tokens, first, next) },
            ),
            next,
        ),
    )
}

/// Reads the annotation declaration whose keyword `аннотация` stands at
/// token `pos`; `exported` says whether `экспорт` stands before it.
#[verifier::spinoff_prover]
pub fn parse_annotation_declaration(tokens: &Vec<Token>, pos: usize, exported: bool) -> (r: Result<
    (Statement, usize),
    Failure,
>)
    requires
        pos <= tokens.len(),
        countable(tokens),
    ensures
        read_statement(
            annotation_decl_at(token_views(tokens@), pos as nat, exported),
            r,
            pos + 1,
            tokens.len() as int,
        ),
    decreases tokens.len() - pos, 7nat,
{
    proof {
        reveal(annotation_decl_at);
        reveal(block_from);
        assert(token_views(tokens@).len() == tokens.len());
    }
    if !has_keyword(tokens, pos, Keyword::Annotation) {
        return Err(failure(Expected::Keyword(Keyword::Annotation), pos));
    }
    let (name, start) = match identifier(tokens, pos + 1) {
        Ok(read) => read,
        Err(f) => {
            return Err(f);
        },
    };
    let (body, end) = match parse_block(tokens, start) {
        Ok(read) => read,
        Err(f) => {
            return Err(f);
        },
    };
    if !has_keyword(tokens, end, Keyword::End) {
        return Err(failure(Expected::Keyword(Keyword::End), end));
    }
    let next = end + 1;
    let first = declared(pos, exported);
    Ok(
        (
            Statement::AnnotationDecl(
                AnnotationDecl { name, body, is_exported: exported, span: span_over(tokens, first, next) },
            ),
            next,
        ),
    )
}

/// What may follow the first branch of an `если`.
#[verifier::spinoff_prover]
fn parse_else_branch(tokens: &Vec<Token>, pos: usize) -> (r: Result<(Option<Vec<Statement>>, usize), Failure>)
    requires
        pos <= tokens.len(),
        countable(tokens),
    ensures
        match r {
            Ok((branch, next)) => else_at(token_views(tokens@), pos as nat) == Ok::<
                (Option<Seq<StmtView>>, nat),
                Failure,
            >((optional_stmt_views(branch), next as nat)) && pos <= next <= tokens.len(),
            Err(f) => else_at(token_views(tokens@), pos as nat) == Err::<(Option<Seq<StmtView>>, nat), Failure>(f) && !(f.expected is Progress),
        },
    decreases tokens.len() - pos, 7nat,
{
    proof {
        reveal(else_at);
        reveal(block_from);
        reveal(expression_at);
        assert(token_views(tokens@).len() == tokens.len());
    }
    if !has_keyword(tokens, pos, Keyword::Else) {
        return Ok((None, pos));
    }
    if has_keyword(tokens, pos + 1, Keyword::If) {
        let (condition, start) = match parse_expression(tokens, pos + 2) {
            Ok(read) => read,
            Err(f) => {
                return Err(f);
            },
        };
        let (then_branch, end) = match parse_block(tokens, start) {
            Ok(read) => read,
            Err(f) => {
                return Err(f);
            },
        };
        let (else_branch, next) = match parse_else_branch(tokens, end) {
            Ok(read) => read,
            Err(f) => {
                return Err(f);
            },
        };
        let nested = Statement::If(
            IfStatement { condition, then_branch, else_branch, span: span_over(tokens, pos + 1, next) },
        );
        let mut branch = no_statements();
        push_statement(&mut branch, nested);
        assert(stmt_views(branch) =~= seq![stmt_view(nested)]);
        Ok((Some(branch), next))
    } else {
        match parse_block(tokens, pos + 1) {
            Ok((statements, next)) => Ok((Some(statements), next)),
            Err(f) => Err(f),
        }
    }
}

/// Reads the `если` statement whose keyword stands at token `pos`.
#[verifier::spinoff_prover]
pub fn parse_if_statement(tokens: &Vec<Token>, pos: usize) -> (r: Result<(Statement, usize), Failure>)
    requires
        pos <= tokens.len(),
        countable(tokens),
    ensures
        read_statement(if_at(token_views(tokens@), pos as nat), r, pos + 1, tokens.len() as int),
    decreases tokens.len() - pos, 7nat,
{
    proof {
        reveal(if_at);
        reveal(block_from);
        reveal(else_at);
        reveal(expression_at);
        assert(token_views(tokens@).len() == tokens.len());
    }
    if !has_keyword(tokens, pos, Keyword::If) {
        return Err(failure(Expected::Keyword(Keyword::If), pos));
    }
    let (condition, start) = match parse_expression(tokens, pos + 1) {
        Ok(read) => read,
        Err(f) => {
            return Err(f);
        },
    };
    let (then_branch, after_then) = match parse_block(tokens, start) {
        Ok(read) => read,
        Err(f) => {
            return Err(f);
        },
    };
    let (else_branch, end) = match parse_else_branch(tokens, after_then) {
        Ok(read) => read,
        Err(f) => {
            return Err(f);
        },
    };
    if !has_keyword(tokens, end, Keyword::End) {
        return Err(failure(Expected::Keyword(Keyword::End), end));
    }
    let next = end + 1;
    Ok(
        (
            Statement::If(IfStatement { condition, then_branch, else_branch, span: span_over(tokens, pos, next) }),
            next,
        ),
    )
}

/// Reads the `пока` statement whose keyword stands at token `pos`.
#[verifier::spinoff_prover]
pub fn parse_while_statement(tokens: &Vec<Token>, pos: usize) -> (r: Result<(Statement, usize), Failure>)
    requires
        pos <= tokens.len(),
        countable(tokens),
    ensures
        read_statement(while_at(token_views(tokens@), pos as nat), r, pos + 1, tokens.len() as int),
    decreases tokens.len() - pos, 7nat,
{
    proof {
        reveal(while_at);
        reveal(block_from);
        reveal(expression_at);
        assert(token_views(tokens@).len() == tokens.len());
    }
    if !has_keyword(tokens, pos, Keyword::While) {
        return Err(failure(Expected::Keyword(Keyword::While), pos));
    }
    let (condition, start) = match parse_expression(tokens, pos + 1) {
        Ok(read) => read,
        Err(f) => {
            return Err(f);
        },
    };
    let (body, end) = match parse_block(tokens, start) {
        Ok(read) => read,
        Err(f) => {
            return Err(f);
        },
    };
    if !has_keyword(tokens, end, Keyword::End) {
        return Err(failure(Expected::Keyword(Keyword::End), end));
    }
    let next = end + 1;
    Ok((Statement::While(WhileStatement { condition, body, span: span_over(tokens, pos, next) }), next))
}

/// Reads the `попытка` statement whose keyword stands at token `pos`.
#[verifier::spinoff_prover]
pub fn parse_try_statement(tokens: &Vec<Token>, pos: usize) -> (r: Result<(Statement, usize), Failure>)
    requires
        pos <= tokens.len(),
        countable(tokens),
    ensures
        read_statement(try_at(token_views(tokens@), pos as nat), r, pos + 1, tokens.len() as int),
    decreases tokens.len() - pos, 7nat,
{
    proof {
        reveal(try_at);
        reveal(block_from);
        assert(token_views(tokens@).len() == tokens.len());
    }
    if !has_keyword(tokens, pos, Keyword::Try) {
        return Err(failure(Expected::Keyword(Keyword::Try), pos));
    }
    let (try_body, catch) = match parse_block(tokens, pos + 1) {
        Ok(read) => read,
        Err(f) => {
            return Err(f);
        },
    };
    if !has_keyword(tokens, catch, Keyword::Catch) {
        return Err(failure(Expected::Keyword(Keyword::Catch), catch));
    }
    let named = kind(tokens, catch + 1) == TokenKind::Identifier && !has_symbol(
        tokens,
        catch + 2,
        Symbol::LeftParen,
    );
    let mut catch_var: Option<String> = None;
    let mut start: usize = catch + 1;
    if named {
        catch_var = Some(text(tokens, catch + 1));
        start = catch + 2;
    }
    let (catch_body, end) = match parse_block(tokens, start) {
        Ok(read) => read,
        Err(f) => {
            return Err(f);
        },
    };
    if !has_keyword(tokens, end, Keyword::End) {
        return Err(failure(Expected::Keyword(Keyword::End), end));
    }
    let next = end + 1;
    Ok(
        (
            Statement::Try(
                Box::new(TryStatement { try_body, catch_var, catch_body, span: span_over(tokens, pos, next) }),
            ),
            next,
        ),
    )
}

/// Reads the `исключение` statement whose keyword stands at token `pos`.
#[verifier::spinoff_prover]
pub fn parse_throw_statement(tokens: &Vec<Token>, pos: usize) -> (r: Result<(Statement, usize), Failure>)
    requires
        pos <= tokens.len(),
        countable(tokens),
    ensures
        read_statement(throw_at(token_views(tokens@), pos as nat), r, pos + 1, tokens.len() as int),
    decreases tokens.len() - pos, 7nat,
{
    proof {
        reveal(throw_at);
        reveal(expression_at);
        assert(token_views(tokens@).len() == tokens.len());
    }
    if !has_keyword(tokens, pos, Keyword::Throw) {
        return Err(failure(Expected::Keyword(Keyword::Throw), pos));
    }
    let (expression, end) = match parse_expression(tokens, pos + 1) {
        Ok(read) => read,
        Err(f) => {
            return Err(f);
        },
    };
    if !has_symbol(tokens, end, Symbol::Semicolon) {
        return Err(failure(Expected::Symbol(Symbol::Semicolon), end));
    }
    let next = end + 1;
    Ok((Statement::Throw(Box::new(ThrowStatement { expression, span: span_over(tokens, pos, next) })), next))
}

/// Reads the `возврат` statement whose keyword stands at token `pos`.
#[verifier::spinoff_prover]
pub fn parse_return_statement(tokens: &Vec<Token>, pos: usize) -> (r: Result<(Statement, usize), Failure>)
    requires
        pos <= tokens.len(),
        countable(tokens),
    ensures
        read_statement(return_at(token_views(tokens@), pos as nat), r, pos + 1, tokens.len() as int),
    decreases tokens.len() - pos, 7nat,
{
    proof {
        reveal(return_at);
        reveal(expression_at);
        assert(token_views(tokens@).len() == tokens.len());
    }
    if !has_keyword(tokens, pos, Keyword::Return) {
        return Err(failure(Expected::Keyword(Keyword::Return), pos));
    }
    if has_symbol(tokens, pos + 1, Symbol::Semicolon) {
        let next = pos + 2;
        return Ok((Statement::Return(ReturnStatement { value: None, span: span_over(tokens, pos, next) }), next));
    }
    let (value, end) = match parse_expression(tokens, pos + 1) {
        Ok(read) => read,
        Err(f) => {
            return Err(f);
        },
    };
    if !has_symbol(tokens, end, Symbol::Semicolon) {
        return Err(failure(Expected::Symbol(Symbol::Semicolon), end));
    }
    let next = end + 1;
    Ok((Statement::Return(ReturnStatement { value: Some(value), span: span_over(tokens, pos, next) }), next))
}

/// Reads the expression or the assignment that stands as a statement at
/// token `pos`.
#[verifier::spinoff_prover]
pub fn parse_assignment_or_expression_statement(tokens: &Vec<Token>, pos: usize) -> (r: Result<
    (Statement, usize),
    Failure,
>)
    requires
        pos <= tokens.len(),
        countable(tokens),
    ensures
        read_statement(simple_at(token_views(tokens@), pos as nat), r, pos + 1, tokens.len() as int),
    decreases tokens.len() - pos, 7nat,
{
    proof {
        reveal(simple_at);
        reveal(expression_at);
        assert(token_views(tokens@).len() == tokens.len());
    }
    let (left, after_left) = match parse_expression(tokens, pos) {
        Ok(read) => read,
        Err(f) => {
            return Err(f);
        },
    };
    if has_symbol(tokens, after_left, Symbol::Assign) {
        let target = match target(left) {
            Some(target) => target,
            None => {
                return Err(failure(Expected::Target, pos));
            },
        };
        let (value, end) = match parse_expression(tokens, after_left + 1) {
            Ok(read) => read,
            Err(f) => {
                return Err(f);
            },
        };
        if !has_symbol(tokens, end, Symbol::Semicolon) {
            return Err(failure(Expected::Symbol(Symbol::Semicolon), end));
        }
        let next = end + 1;
        Ok(
            (
                Statement::Assignment(AssignmentStatement { target, value, span: span_over(tokens, pos, next) }),
                next,
            ),
        )
    } else {
        if !has_symbol(tokens, after_left, Symbol::Semicolon) {
            return Err(failure(Expected::Symbol(Symbol::Semicolon), after_left));
        }
        Ok((Statement::Expression(left), after_left + 1))
    }
}

/// The declaration whose keyword stands at `pos`.
#[verifier::spinoff_prover]
fn parse_declaration(tokens: &Vec<Token>, pos: usize, exported: bool) -> (r: Result<(Statement, usize), Failure>)
    requires
        pos <= tokens.len(),
        countable(tokens),
    ensures
        read_statement(declaration_at(token_views(tokens@), pos as nat, exported), r, pos + 1, tokens.len() as int),
    decreases tokens.len() - pos, 8nat,
{
    proof {
        reveal(declaration_at);
        reveal(annotation_decl_at);
        reveal(class_at);
        reveal(func_at);
        reveal(signatures_from);
        reveal(var_at);
        assert(token_views(tokens@).len() == tokens.len());
    }
    match kind(tokens, pos) {
        TokenKind::Keyword(Keyword::Var) => parse_var_statement(tokens, pos, exported),
        TokenKind::Keyword(Keyword::Func) => match parse_function_declaration(tokens, pos, exported) {
            Ok((function, next)) => Ok((Statement::FuncDecl(function), next)),
            Err(f) => Err(f),
        },
        TokenKind::Keyword(Keyword::Class) => parse_class_declaration(tokens, pos, exported),
        TokenKind::Keyword(Keyword::Interface) => parse_interface_declaration(tokens, pos, exported),
        TokenKind::Keyword(Keyword::Annotation) => parse_annotation_declaration(tokens, pos, exported),
        _ => Err(failure(Expected::Declaration, pos)),
    }
}

/// Reads the statement that begins at token `pos`.
#[verifier::spinoff_prover]
pub fn parse_statement(tokens: &Vec<Token>, pos: usize) -> (r: Result<(Statement, usize), Failure>)
    requires
        pos <= tokens.len(),
        countable(tokens),
    ensures
        read_statement(statement_at(token_views(tokens@), pos as nat), r, pos + 1, tokens.len() as int),
    decreases tokens.len() - pos, 9nat,
{
    proof {
        reveal(statement_at);
        reveal(declaration_at);
        reveal(if_at);
        reveal(return_at);
        reveal(simple_at);
        reveal(throw_at);
        reveal(try_at);
        reveal(while_at);
        assert(token_views(tokens@).len() == tokens.len());
    }
    match kind(tokens, pos) {
        TokenKind::Keyword(Keyword::Use) => parse_import_statement(tokens, pos),
        TokenKind::Keyword(Keyword::Export) => parse_declaration(tokens, pos + 1, true),
        TokenKind::Keyword(Keyword::Var) => parse_declaration(tokens, pos, false),
        TokenKind::Keyword(Keyword::Func) => parse_declaration(tokens, pos, false),
        TokenKind::Keyword(Keyword::Class) => parse_declaration(tokens, pos, false),
        TokenKind::Keyword(Keyword::Interface) => parse_declaration(tokens, pos, false),
        TokenKind::Keyword(Keyword::Annotation) => parse_declaration(tokens, pos, false),
        TokenKind::Keyword(Keyword::Try) => parse_try_statement(tokens, pos),
        TokenKind::Keyword(Keyword::Throw) => parse_throw_statement(tokens, pos),
        TokenKind::Keyword(Keyword::If) => parse_if_statement(tokens, pos),
        TokenKind::Keyword(Keyword::While) => parse_while_statement(tokens, pos),
        TokenKind::Keyword(Keyword::Return) => parse_return_statement(tokens, pos),
        _ => parse_assignment_or_expression_statement(tokens, pos),
    }
}

/// Statements up to the token that ends their block.
#[verifier::spinoff_prover]
fn parse_block(tokens: &Vec<Token>, pos: usize) -> (r: Result<(Vec<Statement>, usize), Failure>)
    requires
        pos <= tokens.len(),
        countable(tokens),
    ensures
        read_block(block_from(token_views(tokens@), pos as nat, Seq::empty()), r, pos as int, tokens.len() as int),
    decreases tokens.len() - pos, 10nat,
{
    proof {
        reveal(block_from);
        reveal(statement_at);
        assert(token_views(tokens@).len() == tokens.len());
    }
    let ghost views = token_views(tokens@);
    let mut read = no_statements();
    let mut at: usize = pos;
    while !closes(tokens, at)
        invariant
            pos <= at <= tokens.len(),
            countable(tokens),
            views == token_views(tokens@),
            block_from(views, at as nat, stmt_views(read)) == block_from(views, pos as nat, Seq::empty()),
        decreases tokens.len() - at,
    {
        proof {
            reveal(block_from);
            reveal(statement_at);
            assert(token_views(tokens@).len() == tokens.len());
        }
        match parse_statement(tokens, at) {
            Ok((statement, next)) => {
                push_statement(&mut read, statement);
                at = next;
            },
            Err(f) => {
                return Err(f);
            },
        }
    }
    Ok((read, at))
}

/// The program that the tokens stand for. No failure is one of
/// `Expected::Progress`: every rule of the grammar goes forward.
#[verifier::spinoff_prover]
pub fn parse_tokens(tokens: &Vec<Token>) -> (r: Result<Program, Failure>)
    ensures
        match r {
            Ok(program) => program_of(token_views(tokens@)) == Ok::<Seq<StmtView>, Failure>(program@),
            Err(f) => program_of(token_views(tokens@)) == Err::<Seq<StmtView>, Failure>(f) && !(f.expected is Progress),
        },
{
    if tokens.len() > usize::MAX - 4 {
        return Err(failure(Expected::Fewer, 0));
    }
    match parse_block(tokens, 0) {
        Ok((statements, end)) => {
            if kind(tokens, end) == TokenKind::End {
                Ok(Program { statements })
            } else {
                Err(failure(Expected::Statement, end))
            }
        },
        Err(f) => Err(f),
    }
}

/// How many of the first `n` tokens are numbers.
pub open spec fn numbers_before(tokens: Seq<TokenView>, n: nat) -> nat
    decreases n,
{
    if n == 0 || n > tokens.len() {
        0
    } else if tokens[n - 1].kind == TokenKind::Number {
        numbers_before(tokens, (n - 1) as nat) + 1
    } else {
        numbers_before(tokens, (n - 1) as nat)
    }
}

/// The texts of the numbers among the first `n` tokens, in order.
pub open spec fn number_texts_of(tokens: Seq<TokenView>, n: nat) -> Seq<Seq<char>>
    decreases n,
{
    if n == 0 || n > tokens.len() {
        Seq::empty()
    } else if tokens[n - 1].kind == TokenKind::Number {
        number_texts_of(tokens, (n - 1) as nat).push(tokens[n - 1].text)
    } else {
        number_texts_of(tokens, (n - 1) as nat)
    }
}

/// Token `i` with its value: the number that is the `k`-th among the
/// tokens gets the `k`-th value, where there is one.
pub open spec fn numbered_token(tokens: Seq<TokenView>, values: Seq<Number>, i: int) -> TokenView {
    let k = numbers_before(tokens, i as nat);
    if tokens[i].kind == TokenKind::Number && k < values.len() {
        TokenView { number: values[k as int], ..tokens[i] }
    } else {
        tokens[i]
    }
}

/// The tokens with the values of their numbers written in.
pub open spec fn numbered(tokens: Seq<TokenView>, values: Seq<Number>) -> Seq<TokenView> {
    Seq::new(tokens.len(), |i: int| numbered_token(tokens, values, i))
}

/// The texts of the number tokens, in order: what is to be read as
/// numbers before the tokens can be parsed.
pub fn number_texts(tokens: &Vec<Token>) -> (r: Vec<String>)
    ensures
        text_views(r@) == number_texts_of(token_views(tokens@), tokens.len() as nat),
{
    let mut texts: Vec<String> = Vec::new();
    assert(text_views(texts@) =~= Seq::empty());
    let mut i: usize = 0;
    while i < tokens.len()
        invariant
            i <= tokens.len(),
            text_views(texts@) == number_texts_of(token_views(tokens@), i as nat),
        decreases tokens.len() - i,
    {
        if tokens[i].kind == TokenKind::Number {
            let ghost before = text_views(texts@);
            texts.push(tokens[i].text.clone());
            assert(text_views(texts@) =~= before.push(tokens[i as int].text@));
        }
        i = i + 1;
    }
    texts
}

/// Writes the values of the numbers into the tokens, the `k`-th value
/// into the `k`-th number.
pub fn with_numbers(tokens: &Vec<Token>, values: &Vec<Number>) -> (r: Vec<Token>)
    ensures
        token_views(r@) == numbered(token_views(tokens@), values@),
{
    let ghost views = token_views(tokens@);
    let mut out: Vec<Token> = Vec::new();
    let mut k: usize = 0;
    let mut i: usize = 0;
    while i < tokens.len()
        invariant
            i <= tokens.len(),
            views == token_views(tokens@),
            out.len() == i,
            k == numbers_before(views, i as nat),
            k <= i,
            forall|j: int| 0 <= j < i ==> (#[trigger] out[j])@ == numbered_token(views, values@, j),
        decreases tokens.len() - i,
    {
        let token = &tokens[i];
        let mut number = token.number;
        if token.kind == TokenKind::Number {
            if k < values.len() {
                number = values[k];
            }
            k = k + 1;
        }
        out.push(Token { kind: token.kind, text: token.text.clone(), number, span: token.span });
        i = i + 1;
    }
    assert(token_views(out@) =~= numbered(views, values@));
    out
}

/// Whether `r` is what reading a source text gives, `values` being the
/// values of its number literals in order: the program that its tokens
/// stand for, the semicolons that need not be written put in before; or
/// the error that says why it has no tokens or why they are no program.
/// Every place, in the program and in an error, is a place in the text as
/// it was written.
pub open spec fn read_source(source: Seq<char>, values: Seq<Number>, r: Result<Program, PonosParseError>) -> bool {
    let written = encode_utf8(source);
    let prepared = encode_utf8(with_semicolons(source));
    match lexed(with_semicolons(source)) {
        Err(failure) => r matches Err(error) && tells_lex_failure(error, placed_failure(written, prepared, failure)),
        Ok(tokens) => {
            let read = numbered(placed(written, prepared, tokens), values);
            match program_of(read) {
                Ok(statements) => r matches Ok(program) && program@ == statements,
                Err(failure) => r matches Err(error) && tells_failure(error, read, failure),
            }
        },
    }
}

/// The parser of source texts.
pub struct PonosParser {}

impl PonosParser {
    pub fn new() -> (r: Self) {
        PonosParser {  }
    }

    /// The tokens of a source text, the semicolons that need not be
    /// written put in before. What a token covers is counted in the text
    /// as it was written, and so is the place of a failure. The numbers
    /// are without their values.
    pub fn tokens(&mut self, source: &str) -> (r: Result<Vec<Token>, PonosParseError>)
        ensures
            match lexed(with_semicolons(source@)) {
                Ok(tokens) => r matches Ok(read) && token_views(read@) == placed(
                    encode_utf8(source@),
                    encode_utf8(with_semicolons(source@)),
                    tokens,
                ),
                Err(failure) => r matches Err(error) && tells_lex_failure(
                    error,
                    placed_failure(encode_utf8(source@), encode_utf8(with_semicolons(source@)), failure),
                ),
            },
    {
        let prepared = preprocess_semicolons(source);
        let places = Places::new(source, prepared.as_str());
        match lex(prepared.as_str()) {
            Ok(tokens) => Ok(places.tokens(&tokens)),
            Err(failure) => Err(lex_error(LexFailure { kind: failure.kind, span: places.span(failure.span) })),
        }
    }

    /// Reads a program from its source text; `values` are the values of
    /// the number literals of the text, in order.
    pub fn parse(&mut self, source: String, values: &Vec<Number>) -> (r: Result<Program, PonosParseError>)
        ensures
            read_source(source@, values@, r),
    {
        let tokens = match self.tokens(source.as_str()) {
            Ok(tokens) => tokens,
            Err(error) => {
                return Err(error);
            },
        };
        let tokens = with_numbers(&tokens, values);
        match parse_tokens(&tokens) {
            Ok(program) => Ok(program),
            Err(failure) => Err(syntax_error(&tokens, failure)),
        }
    }
}

} // verus!
