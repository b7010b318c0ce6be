use vstd::prelude::*;

use crate::helper::text::int_text_value;
use crate::helper::types::Span as SourceSpan;
use crate::lexer::token::{kind_index, TokenKind, TokenView};
use super::ast::{
    BinaryOperator, SelfParam, SExpr, SFunction, SIterable, SImpl, SMethod, SProgram, SStmt, SStruct, STarget,
    SType, Span, UnaryOperator,
};

verus! {

// The grammar of the language, as functions from a token sequence and a position to what is
// parsed there and the position after it. Each function that loops carries the check that
// positions never move backwards; the parser shows that the check always passes.

/// A parse error: the message, and the location of the token where it arose, when there is one.
pub struct PErr {
    pub message: Seq<char>,
    pub span: Option<SourceSpan>,
}

/// What was parsed and the position after it, or an error.
pub type PResult<T> = Result<(T, nat), PErr>;

/// The result of a check that cannot fail.
pub open spec fn stuck<T>() -> PResult<T> {
    Err(PErr { message: seq![], span: None })
}

/// Whether the token at `i` exists and has the kind of `k`.
pub open spec fn tok_is(toks: Seq<TokenView>, i: nat, k: TokenKind) -> bool {
    i < toks.len() && kind_index(toks[i as int].kind) == kind_index(k)
}

/// Whether `i` is past the tokens or at the end-of-input token.
pub open spec fn at_end(toks: Seq<TokenView>, i: nat) -> bool {
    i >= toks.len() || toks[i as int].kind is Eof
}

/// The location of the token at `i`; past the end, that of the last token.
pub open spec fn span_at(toks: Seq<TokenView>, i: nat) -> Option<Span> {
    if i < toks.len() {
        Some(Span { line: toks[i as int].line as usize, column: toks[i as int].column as usize })
    } else if 0 < i && i - 1 < toks.len() {
        Some(Span { line: toks[i - 1].line as usize, column: toks[i - 1].column as usize })
    } else {
        None
    }
}

/// An error located at the token at `i`, if there is one.
pub open spec fn err_at(toks: Seq<TokenView>, i: nat, message: Seq<char>) -> PErr {
    if i < toks.len() {
        PErr { message, span: Some(SourceSpan { line: toks[i as int].line as usize, column: toks[i as int].column as usize }) }
    } else {
        PErr { message, span: None }
    }
}

/// An error with no location.
pub open spec fn err_plain(message: Seq<char>) -> PErr {
    PErr { message, span: None }
}

/// Consumes a token of the kind of `k`.
pub open spec fn consume(toks: Seq<TokenView>, i: nat, k: TokenKind, message: Seq<char>) -> Result<nat, PErr> {
    if tok_is(toks, i, k) {
        Ok(i + 1)
    } else {
        Err(err_at(toks, i, message))
    }
}

/// Consumes an identifier and gives its name.
pub open spec fn consume_identifier(toks: Seq<TokenView>, i: nat, message: Seq<char>) -> PResult<Seq<char>> {
    if i < toks.len() && toks[i as int].kind is Identifier {
        Ok((toks[i as int].kind->Identifier_0, i + 1))
    } else {
        Err(err_at(toks, i, message))
    }
}

// ---------------------------------------------------------------------------
// Types
// ---------------------------------------------------------------------------

/// The type named by a single token, if any.
pub open spec fn simple_type(k: TokenKind) -> Option<SType> {
    match k {
        TokenKind::I8 => Some(SType::I8),
        TokenKind::I16 => Some(SType::I16),
        TokenKind::I32 => Some(SType::I32),
        TokenKind::I64 => Some(SType::I64),
        TokenKind::U8 => Some(SType::U8),
        TokenKind::U16 => Some(SType::U16),
        TokenKind::U32 => Some(SType::U32),
        TokenKind::U64 => Some(SType::U64),
        TokenKind::F32 => Some(SType::F32),
        TokenKind::F64 => Some(SType::F64),
        TokenKind::Bool => Some(SType::Bool),
        TokenKind::Void => Some(SType::Void),
        TokenKind::String => Some(SType::String),
        TokenKind::Identifier(name) => Some(SType::Struct(name)),
        _ => None,
    }
}

/// The size part of an array type `[N]T` or `[]T`, starting after the '['.
pub open spec fn array_size(toks: Seq<TokenView>, i: nat) -> PResult<Option<nat>> {
    if tok_is(toks, i, TokenKind::RightBracket) {
        Ok((None, i))
    } else if i < toks.len() {
        match toks[i as int].kind {
            TokenKind::IntLiteral(v) => match int_text_value(v, false) {
                Some(n) => if n <= usize::MAX { Ok((Some(n as nat), i + 1)) } else {
                    Err(err_plain("Invalid array size: "@ + v))
                },
                None => Err(err_plain("Invalid array size: "@ + v)),
            },
            _ => Err(err_plain("Expected integer size in array type"@)),
        }
    } else {
        Err(err_plain("Expected integer size or ] in array type"@))
    }
}

/// A type: `[N]T`, `[]T`, a built-in type name, or a struct name.
pub open spec fn parse_type(toks: Seq<TokenView>, i: nat) -> PResult<SType>
    decreases toks.len() - i,
{
    if tok_is(toks, i, TokenKind::LeftBracket) {
        match array_size(toks, i + 1) {
            Err(e) => Err(e),
            Ok((size, j)) => match consume(toks, j, TokenKind::RightBracket, "Expected ']' in array type"@) {
                Err(e) => Err(e),
                Ok(k) => if i < k <= toks.len() {
                    match parse_type(toks, k) {
                        Err(e) => Err(e),
                        Ok((elem, m)) => Ok((SType::Array(Box::new(elem), size), m)),
                    }
                } else {
                    stuck()
                },
            },
        }
    } else if i < toks.len() {
        match simple_type(toks[i as int].kind) {
            Some(t) => Ok((t, i + 1)),
            None => Err(err_plain("Expected type"@)),
        }
    } else {
        Err(err_plain("Expected type"@))
    }
}

// ---------------------------------------------------------------------------
// Expressions
// ---------------------------------------------------------------------------

/// Comma-separated expressions up to (not including) a closing token of the kind of `close`;
/// none when the closing token comes first.
pub open spec fn expr_list(toks: Seq<TokenView>, i: nat, close: TokenKind) -> PResult<Seq<SExpr>>
    decreases toks.len() - i, 18nat,
{
    if tok_is(toks, i, close) {
        Ok((seq![], i))
    } else {
        expr_items(toks, i, seq![])
    }
}

/// Expressions separated by commas, after the items `acc`.
pub open spec fn expr_items(toks: Seq<TokenView>, i: nat, acc: Seq<SExpr>) -> PResult<Seq<SExpr>>
    decreases toks.len() - i, 17nat,
{
    match expression(toks, i) {
        Err(e) => Err(e),
        Ok((e, j)) => if i <= j <= toks.len() {
            if tok_is(toks, j, TokenKind::Comma) {
                expr_items(toks, j + 1, acc.push(e))
            } else {
                Ok((acc.push(e), j))
            }
        } else {
            stuck()
        },
    }
}

/// The fields of a struct literal, after the '{': `name: value` separated by commas.
pub open spec fn field_list(toks: Seq<TokenView>, i: nat) -> PResult<Seq<(Seq<char>, SExpr)>>
    decreases toks.len() - i, 18nat,
{
    if tok_is(toks, i, TokenKind::RightBrace) {
        Ok((seq![], i))
    } else {
        field_items(toks, i, seq![])
    }
}

/// Struct literal fields, after the fields `acc`.
pub open spec fn field_items(toks: Seq<TokenView>, i: nat, acc: Seq<(Seq<char>, SExpr)>) -> PResult<Seq<(Seq<char>, SExpr)>>
    decreases toks.len() - i, 17nat,
{
    match consume_identifier(toks, i, "Expected field name in struct literal"@) {
        Err(e) => Err(e),
        Ok((name, j)) => match consume(toks, j, TokenKind::Colon, "Expected ':' after field name"@) {
            Err(e) => Err(e),
            Ok(k) => if i < k <= toks.len() {
                match expression(toks, k) {
                    Err(e) => Err(e),
                    Ok((v, m)) => if k <= m <= toks.len() {
                        if tok_is(toks, m, TokenKind::Comma) {
                            field_items(toks, m + 1, acc.push((name, v)))
                        } else {
                            Ok((acc.push((name, v)), m))
                        }
                    } else {
                        stuck()
                    },
                }
            } else {
                stuck()
            },
        },
    }
}

/// What follows an identifier in a primary expression: a macro call, an associated function
/// call, a struct literal, a call, or nothing (a variable).
pub open spec fn after_identifier(toks: Seq<TokenView>, name: Seq<char>, j: nat) -> PResult<SExpr>
    decreases toks.len() - j, 19nat,
{
    if tok_is(toks, j, TokenKind::Bang) {
        match consume(toks, j + 1, TokenKind::LeftParen, "Expected '(' after '!' in macro call"@) {
            Err(e) => Err(e),
            Ok(k) => if j < k <= toks.len() {
                match expr_list(toks, k, TokenKind::RightParen) {
                    Err(e) => Err(e),
                    Ok((args, m)) => match consume(toks, m, TokenKind::RightParen, "Expected ')' after macro arguments"@) {
                        Err(e) => Err(e),
                        Ok(n) => Ok((SExpr::MacroCall(name, args, span_at(toks, n)), n)),
                    },
                }
            } else {
                stuck()
            },
        }
    } else if tok_is(toks, j, TokenKind::ColonColon) {
        match consume_identifier(toks, j + 1, "Expected function name after '::'"@) {
            Err(e) => Err(e),
            Ok((f, k)) => match consume(toks, k, TokenKind::LeftParen, "Expected '(' after associated function name"@) {
                Err(e) => Err(e),
                Ok(k2) => if j < k2 <= toks.len() {
                    match expr_list(toks, k2, TokenKind::RightParen) {
                        Err(e) => Err(e),
                        Ok((args, m)) => match consume(toks, m, TokenKind::RightParen, "Expected ')' after arguments"@) {
                            Err(e) => Err(e),
                            Ok(n) => Ok((SExpr::AssociatedCall(name, f, args, span_at(toks, n)), n)),
                        },
                    }
                } else {
                    stuck()
                },
            },
        }
    } else if tok_is(toks, j, TokenKind::LeftBrace) {
        match field_list(toks, j + 1) {
            Err(e) => Err(e),
            Ok((fields, m)) => match consume(toks, m, TokenKind::RightBrace, "Expected '}' after struct literal fields"@) {
                Err(e) => Err(e),
                Ok(n) => Ok((SExpr::StructLiteral(name, fields, span_at(toks, n)), n)),
            },
        }
    } else if tok_is(toks, j, TokenKind::LeftParen) {
        match expr_list(toks, j + 1, TokenKind::RightParen) {
            Err(e) => Err(e),
            Ok((args, m)) => match consume(toks, m, TokenKind::RightParen, "Expected ')' after arguments"@) {
                Err(e) => Err(e),
                Ok(n) => Ok((SExpr::Call(name, args), n)),
            },
        }
    } else {
        Ok((SExpr::Variable(name), j))
    }
}

/// A primary expression: a prefix operator applied to a primary, a literal, `self`, a name
/// and what follows it, an array literal, or a parenthesized expression.
pub open spec fn primary(toks: Seq<TokenView>, i: nat) -> PResult<SExpr>
    decreases toks.len() - i, 1nat,
{
    if tok_is(toks, i, TokenKind::Bang) {
        match primary(toks, i + 1) {
            Err(e) => Err(e),
            Ok((e, j)) => Ok((SExpr::Unary(UnaryOperator::Not, Box::new(e)), j)),
        }
    } else if tok_is(toks, i, TokenKind::Minus) {
        match primary(toks, i + 1) {
            Err(e) => Err(e),
            Ok((e, j)) => Ok((SExpr::Unary(UnaryOperator::Negate, Box::new(e)), j)),
        }
    } else if tok_is(toks, i, TokenKind::Amp) {
        match primary(toks, i + 1) {
            Err(e) => Err(e),
            Ok((e, j)) => Ok((SExpr::Reference(Box::new(e), span_at(toks, j)), j)),
        }
    } else if tok_is(toks, i, TokenKind::True) {
        Ok((SExpr::BoolLiteral(true), i + 1))
    } else if tok_is(toks, i, TokenKind::False) {
        Ok((SExpr::BoolLiteral(false), i + 1))
    } else if tok_is(toks, i, TokenKind::SelfKeyword) {
        Ok((SExpr::Variable("self"@), i + 1))
    } else if i < toks.len() && toks[i as int].kind is IntLiteral {
        let v = toks[i as int].kind->IntLiteral_0;
        match int_text_value(v, true) {
            Some(n) => if i64::MIN <= n <= i64::MAX {
                Ok((SExpr::IntLiteral(n), i + 1))
            } else {
                Err(err_plain("Invalid integer literal: "@ + v))
            },
            None => Err(err_plain("Invalid integer literal: "@ + v)),
        }
    } else if i < toks.len() && toks[i as int].kind is FloatLiteral {
        Ok((SExpr::FloatLiteral(toks[i as int].kind->FloatLiteral_0), i + 1))
    } else if i < toks.len() && toks[i as int].kind is StringLiteral {
        Ok((SExpr::StringLiteral(toks[i as int].kind->StringLiteral_0), i + 1))
    } else if i < toks.len() && toks[i as int].kind is Identifier {
        after_identifier(toks, toks[i as int].kind->Identifier_0, i + 1)
    } else if tok_is(toks, i, TokenKind::LeftBracket) {
        match expr_list(toks, i + 1, TokenKind::RightBracket) {
            Err(e) => Err(e),
            Ok((elems, m)) => match consume(toks, m, TokenKind::RightBracket, "Expected ']' after array elements"@) {
                Err(e) => Err(e),
                Ok(n) => Ok((SExpr::ArrayLiteral(elems, span_at(toks, n)), n)),
            },
        }
    } else if tok_is(toks, i, TokenKind::LeftParen) {
        match expression(toks, i + 1) {
            Err(e) => Err(e),
            Ok((e, m)) => match consume(toks, m, TokenKind::RightParen, "Expected ')' after expression"@) {
                Err(err) => Err(err),
                Ok(n) => Ok((e, n)),
            },
        }
    } else {
        Err(err_at(toks, i, "Expected expression"@))
    }
}

/// Field accesses, method calls and indexing applied to `e`.
pub open spec fn postfix_rest(toks: Seq<TokenView>, i: nat, e: SExpr) -> PResult<SExpr>
    decreases toks.len() - i, 2nat,
{
    if tok_is(toks, i, TokenKind::Dot) {
        match consume_identifier(toks, i + 1, "Expected field or method name after '.'"@) {
            Err(err) => Err(err),
            Ok((name, j)) => if i < j <= toks.len() {
                if tok_is(toks, j, TokenKind::LeftParen) {
                    match expr_list(toks, j + 1, TokenKind::RightParen) {
                        Err(err) => Err(err),
                        Ok((args, m)) => match consume(toks, m, TokenKind::RightParen, "Expected ')' after method arguments"@) {
                            Err(err) => Err(err),
                            Ok(n) => if i < n <= toks.len() {
                                postfix_rest(toks, n, SExpr::MethodCall(Box::new(e), name, args, span_at(toks, n)))
                            } else {
                                stuck()
                            },
                        },
                    }
                } else {
                    postfix_rest(toks, j, SExpr::FieldAccess(Box::new(e), name, span_at(toks, j)))
                }
            } else {
                stuck()
            },
        }
    } else if tok_is(toks, i, TokenKind::LeftBracket) {
        match expression(toks, i + 1) {
            Err(err) => Err(err),
            Ok((ix, m)) => match consume(toks, m, TokenKind::RightBracket, "Expected ']' after array index"@) {
                Err(err) => Err(err),
                Ok(n) => if i < n <= toks.len() {
                    postfix_rest(toks, n, SExpr::Index(Box::new(e), Box::new(ix), span_at(toks, n)))
                } else {
                    stuck()
                },
            },
        }
    } else {
        Ok((e, i))
    }
}

/// A primary expression followed by field accesses, method calls and indexing.
pub open spec fn postfix(toks: Seq<TokenView>, i: nat) -> PResult<SExpr>
    decreases toks.len() - i, 3nat,
{
    match primary(toks, i) {
        Err(e) => Err(e),
        Ok((e, j)) => if i <= j <= toks.len() { postfix_rest(toks, j, e) } else { stuck() },
    }
}

/// The multiplicative operator of the token at `i`, if any.
pub open spec fn mul_op(toks: Seq<TokenView>, i: nat) -> Option<BinaryOperator> {
    if tok_is(toks, i, TokenKind::Star) { Some(BinaryOperator::Multiply) }
    else if tok_is(toks, i, TokenKind::Slash) { Some(BinaryOperator::Divide) }
    else if tok_is(toks, i, TokenKind::Percent) { Some(BinaryOperator::Modulo) }
    else { None }
}

/// The additive operator of the token at `i`, if any.
pub open spec fn add_op(toks: Seq<TokenView>, i: nat) -> Option<BinaryOperator> {
    if tok_is(toks, i, TokenKind::Plus) { Some(BinaryOperator::Add) }
    else if tok_is(toks, i, TokenKind::Minus) { Some(BinaryOperator::Subtract) }
    else { None }
}

/// The comparison operator of the token at `i`, if any.
pub open spec fn cmp_op(toks: Seq<TokenView>, i: nat) -> Option<BinaryOperator> {
    if tok_is(toks, i, TokenKind::Less) { Some(BinaryOperator::Less) }
    else if tok_is(toks, i, TokenKind::Greater) { Some(BinaryOperator::Greater) }
    else if tok_is(toks, i, TokenKind::LessEqual) { Some(BinaryOperator::LessEqual) }
    else if tok_is(toks, i, TokenKind::GreaterEqual) { Some(BinaryOperator::GreaterEqual) }
    else { None }
}

/// The equality operator of the token at `i`, if any.
pub open spec fn eq_op(toks: Seq<TokenView>, i: nat) -> Option<BinaryOperator> {
    if tok_is(toks, i, TokenKind::EqualEqual) { Some(BinaryOperator::Equal) }
    else if tok_is(toks, i, TokenKind::BangEqual) { Some(BinaryOperator::NotEqual) }
    else { None }
}

/// The binary expression `l op r`.
pub open spec fn bin(l: SExpr, op: BinaryOperator, r: SExpr) -> SExpr {
    SExpr::Binary(Box::new(l), op, Box::new(r))
}

/// `acc` followed by any number of `* / %` and postfix operands, left-associated.
pub open spec fn mul_rest(toks: Seq<TokenView>, i: nat, acc: SExpr) -> PResult<SExpr>
    decreases toks.len() - i, 4nat,
{
    match mul_op(toks, i) {
        None => Ok((acc, i)),
        Some(op) => match postfix(toks, i + 1) {
            Err(e) => Err(e),
            Ok((r, j)) => if i < j <= toks.len() { mul_rest(toks, j, bin(acc, op, r)) } else { stuck() },
        },
    }
}

/// A product.
pub open spec fn multiplicative(toks: Seq<TokenView>, i: nat) -> PResult<SExpr>
    decreases toks.len() - i, 5nat,
{
    match postfix(toks, i) {
        Err(e) => Err(e),
        Ok((l, j)) => if i <= j <= toks.len() { mul_rest(toks, j, l) } else { stuck() },
    }
}

/// `acc` followed by any number of `+ -` and products, left-associated.
pub open spec fn add_rest(toks: Seq<TokenView>, i: nat, acc: SExpr) -> PResult<SExpr>
    decreases toks.len() - i, 6nat,
{
    match add_op(toks, i) {
        None => Ok((acc, i)),
        Some(op) => match multiplicative(toks, i + 1) {
            Err(e) => Err(e),
            Ok((r, j)) => if i < j <= toks.len() { add_rest(toks, j, bin(acc, op, r)) } else { stuck() },
        },
    }
}

/// A sum.
pub open spec fn additive(toks: Seq<TokenView>, i: nat) -> PResult<SExpr>
    decreases toks.len() - i, 7nat,
{
    match multiplicative(toks, i) {
        Err(e) => Err(e),
        Ok((l, j)) => if i <= j <= toks.len() { add_rest(toks, j, l) } else { stuck() },
    }
}

/// `acc` followed by any number of comparisons with sums, left-associated.
pub open spec fn cmp_rest(toks: Seq<TokenView>, i: nat, acc: SExpr) -> PResult<SExpr>
    decreases toks.len() - i, 8nat,
{
    match cmp_op(toks, i) {
        None => Ok((acc, i)),
        Some(op) => match additive(toks, i + 1) {
            Err(e) => Err(e),
            Ok((r, j)) => if i < j <= toks.len() { cmp_rest(toks, j, bin(acc, op, r)) } else { stuck() },
        },
    }
}

/// A comparison.
pub open spec fn comparison(toks: Seq<TokenView>, i: nat) -> PResult<SExpr>
    decreases toks.len() - i, 9nat,
{
    match additive(toks, i) {
        Err(e) => Err(e),
        Ok((l, j)) => if i <= j <= toks.len() { cmp_rest(toks, j, l) } else { stuck() },
    }
}

/// `acc` followed by any number of `== !=` and comparisons, left-associated.
pub open spec fn eq_rest(toks: Seq<TokenView>, i: nat, acc: SExpr) -> PResult<SExpr>
    decreases toks.len() - i, 10nat,
{
    match eq_op(toks, i) {
        None => Ok((acc, i)),
        Some(op) => match comparison(toks, i + 1) {
            Err(e) => Err(e),
            Ok((r, j)) => if i < j <= toks.len() { eq_rest(toks, j, bin(acc, op, r)) } else { stuck() },
        },
    }
}

/// An equality test.
pub open spec fn equality(toks: Seq<TokenView>, i: nat) -> PResult<SExpr>
    decreases toks.len() - i, 11nat,
{
    match comparison(toks, i) {
        Err(e) => Err(e),
        Ok((l, j)) => if i <= j <= toks.len() { eq_rest(toks, j, l) } else { stuck() },
    }
}

/// `acc` followed by any number of `&&` and equality tests, left-associated.
pub open spec fn and_rest(toks: Seq<TokenView>, i: nat, acc: SExpr) -> PResult<SExpr>
    decreases toks.len() - i, 12nat,
{
    if tok_is(toks, i, TokenKind::AmpAmp) {
        match equality(toks, i + 1) {
            Err(e) => Err(e),
            Ok((r, j)) => if i < j <= toks.len() { and_rest(toks, j, bin(acc, BinaryOperator::And, r)) } else { stuck() },
        }
    } else {
        Ok((acc, i))
    }
}

/// A conjunction.
pub open spec fn logical_and(toks: Seq<TokenView>, i: nat) -> PResult<SExpr>
    decreases toks.len() - i, 13nat,
{
    match equality(toks, i) {
        Err(e) => Err(e),
        Ok((l, j)) => if i <= j <= toks.len() { and_rest(toks, j, l) } else { stuck() },
    }
}

/// `acc` followed by any number of `||` and conjunctions, left-associated.
pub open spec fn or_rest(toks: Seq<TokenView>, i: nat, acc: SExpr) -> PResult<SExpr>
    decreases toks.len() - i, 14nat,
{
    if tok_is(toks, i, TokenKind::PipePipe) {
        match logical_and(toks, i + 1) {
            Err(e) => Err(e),
            Ok((r, j)) => if i < j <= toks.len() { or_rest(toks, j, bin(acc, BinaryOperator::Or, r)) } else { stuck() },
        }
    } else {
        Ok((acc, i))
    }
}

/// A disjunction.
pub open spec fn logical_or(toks: Seq<TokenView>, i: nat) -> PResult<SExpr>
    decreases toks.len() - i, 15nat,
{
    match logical_and(toks, i) {
        Err(e) => Err(e),
        Ok((l, j)) => if i <= j <= toks.len() { or_rest(toks, j, l) } else { stuck() },
    }
}

/// An expression.
pub open spec fn expression(toks: Seq<TokenView>, i: nat) -> PResult<SExpr>
    decreases toks.len() - i, 16nat,
{
    logical_or(toks, i)
}

/// The binary operators that may follow a postfix expression `e` at `i`, at every level of
/// precedence, as in an expression statement.
pub open spec fn finish_expression(toks: Seq<TokenView>, i: nat, e: SExpr) -> PResult<SExpr>
    decreases toks.len() - i, 36nat,
{
    match mul_rest(toks, i, e) {
        Err(x) => Err(x),
        Ok((e1, j1)) => if i <= j1 <= toks.len() {
            match add_rest(toks, j1, e1) {
                Err(x) => Err(x),
                Ok((e2, j2)) => if j1 <= j2 <= toks.len() {
                    match cmp_rest(toks, j2, e2) {
                        Err(x) => Err(x),
                        Ok((e3, j3)) => if j2 <= j3 <= toks.len() {
                            match eq_rest(toks, j3, e3) {
                                Err(x) => Err(x),
                                Ok((e4, j4)) => if j3 <= j4 <= toks.len() {
                                    match and_rest(toks, j4, e4) {
                                        Err(x) => Err(x),
                                        Ok((e5, j5)) => if j4 <= j5 <= toks.len() { or_rest(toks, j5, e5) } else { stuck() },
                                    }
                                } else {
                                    stuck()
                                },
                            }
                        } else {
                            stuck()
                        },
                    }
                } else {
                    stuck()
                },
            }
        } else {
            stuck()
        },
    }
}

// ---------------------------------------------------------------------------
// Statements
// ---------------------------------------------------------------------------

/// A variable declaration: `val` or `var`, a name, an optional type, an optional initializer.
pub open spec fn var_decl_statement(toks: Seq<TokenView>, i: nat) -> PResult<SStmt> {
    let (is_mutable, j) = if tok_is(toks, i, TokenKind::Var) { (true, i + 1) } else { (false, i + 1) };
    if !tok_is(toks, i, TokenKind::Var) && !tok_is(toks, i, TokenKind::Val) {
        Err(err_plain("Expected 'val' or 'var'"@))
    } else {
        match consume_identifier(toks, j, "Expected variable name"@) {
            Err(e) => Err(e),
            Ok((name, k)) => {
                let ty: PResult<Option<SType>> = if tok_is(toks, k, TokenKind::Colon) {
                    match parse_type(toks, k + 1) {
                        Err(e) => Err(e),
                        Ok((t, m)) => Ok((Some(t), m)),
                    }
                } else {
                    Ok((None, k))
                };
                match ty {
                    Err(e) => Err(e),
                    Ok((var_type, m)) => {
                        let init: PResult<Option<SExpr>> = if tok_is(toks, m, TokenKind::Equal) {
                            match expression(toks, m + 1) {
                                Err(e) => Err(e),
                                Ok((x, n)) => Ok((Some(x), n)),
                            }
                        } else {
                            Ok((None, m))
                        };
                        match init {
                            Err(e) => Err(e),
                            Ok((initializer, n)) => match consume(toks, n, TokenKind::Semicolon, "Expected ';' after variable declaration"@) {
                                Err(e) => Err(e),
                                Ok(q) => Ok((SStmt::VarDecl(is_mutable, name, var_type, initializer), q)),
                            },
                        }
                    },
                }
            },
        }
    }
}

/// The rest of a return statement, after `return`.
pub open spec fn return_statement(toks: Seq<TokenView>, i: nat) -> PResult<SStmt> {
    let value: PResult<Option<SExpr>> = if !tok_is(toks, i, TokenKind::Semicolon) {
        match expression(toks, i) {
            Err(e) => Err(e),
            Ok((x, j)) => Ok((Some(x), j)),
        }
    } else {
        Ok((None, i))
    };
    match value {
        Err(e) => Err(e),
        Ok((v, j)) => match consume(toks, j, TokenKind::Semicolon, "Expected ';' after return"@) {
            Err(e) => Err(e),
            Ok(k) => Ok((SStmt::Return(v), k)),
        },
    }
}

/// A block body in braces, starting at the '{': `message` is the error for a missing '{'.
pub open spec fn braced_block(toks: Seq<TokenView>, i: nat, message: Seq<char>) -> PResult<Seq<SStmt>>
    decreases toks.len() - i, 5nat,
{
    match consume(toks, i, TokenKind::LeftBrace, message) {
        Err(e) => Err(e),
        Ok(j) => if i < j <= toks.len() {
            match block(toks, j) {
                Err(e) => Err(e),
                Ok((b, k)) => match consume(toks, k, TokenKind::RightBrace, "Expected '}'"@) {
                    Err(e) => Err(e),
                    Ok(m) => Ok((b, m)),
                },
            }
        } else {
            stuck()
        },
    }
}

/// The rest of an if statement, after `if`.
pub open spec fn if_statement(toks: Seq<TokenView>, i: nat) -> PResult<SStmt>
    decreases toks.len() - i, 6nat,
{
    match expression(toks, i) {
        Err(e) => Err(e),
        Ok((c, j)) => if i <= j <= toks.len() {
            match braced_block(toks, j, "Expected '{' after if condition"@) {
                Err(e) => Err(e),
                Ok((then_block, k)) => if j < k <= toks.len() {
                    if tok_is(toks, k, TokenKind::Else) {
                        match braced_block(toks, k + 1, "Expected '{' after else"@) {
                            Err(e) => Err(e),
                            Ok((else_block, m)) => Ok((SStmt::If(c, then_block, Some(else_block)), m)),
                        }
                    } else {
                        Ok((SStmt::If(c, then_block, None), k))
                    }
                } else {
                    stuck()
                },
            }
        } else {
            stuck()
        },
    }
}

/// The rest of a while statement, after `while`.
pub open spec fn while_statement(toks: Seq<TokenView>, i: nat) -> PResult<SStmt>
    decreases toks.len() - i, 6nat,
{
    match expression(toks, i) {
        Err(e) => Err(e),
        Ok((c, j)) => if i <= j <= toks.len() {
            match braced_block(toks, j, "Expected '{' after while condition"@) {
                Err(e) => Err(e),
                Ok((body, k)) => Ok((SStmt::While(c, body), k)),
            }
        } else {
            stuck()
        },
    }
}

/// The rest of a loop statement, after `loop`.
pub open spec fn loop_statement(toks: Seq<TokenView>, i: nat) -> PResult<SStmt>
    decreases toks.len() - i, 6nat,
{
    match braced_block(toks, i, "Expected '{' after loop"@) {
        Err(e) => Err(e),
        Ok((body, k)) => Ok((SStmt::Loop(body), k)),
    }
}

/// What a `for` loop walks over, starting after `<-` or `in`.
pub open spec fn for_iterable(toks: Seq<TokenView>, i: nat) -> PResult<SIterable> {
    if tok_is(toks, i, TokenKind::LeftBracket) {
        match expr_list(toks, i + 1, TokenKind::RightBracket) {
            Err(e) => Err(e),
            Ok((elems, j)) => match consume(toks, j, TokenKind::RightBracket, "Expected ']' after array elements"@) {
                Err(e) => Err(e),
                Ok(k) => Ok((SIterable::Expression(SExpr::ArrayLiteral(elems, span_at(toks, k))), k)),
            },
        }
    } else if i < toks.len() && (toks[i as int].kind is IntLiteral || toks[i as int].kind is FloatLiteral) {
        match comparison(toks, i) {
            Err(e) => Err(e),
            Ok((start, j)) => match consume(toks, j, TokenKind::DotDot, "Expected '..' for range"@) {
                Err(e) => Err(e),
                Ok(k) => match comparison(toks, k) {
                    Err(e) => Err(e),
                    Ok((end, m)) => Ok((SIterable::Range(start, end), m)),
                },
            },
        }
    } else {
        match consume_identifier(toks, i, "Expected array variable or range start"@) {
            Err(e) => Err(e),
            Ok((ident, j)) => {
                let target: PResult<SExpr> = if tok_is(toks, j, TokenKind::Dot) {
                    match consume_identifier(toks, j + 1, "Expected field name"@) {
                        Err(e) => Err(e),
                        Ok((field, k)) => Ok((SExpr::FieldAccess(Box::new(SExpr::Variable(ident)), field, span_at(toks, k)), k)),
                    }
                } else {
                    Ok((SExpr::Variable(ident), j))
                };
                match target {
                    Err(e) => Err(e),
                    Ok((x, k)) => if tok_is(toks, k, TokenKind::DotDot) {
                        match comparison(toks, k + 1) {
                            Err(e) => Err(e),
                            Ok((end, m)) => Ok((SIterable::Range(x, end), m)),
                        }
                    } else {
                        Ok((SIterable::Expression(x), k))
                    },
                }
            },
        }
    }
}

/// The rest of a for statement, after `for`.
pub open spec fn for_statement(toks: Seq<TokenView>, i: nat) -> PResult<SStmt>
    decreases toks.len() - i, 6nat,
{
    match consume_identifier(toks, i, "Expected variable name in for loop"@) {
        Err(e) => Err(e),
        Ok((variable, j)) => {
            if !tok_is(toks, j, TokenKind::LeftArrow) && !tok_is(toks, j, TokenKind::In) {
                Err(err_plain("Expected '<-' or 'in' in for loop"@))
            } else {
                match for_iterable(toks, j + 1) {
                    Err(e) => Err(e),
                    Ok((iterable, k)) => if i < k <= toks.len() {
                        match braced_block(toks, k, "Expected '{' after for iterable"@) {
                            Err(e) => Err(e),
                            Ok((body, m)) => Ok((SStmt::For(variable, iterable, body), m)),
                        }
                    } else {
                        stuck()
                    },
                }
            }
        },
    }
}

/// The assignment target that an expression denotes, if any.
pub open spec fn as_target(e: SExpr) -> Option<STarget> {
    match e {
        SExpr::Variable(n) => Some(STarget::Variable(n)),
        SExpr::FieldAccess(o, f, s) => Some(STarget::FieldAccess(o, f, s)),
        SExpr::Index(a, x, s) => Some(STarget::Index(a, x, s)),
        _ => None,
    }
}

/// A statement that starts with an expression: an assignment or an expression statement.
pub open spec fn simple_statement(toks: Seq<TokenView>, i: nat) -> PResult<SStmt> {
    match postfix(toks, i) {
        Err(e) => Err(e),
        Ok((e, j)) => if tok_is(toks, j, TokenKind::Equal) {
            match as_target(e) {
                None => Err(err_plain("Invalid assignment target"@)),
                Some(t) => match expression(toks, j + 1) {
                    Err(err) => Err(err),
                    Ok((v, k)) => match consume(toks, k, TokenKind::Semicolon, "Expected ';' after assignment"@) {
                        Err(err) => Err(err),
                        Ok(m) => Ok((SStmt::Assignment(t, v, span_at(toks, m)), m)),
                    },
                },
            }
        } else {
            match finish_expression(toks, j, e) {
                Err(err) => Err(err),
                Ok((f, k)) => match consume(toks, k, TokenKind::Semicolon, "Expected ';' after expression"@) {
                    Err(err) => Err(err),
                    Ok(m) => Ok((SStmt::Expression(f), m)),
                },
            }
        },
    }
}

/// A statement.
pub open spec fn statement(toks: Seq<TokenView>, i: nat) -> PResult<SStmt>
    decreases toks.len() - i, 2nat,
{
    if tok_is(toks, i, TokenKind::Return) {
        return_statement(toks, i + 1)
    } else if tok_is(toks, i, TokenKind::Val) || tok_is(toks, i, TokenKind::Var) {
        var_decl_statement(toks, i)
    } else if tok_is(toks, i, TokenKind::If) {
        if_statement(toks, i + 1)
    } else if tok_is(toks, i, TokenKind::While) {
        while_statement(toks, i + 1)
    } else if tok_is(toks, i, TokenKind::Loop) {
        loop_statement(toks, i + 1)
    } else if tok_is(toks, i, TokenKind::For) {
        for_statement(toks, i + 1)
    } else if tok_is(toks, i, TokenKind::Break) {
        match consume(toks, i + 1, TokenKind::Semicolon, "Expected ';' after break"@) {
            Err(e) => Err(e),
            Ok(j) => Ok((SStmt::Break, j)),
        }
    } else if tok_is(toks, i, TokenKind::Continue) {
        match consume(toks, i + 1, TokenKind::Semicolon, "Expected ';' after continue"@) {
            Err(e) => Err(e),
            Ok(j) => Ok((SStmt::Continue, j)),
        }
    } else {
        simple_statement(toks, i)
    }
}

/// Statements up to a '}' or the end of input, after the statements `acc`.
pub open spec fn block_items(toks: Seq<TokenView>, i: nat, acc: Seq<SStmt>) -> PResult<Seq<SStmt>>
    decreases toks.len() - i, 3nat,
{
    if !tok_is(toks, i, TokenKind::RightBrace) && !at_end(toks, i) {
        match statement(toks, i) {
            Err(e) => Err(e),
            Ok((s, j)) => if i < j <= toks.len() { block_items(toks, j, acc.push(s)) } else { stuck() },
        }
    } else {
        Ok((acc, i))
    }
}

/// The statements of a block, up to (not including) its '}'.
pub open spec fn block(toks: Seq<TokenView>, i: nat) -> PResult<Seq<SStmt>>
    decreases toks.len() - i, 4nat,
{
    block_items(toks, i, seq![])
}

// ---------------------------------------------------------------------------
// Definitions
// ---------------------------------------------------------------------------

/// Parameters `name: type` separated by commas, after the parameters `acc`.
pub open spec fn param_items(toks: Seq<TokenView>, i: nat, acc: Seq<(Seq<char>, SType)>) -> PResult<Seq<(Seq<char>, SType)>>
    decreases toks.len() - i,
{
    match consume_identifier(toks, i, "Expected parameter name"@) {
        Err(e) => Err(e),
        Ok((name, j)) => match consume(toks, j, TokenKind::Colon, "Expected ':' after parameter name"@) {
            Err(e) => Err(e),
            Ok(k) => match parse_type(toks, k) {
                Err(e) => Err(e),
                Ok((t, m)) => if i < m <= toks.len() {
                    if tok_is(toks, m, TokenKind::Comma) {
                        param_items(toks, m + 1, acc.push((name, t)))
                    } else {
                        Ok((acc.push((name, t)), m))
                    }
                } else {
                    stuck()
                },
            },
        },
    }
}

/// A parameter list up to (not including) its ')'.
pub open spec fn param_list(toks: Seq<TokenView>, i: nat) -> PResult<Seq<(Seq<char>, SType)>> {
    if !tok_is(toks, i, TokenKind::RightParen) {
        param_items(toks, i, seq![])
    } else {
        Ok((seq![], i))
    }
}

/// What follows the parameter list's ')': `-> type { body }`. The messages are those for a
/// missing ')', '->', '{' and '}'.
pub open spec fn signature_tail(
    toks: Seq<TokenView>,
    i: nat,
    close_msg: Seq<char>,
    arrow_msg: Seq<char>,
    open_msg: Seq<char>,
    end_msg: Seq<char>,
) -> PResult<(SType, Seq<SStmt>)> {
    match consume(toks, i, TokenKind::RightParen, close_msg) {
        Err(e) => Err(e),
        Ok(j) => match consume(toks, j, TokenKind::Arrow, arrow_msg) {
            Err(e) => Err(e),
            Ok(k) => match parse_type(toks, k) {
                Err(e) => Err(e),
                Ok((ret, m)) => match consume(toks, m, TokenKind::LeftBrace, open_msg) {
                    Err(e) => Err(e),
                    Ok(n) => match block(toks, n) {
                        Err(e) => Err(e),
                        Ok((body, q)) => match consume(toks, q, TokenKind::RightBrace, end_msg) {
                            Err(e) => Err(e),
                            Ok(r) => Ok(((ret, body), r)),
                        },
                    },
                },
            },
        },
    }
}

/// A function definition.
pub open spec fn function(toks: Seq<TokenView>, i: nat) -> PResult<SFunction> {
    match consume(toks, i, TokenKind::Def, "Expected 'def'"@) {
        Err(e) => Err(e),
        Ok(j) => match consume_identifier(toks, j, "Expected function name"@) {
            Err(e) => Err(e),
            Ok((name, k)) => match consume(toks, k, TokenKind::LeftParen, "Expected '('"@) {
                Err(e) => Err(e),
                Ok(m) => match param_list(toks, m) {
                    Err(e) => Err(e),
                    Ok((params, n)) => match signature_tail(toks, n, "Expected ')'"@, "Expected '->'"@, "Expected '{'"@, "Expected '}'"@) {
                        Err(e) => Err(e),
                        Ok(((ret, body), q)) => Ok((SFunction { name, parameters: params, return_type: ret, body }, q)),
                    },
                },
            },
        },
    }
}

/// The self parameter of a method, after its '(': none, `&self` or `&mut self`.
pub open spec fn self_param(toks: Seq<TokenView>, i: nat) -> PResult<Option<SelfParam>> {
    if tok_is(toks, i, TokenKind::Amp) {
        let p: PResult<SelfParam> = if tok_is(toks, i + 1, TokenKind::Mut) {
            match consume(toks, i + 2, TokenKind::SelfKeyword, "Expected 'self' after '&mut'"@) {
                Err(e) => Err(e),
                Ok(j) => Ok((SelfParam::MutRef, j)),
            }
        } else if tok_is(toks, i + 1, TokenKind::SelfKeyword) {
            Ok((SelfParam::Ref, i + 2))
        } else {
            Err(err_plain("Expected 'self' or 'mut self' after '&'"@))
        };
        match p {
            Err(e) => Err(e),
            Ok((sp, j)) => if !tok_is(toks, j, TokenKind::RightParen) {
                match consume(toks, j, TokenKind::Comma, "Expected ',' after self parameter"@) {
                    Err(e) => Err(e),
                    Ok(k) => Ok((Some(sp), k)),
                }
            } else {
                Ok((Some(sp), j))
            },
        }
    } else if tok_is(toks, i, TokenKind::SelfKeyword) {
        Err(err_plain("Owned 'self' parameter is not yet implemented. Use '&self' or '&mut self'."@))
    } else {
        Ok((None, i))
    }
}

/// A method definition inside an impl block.
pub open spec fn method(toks: Seq<TokenView>, i: nat) -> PResult<SMethod> {
    match consume(toks, i, TokenKind::Def, "Expected 'def' for method"@) {
        Err(e) => Err(e),
        Ok(j) => match consume_identifier(toks, j, "Expected method name"@) {
            Err(e) => Err(e),
            Ok((name, k)) => match consume(toks, k, TokenKind::LeftParen, "Expected '(' after method name"@) {
                Err(e) => Err(e),
                Ok(m) => match self_param(toks, m) {
                    Err(e) => Err(e),
                    Ok((sp, m2)) => match param_list(toks, m2) {
                        Err(e) => Err(e),
                        Ok((params, n)) => match signature_tail(
                            toks, n, "Expected ')' after parameters"@, "Expected '->' after method parameters"@,
                            "Expected '{' before method body"@, "Expected '}' after method body"@,
                        ) {
                            Err(e) => Err(e),
                            Ok(((ret, body), q)) => Ok((SMethod { name, self_param: sp, parameters: params, return_type: ret, body }, q)),
                        },
                    },
                },
            },
        },
    }
}

/// Struct fields `name: type`, each optionally followed by a comma, after the fields `acc`.
pub open spec fn struct_fields(toks: Seq<TokenView>, i: nat, acc: Seq<(Seq<char>, SType)>) -> PResult<Seq<(Seq<char>, SType)>>
    decreases toks.len() - i,
{
    if !tok_is(toks, i, TokenKind::RightBrace) && !at_end(toks, i) {
        match consume_identifier(toks, i, "Expected field name"@) {
            Err(e) => Err(e),
            Ok((name, j)) => match consume(toks, j, TokenKind::Colon, "Expected ':' after field name"@) {
                Err(e) => Err(e),
                Ok(k) => match parse_type(toks, k) {
                    Err(e) => Err(e),
                    Ok((t, m)) => if i < m <= toks.len() {
                        if tok_is(toks, m, TokenKind::Comma) {
                            struct_fields(toks, m + 1, acc.push((name, t)))
                        } else {
                            Ok((acc.push((name, t)), m))
                        }
                    } else {
                        stuck()
                    },
                },
            },
        }
    } else {
        Ok((acc, i))
    }
}

/// A struct definition.
pub open spec fn struct_def(toks: Seq<TokenView>, i: nat) -> PResult<SStruct> {
    match consume(toks, i, TokenKind::Struct, "Expected 'struct'"@) {
        Err(e) => Err(e),
        Ok(j) => match consume_identifier(toks, j, "Expected struct name"@) {
            Err(e) => Err(e),
            Ok((name, k)) => match consume(toks, k, TokenKind::LeftBrace, "Expected '{' after struct name"@) {
                Err(e) => Err(e),
                Ok(m) => match struct_fields(toks, m, seq![]) {
                    Err(e) => Err(e),
                    Ok((fields, n)) => match consume(toks, n, TokenKind::RightBrace, "Expected '}' after struct fields"@) {
                        Err(e) => Err(e),
                        Ok(q) => Ok((SStruct { name, fields }, q)),
                    },
                },
            },
        },
    }
}

/// Methods up to a '}' or the end of input, after the methods `acc`.
pub open spec fn impl_methods(toks: Seq<TokenView>, i: nat, acc: Seq<SMethod>) -> PResult<Seq<SMethod>>
    decreases toks.len() - i,
{
    if !tok_is(toks, i, TokenKind::RightBrace) && !at_end(toks, i) {
        match method(toks, i) {
            Err(e) => Err(e),
            Ok((m, j)) => if i < j <= toks.len() { impl_methods(toks, j, acc.push(m)) } else { stuck() },
        }
    } else {
        Ok((acc, i))
    }
}

/// An impl block.
pub open spec fn impl_block(toks: Seq<TokenView>, i: nat) -> PResult<SImpl> {
    match consume(toks, i, TokenKind::Impl, "Expected 'impl'"@) {
        Err(e) => Err(e),
        Ok(j) => match consume_identifier(toks, j, "Expected struct name after 'impl'"@) {
            Err(e) => Err(e),
            Ok((name, k)) => match consume(toks, k, TokenKind::LeftBrace, "Expected '{' after impl struct name"@) {
                Err(e) => Err(e),
                Ok(m) => match impl_methods(toks, m, seq![]) {
                    Err(e) => Err(e),
                    Ok((methods, n)) => match consume(toks, n, TokenKind::RightBrace, "Expected '}' after impl methods"@) {
                        Err(e) => Err(e),
                        Ok(q) => Ok((SImpl { struct_name: name, methods }, q)),
                    },
                },
            },
        },
    }
}

/// Top-level definitions from `i` to the end of input, after the definitions in `acc`.
pub open spec fn program_items(toks: Seq<TokenView>, i: nat, acc: SProgram) -> Result<SProgram, PErr>
    decreases toks.len() - i,
{
    if at_end(toks, i) {
        Ok(acc)
    } else if tok_is(toks, i, TokenKind::Struct) {
        match struct_def(toks, i) {
            Err(e) => Err(e),
            Ok((s, j)) => if i < j <= toks.len() {
                program_items(toks, j, SProgram { structs: acc.structs.push(s), impls: acc.impls, functions: acc.functions })
            } else {
                Err(err_plain(seq![]))
            },
        }
    } else if tok_is(toks, i, TokenKind::Impl) {
        match impl_block(toks, i) {
            Err(e) => Err(e),
            Ok((m, j)) => if i < j <= toks.len() {
                program_items(toks, j, SProgram { structs: acc.structs, impls: acc.impls.push(m), functions: acc.functions })
            } else {
                Err(err_plain(seq![]))
            },
        }
    } else if tok_is(toks, i, TokenKind::Def) {
        match function(toks, i) {
            Err(e) => Err(e),
            Ok((f, j)) => if i < j <= toks.len() {
                program_items(toks, j, SProgram { structs: acc.structs, impls: acc.impls, functions: acc.functions.push(f) })
            } else {
                Err(err_plain(seq![]))
            },
        }
    } else {
        Err(err_plain("Expected struct, impl, or function definition"@))
    }
}

/// A whole program, from the first token.
pub open spec fn program(toks: Seq<TokenView>) -> Result<SProgram, PErr> {
    program_items(toks, 0, SProgram { structs: seq![], impls: seq![], functions: seq![] })
}

// ---------------------------------------------------------------------------
// Sealed names for the grammar functions, with one unfolding step each.
// ---------------------------------------------------------------------------
/// `parse_type`, sealed: its meaning is given by `unfold_parse_type`.
#[verifier::opaque]
pub open spec fn parse_type_s(toks: Seq<TokenView>, i: nat) -> PResult<SType> {
    parse_type(toks, i)
}
/// One step of `parse_type`.
pub proof fn unfold_parse_type(toks: Seq<TokenView>, i: nat)
    ensures
        parse_type_s(toks, i) == {
        if tok_is(toks, i, TokenKind::LeftBracket) {
            match array_size(toks, i + 1) {
                Err(e) => Err(e),
                Ok((size, j)) => match consume(toks, j, TokenKind::RightBracket, "Expected ']' in array type"@) {
                    Err(e) => Err(e),
                    Ok(k) => if i < k <= toks.len() {
                        match parse_type_s(toks, k) {
                            Err(e) => Err(e),
                            Ok((elem, m)) => Ok((SType::Array(Box::new(elem), size), m)),
                        }
                    } else {
                        stuck()
                    },
                },
            }
        } else if i < toks.len() {
            match simple_type(toks[i as int].kind) {
                Some(t) => Ok((t, i + 1)),
                None => Err(err_plain("Expected type"@)),
            }
        } else {
            Err(err_plain("Expected type"@))
        }
        },
{
    reveal(parse_type_s);
}
/// `expr_list`, sealed: its meaning is given by `unfold_expr_list`.
#[verifier::opaque]
pub open spec fn expr_list_s(toks: Seq<TokenView>, i: nat, close: TokenKind) -> PResult<Seq<SExpr>> {
    expr_list(toks, i, close)
}
/// One step of `expr_list`.
pub proof fn unfold_expr_list(toks: Seq<TokenView>, i: nat, close: TokenKind)
    ensures
        expr_list_s(toks, i, close) == {
        if tok_is(toks, i, close) {
            Ok((seq![], i))
        } else {
            expr_items_s(toks, i, seq![])
        }
        },
{
    reveal(expr_items_s);
    reveal(expr_list_s);
}
/// `expr_items`, sealed: its meaning is given by `unfold_expr_items`.
#[verifier::opaque]
pub open spec fn expr_items_s(toks: Seq<TokenView>, i: nat, acc: Seq<SExpr>) -> PResult<Seq<SExpr>> {
    expr_items(toks, i, acc)
}
/// One step of `expr_items`.
pub proof fn unfold_expr_items(toks: Seq<TokenView>, i: nat, acc: Seq<SExpr>)
    ensures
        expr_items_s(toks, i, acc) == {
        match expression_s(toks, i) {
            Err(e) => Err(e),
            Ok((e, j)) => if i <= j <= toks.len() {
                if tok_is(toks, j, TokenKind::Comma) {
                    expr_items_s(toks, j + 1, acc.push(e))
                } else {
                    Ok((acc.push(e), j))
                }
            } else {
                stuck()
            },
        }
        },
{
    reveal(expression_s);
    reveal(expr_items_s);
}
/// `field_list`, sealed: its meaning is given by `unfold_field_list`.
#[verifier::opaque]
pub open spec fn field_list_s(toks: Seq<TokenView>, i: nat) -> PResult<Seq<(Seq<char>, SExpr)>> {
    field_list(toks, i)
}
/// One step of `field_list`.
pub proof fn unfold_field_list(toks: Seq<TokenView>, i: nat)
    ensures
        field_list_s(toks, i) == {
        if tok_is(toks, i, TokenKind::RightBrace) {
            Ok((seq![], i))
        } else {
            field_items_s(toks, i, seq![])
        }
        },
{
    reveal(field_items_s);
    reveal(field_list_s);
}
/// `field_items`, sealed: its meaning is given by `unfold_field_items`.
#[verifier::opaque]
pub open spec fn field_items_s(toks: Seq<TokenView>, i: nat, acc: Seq<(Seq<char>, SExpr)>) -> PResult<Seq<(Seq<char>, SExpr)>> {
    field_items(toks, i, acc)
}
/// One step of `field_items`.
pub proof fn unfold_field_items(toks: Seq<TokenView>, i: nat, acc: Seq<(Seq<char>, SExpr)>)
    ensures
        field_items_s(toks, i, acc) == {
        match consume_identifier(toks, i, "Expected field name in struct literal"@) {
            Err(e) => Err(e),
            Ok((name, j)) => match consume(toks, j, TokenKind::Colon, "Expected ':' after field name"@) {
                Err(e) => Err(e),
                Ok(k) => if i < k <= toks.len() {
                    match expression_s(toks, k) {
                        Err(e) => Err(e),
                        Ok((v, m)) => if k <= m <= toks.len() {
                            if tok_is(toks, m, TokenKind::Comma) {
                                field_items_s(toks, m + 1, acc.push((name, v)))
                            } else {
                                Ok((acc.push((name, v)), m))
                            }
                        } else {
                            stuck()
                        },
                    }
                } else {
                    stuck()
                },
            },
        }
        },
{
    reveal(expression_s);
    reveal(field_items_s);
}
/// `after_identifier`, sealed: its meaning is given by `unfold_after_identifier`.
#[verifier::opaque]
pub open spec fn after_identifier_s(toks: Seq<TokenView>, name: Seq<char>, j: nat) -> PResult<SExpr> {
    after_identifier(toks, name, j)
}
/// One step of `after_identifier`.
pub proof fn unfold_after_identifier(toks: Seq<TokenView>, name: Seq<char>, j: nat)
    ensures
        after_identifier_s(toks, name, j) == {
        if tok_is(toks, j, TokenKind::Bang) {
            match consume(toks, j + 1, TokenKind::LeftParen, "Expected '(' after '!' in macro call"@) {
                Err(e) => Err(e),
                Ok(k) => if j < k <= toks.len() {
                    match expr_list_s(toks, k, TokenKind::RightParen) {
                        Err(e) => Err(e),
                        Ok((args, m)) => match consume(toks, m, TokenKind::RightParen, "Expected ')' after macro arguments"@) {
                            Err(e) => Err(e),
                            Ok(n) => Ok((SExpr::MacroCall(name, args, span_at(toks, n)), n)),
                        },
                    }
                } else {
                    stuck()
                },
            }
        } else if tok_is(toks, j, TokenKind::ColonColon) {
            match consume_identifier(toks, j + 1, "Expected function name after '::'"@) {
                Err(e) => Err(e),
                Ok((f, k)) => match consume(toks, k, TokenKind::LeftParen, "Expected '(' after associated function name"@) {
                    Err(e) => Err(e),
                    Ok(k2) => if j < k2 <= toks.len() {
                        match expr_list_s(toks, k2, TokenKind::RightParen) {
                            Err(e) => Err(e),
                            Ok((args, m)) => match consume(toks, m, TokenKind::RightParen, "Expected ')' after arguments"@) {
                                Err(e) => Err(e),
                                Ok(n) => Ok((SExpr::AssociatedCall(name, f, args, span_at(toks, n)), n)),
                            },
                        }
                    } else {
                        stuck()
                    },
                },
            }
        } else if tok_is(toks, j, TokenKind::LeftBrace) {
            match field_list_s(toks, j + 1) {
                Err(e) => Err(e),
                Ok((fields, m)) => match consume(toks, m, TokenKind::RightBrace, "Expected '}' after struct literal fields"@) {
                    Err(e) => Err(e),
                    Ok(n) => Ok((SExpr::StructLiteral(name, fields, span_at(toks, n)), n)),
                },
            }
        } else if tok_is(toks, j, TokenKind::LeftParen) {
            match expr_list_s(toks, j + 1, TokenKind::RightParen) {
                Err(e) => Err(e),
                Ok((args, m)) => match consume(toks, m, TokenKind::RightParen, "Expected ')' after arguments"@) {
                    Err(e) => Err(e),
                    Ok(n) => Ok((SExpr::Call(name, args), n)),
                },
            }
        } else {
            Ok((SExpr::Variable(name), j))
        }
        },
{
    reveal(expr_list_s);
    reveal(field_list_s);
    reveal(after_identifier_s);
}
/// `primary`, sealed: its meaning is given by `unfold_primary`.
#[verifier::opaque]
pub open spec fn primary_s(toks: Seq<TokenView>, i: nat) -> PResult<SExpr> {
    primary(toks, i)
}
/// One step of `primary`.
pub proof fn unfold_primary(toks: Seq<TokenView>, i: nat)
    ensures
        primary_s(toks, i) == {
        if tok_is(toks, i, TokenKind::Bang) {
            match primary_s(toks, i + 1) {
                Err(e) => Err(e),
                Ok((e, j)) => Ok((SExpr::Unary(UnaryOperator::Not, Box::new(e)), j)),
            }
        } else if tok_is(toks, i, TokenKind::Minus) {
            match primary_s(toks, i + 1) {
                Err(e) => Err(e),
                Ok((e, j)) => Ok((SExpr::Unary(UnaryOperator::Negate, Box::new(e)), j)),
            }
        } else if tok_is(toks, i, TokenKind::Amp) {
            match primary_s(toks, i + 1) {
                Err(e) => Err(e),
                Ok((e, j)) => Ok((SExpr::Reference(Box::new(e), span_at(toks, j)), j)),
            }
        } else if tok_is(toks, i, TokenKind::True) {
            Ok((SExpr::BoolLiteral(true), i + 1))
        } else if tok_is(toks, i, TokenKind::False) {
            Ok((SExpr::BoolLiteral(false), i + 1))
        } else if tok_is(toks, i, TokenKind::SelfKeyword) {
            Ok((SExpr::Variable("self"@), i + 1))
        } else if i < toks.len() && toks[i as int].kind is IntLiteral {
            let v = toks[i as int].kind->IntLiteral_0;
            match int_text_value(v, true) {
                Some(n) => if i64::MIN <= n <= i64::MAX {
                    Ok((SExpr::IntLiteral(n), i + 1))
                } else {
                    Err(err_plain("Invalid integer literal: "@ + v))
                },
                None => Err(err_plain("Invalid integer literal: "@ + v)),
            }
        } else if i < toks.len() && toks[i as int].kind is FloatLiteral {
            Ok((SExpr::FloatLiteral(toks[i as int].kind->FloatLiteral_0), i + 1))
        } else if i < toks.len() && toks[i as int].kind is StringLiteral {
            Ok((SExpr::StringLiteral(toks[i as int].kind->StringLiteral_0), i + 1))
        } else if i < toks.len() && toks[i as int].kind is Identifier {
            after_identifier_s(toks, toks[i as int].kind->Identifier_0, i + 1)
        } else if tok_is(toks, i, TokenKind::LeftBracket) {
            match expr_list_s(toks, i + 1, TokenKind::RightBracket) {
                Err(e) => Err(e),
                Ok((elems, m)) => match consume(toks, m, TokenKind::RightBracket, "Expected ']' after array elements"@) {
                    Err(e) => Err(e),
                    Ok(n) => Ok((SExpr::ArrayLiteral(elems, span_at(toks, n)), n)),
                },
            }
        } else if tok_is(toks, i, TokenKind::LeftParen) {
            match expression_s(toks, i + 1) {
                Err(e) => Err(e),
                Ok((e, m)) => match consume(toks, m, TokenKind::RightParen, "Expected ')' after expression"@) {
                    Err(err) => Err(err),
                    Ok(n) => Ok((e, n)),
                },
            }
        } else {
            Err(err_at(toks, i, "Expected expression"@))
        }
        },
{
    reveal(primary_s);
    reveal(after_identifier_s);
    reveal(expr_list_s);
    reveal(expression_s);
}
/// `postfix_rest`, sealed: its meaning is given by `unfold_postfix_rest`.
#[verifier::opaque]
pub open spec fn postfix_rest_s(toks: Seq<TokenView>, i: nat, e: SExpr) -> PResult<SExpr> {
    postfix_rest(toks, i, e)
}
/// One step of `postfix_rest`.
pub proof fn unfold_postfix_rest(toks: Seq<TokenView>, i: nat, e: SExpr)
    ensures
        postfix_rest_s(toks, i, e) == {
        if tok_is(toks, i, TokenKind::Dot) {
            match consume_identifier(toks, i + 1, "Expected field or method name after '.'"@) {
                Err(err) => Err(err),
                Ok((name, j)) => if i < j <= toks.len() {
                    if tok_is(toks, j, TokenKind::LeftParen) {
                        match expr_list_s(toks, j + 1, TokenKind::RightParen) {
                            Err(err) => Err(err),
                            Ok((args, m)) => match consume(toks, m, TokenKind::RightParen, "Expected ')' after method arguments"@) {
                                Err(err) => Err(err),
                                Ok(n) => if i < n <= toks.len() {
                                    postfix_rest_s(toks, n, SExpr::MethodCall(Box::new(e), name, args, span_at(toks, n)))
                                } else {
                                    stuck()
                                },
                            },
                        }
                    } else {
                        postfix_rest_s(toks, j, SExpr::FieldAccess(Box::new(e), name, span_at(toks, j)))
                    }
                } else {
                    stuck()
                },
            }
        } else if tok_is(toks, i, TokenKind::LeftBracket) {
            match expression_s(toks, i + 1) {
                Err(err) => Err(err),
                Ok((ix, m)) => match consume(toks, m, TokenKind::RightBracket, "Expected ']' after array index"@) {
                    Err(err) => Err(err),
                    Ok(n) => if i < n <= toks.len() {
                        postfix_rest_s(toks, n, SExpr::Index(Box::new(e), Box::new(ix), span_at(toks, n)))
                    } else {
                        stuck()
                    },
                },
            }
        } else {
            Ok((e, i))
        }
        },
{
    reveal(expr_list_s);
    reveal(postfix_rest_s);
    reveal(expression_s);
}
/// `postfix`, sealed: its meaning is given by `unfold_postfix`.
#[verifier::opaque]
pub open spec fn postfix_s(toks: Seq<TokenView>, i: nat) -> PResult<SExpr> {
    postfix(toks, i)
}
/// One step of `postfix`.
pub proof fn unfold_postfix(toks: Seq<TokenView>, i: nat)
    ensures
        postfix_s(toks, i) == {
        match primary_s(toks, i) {
            Err(e) => Err(e),
            Ok((e, j)) => if i <= j <= toks.len() { postfix_rest_s(toks, j, e) } else { stuck() },
        }
        },
{
    reveal(primary_s);
    reveal(postfix_rest_s);
    reveal(postfix_s);
}
/// `mul_rest`, sealed: its meaning is given by `unfold_mul_rest`.
#[verifier::opaque]
pub open spec fn mul_rest_s(toks: Seq<TokenView>, i: nat, acc: SExpr) -> PResult<SExpr> {
    mul_rest(toks, i, acc)
}
/// One step of `mul_rest`.
pub proof fn unfold_mul_rest(toks: Seq<TokenView>, i: nat, acc: SExpr)
    ensures
        mul_rest_s(toks, i, acc) == {
        match mul_op(toks, i) {
            None => Ok((acc, i)),
            Some(op) => match postfix_s(toks, i + 1) {
                Err(e) => Err(e),
                Ok((r, j)) => if i < j <= toks.len() { mul_rest_s(toks, j, bin(acc, op, r)) } else { stuck() },
            },
        }
        },
{
    reveal(postfix_s);
    reveal(mul_rest_s);
}
/// `multiplicative`, sealed: its meaning is given by `unfold_multiplicative`.
#[verifier::opaque]
pub open spec fn multiplicative_s(toks: Seq<TokenView>, i: nat) -> PResult<SExpr> {
    multiplicative(toks, i)
}
/// One step of `multiplicative`.
pub proof fn unfold_multiplicative(toks: Seq<TokenView>, i: nat)
    ensures
        multiplicative_s(toks, i) == {
        match postfix_s(toks, i) {
            Err(e) => Err(e),
            Ok((l, j)) => if i <= j <= toks.len() { mul_rest_s(toks, j, l) } else { stuck() },
        }
        },
{
    reveal(postfix_s);
    reveal(mul_rest_s);
    reveal(multiplicative_s);
}
/// `add_rest`, sealed: its meaning is given by `unfold_add_rest`.
#[verifier::opaque]
pub open spec fn add_rest_s(toks: Seq<TokenView>, i: nat, acc: SExpr) -> PResult<SExpr> {
    add_rest(toks, i, acc)
}
/// One step of `add_rest`.
pub proof fn unfold_add_rest(toks: Seq<TokenView>, i: nat, acc: SExpr)
    ensures
        add_rest_s(toks, i, acc) == {
        match add_op(toks, i) {
            None => Ok((acc, i)),
            Some(op) => match multiplicative_s(toks, i + 1) {
                Err(e) => Err(e),
                Ok((r, j)) => if i < j <= toks.len() { add_rest_s(toks, j, bin(acc, op, r)) } else { stuck() },
            },
        }
        },
{
    reveal(multiplicative_s);
    reveal(add_rest_s);
}
/// `additive`, sealed: its meaning is given by `unfold_additive`.
#[verifier::opaque]
pub open spec fn additive_s(toks: Seq<TokenView>, i: nat) -> PResult<SExpr> {
    additive(toks, i)
}
/// One step of `additive`.
pub proof fn unfold_additive(toks: Seq<TokenView>, i: nat)
    ensures
        additive_s(toks, i) == {
        match multiplicative_s(toks, i) {
            Err(e) => Err(e),
            Ok((l, j)) => if i <= j <= toks.len() { add_rest_s(toks, j, l) } else { stuck() },
        }
        },
{
    reveal(multiplicative_s);
    reveal(add_rest_s);
    reveal(additive_s);
}
/// `cmp_rest`, sealed: its meaning is given by `unfold_cmp_rest`.
#[verifier::opaque]
pub open spec fn cmp_rest_s(toks: Seq<TokenView>, i: nat, acc: SExpr) -> PResult<SExpr> {
    cmp_rest(toks, i, acc)
}
/// One step of `cmp_rest`.
pub proof fn unfold_cmp_rest(toks: Seq<TokenView>, i: nat, acc: SExpr)
    ensures
        cmp_rest_s(toks, i, acc) == {
        match cmp_op(toks, i) {
            None => Ok((acc, i)),
            Some(op) => match additive_s(toks, i + 1) {
                Err(e) => Err(e),
                Ok((r, j)) => if i < j <= toks.len() { cmp_rest_s(toks, j, bin(acc, op, r)) } else { stuck() },
            },
        }
        },
{
    reveal(additive_s);
    reveal(cmp_rest_s);
}
/// `comparison`, sealed: its meaning is given by `unfold_comparison`.
#[verifier::opaque]
pub open spec fn comparison_s(toks: Seq<TokenView>, i: nat) -> PResult<SExpr> {
    comparison(toks, i)
}
/// One step of `comparison`.
pub proof fn unfold_comparison(toks: Seq<TokenView>, i: nat)
    ensures
        comparison_s(toks, i) == {
        match additive_s(toks, i) {
            Err(e) => Err(e),
            Ok((l, j)) => if i <= j <= toks.len() { cmp_rest_s(toks, j, l) } else { stuck() },
        }
        },
{
    reveal(additive_s);
    reveal(cmp_rest_s);
    reveal(comparison_s);
}
/// `eq_rest`, sealed: its meaning is given by `unfold_eq_rest`.
#[verifier::opaque]
pub open spec fn eq_rest_s(toks: Seq<TokenView>, i: nat, acc: SExpr) -> PResult<SExpr> {
    eq_rest(toks, i, acc)
}
/// One step of `eq_rest`.
pub proof fn unfold_eq_rest(toks: Seq<TokenView>, i: nat, acc: SExpr)
    ensures
        eq_rest_s(toks, i, acc) == {
        match eq_op(toks, i) {
            None => Ok((acc, i)),
            Some(op) => match comparison_s(toks, i + 1) {
                Err(e) => Err(e),
                Ok((r, j)) => if i < j <= toks.len() { eq_rest_s(toks, j, bin(acc, op, r)) } else { stuck() },
            },
        }
        },
{
    reveal(comparison_s);
    reveal(eq_rest_s);
}
/// `equality`, sealed: its meaning is given by `unfold_equality`.
#[verifier::opaque]
pub open spec fn equality_s(toks: Seq<TokenView>, i: nat) -> PResult<SExpr> {
    equality(toks, i)
}
/// One step of `equality`.
pub proof fn unfold_equality(toks: Seq<TokenView>, i: nat)
    ensures
        equality_s(toks, i) == {
        match comparison_s(toks, i) {
            Err(e) => Err(e),
            Ok((l, j)) => if i <= j <= toks.len() { eq_rest_s(toks, j, l) } else { stuck() },
        }
        },
{
    reveal(comparison_s);
    reveal(eq_rest_s);
    reveal(equality_s);
}
/// `and_rest`, sealed: its meaning is given by `unfold_and_rest`.
#[verifier::opaque]
pub open spec fn and_rest_s(toks: Seq<TokenView>, i: nat, acc: SExpr) -> PResult<SExpr> {
    and_rest(toks, i, acc)
}
/// One step of `and_rest`.
pub proof fn unfold_and_rest(toks: Seq<TokenView>, i: nat, acc: SExpr)
    ensures
        and_rest_s(toks, i, acc) == {
        if tok_is(toks, i, TokenKind::AmpAmp) {
            match equality_s(toks, i + 1) {
                Err(e) => Err(e),
                Ok((r, j)) => if i < j <= toks.len() { and_rest_s(toks, j, bin(acc, BinaryOperator::And, r)) } else { stuck() },
            }
        } else {
            Ok((acc, i))
        }
        },
{
    reveal(equality_s);
    reveal(and_rest_s);
}
/// `logical_and`, sealed: its meaning is given by `unfold_logical_and`.
#[verifier::opaque]
pub open spec fn logical_and_s(toks: Seq<TokenView>, i: nat) -> PResult<SExpr> {
    logical_and(toks, i)
}
/// One step of `logical_and`.
pub proof fn unfold_logical_and(toks: Seq<TokenView>, i: nat)
    ensures
        logical_and_s(toks, i) == {
        match equality_s(toks, i) {
            Err(e) => Err(e),
            Ok((l, j)) => if i <= j <= toks.len() { and_rest_s(toks, j, l) } else { stuck() },
        }
        },
{
    reveal(equality_s);
    reveal(and_rest_s);
    reveal(logical_and_s);
}
/// `or_rest`, sealed: its meaning is given by `unfold_or_rest`.
#[verifier::opaque]
pub open spec fn or_rest_s(toks: Seq<TokenView>, i: nat, acc: SExpr) -> PResult<SExpr> {
    or_rest(toks, i, acc)
}
/// One step of `or_rest`.
pub proof fn unfold_or_rest(toks: Seq<TokenView>, i: nat, acc: SExpr)
    ensures
        or_rest_s(toks, i, acc) == {
        if tok_is(toks, i, TokenKind::PipePipe) {
            match logical_and_s(toks, i + 1) {
                Err(e) => Err(e),
                Ok((r, j)) => if i < j <= toks.len() { or_rest_s(toks, j, bin(acc, BinaryOperator::Or, r)) } else { stuck() },
            }
        } else {
            Ok((acc, i))
        }
        },
{
    reveal(logical_and_s);
    reveal(or_rest_s);
}
/// `logical_or`, sealed: its meaning is given by `unfold_logical_or`.
#[verifier::opaque]
pub open spec fn logical_or_s(toks: Seq<TokenView>, i: nat) -> PResult<SExpr> {
    logical_or(toks, i)
}
/// One step of `logical_or`.
pub proof fn unfold_logical_or(toks: Seq<TokenView>, i: nat)
    ensures
        logical_or_s(toks, i) == {
        match logical_and_s(toks, i) {
            Err(e) => Err(e),
            Ok((l, j)) => if i <= j <= toks.len() { or_rest_s(toks, j, l) } else { stuck() },
        }
        },
{
    reveal(logical_and_s);
    reveal(or_rest_s);
    reveal(logical_or_s);
}
/// `expression`, sealed: its meaning is given by `unfold_expression`.
#[verifier::opaque]
pub open spec fn expression_s(toks: Seq<TokenView>, i: nat) -> PResult<SExpr> {
    expression(toks, i)
}
/// One step of `expression`.
pub proof fn unfold_expression(toks: Seq<TokenView>, i: nat)
    ensures
        expression_s(toks, i) == {
        logical_or_s(toks, i)
        },
{
    reveal(logical_or_s);
    reveal(expression_s);
}
/// `finish_expression`, sealed: its meaning is given by `unfold_finish_expression`.
#[verifier::opaque]
pub open spec fn finish_expression_s(toks: Seq<TokenView>, i: nat, e: SExpr) -> PResult<SExpr> {
    finish_expression(toks, i, e)
}
/// One step of `finish_expression`.
pub proof fn unfold_finish_expression(toks: Seq<TokenView>, i: nat, e: SExpr)
    ensures
        finish_expression_s(toks, i, e) == {
        match mul_rest_s(toks, i, e) {
            Err(x) => Err(x),
            Ok((e1, j1)) => if i <= j1 <= toks.len() {
                match add_rest_s(toks, j1, e1) {
                    Err(x) => Err(x),
                    Ok((e2, j2)) => if j1 <= j2 <= toks.len() {
                        match cmp_rest_s(toks, j2, e2) {
                            Err(x) => Err(x),
                            Ok((e3, j3)) => if j2 <= j3 <= toks.len() {
                                match eq_rest_s(toks, j3, e3) {
                                    Err(x) => Err(x),
                                    Ok((e4, j4)) => if j3 <= j4 <= toks.len() {
                                        match and_rest_s(toks, j4, e4) {
                                            Err(x) => Err(x),
                                            Ok((e5, j5)) => if j4 <= j5 <= toks.len() { or_rest_s(toks, j5, e5) } else { stuck() },
                                        }
                                    } else {
                                        stuck()
                                    },
                                }
                            } else {
                                stuck()
                            },
                        }
                    } else {
                        stuck()
                    },
                }
            } else {
                stuck()
            },
        }
        },
{
    reveal(mul_rest_s);
    reveal(add_rest_s);
    reveal(cmp_rest_s);
    reveal(eq_rest_s);
    reveal(and_rest_s);
    reveal(or_rest_s);
    reveal(finish_expression_s);
}
/// `var_decl_statement`, sealed: its meaning is given by `unfold_var_decl_statement`.
#[verifier::opaque]
pub open spec fn var_decl_statement_s(toks: Seq<TokenView>, i: nat) -> PResult<SStmt> {
    var_decl_statement(toks, i)
}
/// One step of `var_decl_statement`.
pub proof fn unfold_var_decl_statement(toks: Seq<TokenView>, i: nat)
    ensures
        var_decl_statement_s(toks, i) == {
        let (is_mutable, j) = if tok_is(toks, i, TokenKind::Var) { (true, i + 1) } else { (false, i + 1) };
        if !tok_is(toks, i, TokenKind::Var) && !tok_is(toks, i, TokenKind::Val) {
            Err(err_plain("Expected 'val' or 'var'"@))
        } else {
            match consume_identifier(toks, j, "Expected variable name"@) {
                Err(e) => Err(e),
                Ok((name, k)) => {
                    let ty: PResult<Option<SType>> = if tok_is(toks, k, TokenKind::Colon) {
                        match parse_type_s(toks, k + 1) {
                            Err(e) => Err(e),
                            Ok((t, m)) => Ok((Some(t), m)),
                        }
                    } else {
                        Ok((None, k))
                    };
                    match ty {
                        Err(e) => Err(e),
                        Ok((var_type, m)) => {
                            let init: PResult<Option<SExpr>> = if tok_is(toks, m, TokenKind::Equal) {
                                match expression_s(toks, m + 1) {
                                    Err(e) => Err(e),
                                    Ok((x, n)) => Ok((Some(x), n)),
                                }
                            } else {
                                Ok((None, m))
                            };
                            match init {
                                Err(e) => Err(e),
                                Ok((initializer, n)) => match consume(toks, n, TokenKind::Semicolon, "Expected ';' after variable declaration"@) {
                                    Err(e) => Err(e),
                                    Ok(q) => Ok((SStmt::VarDecl(is_mutable, name, var_type, initializer), q)),
                                },
                            }
                        },
                    }
                },
            }
        }
        },
{
    reveal(parse_type_s);
    reveal(expression_s);
    reveal(var_decl_statement_s);
}
/// `return_statement`, sealed: its meaning is given by `unfold_return_statement`.
#[verifier::opaque]
pub open spec fn return_statement_s(toks: Seq<TokenView>, i: nat) -> PResult<SStmt> {
    return_statement(toks, i)
}
/// One step of `return_statement`.
pub proof fn unfold_return_statement(toks: Seq<TokenView>, i: nat)
    ensures
        return_statement_s(toks, i) == {
        let value: PResult<Option<SExpr>> = if !tok_is(toks, i, TokenKind::Semicolon) {
            match expression_s(toks, i) {
                Err(e) => Err(e),
                Ok((x, j)) => Ok((Some(x), j)),
            }
        } else {
            Ok((None, i))
        };
        match value {
            Err(e) => Err(e),
            Ok((v, j)) => match consume(toks, j, TokenKind::Semicolon, "Expected ';' after return"@) {
                Err(e) => Err(e),
                Ok(k) => Ok((SStmt::Return(v), k)),
            },
        }
        },
{
    reveal(expression_s);
    reveal(return_statement_s);
}
/// `braced_block`, sealed: its meaning is given by `unfold_braced_block`.
#[verifier::opaque]
pub open spec fn braced_block_s(toks: Seq<TokenView>, i: nat, message: Seq<char>) -> PResult<Seq<SStmt>> {
    braced_block(toks, i, message)
}
/// One step of `braced_block`.
pub proof fn unfold_braced_block(toks: Seq<TokenView>, i: nat, message: Seq<char>)
    ensures
        braced_block_s(toks, i, message) == {
        match consume(toks, i, TokenKind::LeftBrace, message) {
            Err(e) => Err(e),
            Ok(j) => if i < j <= toks.len() {
                match block_s(toks, j) {
                    Err(e) => Err(e),
                    Ok((b, k)) => match consume(toks, k, TokenKind::RightBrace, "Expected '}'"@) {
                        Err(e) => Err(e),
                        Ok(m) => Ok((b, m)),
                    },
                }
            } else {
                stuck()
            },
        }
        },
{
    reveal(block_s);
    reveal(braced_block_s);
}
/// `if_statement`, sealed: its meaning is given by `unfold_if_statement`.
#[verifier::opaque]
pub open spec fn if_statement_s(toks: Seq<TokenView>, i: nat) -> PResult<SStmt> {
    if_statement(toks, i)
}
/// One step of `if_statement`.
pub proof fn unfold_if_statement(toks: Seq<TokenView>, i: nat)
    ensures
        if_statement_s(toks, i) == {
        match expression_s(toks, i) {
            Err(e) => Err(e),
            Ok((c, j)) => if i <= j <= toks.len() {
                match braced_block_s(toks, j, "Expected '{' after if condition"@) {
                    Err(e) => Err(e),
                    Ok((then_block, k)) => if j < k <= toks.len() {
                        if tok_is(toks, k, TokenKind::Else) {
                            match braced_block_s(toks, k + 1, "Expected '{' after else"@) {
                                Err(e) => Err(e),
                                Ok((else_block, m)) => Ok((SStmt::If(c, then_block, Some(else_block)), m)),
                            }
                        } else {
                            Ok((SStmt::If(c, then_block, None), k))
                        }
                    } else {
                        stuck()
                    },
                }
            } else {
                stuck()
            },
        }
        },
{
    reveal(expression_s);
    reveal(braced_block_s);
    reveal(if_statement_s);
}
/// `while_statement`, sealed: its meaning is given by `unfold_while_statement`.
#[verifier::opaque]
pub open spec fn while_statement_s(toks: Seq<TokenView>, i: nat) -> PResult<SStmt> {
    while_statement(toks, i)
}
/// One step of `while_statement`.
pub proof fn unfold_while_statement(toks: Seq<TokenView>, i: nat)
    ensures
        while_statement_s(toks, i) == {
        match expression_s(toks, i) {
            Err(e) => Err(e),
            Ok((c, j)) => if i <= j <= toks.len() {
                match braced_block_s(toks, j, "Expected '{' after while condition"@) {
                    Err(e) => Err(e),
                    Ok((body, k)) => Ok((SStmt::While(c, body), k)),
                }
            } else {
                stuck()
            },
        }
        },
{
    reveal(expression_s);
    reveal(braced_block_s);
    reveal(while_statement_s);
}
/// `loop_statement`, sealed: its meaning is given by `unfold_loop_statement`.
#[verifier::opaque]
pub open spec fn loop_statement_s(toks: Seq<TokenView>, i: nat) -> PResult<SStmt> {
    loop_statement(toks, i)
}
/// One step of `loop_statement`.
pub proof fn unfold_loop_statement(toks: Seq<TokenView>, i: nat)
    ensures
        loop_statement_s(toks, i) == {
        match braced_block_s(toks, i, "Expected '{' after loop"@) {
            Err(e) => Err(e),
            Ok((body, k)) => Ok((SStmt::Loop(body), k)),
        }
        },
{
    reveal(braced_block_s);
    reveal(loop_statement_s);
}
/// `for_iterable`, sealed: its meaning is given by `unfold_for_iterable`.
#[verifier::opaque]
pub open spec fn for_iterable_s(toks: Seq<TokenView>, i: nat) -> PResult<SIterable> {
    for_iterable(toks, i)
}
/// One step of `for_iterable`.
pub proof fn unfold_for_iterable(toks: Seq<TokenView>, i: nat)
    ensures
        for_iterable_s(toks, i) == {
        if tok_is(toks, i, TokenKind::LeftBracket) {
            match expr_list_s(toks, i + 1, TokenKind::RightBracket) {
                Err(e) => Err(e),
                Ok((elems, j)) => match consume(toks, j, TokenKind::RightBracket, "Expected ']' after array elements"@) {
                    Err(e) => Err(e),
                    Ok(k) => Ok((SIterable::Expression(SExpr::ArrayLiteral(elems, span_at(toks, k))), k)),
                },
            }
        } else if i < toks.len() && (toks[i as int].kind is IntLiteral || toks[i as int].kind is FloatLiteral) {
            match comparison_s(toks, i) {
                Err(e) => Err(e),
                Ok((start, j)) => match consume(toks, j, TokenKind::DotDot, "Expected '..' for range"@) {
                    Err(e) => Err(e),
                    Ok(k) => match comparison_s(toks, k) {
                        Err(e) => Err(e),
                        Ok((end, m)) => Ok((SIterable::Range(start, end), m)),
                    },
                },
            }
        } else {
            match consume_identifier(toks, i, "Expected array variable or range start"@) {
                Err(e) => Err(e),
                Ok((ident, j)) => {
                    let target: PResult<SExpr> = if tok_is(toks, j, TokenKind::Dot) {
                        match consume_identifier(toks, j + 1, "Expected field name"@) {
                            Err(e) => Err(e),
                            Ok((field, k)) => Ok((SExpr::FieldAccess(Box::new(SExpr::Variable(ident)), field, span_at(toks, k)), k)),
                        }
                    } else {
                        Ok((SExpr::Variable(ident), j))
                    };
                    match target {
                        Err(e) => Err(e),
                        Ok((x, k)) => if tok_is(toks, k, TokenKind::DotDot) {
                            match comparison_s(toks, k + 1) {
                                Err(e) => Err(e),
                                Ok((end, m)) => Ok((SIterable::Range(x, end), m)),
                            }
                        } else {
                            Ok((SIterable::Expression(x), k))
                        },
                    }
                },
            }
        }
        },
{
    reveal(expr_list_s);
    reveal(comparison_s);
    reveal(for_iterable_s);
}
/// `for_statement`, sealed: its meaning is given by `unfold_for_statement`.
#[verifier::opaque]
pub open spec fn for_statement_s(toks: Seq<TokenView>, i: nat) -> PResult<SStmt> {
    for_statement(toks, i)
}
/// One step of `for_statement`.
pub proof fn unfold_for_statement(toks: Seq<TokenView>, i: nat)
    ensures
        for_statement_s(toks, i) == {
        match consume_identifier(toks, i, "Expected variable name in for loop"@) {
            Err(e) => Err(e),
            Ok((variable, j)) => {
                if !tok_is(toks, j, TokenKind::LeftArrow) && !tok_is(toks, j, TokenKind::In) {
                    Err(err_plain("Expected '<-' or 'in' in for loop"@))
                } else {
                    match for_iterable_s(toks, j + 1) {
                        Err(e) => Err(e),
                        Ok((iterable, k)) => if i < k <= toks.len() {
                            match braced_block_s(toks, k, "Expected '{' after for iterable"@) {
                                Err(e) => Err(e),
                                Ok((body, m)) => Ok((SStmt::For(variable, iterable, body), m)),
                            }
                        } else {
                            stuck()
                        },
                    }
                }
            },
        }
        },
{
    reveal(for_iterable_s);
    reveal(braced_block_s);
    reveal(for_statement_s);
}
/// `simple_statement`, sealed: its meaning is given by `unfold_simple_statement`.
#[verifier::opaque]
pub open spec fn simple_statement_s(toks: Seq<TokenView>, i: nat) -> PResult<SStmt> {
    simple_statement(toks, i)
}
/// One step of `simple_statement`.
pub proof fn unfold_simple_statement(toks: Seq<TokenView>, i: nat)
    ensures
        simple_statement_s(toks, i) == {
        match postfix_s(toks, i) {
            Err(e) => Err(e),
            Ok((e, j)) => if tok_is(toks, j, TokenKind::Equal) {
                match as_target(e) {
                    None => Err(err_plain("Invalid assignment target"@)),
                    Some(t) => match expression_s(toks, j + 1) {
                        Err(err) => Err(err),
                        Ok((v, k)) => match consume(toks, k, TokenKind::Semicolon, "Expected ';' after assignment"@) {
                            Err(err) => Err(err),
                            Ok(m) => Ok((SStmt::Assignment(t, v, span_at(toks, m)), m)),
                        },
                    },
                }
            } else {
                match finish_expression_s(toks, j, e) {
                    Err(err) => Err(err),
                    Ok((f, k)) => match consume(toks, k, TokenKind::Semicolon, "Expected ';' after expression"@) {
                        Err(err) => Err(err),
                        Ok(m) => Ok((SStmt::Expression(f), m)),
                    },
                }
            },
        }
        },
{
    reveal(postfix_s);
    reveal(expression_s);
    reveal(finish_expression_s);
    reveal(simple_statement_s);
}
/// `statement`, sealed: its meaning is given by `unfold_statement`.
#[verifier::opaque]
pub open spec fn statement_s(toks: Seq<TokenView>, i: nat) -> PResult<SStmt> {
    statement(toks, i)
}
/// One step of `statement`.
pub proof fn unfold_statement(toks: Seq<TokenView>, i: nat)
    ensures
        statement_s(toks, i) == {
        if tok_is(toks, i, TokenKind::Return) {
            return_statement_s(toks, i + 1)
        } else if tok_is(toks, i, TokenKind::Val) || tok_is(toks, i, TokenKind::Var) {
            var_decl_statement_s(toks, i)
        } else if tok_is(toks, i, TokenKind::If) {
            if_statement_s(toks, i + 1)
        } else if tok_is(toks, i, TokenKind::While) {
            while_statement_s(toks, i + 1)
        } else if tok_is(toks, i, TokenKind::Loop) {
            loop_statement_s(toks, i + 1)
        } else if tok_is(toks, i, TokenKind::For) {
            for_statement_s(toks, i + 1)
        } else if tok_is(toks, i, TokenKind::Break) {
            match consume(toks, i + 1, TokenKind::Semicolon, "Expected ';' after break"@) {
                Err(e) => Err(e),
                Ok(j) => Ok((SStmt::Break, j)),
            }
        } else if tok_is(toks, i, TokenKind::Continue) {
            match consume(toks, i + 1, TokenKind::Semicolon, "Expected ';' after continue"@) {
                Err(e) => Err(e),
                Ok(j) => Ok((SStmt::Continue, j)),
            }
        } else {
            simple_statement_s(toks, i)
        }
        },
{
    reveal(return_statement_s);
    reveal(var_decl_statement_s);
    reveal(if_statement_s);
    reveal(while_statement_s);
    reveal(loop_statement_s);
    reveal(for_statement_s);
    reveal(simple_statement_s);
    reveal(statement_s);
}
/// `block_items`, sealed: its meaning is given by `unfold_block_items`.
#[verifier::opaque]
pub open spec fn block_items_s(toks: Seq<TokenView>, i: nat, acc: Seq<SStmt>) -> PResult<Seq<SStmt>> {
    block_items(toks, i, acc)
}
/// One step of `block_items`.
pub proof fn unfold_block_items(toks: Seq<TokenView>, i: nat, acc: Seq<SStmt>)
    ensures
        block_items_s(toks, i, acc) == {
        if !tok_is(toks, i, TokenKind::RightBrace) && !at_end(toks, i) {
            match statement_s(toks, i) {
                Err(e) => Err(e),
                Ok((s, j)) => if i < j <= toks.len() { block_items_s(toks, j, acc.push(s)) } else { stuck() },
            }
        } else {
            Ok((acc, i))
        }
        },
{
    reveal(statement_s);
    reveal(block_items_s);
}
/// `block`, sealed: its meaning is given by `unfold_block`.
#[verifier::opaque]
pub open spec fn block_s(toks: Seq<TokenView>, i: nat) -> PResult<Seq<SStmt>> {
    block(toks, i)
}
/// One step of `block`.
pub proof fn unfold_block(toks: Seq<TokenView>, i: nat)
    ensures
        block_s(toks, i) == {
        block_items_s(toks, i, seq![])
        },
{
    reveal(block_items_s);
    reveal(block_s);
}
/// `param_items`, sealed: its meaning is given by `unfold_param_items`.
#[verifier::opaque]
pub open spec fn param_items_s(toks: Seq<TokenView>, i: nat, acc: Seq<(Seq<char>, SType)>) -> PResult<Seq<(Seq<char>, SType)>> {
    param_items(toks, i, acc)
}
/// One step of `param_items`.
pub proof fn unfold_param_items(toks: Seq<TokenView>, i: nat, acc: Seq<(Seq<char>, SType)>)
    ensures
        param_items_s(toks, i, acc) == {
        match consume_identifier(toks, i, "Expected parameter name"@) {
            Err(e) => Err(e),
            Ok((name, j)) => match consume(toks, j, TokenKind::Colon, "Expected ':' after parameter name"@) {
                Err(e) => Err(e),
                Ok(k) => match parse_type_s(toks, k) {
                    Err(e) => Err(e),
                    Ok((t, m)) => if i < m <= toks.len() {
                        if tok_is(toks, m, TokenKind::Comma) {
                            param_items_s(toks, m + 1, acc.push((name, t)))
                        } else {
                            Ok((acc.push((name, t)), m))
                        }
                    } else {
                        stuck()
                    },
                },
            },
        }
        },
{
    reveal(parse_type_s);
    reveal(param_items_s);
}
/// `param_list`, sealed: its meaning is given by `unfold_param_list`.
#[verifier::opaque]
pub open spec fn param_list_s(toks: Seq<TokenView>, i: nat) -> PResult<Seq<(Seq<char>, SType)>> {
    param_list(toks, i)
}
/// One step of `param_list`.
pub proof fn unfold_param_list(toks: Seq<TokenView>, i: nat)
    ensures
        param_list_s(toks, i) == {
        if !tok_is(toks, i, TokenKind::RightParen) {
            param_items_s(toks, i, seq![])
        } else {
            Ok((seq![], i))
        }
        },
{
    reveal(param_items_s);
    reveal(param_list_s);
}
/// `signature_tail`, sealed: its meaning is given by `unfold_signature_tail`.
#[verifier::opaque]
pub open spec fn signature_tail_s(
    toks: Seq<TokenView>,
    i: nat,
    close_msg: Seq<char>,
    arrow_msg: Seq<char>,
    open_msg: Seq<char>,
    end_msg: Seq<char>,
) -> PResult<(SType, Seq<SStmt>)> {
    signature_tail(toks, i, close_msg, arrow_msg, open_msg, end_msg)
}
/// One step of `signature_tail`.
pub proof fn unfold_signature_tail(
    toks: Seq<TokenView>,
    i: nat,
    close_msg: Seq<char>,
    arrow_msg: Seq<char>,
    open_msg: Seq<char>,
    end_msg: Seq<char>,
)
    ensures
        signature_tail_s(toks, i, close_msg, arrow_msg, open_msg, end_msg) == {
        match consume(toks, i, TokenKind::RightParen, close_msg) {
            Err(e) => Err(e),
            Ok(j) => match consume(toks, j, TokenKind::Arrow, arrow_msg) {
                Err(e) => Err(e),
                Ok(k) => match parse_type_s(toks, k) {
                    Err(e) => Err(e),
                    Ok((ret, m)) => match consume(toks, m, TokenKind::LeftBrace, open_msg) {
                        Err(e) => Err(e),
                        Ok(n) => match block_s(toks, n) {
                            Err(e) => Err(e),
                            Ok((body, q)) => match consume(toks, q, TokenKind::RightBrace, end_msg) {
                                Err(e) => Err(e),
                                Ok(r) => Ok(((ret, body), r)),
                            },
                        },
                    },
                },
            },
        }
        },
{
    reveal(parse_type_s);
    reveal(block_s);
    reveal(signature_tail_s);
}
/// `function`, sealed: its meaning is given by `unfold_function`.
#[verifier::opaque]
pub open spec fn function_s(toks: Seq<TokenView>, i: nat) -> PResult<SFunction> {
    function(toks, i)
}
/// One step of `function`.
pub proof fn unfold_function(toks: Seq<TokenView>, i: nat)
    ensures
        function_s(toks, i) == {
        match consume(toks, i, TokenKind::Def, "Expected 'def'"@) {
            Err(e) => Err(e),
            Ok(j) => match consume_identifier(toks, j, "Expected function name"@) {
                Err(e) => Err(e),
                Ok((name, k)) => match consume(toks, k, TokenKind::LeftParen, "Expected '('"@) {
                    Err(e) => Err(e),
                    Ok(m) => match param_list_s(toks, m) {
                        Err(e) => Err(e),
                        Ok((params, n)) => match signature_tail_s(toks, n, "Expected ')'"@, "Expected '->'"@, "Expected '{'"@, "Expected '}'"@) {
                            Err(e) => Err(e),
                            Ok(((ret, body), q)) => Ok((SFunction { name, parameters: params, return_type: ret, body }, q)),
                        },
                    },
                },
            },
        }
        },
{
    reveal(param_list_s);
    reveal(signature_tail_s);
    reveal(function_s);
}
/// `self_param`, sealed: its meaning is given by `unfold_self_param`.
#[verifier::opaque]
pub open spec fn self_param_s(toks: Seq<TokenView>, i: nat) -> PResult<Option<SelfParam>> {
    self_param(toks, i)
}
/// One step of `self_param`.
pub proof fn unfold_self_param(toks: Seq<TokenView>, i: nat)
    ensures
        self_param_s(toks, i) == {
        if tok_is(toks, i, TokenKind::Amp) {
            let p: PResult<SelfParam> = if tok_is(toks, i + 1, TokenKind::Mut) {
                match consume(toks, i + 2, TokenKind::SelfKeyword, "Expected 'self' after '&mut'"@) {
                    Err(e) => Err(e),
                    Ok(j) => Ok((SelfParam::MutRef, j)),
                }
            } else if tok_is(toks, i + 1, TokenKind::SelfKeyword) {
                Ok((SelfParam::Ref, i + 2))
            } else {
                Err(err_plain("Expected 'self' or 'mut self' after '&'"@))
            };
            match p {
                Err(e) => Err(e),
                Ok((sp, j)) => if !tok_is(toks, j, TokenKind::RightParen) {
                    match consume(toks, j, TokenKind::Comma, "Expected ',' after self parameter"@) {
                        Err(e) => Err(e),
                        Ok(k) => Ok((Some(sp), k)),
                    }
                } else {
                    Ok((Some(sp), j))
                },
            }
        } else if tok_is(toks, i, TokenKind::SelfKeyword) {
            Err(err_plain("Owned 'self' parameter is not yet implemented. Use '&self' or '&mut self'."@))
        } else {
            Ok((None, i))
        }
        },
{
    reveal(self_param_s);
}
/// `method`, sealed: its meaning is given by `unfold_method`.
#[verifier::opaque]
pub open spec fn method_s(toks: Seq<TokenView>, i: nat) -> PResult<SMethod> {
    method(toks, i)
}
/// One step of `method`.
pub proof fn unfold_method(toks: Seq<TokenView>, i: nat)
    ensures
        method_s(toks, i) == {
        match consume(toks, i, TokenKind::Def, "Expected 'def' for method"@) {
            Err(e) => Err(e),
            Ok(j) => match consume_identifier(toks, j, "Expected method name"@) {
                Err(e) => Err(e),
                Ok((name, k)) => match consume(toks, k, TokenKind::LeftParen, "Expected '(' after method name"@) {
                    Err(e) => Err(e),
                    Ok(m) => match self_param_s(toks, m) {
                        Err(e) => Err(e),
                        Ok((sp, m2)) => match param_list_s(toks, m2) {
                            Err(e) => Err(e),
                            Ok((params, n)) => match signature_tail_s(
                                toks, n, "Expected ')' after parameters"@, "Expected '->' after method parameters"@,
                                "Expected '{' before method body"@, "Expected '}' after method body"@,
                            ) {
                                Err(e) => Err(e),
                                Ok(((ret, body), q)) => Ok((SMethod { name, self_param: sp, parameters: params, return_type: ret, body }, q)),
                            },
                        },
                    },
                },
            },
        }
        },
{
    reveal(self_param_s);
    reveal(param_list_s);
    reveal(signature_tail_s);
    reveal(method_s);
}
/// `struct_fields`, sealed: its meaning is given by `unfold_struct_fields`.
#[verifier::opaque]
pub open spec fn struct_fields_s(toks: Seq<TokenView>, i: nat, acc: Seq<(Seq<char>, SType)>) -> PResult<Seq<(Seq<char>, SType)>> {
    struct_fields(toks, i, acc)
}
/// One step of `struct_fields`.
pub proof fn unfold_struct_fields(toks: Seq<TokenView>, i: nat, acc: Seq<(Seq<char>, SType)>)
    ensures
        struct_fields_s(toks, i, acc) == {
        if !tok_is(toks, i, TokenKind::RightBrace) && !at_end(toks, i) {
            match consume_identifier(toks, i, "Expected field name"@) {
                Err(e) => Err(e),
                Ok((name, j)) => match consume(toks, j, TokenKind::Colon, "Expected ':' after field name"@) {
                    Err(e) => Err(e),
                    Ok(k) => match parse_type_s(toks, k) {
                        Err(e) => Err(e),
                        Ok((t, m)) => if i < m <= toks.len() {
                            if tok_is(toks, m, TokenKind::Comma) {
                                struct_fields_s(toks, m + 1, acc.push((name, t)))
                            } else {
                                Ok((acc.push((name, t)), m))
                            }
                        } else {
                            stuck()
                        },
                    },
                },
            }
        } else {
            Ok((acc, i))
        }
        },
{
    reveal(parse_type_s);
    reveal(struct_fields_s);
}
/// `struct_def`, sealed: its meaning is given by `unfold_struct_def`.
#[verifier::opaque]
pub open spec fn struct_def_s(toks: Seq<TokenView>, i: nat) -> PResult<SStruct> {
    struct_def(toks, i)
}
/// One step of `struct_def`.
pub proof fn unfold_struct_def(toks: Seq<TokenView>, i: nat)
    ensures
        struct_def_s(toks, i) == {
        match consume(toks, i, TokenKind::Struct, "Expected 'struct'"@) {
            Err(e) => Err(e),
            Ok(j) => match consume_identifier(toks, j, "Expected struct name"@) {
                Err(e) => Err(e),
                Ok((name, k)) => match consume(toks, k, TokenKind::LeftBrace, "Expected '{' after struct name"@) {
                    Err(e) => Err(e),
                    Ok(m) => match struct_fields_s(toks, m, seq![]) {
                        Err(e) => Err(e),
                        Ok((fields, n)) => match consume(toks, n, TokenKind::RightBrace, "Expected '}' after struct fields"@) {
                            Err(e) => Err(e),
                            Ok(q) => Ok((SStruct { name, fields }, q)),
                        },
                    },
                },
            },
        }
        },
{
    reveal(struct_fields_s);
    reveal(struct_def_s);
}
/// `impl_methods`, sealed: its meaning is given by `unfold_impl_methods`.
#[verifier::opaque]
pub open spec fn impl_methods_s(toks: Seq<TokenView>, i: nat, acc: Seq<SMethod>) -> PResult<Seq<SMethod>> {
    impl_methods(toks, i, acc)
}
/// One step of `impl_methods`.
pub proof fn unfold_impl_methods(toks: Seq<TokenView>, i: nat, acc: Seq<SMethod>)
    ensures
        impl_methods_s(toks, i, acc) == {
        if !tok_is(toks, i, TokenKind::RightBrace) && !at_end(toks, i) {
            match method_s(toks, i) {
                Err(e) => Err(e),
                Ok((m, j)) => if i < j <= toks.len() { impl_methods_s(toks, j, acc.push(m)) } else { stuck() },
            }
        } else {
            Ok((acc, i))
        }
        },
{
    reveal(method_s);
    reveal(impl_methods_s);
}
/// `impl_block`, sealed: its meaning is given by `unfold_impl_block`.
#[verifier::opaque]
pub open spec fn impl_block_s(toks: Seq<TokenView>, i: nat) -> PResult<SImpl> {
    impl_block(toks, i)
}
/// One step of `impl_block`.
pub proof fn unfold_impl_block(toks: Seq<TokenView>, i: nat)
    ensures
        impl_block_s(toks, i) == {
        match consume(toks, i, TokenKind::Impl, "Expected 'impl'"@) {
            Err(e) => Err(e),
            Ok(j) => match consume_identifier(toks, j, "Expected struct name after 'impl'"@) {
                Err(e) => Err(e),
                Ok((name, k)) => match consume(toks, k, TokenKind::LeftBrace, "Expected '{' after impl struct name"@) {
                    Err(e) => Err(e),
                    Ok(m) => match impl_methods_s(toks, m, seq![]) {
                        Err(e) => Err(e),
                        Ok((methods, n)) => match consume(toks, n, TokenKind::RightBrace, "Expected '}' after impl methods"@) {
                            Err(e) => Err(e),
                            Ok(q) => Ok((SImpl { struct_name: name, methods }, q)),
                        },
                    },
                },
            },
        }
        },
{
    reveal(impl_methods_s);
    reveal(impl_block_s);
}
/// `program_items`, sealed: its meaning is given by `unfold_program_items`.
#[verifier::opaque]
pub open spec fn program_items_s(toks: Seq<TokenView>, i: nat, acc: SProgram) -> Result<SProgram, PErr> {
    program_items(toks, i, acc)
}
/// One step of `program_items`.
pub proof fn unfold_program_items(toks: Seq<TokenView>, i: nat, acc: SProgram)
    ensures
        program_items_s(toks, i, acc) == {
        if at_end(toks, i) {
            Ok(acc)
        } else if tok_is(toks, i, TokenKind::Struct) {
            match struct_def_s(toks, i) {
                Err(e) => Err(e),
                Ok((s, j)) => if i < j <= toks.len() {
                    program_items_s(toks, j, SProgram { structs: acc.structs.push(s), impls: acc.impls, functions: acc.functions })
                } else {
                    Err(err_plain(seq![]))
                },
            }
        } else if tok_is(toks, i, TokenKind::Impl) {
            match impl_block_s(toks, i) {
                Err(e) => Err(e),
                Ok((m, j)) => if i < j <= toks.len() {
                    program_items_s(toks, j, SProgram { structs: acc.structs, impls: acc.impls.push(m), functions: acc.functions })
                } else {
                    Err(err_plain(seq![]))
                },
            }
        } else if tok_is(toks, i, TokenKind::Def) {
            match function_s(toks, i) {
                Err(e) => Err(e),
                Ok((f, j)) => if i < j <= toks.len() {
                    program_items_s(toks, j, SProgram { structs: acc.structs, impls: acc.impls, functions: acc.functions.push(f) })
                } else {
                    Err(err_plain(seq![]))
                },
            }
        } else {
            Err(err_plain("Expected struct, impl, or function definition"@))
        }
        },
{
    reveal(struct_def_s);
    reveal(program_items_s);
    reveal(impl_block_s);
    reveal(function_s);
}
/// `program`, sealed: its meaning is given by `unfold_program`.
#[verifier::opaque]
pub open spec fn program_s(toks: Seq<TokenView>) -> Result<SProgram, PErr> {
    program(toks)
}
/// One step of `program`.
pub proof fn unfold_program(toks: Seq<TokenView>)
    ensures
        program_s(toks) == {
        program_items_s(toks, 0, SProgram { structs: seq![], impls: seq![], functions: seq![] })
        },
{
    reveal(program_items_s);
    reveal(program_s);
}

} // verus!
