//! Properties of the grammar that relate its rules to one another.
use vstd::prelude::*;

use crate::helper::text::{all_digits, decimal_value, digit_char, digit_value, is_digit, nat_decimal};
use crate::lexer::token::{TokenKind, TokenView};
use crate::lexer::scanner::{
    ascii_letter, digits_end, eof_token, ident_end, lex, number_token, opt_seq, scan_from, scan_step, word_kind,
    word_token, ScanPos,
};
use crate::lexer::token::spelling;
use crate::semantic::rules::op_text;
use super::ast::{type_text, BinaryOperator, SExpr, SStmt, SType, UnaryOperator};
use super::grammar::{
    add_op, add_rest, additive, and_rest, cmp_op, eq_op, mul_op, cmp_rest, comparison, consume, consume_identifier, eq_rest, equality, expr_list,
    expression, finish_expression, logical_and, logical_or, mul_rest, multiplicative, or_rest, postfix, postfix_rest,
    parse_type, primary, return_statement, simple_statement, statement, tok_is, PErr, PResult,
};

verus! {

/// Whether a parse from `i` that succeeds ends at or after `i`, within the tokens.
pub open spec fn ends_within<T>(toks: Seq<TokenView>, i: nat, r: PResult<T>) -> bool {
    r matches Ok((_, k)) ==> i <= k <= toks.len()
}

proof fn lemma_postfix_rest_bounds(toks: Seq<TokenView>, i: nat, e: SExpr)
    requires
        i <= toks.len(),
    ensures
        ends_within(toks, i, postfix_rest(toks, i, e)),
    decreases toks.len() - i,
{
    if tok_is(toks, i, TokenKind::Dot) {
        if let Ok((name, j)) = consume_identifier(toks, i + 1, "Expected field or method name after '.'"@) {
            if i < j <= toks.len() {
                if tok_is(toks, j, TokenKind::LeftParen) {
                    if let Ok((args, m)) = expr_list(toks, j + 1, TokenKind::RightParen) {
                        if let Ok(n) = consume(toks, m, TokenKind::RightParen, "Expected ')' after method arguments"@) {
                            if i < n <= toks.len() {
                                lemma_postfix_rest_bounds(
                                    toks,
                                    n,
                                    SExpr::MethodCall(Box::new(e), name, args, super::grammar::span_at(toks, n)),
                                );
                            }
                        }
                    }
                } else {
                    lemma_postfix_rest_bounds(toks, j, SExpr::FieldAccess(Box::new(e), name, super::grammar::span_at(toks, j)));
                }
            }
        }
    } else if tok_is(toks, i, TokenKind::LeftBracket) {
        if let Ok((ix, m)) = expression(toks, i + 1) {
            if let Ok(n) = consume(toks, m, TokenKind::RightBracket, "Expected ']' after array index"@) {
                if i < n <= toks.len() {
                    lemma_postfix_rest_bounds(toks, n, SExpr::Index(Box::new(e), Box::new(ix), super::grammar::span_at(toks, n)));
                }
            }
        }
    }
}

proof fn lemma_postfix_bounds(toks: Seq<TokenView>, i: nat)
    requires
        i <= toks.len(),
    ensures
        ends_within(toks, i, postfix(toks, i)),
{
    if let Ok((e, j)) = primary(toks, i) {
        if i <= j <= toks.len() {
            lemma_postfix_rest_bounds(toks, j, e);
        }
    }
}

proof fn lemma_mul_rest_bounds(toks: Seq<TokenView>, i: nat, acc: SExpr)
    requires
        i <= toks.len(),
    ensures
        ends_within(toks, i, mul_rest(toks, i, acc)),
    decreases toks.len() - i,
{
    if let Some(op) = super::grammar::mul_op(toks, i) {
        if let Ok((r, j)) = postfix(toks, i + 1) {
            if i < j <= toks.len() {
                lemma_mul_rest_bounds(toks, j, super::grammar::bin(acc, op, r));
            }
        }
    }
}

proof fn lemma_add_rest_bounds(toks: Seq<TokenView>, i: nat, acc: SExpr)
    requires
        i <= toks.len(),
    ensures
        ends_within(toks, i, add_rest(toks, i, acc)),
    decreases toks.len() - i,
{
    if let Some(op) = super::grammar::add_op(toks, i) {
        if let Ok((r, j)) = multiplicative(toks, i + 1) {
            if i < j <= toks.len() {
                lemma_add_rest_bounds(toks, j, super::grammar::bin(acc, op, r));
            }
        }
    }
}

proof fn lemma_cmp_rest_bounds(toks: Seq<TokenView>, i: nat, acc: SExpr)
    requires
        i <= toks.len(),
    ensures
        ends_within(toks, i, cmp_rest(toks, i, acc)),
    decreases toks.len() - i,
{
    if let Some(op) = super::grammar::cmp_op(toks, i) {
        if let Ok((r, j)) = additive(toks, i + 1) {
            if i < j <= toks.len() {
                lemma_cmp_rest_bounds(toks, j, super::grammar::bin(acc, op, r));
            }
        }
    }
}

proof fn lemma_eq_rest_bounds(toks: Seq<TokenView>, i: nat, acc: SExpr)
    requires
        i <= toks.len(),
    ensures
        ends_within(toks, i, eq_rest(toks, i, acc)),
    decreases toks.len() - i,
{
    if let Some(op) = super::grammar::eq_op(toks, i) {
        if let Ok((r, j)) = comparison(toks, i + 1) {
            if i < j <= toks.len() {
                lemma_eq_rest_bounds(toks, j, super::grammar::bin(acc, op, r));
            }
        }
    }
}

proof fn lemma_and_rest_bounds(toks: Seq<TokenView>, i: nat, acc: SExpr)
    requires
        i <= toks.len(),
    ensures
        ends_within(toks, i, and_rest(toks, i, acc)),
    decreases toks.len() - i,
{
    if tok_is(toks, i, TokenKind::AmpAmp) {
        if let Ok((r, j)) = equality(toks, i + 1) {
            if i < j <= toks.len() {
                lemma_and_rest_bounds(toks, j, super::grammar::bin(acc, super::ast::BinaryOperator::And, r));
            }
        }
    }
}

proof fn lemma_or_rest_bounds(toks: Seq<TokenView>, i: nat, acc: SExpr)
    requires
        i <= toks.len(),
    ensures
        ends_within(toks, i, or_rest(toks, i, acc)),
    decreases toks.len() - i,
{
    if tok_is(toks, i, TokenKind::PipePipe) {
        if let Ok((r, j)) = logical_and(toks, i + 1) {
            if i < j <= toks.len() {
                lemma_or_rest_bounds(toks, j, super::grammar::bin(acc, super::ast::BinaryOperator::Or, r));
            }
        }
    }
}

/// An expression is its leading postfix expression followed by the operators of every level of
/// precedence: parsing the postfix expression first and finishing it gives the same expression,
/// or the same error, as parsing the whole expression.
pub proof fn lemma_finish_is_expression(toks: Seq<TokenView>, i: nat)
    requires
        i <= toks.len(),
    ensures
        expression(toks, i) == match postfix(toks, i) {
            Err(x) => Err(x),
            Ok((e, j)) => finish_expression(toks, j, e),
        },
{
    lemma_postfix_bounds(toks, i);
    assert(expression(toks, i) == logical_or(toks, i));
    if let Ok((e, j)) = postfix(toks, i) {
        lemma_mul_rest_bounds(toks, j, e);
        assert(multiplicative(toks, i) == mul_rest(toks, j, e));
        if let Ok((e1, j1)) = mul_rest(toks, j, e) {
            lemma_add_rest_bounds(toks, j1, e1);
            assert(additive(toks, i) == add_rest(toks, j1, e1));
            if let Ok((e2, j2)) = add_rest(toks, j1, e1) {
                lemma_cmp_rest_bounds(toks, j2, e2);
                assert(comparison(toks, i) == cmp_rest(toks, j2, e2));
                if let Ok((e3, j3)) = cmp_rest(toks, j2, e2) {
                    lemma_eq_rest_bounds(toks, j3, e3);
                    assert(equality(toks, i) == eq_rest(toks, j3, e3));
                    if let Ok((e4, j4)) = eq_rest(toks, j3, e3) {
                        lemma_and_rest_bounds(toks, j4, e4);
                        assert(logical_and(toks, i) == and_rest(toks, j4, e4));
                        if let Ok((e5, j5)) = and_rest(toks, j4, e4) {
                            assert(logical_or(toks, i) == or_rest(toks, j5, e5));
                        }
                    }
                }
            }
        }
    }
}

/// An expression used as a statement is parsed exactly as the same expression after `return`:
/// at a token that starts no other statement, and when the leading postfix expression is not
/// the target of an assignment, the statement is the expression parsed at that place followed
/// by a ';' (and a `return` takes its value the same way).
pub proof fn lemma_expression_statement(toks: Seq<TokenView>, i: nat)
    requires
        i <= toks.len(),
        !tok_is(toks, i, TokenKind::Return),
        !tok_is(toks, i, TokenKind::Val),
        !tok_is(toks, i, TokenKind::Var),
        !tok_is(toks, i, TokenKind::If),
        !tok_is(toks, i, TokenKind::While),
        !tok_is(toks, i, TokenKind::Loop),
        !tok_is(toks, i, TokenKind::For),
        !tok_is(toks, i, TokenKind::Break),
        !tok_is(toks, i, TokenKind::Continue),
        postfix(toks, i) matches Ok((_, j)) ==> !tok_is(toks, j, TokenKind::Equal),
    ensures
        statement(toks, i) == match expression(toks, i) {
            Err(x) => Err(x),
            Ok((e, k)) => match consume(toks, k, TokenKind::Semicolon, "Expected ';' after expression"@) {
                Err(x) => Err(x),
                Ok(m) => Ok((SStmt::Expression(e), m)),
            },
        },
        !tok_is(toks, i, TokenKind::Semicolon) ==> return_statement(toks, i) == match expression(toks, i) {
            Err(x) => Err(x),
            Ok((e, k)) => match consume(toks, k, TokenKind::Semicolon, "Expected ';' after return"@) {
                Err(x) => Err(x),
                Ok(m) => Ok((SStmt::Return(Some(e)), m)),
            },
        },
{
    lemma_finish_is_expression(toks, i);
    assert(statement(toks, i) == simple_statement(toks, i));
}

/// The token kinds that spell a type, as the type's text is written: `[N]` or `[]` before an
/// array's element type, and one token for any other type.
pub open spec fn type_kinds(t: SType) -> Seq<TokenKind>
    decreases t,
{
    match t {
        SType::I8 => seq![TokenKind::I8],
        SType::I16 => seq![TokenKind::I16],
        SType::I32 => seq![TokenKind::I32],
        SType::I64 => seq![TokenKind::I64],
        SType::U8 => seq![TokenKind::U8],
        SType::U16 => seq![TokenKind::U16],
        SType::U32 => seq![TokenKind::U32],
        SType::U64 => seq![TokenKind::U64],
        SType::F32 => seq![TokenKind::F32],
        SType::F64 => seq![TokenKind::F64],
        SType::Bool => seq![TokenKind::Bool],
        SType::Void => seq![TokenKind::Void],
        SType::String => seq![TokenKind::String],
        SType::Struct(name) => seq![TokenKind::Identifier(name)],
        SType::Array(elem, size) => match size {
            Some(n) => seq![TokenKind::LeftBracket, TokenKind::IntLiteral(nat_decimal(n)), TokenKind::RightBracket]
                + type_kinds(*elem),
            None => seq![TokenKind::LeftBracket, TokenKind::RightBracket] + type_kinds(*elem),
        },
    }
}

/// Whether every array size in a type fits in a machine word, as sizes of the tree's types do.
pub open spec fn sizes_fit(t: SType) -> bool
    decreases t,
{
    match t {
        SType::Array(elem, size) => (match size {
            Some(n) => n <= usize::MAX,
            None => true,
        }) && sizes_fit(*elem),
        _ => true,
    }
}

/// The decimal text of a number is digits whose value is the number.
pub proof fn lemma_nat_decimal_value(n: nat)
    ensures
        nat_decimal(n).len() > 0,
        all_digits(nat_decimal(n)),
        decimal_value(nat_decimal(n)) == n,
    decreases n,
{
    if n < 10 {
        let s = nat_decimal(n);
        assert(s.drop_last() =~= Seq::<char>::empty());
        assert(digit_value(digit_char(n)) == n);
        assert(is_digit(digit_char(n)));
        assert(s[0] == digit_char(n));
        assert(decimal_value(s) == decimal_value(s.drop_last()) * 10 + digit_value(s.last()));
    } else {
        lemma_nat_decimal_value(n / 10);
        let s = nat_decimal(n);
        assert(s.drop_last() =~= nat_decimal(n / 10));
        assert(digit_value(digit_char(n % 10)) == n % 10);
        assert(is_digit(digit_char(n % 10)));
        assert(decimal_value(s) == decimal_value(s.drop_last()) * 10 + digit_value(s.last()));
        assert((n / 10) * 10 + n % 10 == n) by (nonlinear_arith);
        assert forall|k: int| 0 <= k < s.len() implies is_digit(#[trigger] s[k]) by {
            if k < s.len() - 1 {
                assert(s[k] == nat_decimal(n / 10)[k]);
            }
        }
    }
}

/// Parsing the tokens that spell a type gives the type back and stops just after them:
/// `parse_type` inverts the writing of a type.
pub proof fn lemma_parse_type_inverts(toks: Seq<TokenView>, i: nat, t: SType)
    requires
        sizes_fit(t),
        i + type_kinds(t).len() <= toks.len(),
        forall|k: int| 0 <= k < type_kinds(t).len() ==> #[trigger] toks[i + k].kind == type_kinds(t)[k],
    ensures
        parse_type(toks, i) == Ok::<(SType, nat), PErr>((t, i + type_kinds(t).len())),
    decreases t,
{
    let ks = type_kinds(t);
    let k0: int = 0;
    assert(toks[i + k0].kind == ks[k0]);
    match t {
        SType::Array(elem, size) => {
            let rest = type_kinds(*elem);
            let head: nat = if size is Some { 3 } else { 2 };
            assert(ks == (if size is Some {
                seq![TokenKind::LeftBracket, TokenKind::IntLiteral(nat_decimal(size->0)), TokenKind::RightBracket]
            } else {
                seq![TokenKind::LeftBracket, TokenKind::RightBracket]
            }) + rest);
            let k1: int = 1;
            assert(toks[i + k1].kind == ks[k1]);
            if let Some(n) = size {
                let k2: int = 2;
                assert(toks[i + k2].kind == ks[k2]);
                lemma_nat_decimal_value(n);
                let d = nat_decimal(n);
                assert(!(d[0] == '+'));
            }
            assert forall|k: int| 0 <= k < rest.len() implies #[trigger] toks[(i + head) + k].kind == rest[k] by {
                assert(toks[i + (head + k)].kind == ks[head + k]);
            }
            lemma_parse_type_inverts(toks, i + head, *elem);
        },
        _ => {},
    }
}

/// Whether `c` is an ASCII letter, digit or '_'.
pub open spec fn ascii_word_char(c: char) -> bool {
    (c as u32) < 128 && (ascii_letter(c) || is_digit(c) || c == '_')
}

/// Whether a name is written as a plain identifier: an ASCII letter or '_' first, then ASCII
/// letters, digits or '_', and it is no keyword or type name.
pub open spec fn plain_identifier(name: Seq<char>) -> bool {
    &&& name.len() > 0
    &&& (ascii_letter(name[0]) || name[0] == '_')
    &&& forall|k: int| 0 <= k < name.len() ==> #[trigger] ascii_word_char(name[k])
    &&& word_kind(name) == TokenKind::Identifier(name)
}

/// Whether a type's text reads back as the type: it holds no `string`, its array sizes fit in
/// a machine word, and its struct names are plain identifiers.
pub open spec fn readable_type(t: SType) -> bool
    decreases t,
{
    match t {
        SType::String => false,
        SType::Struct(name) => plain_identifier(name),
        SType::Array(elem, size) => (match size {
            Some(n) => n <= usize::MAX,
            None => true,
        }) && readable_type(*elem),
        _ => true,
    }
}

/// The kinds of a sequence of tokens.
pub open spec fn token_kinds(vs: Seq<TokenView>) -> Seq<TokenKind> {
    vs.map_values(|v: TokenView| v.kind)
}

proof fn lemma_differ_at(a: Seq<char>, b: Seq<char>, k: int)
    requires
        0 <= k < a.len(),
        k < b.len(),
        a[k] != b[k],
    ensures
        a != b,
{
}

/// The name of a built-in type is a word that lexes as that type's keyword.
proof fn lemma_builtin_word(t: SType)
    requires
        !(t is String || t is Struct || t is Array),
    ensures
        type_text(t).len() > 0,
        ascii_letter(type_text(t)[0]),
        forall|k: int| 0 <= k < type_text(t).len() ==> #[trigger] ascii_word_char(type_text(t)[k]),
        type_kinds(t) == seq![word_kind(type_text(t))],
{
    match t {
            SType::I8 => {
                reveal_strlit("i8");
                assert(type_kinds(t) == seq![TokenKind::I8]);
                assert("i8"@.len() == 2);
                assert("def"@.len() == 3) by { reveal_strlit("def"); }
                reveal_strlit("def");
                reveal_strlit("return");
                reveal_strlit("val");
                reveal_strlit("var");
                reveal_strlit("mut");
                reveal_strlit("if");
                lemma_differ_at("i8"@, "if"@, 1);
                reveal_strlit("else");
                reveal_strlit("while");
                reveal_strlit("loop");
                reveal_strlit("for");
                reveal_strlit("in");
                lemma_differ_at("i8"@, "in"@, 1);
                reveal_strlit("break");
                reveal_strlit("continue");
                reveal_strlit("struct");
                reveal_strlit("impl");
                reveal_strlit("self");
                assert(type_text(t) == "i8"@);
                assert(word_kind("i8"@) == TokenKind::I8);
            },
            SType::I16 => {
                reveal_strlit("i16");
                reveal_strlit("def");
                lemma_differ_at("i16"@, "def"@, 0);
                reveal_strlit("return");
                reveal_strlit("val");
                lemma_differ_at("i16"@, "val"@, 0);
                reveal_strlit("var");
                lemma_differ_at("i16"@, "var"@, 0);
                reveal_strlit("mut");
                lemma_differ_at("i16"@, "mut"@, 0);
                reveal_strlit("if");
                reveal_strlit("else");
                reveal_strlit("while");
                reveal_strlit("loop");
                reveal_strlit("for");
                lemma_differ_at("i16"@, "for"@, 0);
                reveal_strlit("in");
                reveal_strlit("break");
                reveal_strlit("continue");
                reveal_strlit("struct");
                reveal_strlit("impl");
                reveal_strlit("self");
                reveal_strlit("i8");
                assert(type_text(t) == "i16"@);
            },
            SType::I32 => {
                reveal_strlit("i32");
                reveal_strlit("def");
                lemma_differ_at("i32"@, "def"@, 0);
                reveal_strlit("return");
                reveal_strlit("val");
                lemma_differ_at("i32"@, "val"@, 0);
                reveal_strlit("var");
                lemma_differ_at("i32"@, "var"@, 0);
                reveal_strlit("mut");
                lemma_differ_at("i32"@, "mut"@, 0);
                reveal_strlit("if");
                reveal_strlit("else");
                reveal_strlit("while");
                reveal_strlit("loop");
                reveal_strlit("for");
                lemma_differ_at("i32"@, "for"@, 0);
                reveal_strlit("in");
                reveal_strlit("break");
                reveal_strlit("continue");
                reveal_strlit("struct");
                reveal_strlit("impl");
                reveal_strlit("self");
                reveal_strlit("i8");
                reveal_strlit("i16");
                lemma_differ_at("i32"@, "i16"@, 1);
                assert(type_text(t) == "i32"@);
            },
            SType::I64 => {
                reveal_strlit("i64");
                reveal_strlit("def");
                lemma_differ_at("i64"@, "def"@, 0);
                reveal_strlit("return");
                reveal_strlit("val");
                lemma_differ_at("i64"@, "val"@, 0);
                reveal_strlit("var");
                lemma_differ_at("i64"@, "var"@, 0);
                reveal_strlit("mut");
                lemma_differ_at("i64"@, "mut"@, 0);
                reveal_strlit("if");
                reveal_strlit("else");
                reveal_strlit("while");
                reveal_strlit("loop");
                reveal_strlit("for");
                lemma_differ_at("i64"@, "for"@, 0);
                reveal_strlit("in");
                reveal_strlit("break");
                reveal_strlit("continue");
                reveal_strlit("struct");
                reveal_strlit("impl");
                reveal_strlit("self");
                reveal_strlit("i8");
                reveal_strlit("i16");
                lemma_differ_at("i64"@, "i16"@, 1);
                reveal_strlit("i32");
                lemma_differ_at("i64"@, "i32"@, 1);
                assert(type_text(t) == "i64"@);
            },
            SType::U8 => {
                reveal_strlit("u8");
                reveal_strlit("def");
                reveal_strlit("return");
                reveal_strlit("val");
                reveal_strlit("var");
                reveal_strlit("mut");
                reveal_strlit("if");
                lemma_differ_at("u8"@, "if"@, 0);
                reveal_strlit("else");
                reveal_strlit("while");
                reveal_strlit("loop");
                reveal_strlit("for");
                reveal_strlit("in");
                lemma_differ_at("u8"@, "in"@, 0);
                reveal_strlit("break");
                reveal_strlit("continue");
                reveal_strlit("struct");
                reveal_strlit("impl");
                reveal_strlit("self");
                reveal_strlit("i8");
                lemma_differ_at("u8"@, "i8"@, 0);
                reveal_strlit("i16");
                reveal_strlit("i32");
                reveal_strlit("i64");
                assert(type_text(t) == "u8"@);
            },
            SType::U16 => {
                reveal_strlit("u16");
                reveal_strlit("def");
                lemma_differ_at("u16"@, "def"@, 0);
                reveal_strlit("return");
                reveal_strlit("val");
                lemma_differ_at("u16"@, "val"@, 0);
                reveal_strlit("var");
                lemma_differ_at("u16"@, "var"@, 0);
                reveal_strlit("mut");
                lemma_differ_at("u16"@, "mut"@, 0);
                reveal_strlit("if");
                reveal_strlit("else");
                reveal_strlit("while");
                reveal_strlit("loop");
                reveal_strlit("for");
                lemma_differ_at("u16"@, "for"@, 0);
                reveal_strlit("in");
                reveal_strlit("break");
                reveal_strlit("continue");
                reveal_strlit("struct");
                reveal_strlit("impl");
                reveal_strlit("self");
                reveal_strlit("i8");
                reveal_strlit("i16");
                lemma_differ_at("u16"@, "i16"@, 0);
                reveal_strlit("i32");
                lemma_differ_at("u16"@, "i32"@, 0);
                reveal_strlit("i64");
                lemma_differ_at("u16"@, "i64"@, 0);
                reveal_strlit("u8");
                assert(type_text(t) == "u16"@);
            },
            SType::U32 => {
                reveal_strlit("u32");
                reveal_strlit("def");
                lemma_differ_at("u32"@, "def"@, 0);
                reveal_strlit("return");
                reveal_strlit("val");
                lemma_differ_at("u32"@, "val"@, 0);
                reveal_strlit("var");
                lemma_differ_at("u32"@, "var"@, 0);
                reveal_strlit("mut");
                lemma_differ_at("u32"@, "mut"@, 0);
                reveal_strlit("if");
                reveal_strlit("else");
                reveal_strlit("while");
                reveal_strlit("loop");
                reveal_strlit("for");
                lemma_differ_at("u32"@, "for"@, 0);
                reveal_strlit("in");
                reveal_strlit("break");
                reveal_strlit("continue");
                reveal_strlit("struct");
                reveal_strlit("impl");
                reveal_strlit("self");
                reveal_strlit("i8");
                reveal_strlit("i16");
                lemma_differ_at("u32"@, "i16"@, 0);
                reveal_strlit("i32");
                lemma_differ_at("u32"@, "i32"@, 0);
                reveal_strlit("i64");
                lemma_differ_at("u32"@, "i64"@, 0);
                reveal_strlit("u8");
                reveal_strlit("u16");
                lemma_differ_at("u32"@, "u16"@, 1);
                assert(type_text(t) == "u32"@);
            },
            SType::U64 => {
                reveal_strlit("u64");
                reveal_strlit("def");
                lemma_differ_at("u64"@, "def"@, 0);
                reveal_strlit("return");
                reveal_strlit("val");
                lemma_differ_at("u64"@, "val"@, 0);
                reveal_strlit("var");
                lemma_differ_at("u64"@, "var"@, 0);
                reveal_strlit("mut");
                lemma_differ_at("u64"@, "mut"@, 0);
                reveal_strlit("if");
                reveal_strlit("else");
                reveal_strlit("while");
                reveal_strlit("loop");
                reveal_strlit("for");
                lemma_differ_at("u64"@, "for"@, 0);
                reveal_strlit("in");
                reveal_strlit("break");
                reveal_strlit("continue");
                reveal_strlit("struct");
                reveal_strlit("impl");
                reveal_strlit("self");
                reveal_strlit("i8");
                reveal_strlit("i16");
                lemma_differ_at("u64"@, "i16"@, 0);
                reveal_strlit("i32");
                lemma_differ_at("u64"@, "i32"@, 0);
                reveal_strlit("i64");
                lemma_differ_at("u64"@, "i64"@, 0);
                reveal_strlit("u8");
                reveal_strlit("u16");
                lemma_differ_at("u64"@, "u16"@, 1);
                reveal_strlit("u32");
                lemma_differ_at("u64"@, "u32"@, 1);
                assert(type_text(t) == "u64"@);
            },
            SType::F32 => {
                reveal_strlit("f32");
                reveal_strlit("def");
                lemma_differ_at("f32"@, "def"@, 0);
                reveal_strlit("return");
                reveal_strlit("val");
                lemma_differ_at("f32"@, "val"@, 0);
                reveal_strlit("var");
                lemma_differ_at("f32"@, "var"@, 0);
                reveal_strlit("mut");
                lemma_differ_at("f32"@, "mut"@, 0);
                reveal_strlit("if");
                reveal_strlit("else");
                reveal_strlit("while");
                reveal_strlit("loop");
                reveal_strlit("for");
                lemma_differ_at("f32"@, "for"@, 1);
                reveal_strlit("in");
                reveal_strlit("break");
                reveal_strlit("continue");
                reveal_strlit("struct");
                reveal_strlit("impl");
                reveal_strlit("self");
                reveal_strlit("i8");
                reveal_strlit("i16");
                lemma_differ_at("f32"@, "i16"@, 0);
                reveal_strlit("i32");
                lemma_differ_at("f32"@, "i32"@, 0);
                reveal_strlit("i64");
                lemma_differ_at("f32"@, "i64"@, 0);
                reveal_strlit("u8");
                reveal_strlit("u16");
                lemma_differ_at("f32"@, "u16"@, 0);
                reveal_strlit("u32");
                lemma_differ_at("f32"@, "u32"@, 0);
                reveal_strlit("u64");
                lemma_differ_at("f32"@, "u64"@, 0);
                assert(type_text(t) == "f32"@);
            },
            SType::F64 => {
                reveal_strlit("f64");
                reveal_strlit("def");
                lemma_differ_at("f64"@, "def"@, 0);
                reveal_strlit("return");
                reveal_strlit("val");
                lemma_differ_at("f64"@, "val"@, 0);
                reveal_strlit("var");
                lemma_differ_at("f64"@, "var"@, 0);
                reveal_strlit("mut");
                lemma_differ_at("f64"@, "mut"@, 0);
                reveal_strlit("if");
                reveal_strlit("else");
                reveal_strlit("while");
                reveal_strlit("loop");
                reveal_strlit("for");
                lemma_differ_at("f64"@, "for"@, 1);
                reveal_strlit("in");
                reveal_strlit("break");
                reveal_strlit("continue");
                reveal_strlit("struct");
                reveal_strlit("impl");
                reveal_strlit("self");
                reveal_strlit("i8");
                reveal_strlit("i16");
                lemma_differ_at("f64"@, "i16"@, 0);
                reveal_strlit("i32");
                lemma_differ_at("f64"@, "i32"@, 0);
                reveal_strlit("i64");
                lemma_differ_at("f64"@, "i64"@, 0);
                reveal_strlit("u8");
                reveal_strlit("u16");
                lemma_differ_at("f64"@, "u16"@, 0);
                reveal_strlit("u32");
                lemma_differ_at("f64"@, "u32"@, 0);
                reveal_strlit("u64");
                lemma_differ_at("f64"@, "u64"@, 0);
                reveal_strlit("f32");
                lemma_differ_at("f64"@, "f32"@, 1);
                assert(type_text(t) == "f64"@);
            },
            SType::Bool => {
                reveal_strlit("bool");
                reveal_strlit("def");
                reveal_strlit("return");
                reveal_strlit("val");
                reveal_strlit("var");
                reveal_strlit("mut");
                reveal_strlit("if");
                reveal_strlit("else");
                lemma_differ_at("bool"@, "else"@, 0);
                reveal_strlit("while");
                reveal_strlit("loop");
                lemma_differ_at("bool"@, "loop"@, 0);
                reveal_strlit("for");
                reveal_strlit("in");
                reveal_strlit("break");
                reveal_strlit("continue");
                reveal_strlit("struct");
                reveal_strlit("impl");
                lemma_differ_at("bool"@, "impl"@, 0);
                reveal_strlit("self");
                lemma_differ_at("bool"@, "self"@, 0);
                reveal_strlit("i8");
                reveal_strlit("i16");
                reveal_strlit("i32");
                reveal_strlit("i64");
                reveal_strlit("u8");
                reveal_strlit("u16");
                reveal_strlit("u32");
                reveal_strlit("u64");
                reveal_strlit("f32");
                reveal_strlit("f64");
                assert(type_text(t) == "bool"@);
            },
            SType::Void => {
                reveal_strlit("void");
                reveal_strlit("def");
                reveal_strlit("return");
                reveal_strlit("val");
                reveal_strlit("var");
                reveal_strlit("mut");
                reveal_strlit("if");
                reveal_strlit("else");
                lemma_differ_at("void"@, "else"@, 0);
                reveal_strlit("while");
                reveal_strlit("loop");
                lemma_differ_at("void"@, "loop"@, 0);
                reveal_strlit("for");
                reveal_strlit("in");
                reveal_strlit("break");
                reveal_strlit("continue");
                reveal_strlit("struct");
                reveal_strlit("impl");
                lemma_differ_at("void"@, "impl"@, 0);
                reveal_strlit("self");
                lemma_differ_at("void"@, "self"@, 0);
                reveal_strlit("i8");
                reveal_strlit("i16");
                reveal_strlit("i32");
                reveal_strlit("i64");
                reveal_strlit("u8");
                reveal_strlit("u16");
                reveal_strlit("u32");
                reveal_strlit("u64");
                reveal_strlit("f32");
                reveal_strlit("f64");
                reveal_strlit("bool");
                lemma_differ_at("void"@, "bool"@, 0);
                assert(type_text(t) == "void"@);
            },
        _ => {},
    }
}

proof fn lemma_ident_run(src: Seq<char>, i: nat)
    requires
        i <= src.len(),
        forall|k: int| i <= k < src.len() ==> #[trigger] ascii_word_char(src[k]),
    ensures
        ident_end(src, i) == src.len(),
    decreases src.len() - i,
{
    if i < src.len() {
        assert(ascii_word_char(src[i as int]));
        lemma_ident_run(src, i + 1);
    }
}

proof fn lemma_digits_run(src: Seq<char>, i: nat, e: nat)
    requires
        i <= e < src.len(),
        forall|k: int| i <= k < e ==> #[trigger] is_digit(src[k]),
        !is_digit(src[e as int]),
    ensures
        digits_end(src, i) == e,
    decreases e - i,
{
    if i < e {
        assert(is_digit(src[i as int]));
        lemma_digits_run(src, i + 1, e);
    }
}

/// Scanning a word that ends the source gives its token and then the end of input.
proof fn lemma_scan_word(src: Seq<char>, p: ScanPos, acc: Seq<TokenView>, w: Seq<char>)
    requires
        p.cur <= src.len(),
        src.skip(p.cur as int) == w,
        w.len() > 0,
        ascii_letter(w[0]) || w[0] == '_',
        forall|k: int| 0 <= k < w.len() ==> #[trigger] ascii_word_char(w[k]),
    ensures
        scan_from(src, p, acc) matches Ok(vs) && token_kinds(vs) == token_kinds(acc) + seq![word_kind(w), TokenKind::Eof],
{
    let c = src[p.cur as int];
    assert(c == w[0]);
    assert forall|k: int| p.cur + 1 <= k < src.len() implies #[trigger] ascii_word_char(src[k]) by {
        assert(src[k] == w[k - p.cur]);
    }
    lemma_ident_run(src, p.cur + 1);
    assert(src.subrange(p.cur as int, src.len() as int) =~= w);
    let (q, t) = word_token(src, p);
    assert(scan_step(src, p) == Ok::<(ScanPos, Option<TokenView>), Seq<char>>((q, t)));
    let acc1 = acc + opt_seq(t);
    assert(scan_from(src, q, acc1) == Ok::<Seq<TokenView>, Seq<char>>(acc1.push(eof_token(q))));
    assert(token_kinds(acc1.push(eof_token(q))) =~= token_kinds(acc) + seq![word_kind(w), TokenKind::Eof]);
}

/// Scanning the text of a readable type that ends the source gives the tokens that spell the
/// type, then the end of input.
proof fn lemma_scan_type(src: Seq<char>, p: ScanPos, acc: Seq<TokenView>, t: SType)
    requires
        readable_type(t),
        p.cur <= src.len(),
        src.skip(p.cur as int) == type_text(t),
    ensures
        scan_from(src, p, acc) matches Ok(vs) && token_kinds(vs) == token_kinds(acc) + type_kinds(t) + seq![TokenKind::Eof],
    decreases t,
{
    match t {
        SType::Struct(name) => {
            lemma_scan_word(src, p, acc, name);
        },
        SType::Array(elem, size) => {
            let lb = TokenView { kind: TokenKind::LeftBracket, lexeme: src.subrange(p.cur as int, p.cur as int + 1), line: p.line, column: p.col + 1 };
            let q1 = ScanPos { cur: p.cur + 1, line: p.line, col: p.col + 1 };
            reveal_strlit("[]");
            assert(type_text(t).len() >= 1);
            assert(type_text(t)[0] == '[');
            assert(src[p.cur as int] == '[') by {
                assert(src.skip(p.cur as int)[0] == src[p.cur as int]);
            }
            assert(scan_step(src, p) == Ok::<(ScanPos, Option<TokenView>), Seq<char>>((q1, Some(lb))));
            let acc1 = acc + opt_seq(Some(lb));
            assert(scan_from(src, p, acc) == scan_from(src, q1, acc1));
            match size {
                Some(n) => {
                    let d = nat_decimal(n);
                    lemma_nat_decimal_value(n);
                    let e = q1.cur + d.len();
                    assert(type_text(t) == seq!['['] + d + seq![']'] + type_text(*elem));
                    assert forall|k: int| q1.cur <= k < e implies #[trigger] is_digit(src[k]) by {
                        assert(src[k] == type_text(t)[k - p.cur]);
                        assert(type_text(t)[k - p.cur] == d[k - q1.cur]);
                    }
                    assert(src[e as int] == ']') by {
                        assert(src[e as int] == type_text(t)[e - p.cur]);
                    }
                    assert(is_digit(src[q1.cur as int]));
                    lemma_digits_run(src, q1.cur + 1, e);
                    assert forall|k: int| 0 <= k < d.len() implies src.subrange(q1.cur as int, e as int)[k] == d[k] by {
                        assert(src[q1.cur + k] == type_text(t)[q1.cur + k - p.cur]);
                        assert(type_text(t)[1 + k] == d[k]);
                    }
                    assert(src.subrange(q1.cur as int, e as int) =~= d);
                    let (q2, it) = number_token(src, q1);
                    assert(q2.cur == e);
                    assert(scan_step(src, q1) == Ok::<(ScanPos, Option<TokenView>), Seq<char>>((q2, it)));
                    let acc2 = acc1 + opt_seq(it);
                    assert(scan_from(src, q1, acc1) == scan_from(src, q2, acc2));
                    let q3 = ScanPos { cur: e + 1, line: q2.line, col: q2.col + 1 };
                    let rb = TokenView { kind: TokenKind::RightBracket, lexeme: src.subrange(e as int, e as int + 1), line: q2.line, column: q2.col + 1 };
                    assert(scan_step(src, q2) == Ok::<(ScanPos, Option<TokenView>), Seq<char>>((q3, Some(rb))));
                    let acc3 = acc2 + opt_seq(Some(rb));
                    assert(scan_from(src, q2, acc2) == scan_from(src, q3, acc3));
                    assert(src.skip(q3.cur as int) =~= type_text(*elem)) by {
                        assert forall|k: int| 0 <= k < src.skip(q3.cur as int).len() implies src.skip(q3.cur as int)[k] == type_text(*elem)[k] by {
                            assert(src.skip(q3.cur as int)[k] == type_text(t)[k + d.len() + 2]);
                        }
                    }
                    lemma_scan_type(src, q3, acc3, *elem);
                    assert(token_kinds(acc3) =~= token_kinds(acc) + seq![TokenKind::LeftBracket, TokenKind::IntLiteral(d), TokenKind::RightBracket]);
                    if let Ok(vs) = scan_from(src, q3, acc3) {
                        assert(token_kinds(vs) =~= token_kinds(acc) + type_kinds(t) + seq![TokenKind::Eof]);
                    }
                },
                None => {
                    assert(type_text(t) == "[]"@ + type_text(*elem));
                    reveal_strlit("[]");
                    assert(src[q1.cur as int] == ']') by {
                        assert(src[q1.cur as int] == type_text(t)[1]);
                    }
                    let q3 = ScanPos { cur: q1.cur + 1, line: q1.line, col: q1.col + 1 };
                    let rb = TokenView { kind: TokenKind::RightBracket, lexeme: src.subrange(q1.cur as int, q1.cur as int + 1), line: q1.line, column: q1.col + 1 };
                    assert(scan_step(src, q1) == Ok::<(ScanPos, Option<TokenView>), Seq<char>>((q3, Some(rb))));
                    let acc3 = acc1 + opt_seq(Some(rb));
                    assert(scan_from(src, q1, acc1) == scan_from(src, q3, acc3));
                    assert(src.skip(q3.cur as int) =~= type_text(*elem)) by {
                        assert forall|k: int| 0 <= k < src.skip(q3.cur as int).len() implies src.skip(q3.cur as int)[k] == type_text(*elem)[k] by {
                            assert(src.skip(q3.cur as int)[k] == type_text(t)[k + 2]);
                        }
                    }
                    lemma_scan_type(src, q3, acc3, *elem);
                    assert(token_kinds(acc3) =~= token_kinds(acc) + seq![TokenKind::LeftBracket, TokenKind::RightBracket]);
                    if let Ok(vs) = scan_from(src, q3, acc3) {
                        assert(token_kinds(vs) =~= token_kinds(acc) + type_kinds(t) + seq![TokenKind::Eof]);
                    }
                },
            }
        },
        _ => {
            lemma_builtin_word(t);
            lemma_scan_word(src, p, acc, type_text(t));
            assert(type_kinds(t) + seq![TokenKind::Eof] =~= seq![word_kind(type_text(t)), TokenKind::Eof]);
            assert(token_kinds(acc) + type_kinds(t) + seq![TokenKind::Eof] =~= token_kinds(acc) + seq![word_kind(type_text(t)), TokenKind::Eof]);
        },
    }
}

/// Writing a readable type (no `string`, plain struct names) and lexing the text gives the
/// tokens that spell it and then the end of input; parsing those tokens gives the type back,
/// with only the end of input left: the type parser inverts the writing of types.
pub proof fn lemma_type_text_round_trip(t: SType)
    requires
        readable_type(t),
    ensures
        lex(type_text(t)) matches Ok(vs) && {
            &&& vs.len() == type_kinds(t).len() + 1
            &&& vs[vs.len() - 1].kind is Eof
            &&& parse_type(vs, 0) == Ok::<(SType, nat), PErr>((t, type_kinds(t).len()))
        },
{
    let src = type_text(t);
    assert(src.skip(0) =~= src);
    lemma_scan_type(src, ScanPos { cur: 0, line: 1, col: 1 }, seq![], t);
    let vs = lex(src)->Ok_0;
    let ks = token_kinds(vs);
    assert(ks =~= type_kinds(t) + seq![TokenKind::Eof]);
    assert(vs.len() == ks.len());
    assert(vs[vs.len() - 1].kind == ks[ks.len() - 1]);
    lemma_readable_sizes(t);
    assert forall|k: int| 0 <= k < type_kinds(t).len() implies #[trigger] vs[0 + k].kind == type_kinds(t)[k] by {
        assert(vs[k].kind == ks[k]);
    }
    lemma_parse_type_inverts(vs, 0, t);
}

proof fn lemma_readable_sizes(t: SType)
    requires
        readable_type(t),
    ensures
        sizes_fit(t),
    decreases t,
{
    if let SType::Array(elem, _) = t {
        lemma_readable_sizes(*elem);
    }
}

/// The token a prefix operator is written with: `!` for not, `-` for negation.
pub open spec fn unary_token(op: UnaryOperator) -> TokenKind {
    match op {
        UnaryOperator::Not => TokenKind::Bang,
        UnaryOperator::Negate => TokenKind::Minus,
    }
}

/// The token a binary operator is written with.
pub open spec fn binary_token(op: BinaryOperator) -> TokenKind {
    match op {
        BinaryOperator::Add => TokenKind::Plus,
        BinaryOperator::Subtract => TokenKind::Minus,
        BinaryOperator::Multiply => TokenKind::Star,
        BinaryOperator::Divide => TokenKind::Slash,
        BinaryOperator::Modulo => TokenKind::Percent,
        BinaryOperator::Equal => TokenKind::EqualEqual,
        BinaryOperator::NotEqual => TokenKind::BangEqual,
        BinaryOperator::Less => TokenKind::Less,
        BinaryOperator::Greater => TokenKind::Greater,
        BinaryOperator::LessEqual => TokenKind::LessEqual,
        BinaryOperator::GreaterEqual => TokenKind::GreaterEqual,
        BinaryOperator::And => TokenKind::AmpAmp,
        BinaryOperator::Or => TokenKind::PipePipe,
    }
}

/// The text of every binary operator, as messages and C code write it, is the text of the
/// token it is written with.
pub proof fn lemma_operator_text_is_spelling(op: BinaryOperator)
    ensures
        spelling(binary_token(op)) == Some(op_text(op)),
{
}

/// The kind of the token at `i`.
pub open spec fn kind_at(toks: Seq<TokenView>, i: nat) -> TokenKind {
    toks[i as int].kind
}

/// A binary operator is read from the token that spells it: at every level of precedence, the
/// operator found at a token has the token's text (`>` gives the operator written ">", `%` the
/// one written "%").
pub proof fn lemma_binary_operator_spelled(toks: Seq<TokenView>, i: nat)
    ensures
        mul_op(toks, i) matches Some(op) ==> kind_at(toks, i) == binary_token(op) && spelling(kind_at(toks, i)) == Some(
            op_text(op),
        ),
        add_op(toks, i) matches Some(op) ==> kind_at(toks, i) == binary_token(op) && spelling(kind_at(toks, i)) == Some(
            op_text(op),
        ),
        cmp_op(toks, i) matches Some(op) ==> kind_at(toks, i) == binary_token(op) && spelling(kind_at(toks, i)) == Some(
            op_text(op),
        ),
        eq_op(toks, i) matches Some(op) ==> kind_at(toks, i) == binary_token(op) && spelling(kind_at(toks, i)) == Some(
            op_text(op),
        ),
{
}

/// A prefix operator is read from the token that spells it: at a `!` or `-` token, a primary
/// expression is that operator, written with that token, applied to the primary that follows.
pub proof fn lemma_unary_operator_spelled(toks: Seq<TokenView>, i: nat)
    requires
        tok_is(toks, i, TokenKind::Bang) || tok_is(toks, i, TokenKind::Minus),
    ensures
        primary(toks, i) matches Ok((e, j)) ==> (e matches SExpr::Unary(op, x) && unary_token(op) == kind_at(toks, i)
            && primary(toks, i + 1) == Ok::<(SExpr, nat), PErr>((*x, j))),
{
}

/// The words `true` and `false` are read as the boolean they name.
pub proof fn lemma_boolean_words(toks: Seq<TokenView>, i: nat)
    ensures
        tok_is(toks, i, TokenKind::True) ==> primary(toks, i) == Ok::<(SExpr, nat), PErr>((SExpr::BoolLiteral(true), i + 1)),
        tok_is(toks, i, TokenKind::False) ==> primary(toks, i) == Ok::<(SExpr, nat), PErr>((SExpr::BoolLiteral(false), i + 1)),
{
}

} // verus!
