use vstd::prelude::*;

use crate::helper::text::{parse_i64_text, parse_usize_text, string_from};
use crate::helper::types::{CompileError, ErrorType, Span as SourceSpan};
use crate::lexer::scanner::token_views;
use crate::lexer::token::{same_kind, Token, TokenKind, TokenType, TokenView};
use super::ast::{
    exprs_view, expr_view, fields_view, functions_view, impls_view, methods_view, structs_view, iterable_view, params_view, struct_fields_view, SFunction, SImpl, SMethod, SProgram, SStmt, SStruct, SType, lemma_exprs_view_push, lemma_fields_view_push, lemma_stmts_view_push, stmts_view, ArrayLiteralExpression, AssignmentStatement, AssignmentTarget,
    AssociatedCallExpression, BinaryExpression, BinaryOperator, Block, BreakStatement, CallExpression,
    ContinueStatement, Expression, FieldAccessExpression, ForIterable, ForStatement, Function, IfStatement,
    Impl, IndexExpression, LoopStatement, MacroCallExpression, Method, MethodCallExpression, Parameter, Program,
    ReferenceExpression, ReturnStatement, SelfParam, SExpr, Span, Statement, StructField, Struct,
    StructLiteralExpression, StructLiteralField, Type, UnaryExpression, UnaryOperator, VarDeclStatement,
    WhileStatement,
};
use super::grammar;
use super::grammar::{PErr, PResult};

verus! {

/// Whether an error is the parse error `p`.
pub open spec fn is_parse_error(e: CompileError, p: PErr) -> bool {
    e.message@ == p.message && e.span == p.span && e.error_type == ErrorType::ParseError
}

/// Whether a parsed expression agrees with the grammar.
pub open spec fn expr_agrees(r: Result<Expression, CompileError>, s: PResult<SExpr>, pos: nat) -> bool {
    match (r, s) {
        (Ok(x), Ok((v, j))) => expr_view(x) == v && pos == j,
        (Err(e), Err(p)) => is_parse_error(e, p),
        _ => false,
    }
}

/// Whether a parsed list of expressions agrees with the grammar.
pub open spec fn exprs_agree(r: Result<Vec<Expression>, CompileError>, s: PResult<Seq<SExpr>>, pos: nat) -> bool {
    match (r, s) {
        (Ok(x), Ok((v, j))) => exprs_view(x@, x@.len()) == v && pos == j,
        (Err(e), Err(p)) => is_parse_error(e, p),
        _ => false,
    }
}

/// Builds trees from tokens by recursive descent.
pub struct Parser {
    tokens: Vec<Token>,
    current: usize,
}

impl Parser {
    /// The tokens being parsed, as the grammar sees them.
    pub closed spec fn toks(&self) -> Seq<TokenView> {
        token_views(self.tokens@)
    }

    /// The position of the next token.
    pub closed spec fn pos(&self) -> nat {
        self.current as nat
    }

    /// The position never passes the end of the tokens.
    pub closed spec fn wf(&self) -> bool {
        self.current <= self.tokens.len()
    }

    /// A parser at the first of `tokens`.
    pub fn new(tokens: Vec<Token>) -> (p: Parser)
        ensures
            p.wf(),
            p.toks() == token_views(tokens@),
            p.pos() == 0,
    {
        Parser { tokens, current: 0 }
    }

    // -----------------------------------------------------------------------
    // Token helpers
    // -----------------------------------------------------------------------

    /// The location of the current token (or of the last one, past the end).
    fn current_span(&self) -> (s: Option<Span>)
        requires
            self.wf(),
        ensures
            s == grammar::span_at(self.toks(), self.pos()),
    {
        if self.current < self.tokens.len() {
            let t = &self.tokens[self.current];
            Some(Span::new(t.line, t.column))
        } else if self.current > 0 {
            let t = &self.tokens[self.current - 1];
            Some(Span::new(t.line, t.column))
        } else {
            None
        }
    }

    /// Whether the current token has the kind of `k`.
    fn check(&self, k: &TokenType) -> (b: bool)
        requires
            self.wf(),
        ensures
            b == grammar::tok_is(self.toks(), self.pos(), k@),
    {
        if self.current < self.tokens.len() {
            same_kind(&self.tokens[self.current].token_type, k)
        } else {
            false
        }
    }

    /// Whether the current token is a number literal.
    fn check_number(&self) -> (b: bool)
        requires
            self.wf(),
        ensures
            b == (self.pos() < self.toks().len() && (self.toks()[self.pos() as int].kind is IntLiteral
                || self.toks()[self.pos() as int].kind is FloatLiteral)),
    {
        if self.current < self.tokens.len() {
            match &self.tokens[self.current].token_type {
                TokenType::IntLiteral(_) => true,
                TokenType::FloatLiteral(_) => true,
                _ => false,
            }
        } else {
            false
        }
    }

    /// Whether the parser is past the tokens or at the end-of-input token.
    fn is_at_end(&self) -> (b: bool)
        requires
            self.wf(),
        ensures
            b == grammar::at_end(self.toks(), self.pos()),
    {
        if self.current < self.tokens.len() {
            match &self.tokens[self.current].token_type {
                TokenType::Eof => true,
                _ => false,
            }
        } else {
            true
        }
    }

    /// Moves past the current token unless at the end.
    fn advance(&mut self)
        requires
            old(self).wf(),
        ensures
            final(self).wf(),
            final(self).toks() == old(self).toks(),
            final(self).pos() == if grammar::at_end(old(self).toks(), old(self).pos()) {
                old(self).pos()
            } else {
                old(self).pos() + 1
            },
    {
        if !self.is_at_end() {
            self.current += 1;
        }
    }

    /// Consumes the current token when it has the kind of `k` (which is not end-of-input).
    fn match_token(&mut self, k: &TokenType) -> (b: bool)
        requires
            old(self).wf(),
            !(k@ is Eof),
        ensures
            final(self).wf(),
            final(self).toks() == old(self).toks(),
            b == grammar::tok_is(old(self).toks(), old(self).pos(), k@),
            final(self).pos() == old(self).pos() + if b { 1nat } else { 0nat },
    {
        if self.check(k) {
            self.advance();
            true
        } else {
            false
        }
    }

    /// A parse error located at the given line and column.
    fn create_parse_error(&self, message: &str, line: usize, column: usize) -> (e: CompileError)
        ensures
            e.message@ == message@,
            e.span == Some(SourceSpan { line, column }),
            e.error_type == ErrorType::ParseError,
    {
        CompileError::parse_error(string_from(message), line, column)
    }

    /// A parse error located at the current token, if there is one.
    fn error_here(&self, message: &str) -> (e: CompileError)
        requires
            self.wf(),
        ensures
            is_parse_error(e, grammar::err_at(self.toks(), self.pos(), message@)),
    {
        if self.current < self.tokens.len() {
            let t = &self.tokens[self.current];
            self.create_parse_error(message, t.line, t.column)
        } else {
            CompileError::new(string_from(message), None, ErrorType::ParseError)
        }
    }

    /// A parse error with no location.
    fn error_plain(message: String) -> (e: CompileError)
        ensures
            is_parse_error(e, grammar::err_plain(message@)),
    {
        CompileError::new(message, None, ErrorType::ParseError)
    }

    /// Consumes a token of the kind of `k` (which is not end-of-input), or fails with `message`.
    fn consume(&mut self, k: &TokenType, message: &str) -> (r: Result<(), CompileError>)
        requires
            old(self).wf(),
            !(k@ is Eof),
        ensures
            final(self).wf(),
            final(self).toks() == old(self).toks(),
            match grammar::consume(old(self).toks(), old(self).pos(), k@, message@) {
                Ok(j) => r is Ok && final(self).pos() == j,
                Err(p) => r matches Err(e) && is_parse_error(e, p),
            },
    {
        if self.match_token(k) {
            Ok(())
        } else {
            Err(self.error_here(message))
        }
    }

    /// Consumes an identifier and gives its name, or fails with `message`.
    fn consume_identifier(&mut self, message: &str) -> (r: Result<String, CompileError>)
        requires
            old(self).wf(),
        ensures
            final(self).wf(),
            final(self).toks() == old(self).toks(),
            match (r, grammar::consume_identifier(old(self).toks(), old(self).pos(), message@)) {
                (Ok(x), Ok((v, j))) => x@ == v && final(self).pos() == j,
                (Err(e), Err(p)) => is_parse_error(e, p),
                _ => false,
            },
    {
        if self.current < self.tokens.len() {
            match &self.tokens[self.current].token_type {
                TokenType::Identifier(name) => {
                    let name = name.clone();
                    self.current += 1;
                    return Ok(name);
                },
                _ => {},
            }
        }
        Err(self.error_here(message))
    }
}

impl Parser {

    fn match_mul_op(&mut self) -> (r: Option<BinaryOperator>)
        requires
            old(self).wf(),
        ensures
            final(self).wf(),
            final(self).toks() == old(self).toks(),
            r == grammar::mul_op(old(self).toks(), old(self).pos()),
            final(self).pos() == old(self).pos() + if r is Some { 1nat } else { 0nat },
    {
        if self.match_token(&TokenType::Star) {
            Some(BinaryOperator::Multiply)
        } else if self.match_token(&TokenType::Slash) {
            Some(BinaryOperator::Divide)
        } else if self.match_token(&TokenType::Percent) {
            Some(BinaryOperator::Modulo)
        } else {
            None
        }
    }

    fn match_add_op(&mut self) -> (r: Option<BinaryOperator>)
        requires
            old(self).wf(),
        ensures
            final(self).wf(),
            final(self).toks() == old(self).toks(),
            r == grammar::add_op(old(self).toks(), old(self).pos()),
            final(self).pos() == old(self).pos() + if r is Some { 1nat } else { 0nat },
    {
        if self.match_token(&TokenType::Plus) {
            Some(BinaryOperator::Add)
        } else if self.match_token(&TokenType::Minus) {
            Some(BinaryOperator::Subtract)
        } else {
            None
        }
    }

    fn match_cmp_op(&mut self) -> (r: Option<BinaryOperator>)
        requires
            old(self).wf(),
        ensures
            final(self).wf(),
            final(self).toks() == old(self).toks(),
            r == grammar::cmp_op(old(self).toks(), old(self).pos()),
            final(self).pos() == old(self).pos() + if r is Some { 1nat } else { 0nat },
    {
        if self.match_token(&TokenType::Less) {
            Some(BinaryOperator::Less)
        } else if self.match_token(&TokenType::Greater) {
            Some(BinaryOperator::Greater)
        } else if self.match_token(&TokenType::LessEqual) {
            Some(BinaryOperator::LessEqual)
        } else if self.match_token(&TokenType::GreaterEqual) {
            Some(BinaryOperator::GreaterEqual)
        } else {
            None
        }
    }

    fn match_eq_op(&mut self) -> (r: Option<BinaryOperator>)
        requires
            old(self).wf(),
        ensures
            final(self).wf(),
            final(self).toks() == old(self).toks(),
            r == grammar::eq_op(old(self).toks(), old(self).pos()),
            final(self).pos() == old(self).pos() + if r is Some { 1nat } else { 0nat },
    {
        if self.match_token(&TokenType::EqualEqual) {
            Some(BinaryOperator::Equal)
        } else if self.match_token(&TokenType::BangEqual) {
            Some(BinaryOperator::NotEqual)
        } else {
            None
        }
    }

    fn match_and_op(&mut self) -> (r: Option<BinaryOperator>)
        requires
            old(self).wf(),
        ensures
            final(self).wf(),
            final(self).toks() == old(self).toks(),
            r == (if grammar::tok_is(old(self).toks(), old(self).pos(), TokenKind::AmpAmp) { Some(BinaryOperator::And) } else { None }),
            final(self).pos() == old(self).pos() + if r is Some { 1nat } else { 0nat },
    {
        if self.match_token(&TokenType::AmpAmp) { Some(BinaryOperator::And) } else { None }
    }

    fn match_or_op(&mut self) -> (r: Option<BinaryOperator>)
        requires
            old(self).wf(),
        ensures
            final(self).wf(),
            final(self).toks() == old(self).toks(),
            r == (if grammar::tok_is(old(self).toks(), old(self).pos(), TokenKind::PipePipe) { Some(BinaryOperator::Or) } else { None }),
            final(self).pos() == old(self).pos() + if r is Some { 1nat } else { 0nat },
    {
        if self.match_token(&TokenType::PipePipe) { Some(BinaryOperator::Or) } else { None }
    }

    /// `expr` followed by `* / %` and postfix operands, left-associated.
    fn finish_multiplicative(&mut self, expr: Expression) -> (r: Result<Expression, CompileError>)
        requires
            old(self).wf(),
        ensures
            final(self).wf(),
            final(self).toks() == old(self).toks(),
            expr_agrees(r, grammar::mul_rest_s(old(self).toks(), old(self).pos(), expr@), final(self).pos()),
            r is Ok ==> old(self).pos() <= final(self).pos(),
        decreases old(self).tokens.len() - old(self).current, 4nat,
    {
        let ghost toks = self.toks();
        let ghost target = grammar::mul_rest_s(toks, self.pos(), expr@);
        let mut acc = expr;
        loop
            invariant
                self.wf(),
                self.toks() == toks,
                toks == old(self).toks(),
                old(self).pos() <= self.pos(),
                target == grammar::mul_rest_s(old(self).toks(), old(self).pos(), expr@),
                grammar::mul_rest_s(toks, self.pos(), acc@) == target,
            decreases self.tokens.len() - self.current,
        {
            proof { grammar::unfold_mul_rest(toks, self.pos(), acc@); }
            let op = match self.match_mul_op() {
                Some(op) => op,
                None => {
                    return Ok(acc);
                },
            };
            let right = match self.postfix() {
                Ok(x) => x,
                Err(e) => {
                    return Err(e);
                },
            };
            acc = Expression::Binary(BinaryExpression { left: Box::new(acc), operator: op, right: Box::new(right) });
        }
    }

    /// A product.
    fn multiplicative(&mut self) -> (r: Result<Expression, CompileError>)
        requires
            old(self).wf(),
        ensures
            final(self).wf(),
            final(self).toks() == old(self).toks(),
            expr_agrees(r, grammar::multiplicative_s(old(self).toks(), old(self).pos()), final(self).pos()),
            r is Ok ==> old(self).pos() <= final(self).pos(),
        decreases old(self).tokens.len() - old(self).current, 5nat,
    {
        proof { grammar::unfold_multiplicative(self.toks(), self.pos()); }
        let left = match self.postfix() {
            Ok(x) => x,
            Err(e) => {
                return Err(e);
            },
        };
        self.finish_multiplicative(left)
    }

    /// `expr` followed by `+ -` and products, left-associated.
    fn finish_additive(&mut self, expr: Expression) -> (r: Result<Expression, CompileError>)
        requires
            old(self).wf(),
        ensures
            final(self).wf(),
            final(self).toks() == old(self).toks(),
            expr_agrees(r, grammar::add_rest_s(old(self).toks(), old(self).pos(), expr@), final(self).pos()),
            r is Ok ==> old(self).pos() <= final(self).pos(),
        decreases old(self).tokens.len() - old(self).current, 6nat,
    {
        let ghost toks = self.toks();
        let ghost target = grammar::add_rest_s(toks, self.pos(), expr@);
        let mut acc = expr;
        loop
            invariant
                self.wf(),
                self.toks() == toks,
                toks == old(self).toks(),
                old(self).pos() <= self.pos(),
                target == grammar::add_rest_s(old(self).toks(), old(self).pos(), expr@),
                grammar::add_rest_s(toks, self.pos(), acc@) == target,
            decreases self.tokens.len() - self.current,
        {
            proof { grammar::unfold_add_rest(toks, self.pos(), acc@); }
            let op = match self.match_add_op() {
                Some(op) => op,
                None => {
                    return Ok(acc);
                },
            };
            let right = match self.multiplicative() {
                Ok(x) => x,
                Err(e) => {
                    return Err(e);
                },
            };
            acc = Expression::Binary(BinaryExpression { left: Box::new(acc), operator: op, right: Box::new(right) });
        }
    }

    /// A sum.
    fn additive(&mut self) -> (r: Result<Expression, CompileError>)
        requires
            old(self).wf(),
        ensures
            final(self).wf(),
            final(self).toks() == old(self).toks(),
            expr_agrees(r, grammar::additive_s(old(self).toks(), old(self).pos()), final(self).pos()),
            r is Ok ==> old(self).pos() <= final(self).pos(),
        decreases old(self).tokens.len() - old(self).current, 7nat,
    {
        proof { grammar::unfold_additive(self.toks(), self.pos()); }
        let left = match self.multiplicative() {
            Ok(x) => x,
            Err(e) => {
                return Err(e);
            },
        };
        self.finish_additive(left)
    }

    /// `expr` followed by comparisons with sums, left-associated.
    fn finish_comparison(&mut self, expr: Expression) -> (r: Result<Expression, CompileError>)
        requires
            old(self).wf(),
        ensures
            final(self).wf(),
            final(self).toks() == old(self).toks(),
            expr_agrees(r, grammar::cmp_rest_s(old(self).toks(), old(self).pos(), expr@), final(self).pos()),
            r is Ok ==> old(self).pos() <= final(self).pos(),
        decreases old(self).tokens.len() - old(self).current, 8nat,
    {
        let ghost toks = self.toks();
        let ghost target = grammar::cmp_rest_s(toks, self.pos(), expr@);
        let mut acc = expr;
        loop
            invariant
                self.wf(),
                self.toks() == toks,
                toks == old(self).toks(),
                old(self).pos() <= self.pos(),
                target == grammar::cmp_rest_s(old(self).toks(), old(self).pos(), expr@),
                grammar::cmp_rest_s(toks, self.pos(), acc@) == target,
            decreases self.tokens.len() - self.current,
        {
            proof { grammar::unfold_cmp_rest(toks, self.pos(), acc@); }
            let op = match self.match_cmp_op() {
                Some(op) => op,
                None => {
                    return Ok(acc);
                },
            };
            let right = match self.additive() {
                Ok(x) => x,
                Err(e) => {
                    return Err(e);
                },
            };
            acc = Expression::Binary(BinaryExpression { left: Box::new(acc), operator: op, right: Box::new(right) });
        }
    }

    /// A comparison.
    fn comparison(&mut self) -> (r: Result<Expression, CompileError>)
        requires
            old(self).wf(),
        ensures
            final(self).wf(),
            final(self).toks() == old(self).toks(),
            expr_agrees(r, grammar::comparison_s(old(self).toks(), old(self).pos()), final(self).pos()),
            r is Ok ==> old(self).pos() <= final(self).pos(),
        decreases old(self).tokens.len() - old(self).current, 9nat,
    {
        proof { grammar::unfold_comparison(self.toks(), self.pos()); }
        let left = match self.additive() {
            Ok(x) => x,
            Err(e) => {
                return Err(e);
            },
        };
        self.finish_comparison(left)
    }

    /// `expr` followed by `== !=` and comparisons, left-associated.
    fn finish_equality(&mut self, expr: Expression) -> (r: Result<Expression, CompileError>)
        requires
            old(self).wf(),
        ensures
            final(self).wf(),
            final(self).toks() == old(self).toks(),
            expr_agrees(r, grammar::eq_rest_s(old(self).toks(), old(self).pos(), expr@), final(self).pos()),
            r is Ok ==> old(self).pos() <= final(self).pos(),
        decreases old(self).tokens.len() - old(self).current, 10nat,
    {
        let ghost toks = self.toks();
        let ghost target = grammar::eq_rest_s(toks, self.pos(), expr@);
        let mut acc = expr;
        loop
            invariant
                self.wf(),
                self.toks() == toks,
                toks == old(self).toks(),
                old(self).pos() <= self.pos(),
                target == grammar::eq_rest_s(old(self).toks(), old(self).pos(), expr@),
                grammar::eq_rest_s(toks, self.pos(), acc@) == target,
            decreases self.tokens.len() - self.current,
        {
            proof { grammar::unfold_eq_rest(toks, self.pos(), acc@); }
            let op = match self.match_eq_op() {
                Some(op) => op,
                None => {
                    return Ok(acc);
                },
            };
            let right = match self.comparison() {
                Ok(x) => x,
                Err(e) => {
                    return Err(e);
                },
            };
            acc = Expression::Binary(BinaryExpression { left: Box::new(acc), operator: op, right: Box::new(right) });
        }
    }

    /// An equality test.
    fn equality(&mut self) -> (r: Result<Expression, CompileError>)
        requires
            old(self).wf(),
        ensures
            final(self).wf(),
            final(self).toks() == old(self).toks(),
            expr_agrees(r, grammar::equality_s(old(self).toks(), old(self).pos()), final(self).pos()),
            r is Ok ==> old(self).pos() <= final(self).pos(),
        decreases old(self).tokens.len() - old(self).current, 11nat,
    {
        proof { grammar::unfold_equality(self.toks(), self.pos()); }
        let left = match self.comparison() {
            Ok(x) => x,
            Err(e) => {
                return Err(e);
            },
        };
        self.finish_equality(left)
    }

    /// `expr` followed by `&&` and equality tests, left-associated.
    fn finish_logical_and(&mut self, expr: Expression) -> (r: Result<Expression, CompileError>)
        requires
            old(self).wf(),
        ensures
            final(self).wf(),
            final(self).toks() == old(self).toks(),
            expr_agrees(r, grammar::and_rest_s(old(self).toks(), old(self).pos(), expr@), final(self).pos()),
            r is Ok ==> old(self).pos() <= final(self).pos(),
        decreases old(self).tokens.len() - old(self).current, 12nat,
    {
        let ghost toks = self.toks();
        let ghost target = grammar::and_rest_s(toks, self.pos(), expr@);
        let mut acc = expr;
        loop
            invariant
                self.wf(),
                self.toks() == toks,
                toks == old(self).toks(),
                old(self).pos() <= self.pos(),
                target == grammar::and_rest_s(old(self).toks(), old(self).pos(), expr@),
                grammar::and_rest_s(toks, self.pos(), acc@) == target,
            decreases self.tokens.len() - self.current,
        {
            proof { grammar::unfold_and_rest(toks, self.pos(), acc@); }
            let op = match self.match_and_op() {
                Some(op) => op,
                None => {
                    return Ok(acc);
                },
            };
            let right = match self.equality() {
                Ok(x) => x,
                Err(e) => {
                    return Err(e);
                },
            };
            acc = Expression::Binary(BinaryExpression { left: Box::new(acc), operator: op, right: Box::new(right) });
        }
    }

    /// A conjunction.
    fn logical_and(&mut self) -> (r: Result<Expression, CompileError>)
        requires
            old(self).wf(),
        ensures
            final(self).wf(),
            final(self).toks() == old(self).toks(),
            expr_agrees(r, grammar::logical_and_s(old(self).toks(), old(self).pos()), final(self).pos()),
            r is Ok ==> old(self).pos() <= final(self).pos(),
        decreases old(self).tokens.len() - old(self).current, 13nat,
    {
        proof { grammar::unfold_logical_and(self.toks(), self.pos()); }
        let left = match self.equality() {
            Ok(x) => x,
            Err(e) => {
                return Err(e);
            },
        };
        self.finish_logical_and(left)
    }

    /// `expr` followed by `||` and conjunctions, left-associated.
    fn finish_logical_or(&mut self, expr: Expression) -> (r: Result<Expression, CompileError>)
        requires
            old(self).wf(),
        ensures
            final(self).wf(),
            final(self).toks() == old(self).toks(),
            expr_agrees(r, grammar::or_rest_s(old(self).toks(), old(self).pos(), expr@), final(self).pos()),
            r is Ok ==> old(self).pos() <= final(self).pos(),
        decreases old(self).tokens.len() - old(self).current, 14nat,
    {
        let ghost toks = self.toks();
        let ghost target = grammar::or_rest_s(toks, self.pos(), expr@);
        let mut acc = expr;
        loop
            invariant
                self.wf(),
                self.toks() == toks,
                toks == old(self).toks(),
                old(self).pos() <= self.pos(),
                target == grammar::or_rest_s(old(self).toks(), old(self).pos(), expr@),
                grammar::or_rest_s(toks, self.pos(), acc@) == target,
            decreases self.tokens.len() - self.current,
        {
            proof { grammar::unfold_or_rest(toks, self.pos(), acc@); }
            let op = match self.match_or_op() {
                Some(op) => op,
                None => {
                    return Ok(acc);
                },
            };
            let right = match self.logical_and() {
                Ok(x) => x,
                Err(e) => {
                    return Err(e);
                },
            };
            acc = Expression::Binary(BinaryExpression { left: Box::new(acc), operator: op, right: Box::new(right) });
        }
    }

    /// A disjunction.
    fn logical_or(&mut self) -> (r: Result<Expression, CompileError>)
        requires
            old(self).wf(),
        ensures
            final(self).wf(),
            final(self).toks() == old(self).toks(),
            expr_agrees(r, grammar::logical_or_s(old(self).toks(), old(self).pos()), final(self).pos()),
            r is Ok ==> old(self).pos() <= final(self).pos(),
        decreases old(self).tokens.len() - old(self).current, 15nat,
    {
        proof { grammar::unfold_logical_or(self.toks(), self.pos()); }
        let left = match self.logical_and() {
            Ok(x) => x,
            Err(e) => {
                return Err(e);
            },
        };
        self.finish_logical_or(left)
    }

    /// An expression.
    fn expression(&mut self) -> (r: Result<Expression, CompileError>)
        requires
            old(self).wf(),
        ensures
            final(self).wf(),
            final(self).toks() == old(self).toks(),
            expr_agrees(r, grammar::expression_s(old(self).toks(), old(self).pos()), final(self).pos()),
            r is Ok ==> old(self).pos() <= final(self).pos(),
        decreases old(self).tokens.len() - old(self).current, 16nat,
    {
        proof { grammar::unfold_expression(self.toks(), self.pos()); }
        self.logical_or()
    }
}

impl Parser {
    /// Comma-separated expressions up to (not including) a token of the kind of `close`.
    fn expr_list(&mut self, close: &TokenType) -> (r: Result<Vec<Expression>, CompileError>)
        requires
            old(self).wf(),
        ensures
            final(self).wf(),
            final(self).toks() == old(self).toks(),
            exprs_agree(r, grammar::expr_list_s(old(self).toks(), old(self).pos(), close@), final(self).pos()),
            r is Ok ==> old(self).pos() <= final(self).pos(),
        decreases old(self).tokens.len() - old(self).current, 18nat,
    {
        proof { grammar::unfold_expr_list(self.toks(), self.pos(), close@); }
        let mut items: Vec<Expression> = Vec::new();
        if self.check(close) {
            return Ok(items);
        }
        let ghost toks = self.toks();
        let ghost target = grammar::expr_items_s(toks, self.pos(), seq![]);
        assert(exprs_view(items@, items@.len()) =~= Seq::<SExpr>::empty());
        loop
            invariant
                self.wf(),
                self.toks() == toks,
                toks == old(self).toks(),
                old(self).pos() <= self.pos(),
                target == grammar::expr_list_s(old(self).toks(), old(self).pos(), close@),
                grammar::expr_items_s(toks, self.pos(), exprs_view(items@, items@.len())) == target,
            decreases self.tokens.len() - self.current,
        {
            proof { grammar::unfold_expr_items(toks, self.pos(), exprs_view(items@, items@.len())); }
            let e = match self.expression() {
                Ok(x) => x,
                Err(err) => {
                    return Err(err);
                },
            };
            proof { lemma_exprs_view_push(items@, e); }
            items.push(e);
            if !self.match_token(&TokenType::Comma) {
                return Ok(items);
            }
        }
    }

    /// The fields of a struct literal, after its '{'.
    fn field_list(&mut self) -> (r: Result<Vec<StructLiteralField>, CompileError>)
        requires
            old(self).wf(),
        ensures
            final(self).wf(),
            final(self).toks() == old(self).toks(),
            match (r, grammar::field_list_s(old(self).toks(), old(self).pos())) {
                (Ok(x), Ok((v, j))) => fields_view(x@, x@.len()) == v && final(self).pos() == j,
                (Err(e), Err(p)) => is_parse_error(e, p),
                _ => false,
            },
            r is Ok ==> old(self).pos() <= final(self).pos(),
        decreases old(self).tokens.len() - old(self).current, 18nat,
    {
        proof { grammar::unfold_field_list(self.toks(), self.pos()); }
        let mut items: Vec<StructLiteralField> = Vec::new();
        if self.check(&TokenType::RightBrace) {
            return Ok(items);
        }
        let ghost toks = self.toks();
        let ghost target = grammar::field_items_s(toks, self.pos(), seq![]);
        assert(fields_view(items@, items@.len()) =~= Seq::<(Seq<char>, SExpr)>::empty());
        loop
            invariant
                self.wf(),
                self.toks() == toks,
                toks == old(self).toks(),
                old(self).pos() <= self.pos(),
                target == grammar::field_list_s(old(self).toks(), old(self).pos()),
                grammar::field_items_s(toks, self.pos(), fields_view(items@, items@.len())) == target,
            decreases self.tokens.len() - self.current,
        {
            proof { grammar::unfold_field_items(toks, self.pos(), fields_view(items@, items@.len())); }
            let name = match self.consume_identifier("Expected field name in struct literal") {
                Ok(x) => x,
                Err(err) => {
                    return Err(err);
                },
            };
            match self.consume(&TokenType::Colon, "Expected ':' after field name") {
                Ok(()) => {},
                Err(err) => {
                    return Err(err);
                },
            }
            let value = match self.expression() {
                Ok(x) => x,
                Err(err) => {
                    return Err(err);
                },
            };
            let field = StructLiteralField { name, value };
            proof { lemma_fields_view_push(items@, field); }
            items.push(field);
            if !self.match_token(&TokenType::Comma) {
                return Ok(items);
            }
        }
    }

    /// What follows an identifier (already consumed) in a primary expression.
    fn after_identifier(&mut self, name: String) -> (r: Result<Expression, CompileError>)
        requires
            old(self).wf(),
        ensures
            final(self).wf(),
            final(self).toks() == old(self).toks(),
            expr_agrees(r, grammar::after_identifier_s(old(self).toks(), name@, old(self).pos()), final(self).pos()),
            r is Ok ==> old(self).pos() <= final(self).pos(),
        decreases old(self).tokens.len() - old(self).current, 19nat,
    {
        proof { grammar::unfold_after_identifier(self.toks(), name@, self.pos()); }
        if self.match_token(&TokenType::Bang) {
            match self.consume(&TokenType::LeftParen, "Expected '(' after '!' in macro call") {
                Ok(()) => {},
                Err(e) => {
                    return Err(e);
                },
            }
            let arguments = match self.expr_list(&TokenType::RightParen) {
                Ok(x) => x,
                Err(e) => {
                    return Err(e);
                },
            };
            match self.consume(&TokenType::RightParen, "Expected ')' after macro arguments") {
                Ok(()) => {},
                Err(e) => {
                    return Err(e);
                },
            }
            let span = self.current_span();
            return Ok(Expression::MacroCall(MacroCallExpression { macro_name: name, arguments, span }));
        }
        if self.match_token(&TokenType::ColonColon) {
            let function = match self.consume_identifier("Expected function name after '::'") {
                Ok(x) => x,
                Err(e) => {
                    return Err(e);
                },
            };
            match self.consume(&TokenType::LeftParen, "Expected '(' after associated function name") {
                Ok(()) => {},
                Err(e) => {
                    return Err(e);
                },
            }
            let arguments = match self.expr_list(&TokenType::RightParen) {
                Ok(x) => x,
                Err(e) => {
                    return Err(e);
                },
            };
            match self.consume(&TokenType::RightParen, "Expected ')' after arguments") {
                Ok(()) => {},
                Err(e) => {
                    return Err(e);
                },
            }
            let span = self.current_span();
            return Ok(Expression::AssociatedCall(AssociatedCallExpression { type_ident: name, function, arguments, span }));
        }
        if self.match_token(&TokenType::LeftBrace) {
            let fields = match self.field_list() {
                Ok(x) => x,
                Err(e) => {
                    return Err(e);
                },
            };
            match self.consume(&TokenType::RightBrace, "Expected '}' after struct literal fields") {
                Ok(()) => {},
                Err(e) => {
                    return Err(e);
                },
            }
            let span = self.current_span();
            return Ok(Expression::StructLiteral(StructLiteralExpression { struct_name: name, fields, span }));
        }
        if self.match_token(&TokenType::LeftParen) {
            let arguments = match self.expr_list(&TokenType::RightParen) {
                Ok(x) => x,
                Err(e) => {
                    return Err(e);
                },
            };
            match self.consume(&TokenType::RightParen, "Expected ')' after arguments") {
                Ok(()) => {},
                Err(e) => {
                    return Err(e);
                },
            }
            return Ok(Expression::Call(CallExpression { callee: name, arguments }));
        }
        Ok(Expression::Variable(name))
    }

    /// A primary expression.
    fn primary(&mut self) -> (r: Result<Expression, CompileError>)
        requires
            old(self).wf(),
        ensures
            final(self).wf(),
            final(self).toks() == old(self).toks(),
            expr_agrees(r, grammar::primary_s(old(self).toks(), old(self).pos()), final(self).pos()),
            r is Ok ==> old(self).pos() < final(self).pos(),
        decreases old(self).tokens.len() - old(self).current, 1nat,
    {
        proof { grammar::unfold_primary(self.toks(), self.pos()); }
        if self.match_token(&TokenType::Bang) {
            let operand = match self.primary() {
                Ok(x) => x,
                Err(e) => {
                    return Err(e);
                },
            };
            return Ok(Expression::Unary(UnaryExpression { operator: UnaryOperator::Not, operand: Box::new(operand) }));
        }
        if self.match_token(&TokenType::Minus) {
            let operand = match self.primary() {
                Ok(x) => x,
                Err(e) => {
                    return Err(e);
                },
            };
            return Ok(Expression::Unary(UnaryExpression { operator: UnaryOperator::Negate, operand: Box::new(operand) }));
        }
        if self.match_token(&TokenType::Amp) {
            let inner = match self.primary() {
                Ok(x) => x,
                Err(e) => {
                    return Err(e);
                },
            };
            let span = self.current_span();
            return Ok(Expression::Reference(ReferenceExpression { inner: Box::new(inner), span }));
        }
        if self.match_token(&TokenType::True) {
            return Ok(Expression::BoolLiteral(true));
        }
        if self.match_token(&TokenType::False) {
            return Ok(Expression::BoolLiteral(false));
        }
        if self.match_token(&TokenType::SelfKeyword) {
            return Ok(Expression::Variable(string_from("self")));
        }
        if self.current < self.tokens.len() {
            match &self.tokens[self.current].token_type {
                TokenType::IntLiteral(value) => {
                    match parse_i64_text(value) {
                        Some(v) => {
                            self.current += 1;
                            return Ok(Expression::IntLiteral(v));
                        },
                        None => {
                            let mut m = string_from("Invalid integer literal: ");
                            m.append(value.as_str());
                            return Err(Self::error_plain(m));
                        },
                    }
                },
                TokenType::FloatLiteral(value) => {
                    let text = value.clone();
                    self.current += 1;
                    return Ok(Expression::FloatLiteral(text));
                },
                TokenType::StringLiteral(value) => {
                    let text = value.clone();
                    self.current += 1;
                    return Ok(Expression::StringLiteral(text));
                },
                TokenType::Identifier(name) => {
                    let name = name.clone();
                    self.current += 1;
                    return self.after_identifier(name);
                },
                _ => {},
            }
        }
        if self.match_token(&TokenType::LeftBracket) {
            let elements = match self.expr_list(&TokenType::RightBracket) {
                Ok(x) => x,
                Err(e) => {
                    return Err(e);
                },
            };
            match self.consume(&TokenType::RightBracket, "Expected ']' after array elements") {
                Ok(()) => {},
                Err(e) => {
                    return Err(e);
                },
            }
            let span = self.current_span();
            return Ok(Expression::ArrayLiteral(ArrayLiteralExpression { elements, span }));
        }
        if self.match_token(&TokenType::LeftParen) {
            let e = match self.expression() {
                Ok(x) => x,
                Err(e) => {
                    return Err(e);
                },
            };
            match self.consume(&TokenType::RightParen, "Expected ')' after expression") {
                Ok(()) => {},
                Err(err) => {
                    return Err(err);
                },
            }
            return Ok(e);
        }
        Err(self.error_here("Expected expression"))
    }

    /// Field accesses, method calls and indexing applied to `expr`.
    fn finish_postfix(&mut self, expr: Expression) -> (r: Result<Expression, CompileError>)
        requires
            old(self).wf(),
        ensures
            final(self).wf(),
            final(self).toks() == old(self).toks(),
            expr_agrees(r, grammar::postfix_rest_s(old(self).toks(), old(self).pos(), expr@), final(self).pos()),
            r is Ok ==> old(self).pos() <= final(self).pos(),
        decreases old(self).tokens.len() - old(self).current, 2nat,
    {
        let ghost toks = self.toks();
        let ghost target = grammar::postfix_rest_s(toks, self.pos(), expr@);
        let mut acc = expr;
        loop
            invariant
                self.wf(),
                self.toks() == toks,
                toks == old(self).toks(),
                old(self).pos() <= self.pos(),
                target == grammar::postfix_rest_s(old(self).toks(), old(self).pos(), expr@),
                grammar::postfix_rest_s(toks, self.pos(), acc@) == target,
            decreases self.tokens.len() - self.current,
        {
            proof { grammar::unfold_postfix_rest(toks, self.pos(), acc@); }
            if self.match_token(&TokenType::Dot) {
                let name = match self.consume_identifier("Expected field or method name after '.'") {
                    Ok(x) => x,
                    Err(e) => {
                        return Err(e);
                    },
                };
                if self.match_token(&TokenType::LeftParen) {
                    let arguments = match self.expr_list(&TokenType::RightParen) {
                        Ok(x) => x,
                        Err(e) => {
                            return Err(e);
                        },
                    };
                    match self.consume(&TokenType::RightParen, "Expected ')' after method arguments") {
                        Ok(()) => {},
                        Err(e) => {
                            return Err(e);
                        },
                    }
                    let span = self.current_span();
                    acc = Expression::MethodCall(MethodCallExpression { object: Box::new(acc), method: name, arguments, span });
                } else {
                    let span = self.current_span();
                    acc = Expression::FieldAccess(FieldAccessExpression { object: Box::new(acc), field: name, span });
                }
            } else if self.match_token(&TokenType::LeftBracket) {
                let index = match self.expression() {
                    Ok(x) => x,
                    Err(e) => {
                        return Err(e);
                    },
                };
                match self.consume(&TokenType::RightBracket, "Expected ']' after array index") {
                    Ok(()) => {},
                    Err(e) => {
                        return Err(e);
                    },
                }
                let span = self.current_span();
                acc = Expression::Index(IndexExpression { array: Box::new(acc), index: Box::new(index), span });
            } else {
                return Ok(acc);
            }
        }
    }

    /// A primary expression followed by field accesses, method calls and indexing.
    fn postfix(&mut self) -> (r: Result<Expression, CompileError>)
        requires
            old(self).wf(),
        ensures
            final(self).wf(),
            final(self).toks() == old(self).toks(),
            expr_agrees(r, grammar::postfix_s(old(self).toks(), old(self).pos()), final(self).pos()),
            r is Ok ==> old(self).pos() < final(self).pos(),
        decreases old(self).tokens.len() - old(self).current, 3nat,
    {
        proof { grammar::unfold_postfix(self.toks(), self.pos()); }
        let e = match self.primary() {
            Ok(x) => x,
            Err(err) => {
                return Err(err);
            },
        };
        self.finish_postfix(e)
    }

    /// The binary operators that may follow a postfix expression, at every level of precedence.
    fn finish_expression(&mut self, expr: Expression) -> (r: Result<Expression, CompileError>)
        requires
            old(self).wf(),
        ensures
            final(self).wf(),
            final(self).toks() == old(self).toks(),
            expr_agrees(r, grammar::finish_expression_s(old(self).toks(), old(self).pos(), expr@), final(self).pos()),
            r is Ok ==> old(self).pos() <= final(self).pos(),
    {
        proof { grammar::unfold_finish_expression(self.toks(), self.pos(), expr@); }
        let e = match self.finish_multiplicative(expr) {
            Ok(x) => x,
            Err(err) => {
                return Err(err);
            },
        };
        let e = match self.finish_additive(e) {
            Ok(x) => x,
            Err(err) => {
                return Err(err);
            },
        };
        let e = match self.finish_comparison(e) {
            Ok(x) => x,
            Err(err) => {
                return Err(err);
            },
        };
        let e = match self.finish_equality(e) {
            Ok(x) => x,
            Err(err) => {
                return Err(err);
            },
        };
        let e = match self.finish_logical_and(e) {
            Ok(x) => x,
            Err(err) => {
                return Err(err);
            },
        };
        self.finish_logical_or(e)
    }
}

/// Whether a parsed value agrees with the grammar through its view.
pub open spec fn view_agrees<T: View>(r: Result<T, CompileError>, s: PResult<T::V>, pos: nat) -> bool {
    match (r, s) {
        (Ok(x), Ok((v, j))) => x@ == v && pos == j,
        (Err(e), Err(p)) => is_parse_error(e, p),
        _ => false,
    }
}

/// Whether a parsed block agrees with the grammar.
pub open spec fn block_agrees(r: Result<Block, CompileError>, s: PResult<Seq<SStmt>>, pos: nat) -> bool {
    match (r, s) {
        (Ok(x), Ok((v, j))) => x@ == v && pos == j,
        (Err(e), Err(p)) => is_parse_error(e, p),
        _ => false,
    }
}

/// Whether a parsed parameter list agrees with the grammar.
pub open spec fn params_agree(r: Result<Vec<Parameter>, CompileError>, s: PResult<Seq<(Seq<char>, SType)>>, pos: nat) -> bool {
    match (r, s) {
        (Ok(x), Ok((v, j))) => params_view(x@) == v && pos == j,
        (Err(e), Err(p)) => is_parse_error(e, p),
        _ => false,
    }
}

impl Parser {
    /// A type: `[N]T`, `[]T`, a built-in type name, or a struct name.
    fn parse_type(&mut self) -> (r: Result<Type, CompileError>)
        requires
            old(self).wf(),
        ensures
            final(self).wf(),
            final(self).toks() == old(self).toks(),
            view_agrees(r, grammar::parse_type_s(old(self).toks(), old(self).pos()), final(self).pos()),
            r is Ok ==> old(self).pos() < final(self).pos(),
        decreases old(self).tokens.len() - old(self).current,
    {
        proof { grammar::unfold_parse_type(self.toks(), self.pos()); }
        if self.match_token(&TokenType::LeftBracket) {
            let size: Option<usize>;
            if self.check(&TokenType::RightBracket) {
                size = None;
            } else if self.current < self.tokens.len() {
                match &self.tokens[self.current].token_type {
                    TokenType::IntLiteral(value) => {
                        match parse_usize_text(value) {
                            Some(n) => {
                                self.current += 1;
                                size = Some(n);
                            },
                            None => {
                                let mut m = string_from("Invalid array size: ");
                                m.append(value.as_str());
                                return Err(Self::error_plain(m));
                            },
                        }
                    },
                    _ => {
                        return Err(Self::error_plain(string_from("Expected integer size in array type")));
                    },
                }
            } else {
                return Err(Self::error_plain(string_from("Expected integer size or ] in array type")));
            }
            match self.consume(&TokenType::RightBracket, "Expected ']' in array type") {
                Ok(()) => {},
                Err(e) => {
                    return Err(e);
                },
            }
            let element_type = match self.parse_type() {
                Ok(t) => t,
                Err(e) => {
                    return Err(e);
                },
            };
            return Ok(Type::Array { element_type: Box::new(element_type), size });
        }
        if self.current < self.tokens.len() {
            let ty = match &self.tokens[self.current].token_type {
                TokenType::I8 => Type::I8,
                TokenType::I16 => Type::I16,
                TokenType::I32 => Type::I32,
                TokenType::I64 => Type::I64,
                TokenType::U8 => Type::U8,
                TokenType::U16 => Type::U16,
                TokenType::U32 => Type::U32,
                TokenType::U64 => Type::U64,
                TokenType::F32 => Type::F32,
                TokenType::F64 => Type::F64,
                TokenType::Bool => Type::Bool,
                TokenType::Void => Type::Void,
                TokenType::String => Type::String,
                TokenType::Identifier(name) => Type::Struct(name.clone()),
                _ => {
                    return Err(Self::error_plain(string_from("Expected type")));
                },
            };
            self.current += 1;
            return Ok(ty);
        }
        Err(Self::error_plain(string_from("Expected type")))
    }

    /// A variable declaration.
    fn var_decl_statement(&mut self) -> (r: Result<Statement, CompileError>)
        requires
            old(self).wf(),
        ensures
            final(self).wf(),
            final(self).toks() == old(self).toks(),
            view_agrees(r, grammar::var_decl_statement_s(old(self).toks(), old(self).pos()), final(self).pos()),
            r is Ok ==> old(self).pos() < final(self).pos(),
    {
        proof { grammar::unfold_var_decl_statement(self.toks(), self.pos()); }
        let is_mutable = if self.match_token(&TokenType::Var) {
            true
        } else if self.match_token(&TokenType::Val) {
            false
        } else {
            return Err(Self::error_plain(string_from("Expected 'val' or 'var'")));
        };
        let name = match self.consume_identifier("Expected variable name") {
            Ok(x) => x,
            Err(e) => {
                return Err(e);
            },
        };
        let var_type = if self.match_token(&TokenType::Colon) {
            match self.parse_type() {
                Ok(t) => Some(t),
                Err(e) => {
                    return Err(e);
                },
            }
        } else {
            None
        };
        let initializer = if self.match_token(&TokenType::Equal) {
            match self.expression() {
                Ok(x) => Some(x),
                Err(e) => {
                    return Err(e);
                },
            }
        } else {
            None
        };
        match self.consume(&TokenType::Semicolon, "Expected ';' after variable declaration") {
            Ok(()) => {},
            Err(e) => {
                return Err(e);
            },
        }
        Ok(Statement::VarDecl(VarDeclStatement { is_mutable, name, var_type, initializer }))
    }

    /// The rest of a return statement, after `return`.
    fn return_statement(&mut self) -> (r: Result<Statement, CompileError>)
        requires
            old(self).wf(),
        ensures
            final(self).wf(),
            final(self).toks() == old(self).toks(),
            view_agrees(r, grammar::return_statement_s(old(self).toks(), old(self).pos()), final(self).pos()),
            r is Ok ==> old(self).pos() < final(self).pos(),
    {
        proof { grammar::unfold_return_statement(self.toks(), self.pos()); }
        let value = if !self.check(&TokenType::Semicolon) {
            match self.expression() {
                Ok(x) => Some(x),
                Err(e) => {
                    return Err(e);
                },
            }
        } else {
            None
        };
        match self.consume(&TokenType::Semicolon, "Expected ';' after return") {
            Ok(()) => {},
            Err(e) => {
                return Err(e);
            },
        }
        Ok(Statement::Return(ReturnStatement { value }))
    }

    /// A block in braces; `message` is the error for a missing '{'.
    fn braced_block(&mut self, message: &str) -> (r: Result<Block, CompileError>)
        requires
            old(self).wf(),
        ensures
            final(self).wf(),
            final(self).toks() == old(self).toks(),
            block_agrees(r, grammar::braced_block_s(old(self).toks(), old(self).pos(), message@), final(self).pos()),
            r is Ok ==> old(self).pos() < final(self).pos(),
        decreases old(self).tokens.len() - old(self).current, 5nat,
    {
        proof { grammar::unfold_braced_block(self.toks(), self.pos(), message@); }
        match self.consume(&TokenType::LeftBrace, message) {
            Ok(()) => {},
            Err(e) => {
                return Err(e);
            },
        }
        let b = match self.block() {
            Ok(b) => b,
            Err(e) => {
                return Err(e);
            },
        };
        match self.consume(&TokenType::RightBrace, "Expected '}'") {
            Ok(()) => {},
            Err(e) => {
                return Err(e);
            },
        }
        Ok(b)
    }

    /// The rest of an if statement, after `if`.
    fn if_statement(&mut self) -> (r: Result<Statement, CompileError>)
        requires
            old(self).wf(),
        ensures
            final(self).wf(),
            final(self).toks() == old(self).toks(),
            view_agrees(r, grammar::if_statement_s(old(self).toks(), old(self).pos()), final(self).pos()),
            r is Ok ==> old(self).pos() < final(self).pos(),
        decreases old(self).tokens.len() - old(self).current, 6nat,
    {
        proof { grammar::unfold_if_statement(self.toks(), self.pos()); }
        let condition = match self.expression() {
            Ok(x) => x,
            Err(e) => {
                return Err(e);
            },
        };
        let then_block = match self.braced_block("Expected '{' after if condition") {
            Ok(b) => b,
            Err(e) => {
                return Err(e);
            },
        };
        let else_block = if self.match_token(&TokenType::Else) {
            match self.braced_block("Expected '{' after else") {
                Ok(b) => Some(b),
                Err(e) => {
                    return Err(e);
                },
            }
        } else {
            None
        };
        Ok(Statement::If(IfStatement { condition, then_block, else_block }))
    }

    /// The rest of a while statement, after `while`.
    fn while_statement(&mut self) -> (r: Result<Statement, CompileError>)
        requires
            old(self).wf(),
        ensures
            final(self).wf(),
            final(self).toks() == old(self).toks(),
            view_agrees(r, grammar::while_statement_s(old(self).toks(), old(self).pos()), final(self).pos()),
            r is Ok ==> old(self).pos() < final(self).pos(),
        decreases old(self).tokens.len() - old(self).current, 6nat,
    {
        proof { grammar::unfold_while_statement(self.toks(), self.pos()); }
        let condition = match self.expression() {
            Ok(x) => x,
            Err(e) => {
                return Err(e);
            },
        };
        let body = match self.braced_block("Expected '{' after while condition") {
            Ok(b) => b,
            Err(e) => {
                return Err(e);
            },
        };
        Ok(Statement::While(WhileStatement { condition, body }))
    }

    /// The rest of a loop statement, after `loop`.
    fn loop_statement(&mut self) -> (r: Result<Statement, CompileError>)
        requires
            old(self).wf(),
        ensures
            final(self).wf(),
            final(self).toks() == old(self).toks(),
            view_agrees(r, grammar::loop_statement_s(old(self).toks(), old(self).pos()), final(self).pos()),
            r is Ok ==> old(self).pos() < final(self).pos(),
        decreases old(self).tokens.len() - old(self).current, 6nat,
    {
        proof { grammar::unfold_loop_statement(self.toks(), self.pos()); }
        let body = match self.braced_block("Expected '{' after loop") {
            Ok(b) => b,
            Err(e) => {
                return Err(e);
            },
        };
        Ok(Statement::Loop(LoopStatement { body }))
    }

    /// What a `for` loop walks over.
    fn for_iterable(&mut self) -> (r: Result<ForIterable, CompileError>)
        requires
            old(self).wf(),
        ensures
            final(self).wf(),
            final(self).toks() == old(self).toks(),
            match (r, grammar::for_iterable_s(old(self).toks(), old(self).pos())) {
                (Ok(x), Ok((v, j))) => iterable_view(x) == v && final(self).pos() == j,
                (Err(e), Err(p)) => is_parse_error(e, p),
                _ => false,
            },
            r is Ok ==> old(self).pos() <= final(self).pos(),
    {
        proof { grammar::unfold_for_iterable(self.toks(), self.pos()); }
        if self.match_token(&TokenType::LeftBracket) {
            let elements = match self.expr_list(&TokenType::RightBracket) {
                Ok(x) => x,
                Err(e) => {
                    return Err(e);
                },
            };
            match self.consume(&TokenType::RightBracket, "Expected ']' after array elements") {
                Ok(()) => {},
                Err(e) => {
                    return Err(e);
                },
            }
            let span = self.current_span();
            return Ok(ForIterable::Expression(Box::new(Expression::ArrayLiteral(ArrayLiteralExpression { elements, span }))));
        }
        if self.check_number() {
            let start = match self.comparison() {
                Ok(x) => x,
                Err(e) => {
                    return Err(e);
                },
            };
            match self.consume(&TokenType::DotDot, "Expected '..' for range") {
                Ok(()) => {},
                Err(e) => {
                    return Err(e);
                },
            }
            let end = match self.comparison() {
                Ok(x) => x,
                Err(e) => {
                    return Err(e);
                },
            };
            return Ok(ForIterable::Range(Box::new(start), Box::new(end)));
        }
        let ident = match self.consume_identifier("Expected array variable or range start") {
            Ok(x) => x,
            Err(e) => {
                return Err(e);
            },
        };
        let ghost toks = self.toks();
        let ghost j = self.pos();
        let ghost name = ident@;
        let target = if self.match_token(&TokenType::Dot) {
            let field = match self.consume_identifier("Expected field name") {
                Ok(x) => x,
                Err(e) => {
                    return Err(e);
                },
            };
            let span = self.current_span();
            let ghost fname = field@;
            let x = Expression::FieldAccess(FieldAccessExpression { object: Box::new(Expression::Variable(ident)), field, span });
            assert(span == grammar::span_at(toks, self.pos()));
            assert(expr_view(Expression::Variable(ident)) == SExpr::Variable(name));
            assert(expr_view(x) == SExpr::FieldAccess(Box::new(SExpr::Variable(name)), fname, grammar::span_at(toks, self.pos())));
            x
        } else {
            Expression::Variable(ident)
        };
        let ghost k = self.pos();
        let ghost tgt: PResult<SExpr> = if grammar::tok_is(toks, j, TokenKind::Dot) {
            match grammar::consume_identifier(toks, j + 1, "Expected field name"@) {
                Err(e) => Err(e),
                Ok((field, kk)) => Ok((SExpr::FieldAccess(Box::new(SExpr::Variable(name)), field, grammar::span_at(toks, kk)), kk)),
            }
        } else {
            Ok((SExpr::Variable(name), j))
        };
        assert(tgt == Ok::<(SExpr, nat), PErr>((expr_view(target), k)));
        if self.match_token(&TokenType::DotDot) {
            let end = match self.comparison() {
                Ok(x) => x,
                Err(e) => {
                    return Err(e);
                },
            };
            Ok(ForIterable::Range(Box::new(target), Box::new(end)))
        } else {
            Ok(ForIterable::Expression(Box::new(target)))
        }
    }

    /// The rest of a for statement, after `for`.
    fn for_statement(&mut self) -> (r: Result<Statement, CompileError>)
        requires
            old(self).wf(),
        ensures
            final(self).wf(),
            final(self).toks() == old(self).toks(),
            view_agrees(r, grammar::for_statement_s(old(self).toks(), old(self).pos()), final(self).pos()),
            r is Ok ==> old(self).pos() < final(self).pos(),
        decreases old(self).tokens.len() - old(self).current, 6nat,
    {
        proof { grammar::unfold_for_statement(self.toks(), self.pos()); }
        let variable = match self.consume_identifier("Expected variable name in for loop") {
            Ok(x) => x,
            Err(e) => {
                return Err(e);
            },
        };
        if !self.match_token(&TokenType::LeftArrow) && !self.match_token(&TokenType::In) {
            return Err(Self::error_plain(string_from("Expected '<-' or 'in' in for loop")));
        }
        let iterable = match self.for_iterable() {
            Ok(x) => x,
            Err(e) => {
                return Err(e);
            },
        };
        let body = match self.braced_block("Expected '{' after for iterable") {
            Ok(b) => b,
            Err(e) => {
                return Err(e);
            },
        };
        Ok(Statement::For(ForStatement { variable, iterable, body }))
    }

    /// A statement that starts with an expression: an assignment or an expression statement.
    fn simple_statement(&mut self) -> (r: Result<Statement, CompileError>)
        requires
            old(self).wf(),
        ensures
            final(self).wf(),
            final(self).toks() == old(self).toks(),
            view_agrees(r, grammar::simple_statement_s(old(self).toks(), old(self).pos()), final(self).pos()),
            r is Ok ==> old(self).pos() < final(self).pos(),
    {
        proof { grammar::unfold_simple_statement(self.toks(), self.pos()); }
        let expr = match self.postfix() {
            Ok(x) => x,
            Err(e) => {
                return Err(e);
            },
        };
        if self.match_token(&TokenType::Equal) {
            let target = match expr {
                Expression::Variable(name) => AssignmentTarget::Variable(name),
                Expression::FieldAccess(f) => AssignmentTarget::FieldAccess(f),
                Expression::Index(x) => AssignmentTarget::Index(x),
                _ => {
                    return Err(Self::error_plain(string_from("Invalid assignment target")));
                },
            };
            let value = match self.expression() {
                Ok(x) => x,
                Err(e) => {
                    return Err(e);
                },
            };
            match self.consume(&TokenType::Semicolon, "Expected ';' after assignment") {
                Ok(()) => {},
                Err(e) => {
                    return Err(e);
                },
            }
            let span = self.current_span();
            return Ok(Statement::Assignment(AssignmentStatement { target, value, span }));
        }
        let full = match self.finish_expression(expr) {
            Ok(x) => x,
            Err(e) => {
                return Err(e);
            },
        };
        match self.consume(&TokenType::Semicolon, "Expected ';' after expression") {
            Ok(()) => {},
            Err(e) => {
                return Err(e);
            },
        }
        Ok(Statement::Expression(full))
    }

    /// A statement.
    fn statement(&mut self) -> (r: Result<Statement, CompileError>)
        requires
            old(self).wf(),
        ensures
            final(self).wf(),
            final(self).toks() == old(self).toks(),
            view_agrees(r, grammar::statement_s(old(self).toks(), old(self).pos()), final(self).pos()),
            r is Ok ==> old(self).pos() < final(self).pos(),
        decreases old(self).tokens.len() - old(self).current, 2nat,
    {
        proof { grammar::unfold_statement(self.toks(), self.pos()); }
        if self.match_token(&TokenType::Return) {
            return self.return_statement();
        }
        if self.check(&TokenType::Val) || self.check(&TokenType::Var) {
            return self.var_decl_statement();
        }
        if self.match_token(&TokenType::If) {
            return self.if_statement();
        }
        if self.match_token(&TokenType::While) {
            return self.while_statement();
        }
        if self.match_token(&TokenType::Loop) {
            return self.loop_statement();
        }
        if self.match_token(&TokenType::For) {
            return self.for_statement();
        }
        if self.match_token(&TokenType::Break) {
            match self.consume(&TokenType::Semicolon, "Expected ';' after break") {
                Ok(()) => {},
                Err(e) => {
                    return Err(e);
                },
            }
            return Ok(Statement::Break(BreakStatement {}));
        }
        if self.match_token(&TokenType::Continue) {
            match self.consume(&TokenType::Semicolon, "Expected ';' after continue") {
                Ok(()) => {},
                Err(e) => {
                    return Err(e);
                },
            }
            return Ok(Statement::Continue(ContinueStatement {}));
        }
        self.simple_statement()
    }

    /// The statements of a block, up to (not including) its '}' or the end of input.
    fn block(&mut self) -> (r: Result<Block, CompileError>)
        requires
            old(self).wf(),
        ensures
            final(self).wf(),
            final(self).toks() == old(self).toks(),
            block_agrees(r, grammar::block_s(old(self).toks(), old(self).pos()), final(self).pos()),
            r is Ok ==> old(self).pos() <= final(self).pos(),
        decreases old(self).tokens.len() - old(self).current, 4nat,
    {
        proof { grammar::unfold_block(self.toks(), self.pos()); }
        let mut statements: Vec<Statement> = Vec::new();
        let ghost toks = self.toks();
        let ghost target = grammar::block_items_s(toks, self.pos(), seq![]);
        assert(stmts_view(statements@, statements@.len()) =~= Seq::<SStmt>::empty());
        loop
            invariant
                self.wf(),
                self.toks() == toks,
                toks == old(self).toks(),
                old(self).pos() <= self.pos(),
                target == grammar::block_s(old(self).toks(), old(self).pos()),
                grammar::block_items_s(toks, self.pos(), stmts_view(statements@, statements@.len())) == target,
            decreases self.tokens.len() - self.current,
        {
            proof { grammar::unfold_block_items(toks, self.pos(), stmts_view(statements@, statements@.len())); }
            if self.check(&TokenType::RightBrace) || self.is_at_end() {
                return Ok(Block { statements });
            }
            let st = match self.statement() {
                Ok(x) => x,
                Err(e) => {
                    return Err(e);
                },
            };
            proof { lemma_stmts_view_push(statements@, st); }
            statements.push(st);
        }
    }

    // -----------------------------------------------------------------------
    // Definitions
    // -----------------------------------------------------------------------

    /// The parameters of a function or method, up to (not including) the ')'.
    fn param_list(&mut self) -> (r: Result<Vec<Parameter>, CompileError>)
        requires
            old(self).wf(),
        ensures
            final(self).wf(),
            final(self).toks() == old(self).toks(),
            params_agree(r, grammar::param_list_s(old(self).toks(), old(self).pos()), final(self).pos()),
            r is Ok ==> old(self).pos() <= final(self).pos(),
    {
        proof { grammar::unfold_param_list(self.toks(), self.pos()); }
        let mut params: Vec<Parameter> = Vec::new();
        assert(params_view(params@) =~= Seq::<(Seq<char>, SType)>::empty());
        if self.check(&TokenType::RightParen) {
            return Ok(params);
        }
        let ghost toks = self.toks();
        let ghost target = grammar::param_items_s(toks, self.pos(), seq![]);
        loop
            invariant
                self.wf(),
                self.toks() == toks,
                toks == old(self).toks(),
                old(self).pos() <= self.pos(),
                target == grammar::param_list_s(old(self).toks(), old(self).pos()),
                grammar::param_items_s(toks, self.pos(), params_view(params@)) == target,
            decreases self.tokens.len() - self.current,
        {
            proof { grammar::unfold_param_items(toks, self.pos(), params_view(params@)); }
            let name = match self.consume_identifier("Expected parameter name") {
                Ok(x) => x,
                Err(e) => {
                    return Err(e);
                },
            };
            match self.consume(&TokenType::Colon, "Expected ':' after parameter name") {
                Ok(()) => {},
                Err(e) => {
                    return Err(e);
                },
            }
            let param_type = match self.parse_type() {
                Ok(x) => x,
                Err(e) => {
                    return Err(e);
                },
            };
            let p = Parameter { name, param_type };
            assert(params_view(params@.push(p)) =~= params_view(params@).push((p.name@, p.param_type@)));
            params.push(p);
            if !self.match_token(&TokenType::Comma) {
                return Ok(params);
            }
        }
    }

    /// What follows a parameter list: `) -> type { body }`, with the messages for a missing
    /// ')', '->', '{' and '}'.
    fn signature_tail(
        &mut self,
        close_msg: &str,
        arrow_msg: &str,
        open_msg: &str,
        end_msg: &str,
    ) -> (r: Result<(Type, Block), CompileError>)
        requires
            old(self).wf(),
        ensures
            final(self).wf(),
            final(self).toks() == old(self).toks(),
            match (r, grammar::signature_tail_s(old(self).toks(), old(self).pos(), close_msg@, arrow_msg@, open_msg@, end_msg@)) {
                (Ok((t, b)), Ok(((tv, bv), j))) => t@ == tv && b@ == bv && final(self).pos() == j,
                (Err(e), Err(p)) => is_parse_error(e, p),
                _ => false,
            },
            r is Ok ==> old(self).pos() < final(self).pos(),
    {
        proof { grammar::unfold_signature_tail(self.toks(), self.pos(), close_msg@, arrow_msg@, open_msg@, end_msg@); }
        match self.consume(&TokenType::RightParen, close_msg) {
            Ok(()) => {},
            Err(e) => {
                return Err(e);
            },
        }
        match self.consume(&TokenType::Arrow, arrow_msg) {
            Ok(()) => {},
            Err(e) => {
                return Err(e);
            },
        }
        let return_type = match self.parse_type() {
            Ok(x) => x,
            Err(e) => {
                return Err(e);
            },
        };
        match self.consume(&TokenType::LeftBrace, open_msg) {
            Ok(()) => {},
            Err(e) => {
                return Err(e);
            },
        }
        let body = match self.block() {
            Ok(x) => x,
            Err(e) => {
                return Err(e);
            },
        };
        match self.consume(&TokenType::RightBrace, end_msg) {
            Ok(()) => {},
            Err(e) => {
                return Err(e);
            },
        }
        Ok((return_type, body))
    }

    /// A function definition: `def name(params) -> type { body }`.
    fn function(&mut self) -> (r: Result<Function, CompileError>)
        requires
            old(self).wf(),
        ensures
            final(self).wf(),
            final(self).toks() == old(self).toks(),
            view_agrees(r, grammar::function_s(old(self).toks(), old(self).pos()), final(self).pos()),
            r is Ok ==> old(self).pos() < final(self).pos(),
    {
        proof { grammar::unfold_function(self.toks(), self.pos()); }
        match self.consume(&TokenType::Def, "Expected 'def'") {
            Ok(()) => {},
            Err(e) => {
                return Err(e);
            },
        }
        let name = match self.consume_identifier("Expected function name") {
            Ok(x) => x,
            Err(e) => {
                return Err(e);
            },
        };
        match self.consume(&TokenType::LeftParen, "Expected '('") {
            Ok(()) => {},
            Err(e) => {
                return Err(e);
            },
        }
        let parameters = match self.param_list() {
            Ok(x) => x,
            Err(e) => {
                return Err(e);
            },
        };
        let (return_type, body) = match self.signature_tail("Expected ')'", "Expected '->'", "Expected '{'", "Expected '}'") {
            Ok(x) => x,
            Err(e) => {
                return Err(e);
            },
        };
        Ok(Function { name, parameters, return_type, body })
    }

    /// The self parameter of a method, after its '(': none, `&self` or `&mut self`.
    fn self_param(&mut self) -> (r: Result<Option<SelfParam>, CompileError>)
        requires
            old(self).wf(),
        ensures
            final(self).wf(),
            final(self).toks() == old(self).toks(),
            match (r, grammar::self_param_s(old(self).toks(), old(self).pos())) {
                (Ok(x), Ok((v, j))) => x == v && final(self).pos() == j,
                (Err(e), Err(p)) => is_parse_error(e, p),
                _ => false,
            },
            r is Ok ==> old(self).pos() <= final(self).pos(),
    {
        proof { grammar::unfold_self_param(self.toks(), self.pos()); }
        if self.match_token(&TokenType::Amp) {
            let sp = if self.match_token(&TokenType::Mut) {
                match self.consume(&TokenType::SelfKeyword, "Expected 'self' after '&mut'") {
                    Ok(()) => {},
                    Err(e) => {
                        return Err(e);
                    },
                }
                SelfParam::MutRef
            } else if self.match_token(&TokenType::SelfKeyword) {
                SelfParam::Ref
            } else {
                return Err(Self::error_plain(string_from("Expected 'self' or 'mut self' after '&'")));
            };
            if !self.check(&TokenType::RightParen) {
                match self.consume(&TokenType::Comma, "Expected ',' after self parameter") {
                    Ok(()) => {},
                    Err(e) => {
                        return Err(e);
                    },
                }
            }
            Ok(Some(sp))
        } else if self.check(&TokenType::SelfKeyword) {
            Err(Self::error_plain(string_from("Owned 'self' parameter is not yet implemented. Use '&self' or '&mut self'.")))
        } else {
            Ok(None)
        }
    }

    /// A method definition inside an impl block.
    fn method(&mut self) -> (r: Result<Method, CompileError>)
        requires
            old(self).wf(),
        ensures
            final(self).wf(),
            final(self).toks() == old(self).toks(),
            view_agrees(r, grammar::method_s(old(self).toks(), old(self).pos()), final(self).pos()),
            r is Ok ==> old(self).pos() < final(self).pos(),
    {
        proof { grammar::unfold_method(self.toks(), self.pos()); }
        match self.consume(&TokenType::Def, "Expected 'def' for method") {
            Ok(()) => {},
            Err(e) => {
                return Err(e);
            },
        }
        let name = match self.consume_identifier("Expected method name") {
            Ok(x) => x,
            Err(e) => {
                return Err(e);
            },
        };
        match self.consume(&TokenType::LeftParen, "Expected '(' after method name") {
            Ok(()) => {},
            Err(e) => {
                return Err(e);
            },
        }
        let self_param = match self.self_param() {
            Ok(x) => x,
            Err(e) => {
                return Err(e);
            },
        };
        let parameters = match self.param_list() {
            Ok(x) => x,
            Err(e) => {
                return Err(e);
            },
        };
        let (return_type, body) = match self.signature_tail(
            "Expected ')' after parameters",
            "Expected '->' after method parameters",
            "Expected '{' before method body",
            "Expected '}' after method body",
        ) {
            Ok(x) => x,
            Err(e) => {
                return Err(e);
            },
        };
        Ok(Method { name, self_param, parameters, return_type, body })
    }

    /// The fields of a struct definition, up to its '}'.
    fn struct_fields(&mut self) -> (r: Result<Vec<StructField>, CompileError>)
        requires
            old(self).wf(),
        ensures
            final(self).wf(),
            final(self).toks() == old(self).toks(),
            match (r, grammar::struct_fields_s(old(self).toks(), old(self).pos(), seq![])) {
                (Ok(x), Ok((v, j))) => struct_fields_view(x@) == v && final(self).pos() == j,
                (Err(e), Err(p)) => is_parse_error(e, p),
                _ => false,
            },
            r is Ok ==> old(self).pos() <= final(self).pos(),
    {
        let mut fields: Vec<StructField> = Vec::new();
        let ghost toks = self.toks();
        let ghost target = grammar::struct_fields_s(toks, self.pos(), seq![]);
        assert(struct_fields_view(fields@) =~= Seq::<(Seq<char>, SType)>::empty());
        loop
            invariant
                self.wf(),
                self.toks() == toks,
                toks == old(self).toks(),
                old(self).pos() <= self.pos(),
                target == grammar::struct_fields_s(old(self).toks(), old(self).pos(), seq![]),
                grammar::struct_fields_s(toks, self.pos(), struct_fields_view(fields@)) == target,
            decreases self.tokens.len() - self.current,
        {
            proof { grammar::unfold_struct_fields(toks, self.pos(), struct_fields_view(fields@)); }
            if self.check(&TokenType::RightBrace) || self.is_at_end() {
                return Ok(fields);
            }
            let name = match self.consume_identifier("Expected field name") {
                Ok(x) => x,
                Err(e) => {
                    return Err(e);
                },
            };
            match self.consume(&TokenType::Colon, "Expected ':' after field name") {
                Ok(()) => {},
                Err(e) => {
                    return Err(e);
                },
            }
            let field_type = match self.parse_type() {
                Ok(x) => x,
                Err(e) => {
                    return Err(e);
                },
            };
            let f = StructField { name, field_type };
            assert(struct_fields_view(fields@.push(f)) =~= struct_fields_view(fields@).push((f.name@, f.field_type@)));
            fields.push(f);
            if !self.match_token(&TokenType::Comma) {
                return Ok(fields);
            }
        }
    }

    /// A struct definition: `struct Name { fields }`.
    fn struct_def(&mut self) -> (r: Result<Struct, CompileError>)
        requires
            old(self).wf(),
        ensures
            final(self).wf(),
            final(self).toks() == old(self).toks(),
            view_agrees(r, grammar::struct_def_s(old(self).toks(), old(self).pos()), final(self).pos()),
            r is Ok ==> old(self).pos() < final(self).pos(),
    {
        proof { grammar::unfold_struct_def(self.toks(), self.pos()); }
        match self.consume(&TokenType::Struct, "Expected 'struct'") {
            Ok(()) => {},
            Err(e) => {
                return Err(e);
            },
        }
        let name = match self.consume_identifier("Expected struct name") {
            Ok(x) => x,
            Err(e) => {
                return Err(e);
            },
        };
        match self.consume(&TokenType::LeftBrace, "Expected '{' after struct name") {
            Ok(()) => {},
            Err(e) => {
                return Err(e);
            },
        }
        let fields = match self.struct_fields() {
            Ok(x) => x,
            Err(e) => {
                return Err(e);
            },
        };
        match self.consume(&TokenType::RightBrace, "Expected '}' after struct fields") {
            Ok(()) => {},
            Err(e) => {
                return Err(e);
            },
        }
        Ok(Struct { name, fields })
    }

    /// The methods of an impl block, up to its '}'.
    fn impl_methods(&mut self) -> (r: Result<Vec<Method>, CompileError>)
        requires
            old(self).wf(),
        ensures
            final(self).wf(),
            final(self).toks() == old(self).toks(),
            match (r, grammar::impl_methods_s(old(self).toks(), old(self).pos(), seq![])) {
                (Ok(x), Ok((v, j))) => methods_view(x@) == v && final(self).pos() == j,
                (Err(e), Err(p)) => is_parse_error(e, p),
                _ => false,
            },
            r is Ok ==> old(self).pos() <= final(self).pos(),
    {
        let mut methods: Vec<Method> = Vec::new();
        let ghost toks = self.toks();
        let ghost target = grammar::impl_methods_s(toks, self.pos(), seq![]);
        assert(methods_view(methods@) =~= Seq::<SMethod>::empty());
        loop
            invariant
                self.wf(),
                self.toks() == toks,
                toks == old(self).toks(),
                old(self).pos() <= self.pos(),
                target == grammar::impl_methods_s(old(self).toks(), old(self).pos(), seq![]),
                grammar::impl_methods_s(toks, self.pos(), methods_view(methods@)) == target,
            decreases self.tokens.len() - self.current,
        {
            proof { grammar::unfold_impl_methods(toks, self.pos(), methods_view(methods@)); }
            if self.check(&TokenType::RightBrace) || self.is_at_end() {
                return Ok(methods);
            }
            let m = match self.method() {
                Ok(x) => x,
                Err(e) => {
                    return Err(e);
                },
            };
            let ghost mv = m@;
            assert(methods_view(methods@.push(m)) =~= methods_view(methods@).push(mv));
            methods.push(m);
        }
    }

    /// An impl block: `impl Name { methods }`.
    fn impl_block(&mut self) -> (r: Result<Impl, CompileError>)
        requires
            old(self).wf(),
        ensures
            final(self).wf(),
            final(self).toks() == old(self).toks(),
            view_agrees(r, grammar::impl_block_s(old(self).toks(), old(self).pos()), final(self).pos()),
            r is Ok ==> old(self).pos() < final(self).pos(),
    {
        proof { grammar::unfold_impl_block(self.toks(), self.pos()); }
        match self.consume(&TokenType::Impl, "Expected 'impl'") {
            Ok(()) => {},
            Err(e) => {
                return Err(e);
            },
        }
        let struct_name = match self.consume_identifier("Expected struct name after 'impl'") {
            Ok(x) => x,
            Err(e) => {
                return Err(e);
            },
        };
        match self.consume(&TokenType::LeftBrace, "Expected '{' after impl struct name") {
            Ok(()) => {},
            Err(e) => {
                return Err(e);
            },
        }
        let methods = match self.impl_methods() {
            Ok(x) => x,
            Err(e) => {
                return Err(e);
            },
        };
        match self.consume(&TokenType::RightBrace, "Expected '}' after impl methods") {
            Ok(()) => {},
            Err(e) => {
                return Err(e);
            },
        }
        Ok(Impl { struct_name, methods })
    }

    /// The top-level definitions from the current token to the end of input.
    fn program_items(&mut self) -> (r: Result<Program, CompileError>)
        requires
            old(self).wf(),
            old(self).pos() == 0,
        ensures
            match (r, grammar::program_s(old(self).toks())) {
                (Ok(p), Ok(sp)) => p@ == sp,
                (Err(e), Err(pe)) => is_parse_error(e, pe),
                _ => false,
            },
    {
        proof { grammar::unfold_program(self.toks()); }
        let mut structs: Vec<Struct> = Vec::new();
        let mut impls: Vec<Impl> = Vec::new();
        let mut functions: Vec<Function> = Vec::new();
        let ghost toks = self.toks();
        let ghost target = grammar::program_s(toks);
        assert(structs_view(structs@) =~= Seq::<SStruct>::empty());
        assert(impls_view(impls@) =~= Seq::<SImpl>::empty());
        assert(functions_view(functions@) =~= Seq::<SFunction>::empty());
        loop
            invariant
                self.wf(),
                self.toks() == toks,
                toks == old(self).toks(),
                target == grammar::program_s(toks),
                grammar::program_items_s(toks, self.pos(), SProgram {
                    structs: structs_view(structs@),
                    impls: impls_view(impls@),
                    functions: functions_view(functions@),
                }) == target,
            decreases self.tokens.len() - self.current,
        {
            let ghost acc = SProgram {
                structs: structs_view(structs@),
                impls: impls_view(impls@),
                functions: functions_view(functions@),
            };
            proof { grammar::unfold_program_items(toks, self.pos(), acc); }
            if self.is_at_end() {
                let p = Program { structs, impls, functions };
                assert(p@ == acc);
                return Ok(p);
            }
            if self.check(&TokenType::Struct) {
                let s = match self.struct_def() {
                    Ok(x) => x,
                    Err(e) => {
                        return Err(e);
                    },
                };
                let ghost sv = s@;
                assert(structs_view(structs@.push(s)) =~= acc.structs.push(sv));
                structs.push(s);
            } else if self.check(&TokenType::Impl) {
                let m = match self.impl_block() {
                    Ok(x) => x,
                    Err(e) => {
                        return Err(e);
                    },
                };
                let ghost mv = m@;
                assert(impls_view(impls@.push(m)) =~= acc.impls.push(mv));
                impls.push(m);
            } else if self.check(&TokenType::Def) {
                let f = match self.function() {
                    Ok(x) => x,
                    Err(e) => {
                        return Err(e);
                    },
                };
                let ghost fv = f@;
                assert(functions_view(functions@.push(f)) =~= acc.functions.push(fv));
                functions.push(f);
            } else {
                return Err(Self::error_plain(string_from("Expected struct, impl, or function definition")));
            }
        }
    }
    /// Parses a whole program: the structs, impl blocks and functions up to the end of input,
    /// or the first parse error (with the location of the token where it arose, when known).
    pub fn parse_program(self) -> (r: Result<Program, CompileError>)
        requires
            self.wf(),
            self.pos() == 0,
        ensures
            match (r, grammar::program(self.toks())) {
                (Ok(p), Ok(sp)) => p@ == sp,
                (Err(e), Err(pe)) => is_parse_error(e, pe),
                _ => false,
            },
    {
        proof { reveal(grammar::program_s); }
        let mut p = self;
        p.program_items()
    }

    /// Parses a whole program; the error is the message of the first parse error.
    pub fn parse(self) -> (r: Result<Program, String>)
        requires
            self.wf(),
            self.pos() == 0,
        ensures
            match (r, grammar::program(self.toks())) {
                (Ok(p), Ok(sp)) => p@ == sp,
                (Err(e), Err(pe)) => e@ == pe.message,
                _ => false,
            },
    {
        match self.parse_program() {
            Ok(p) => Ok(p),
            Err(e) => Err(e.message),
        }
    }

}

} // verus!
