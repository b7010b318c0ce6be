use vstd::prelude::*;

use crate::helper::text::{nat_decimal, push_char, string_from, usize_to_string};

verus! {

/// A location in source code, recorded on some nodes of the tree.
#[derive(Debug, Clone, Copy, PartialEq, Eq)]
pub struct Span {
    pub line: usize,
    pub column: usize,
}

impl Span {
    pub fn new(line: usize, column: usize) -> (s: Span)
        ensures
            s.line == line,
            s.column == column,
    {
        Span { line, column }
    }
}

/// A whole program: struct definitions, impl blocks and functions, in source order.
#[derive(Debug, Clone, PartialEq)]
pub struct Program {
    pub structs: Vec<Struct>,
    pub impls: Vec<Impl>,
    pub functions: Vec<Function>,
}

#[derive(Debug, Clone, PartialEq)]
pub struct Struct {
    pub name: String,
    pub fields: Vec<StructField>,
}

#[derive(Debug, Clone, PartialEq)]
pub struct StructField {
    pub name: String,
    pub field_type: Type,
}

#[derive(Debug, Clone, PartialEq)]
pub struct Impl {
    pub struct_name: String,
    pub methods: Vec<Method>,
}

#[derive(Debug, Clone, PartialEq)]
pub struct Method {
    pub name: String,
    /// `None` for an associated function.
    pub self_param: Option<SelfParam>,
    pub parameters: Vec<Parameter>,
    pub return_type: Type,
    pub body: Block,
}

#[derive(Debug, Clone, Copy, PartialEq, Eq)]
pub enum SelfParam {
    /// `self` (not supported yet)
    Owned,
    /// `&self`
    Ref,
    /// `&mut self`
    MutRef,
}

#[derive(Debug, Clone, PartialEq)]
pub struct Function {
    pub name: String,
    pub parameters: Vec<Parameter>,
    pub return_type: Type,
    pub body: Block,
}

#[derive(Debug, Clone, PartialEq)]
pub struct Parameter {
    pub name: String,
    pub param_type: Type,
}

/// A type of the language.
#[derive(Debug, PartialEq)]
pub enum Type {
    I8,
    I16,
    I32,
    I64,
    U8,
    U16,
    U32,
    U64,
    F32,
    F64,
    Bool,
    Void,
    String,
    /// A user-defined struct type.
    Struct(String),
    /// `[N]T` when `size` is `Some(N)`; the slice type `[]T` when it is `None`.
    Array { element_type: Box<Type>, size: Option<usize> },
}

/// The mathematical image of a `Type`: names as character sequences.
pub enum SType {
    I8,
    I16,
    I32,
    I64,
    U8,
    U16,
    U32,
    U64,
    F32,
    F64,
    Bool,
    Void,
    String,
    Struct(Seq<char>),
    Array(Box<SType>, Option<nat>),
}

/// The image of a type.
pub open spec fn type_view(t: Type) -> SType
    decreases t,
{
    match t {
        Type::I8 => SType::I8,
        Type::I16 => SType::I16,
        Type::I32 => SType::I32,
        Type::I64 => SType::I64,
        Type::U8 => SType::U8,
        Type::U16 => SType::U16,
        Type::U32 => SType::U32,
        Type::U64 => SType::U64,
        Type::F32 => SType::F32,
        Type::F64 => SType::F64,
        Type::Bool => SType::Bool,
        Type::Void => SType::Void,
        Type::String => SType::String,
        Type::Struct(name) => SType::Struct(name@),
        Type::Array { element_type, size } => SType::Array(
            Box::new(type_view(*element_type)),
            match size { Some(n) => Some(n as nat), None => None },
        ),
    }
}

/// The position of a type's variant among the variants of `Type`.
pub open spec fn type_tag(t: Type) -> nat {
    match t {
        Type::I8 => 0,
        Type::I16 => 1,
        Type::I32 => 2,
        Type::I64 => 3,
        Type::U8 => 4,
        Type::U16 => 5,
        Type::U32 => 6,
        Type::U64 => 7,
        Type::F32 => 8,
        Type::F64 => 9,
        Type::Bool => 10,
        Type::Void => 11,
        Type::String => 12,
        Type::Struct(_) => 13,
        Type::Array { .. } => 14,
    }
}

impl View for Type {
    type V = SType;

    open spec fn view(&self) -> SType {
        type_view(*self)
    }
}

/// The name of a type as the language writes it: `i32`, `Point`, `[3]i32`, `[]bool`.
pub open spec fn type_text(t: SType) -> Seq<char>
    decreases t,
{
    match t {
        SType::I8 => "i8"@,
        SType::I16 => "i16"@,
        SType::I32 => "i32"@,
        SType::I64 => "i64"@,
        SType::U8 => "u8"@,
        SType::U16 => "u16"@,
        SType::U32 => "u32"@,
        SType::U64 => "u64"@,
        SType::F32 => "f32"@,
        SType::F64 => "f64"@,
        SType::Bool => "bool"@,
        SType::Void => "void"@,
        SType::String => "string"@,
        SType::Struct(name) => name,
        SType::Array(element, size) => match size {
            Some(n) => seq!['['] + nat_decimal(n) + seq![']'] + type_text(*element),
            None => "[]"@ + type_text(*element),
        },
    }
}

/// `s` with each '*' replaced by "ptr" and each ' ' by '_'.
pub open spec fn slice_name_part(s: Seq<char>) -> Seq<char>
    decreases s.len(),
{
    if s.len() == 0 {
        seq![]
    } else {
        let c = s.last();
        let rest = slice_name_part(s.drop_last());
        if c == '*' {
            rest + "ptr"@
        } else if c == ' ' {
            rest.push('_')
        } else {
            rest.push(c)
        }
    }
}

/// The C type that stands for a type. A fixed-size array stands for its element type (its
/// size is written with the variable); a slice `[]T` is the struct `Slice_T`.
pub open spec fn c_type_text(t: SType) -> Seq<char>
    decreases t,
{
    match t {
        SType::I8 => "int8_t"@,
        SType::I16 => "int16_t"@,
        SType::I32 => "int32_t"@,
        SType::I64 => "int64_t"@,
        SType::U8 => "uint8_t"@,
        SType::U16 => "uint16_t"@,
        SType::U32 => "uint32_t"@,
        SType::U64 => "uint64_t"@,
        SType::F32 => "float"@,
        SType::F64 => "double"@,
        SType::Bool => "bool"@,
        SType::Void => "void"@,
        SType::String => "char*"@,
        SType::Struct(name) => name,
        SType::Array(element, size) => match size {
            Some(_) => c_type_text(*element),
            None => "Slice_"@ + slice_name_part(c_type_text(*element)),
        },
    }
}

/// The text `s` with '*' replaced by "ptr" and ' ' by '_', as used in slice struct names.
pub fn slice_name_of(s: &String) -> (r: String)
    ensures
        r@ == slice_name_part(s@),
{
    let cs = crate::helper::text::chars_of(s.as_str());
    let mut r = String::new();
    let mut i: usize = 0;
    while i < cs.len()
        invariant
            cs@ == s@,
            i <= cs.len(),
            r@ == slice_name_part(cs@.take(i as int)),
        decreases cs.len() - i,
    {
        let c = cs[i];
        assert(cs@.take(i + 1).drop_last() =~= cs@.take(i as int));
        if c == '*' {
            r.append("ptr");
        } else if c == ' ' {
            push_char(&mut r, '_');
        } else {
            push_char(&mut r, c);
        }
        i += 1;
    }
    assert(cs@.take(cs.len() as int) =~= cs@);
    r
}

impl Clone for Type {
    /// A copy of this type (see `duplicate`).
    fn clone(&self) -> (r: Type)
        ensures
            r == *self,
    {
        self.duplicate()
    }
}

impl Type {
    /// A copy of this type.
    pub fn duplicate(&self) -> (r: Type)
        ensures
            r == *self,
        decreases self,
    {
        match self {
            Type::I8 => Type::I8,
            Type::I16 => Type::I16,
            Type::I32 => Type::I32,
            Type::I64 => Type::I64,
            Type::U8 => Type::U8,
            Type::U16 => Type::U16,
            Type::U32 => Type::U32,
            Type::U64 => Type::U64,
            Type::F32 => Type::F32,
            Type::F64 => Type::F64,
            Type::Bool => Type::Bool,
            Type::Void => Type::Void,
            Type::String => Type::String,
            Type::Struct(name) => Type::Struct(name.clone()),
            Type::Array { element_type, size } => Type::Array {
                element_type: Box::new(element_type.duplicate()),
                size: *size,
            },
        }
    }

    /// Whether this type and `other` are the same type.
    pub fn same_as(&self, other: &Type) -> (r: bool)
        ensures
            r == (self@ == other@),
        decreases self,
    {
        match self {
            Type::Struct(x) => match other {
                Type::Struct(y) => x.eq(y),
                _ => false,
            },
            Type::Array { element_type: e1, size: s1 } => match other {
                Type::Array { element_type: e2, size: s2 } => {
                    let same_size = match (s1, s2) {
                        (Some(a), Some(b)) => *a == *b,
                        (None, None) => true,
                        _ => false,
                    };
                    same_size && e1.same_as(e2)
                },
                _ => false,
            },
            _ => self.tag() == other.tag(),
        }
    }

    /// The position of this type's variant among the variants of `Type`.
    fn tag(&self) -> (r: u8)
        ensures
            r as nat == type_tag(*self),
    {
        match self {
            Type::I8 => 0,
            Type::I16 => 1,
            Type::I32 => 2,
            Type::I64 => 3,
            Type::U8 => 4,
            Type::U16 => 5,
            Type::U32 => 6,
            Type::U64 => 7,
            Type::F32 => 8,
            Type::F64 => 9,
            Type::Bool => 10,
            Type::Void => 11,
            Type::String => 12,
            Type::Struct(_) => 13,
            Type::Array { .. } => 14,
        }
    }

    /// The name of this type as the language writes it.
    pub fn to_string(&self) -> (r: String)
        ensures
            r@ == type_text(self@),
        decreases self,
    {
        match self {
            Type::I8 => string_from("i8"),
            Type::I16 => string_from("i16"),
            Type::I32 => string_from("i32"),
            Type::I64 => string_from("i64"),
            Type::U8 => string_from("u8"),
            Type::U16 => string_from("u16"),
            Type::U32 => string_from("u32"),
            Type::U64 => string_from("u64"),
            Type::F32 => string_from("f32"),
            Type::F64 => string_from("f64"),
            Type::Bool => string_from("bool"),
            Type::Void => string_from("void"),
            Type::String => string_from("string"),
            Type::Struct(name) => name.clone(),
            Type::Array { element_type, size } => {
                let inner = element_type.to_string();
                match size {
                    Some(n) => {
                        let mut r = String::new();
                        push_char(&mut r, '[');
                        r.append(usize_to_string(*n).as_str());
                        push_char(&mut r, ']');
                        r.append(inner.as_str());
                        r
                    },
                    None => {
                        let mut r = string_from("[]");
                        r.append(inner.as_str());
                        r
                    },
                }
            },
        }
    }

    /// The C type that stands for this type.
    pub fn to_c_type(&self) -> (r: String)
        ensures
            r@ == c_type_text(self@),
        decreases self,
    {
        match self {
            Type::I8 => string_from("int8_t"),
            Type::I16 => string_from("int16_t"),
            Type::I32 => string_from("int32_t"),
            Type::I64 => string_from("int64_t"),
            Type::U8 => string_from("uint8_t"),
            Type::U16 => string_from("uint16_t"),
            Type::U32 => string_from("uint32_t"),
            Type::U64 => string_from("uint64_t"),
            Type::F32 => string_from("float"),
            Type::F64 => string_from("double"),
            Type::Bool => string_from("bool"),
            Type::Void => string_from("void"),
            Type::String => string_from("char*"),
            Type::Struct(name) => name.clone(),
            Type::Array { element_type, size } => match size {
                Some(_) => element_type.to_c_type(),
                None => {
                    let inner = element_type.to_c_type();
                    let mut r = string_from("Slice_");
                    r.append(slice_name_of(&inner).as_str());
                    r
                },
            },
        }
    }
}

#[derive(Debug, Clone, PartialEq)]
pub struct Block {
    pub statements: Vec<Statement>,
}

#[derive(Debug, PartialEq)]
pub enum Statement {
    Return(ReturnStatement),
    VarDecl(VarDeclStatement),
    Assignment(AssignmentStatement),
    If(IfStatement),
    While(WhileStatement),
    Loop(LoopStatement),
    For(ForStatement),
    Break(BreakStatement),
    Continue(ContinueStatement),
    /// An expression used as a statement (a call).
    Expression(Expression),
}

#[derive(Debug, Clone, PartialEq)]
pub struct ReturnStatement {
    pub value: Option<Expression>,
}

#[derive(Debug, Clone, PartialEq)]
pub struct VarDeclStatement {
    /// `true` for `var`, `false` for `val`.
    pub is_mutable: bool,
    pub name: String,
    /// `None` until the type checker fills in an inferred type.
    pub var_type: Option<Type>,
    pub initializer: Option<Expression>,
}

#[derive(Debug, Clone, PartialEq)]
pub enum AssignmentTarget {
    Variable(String),
    FieldAccess(FieldAccessExpression),
    Index(IndexExpression),
}

#[derive(Debug, Clone, PartialEq)]
pub struct AssignmentStatement {
    pub target: AssignmentTarget,
    pub value: Expression,
    pub span: Option<Span>,
}

#[derive(Debug, Clone, PartialEq)]
pub struct IfStatement {
    pub condition: Expression,
    pub then_block: Block,
    pub else_block: Option<Block>,
}

/// An expression. A floating-point literal keeps its decimal text.
#[derive(Debug, PartialEq)]
pub enum Expression {
    IntLiteral(i64),
    FloatLiteral(String),
    BoolLiteral(bool),
    StringLiteral(String),
    Variable(String),
    Binary(BinaryExpression),
    Unary(UnaryExpression),
    Call(CallExpression),
    FieldAccess(FieldAccessExpression),
    MethodCall(MethodCallExpression),
    AssociatedCall(AssociatedCallExpression),
    StructLiteral(StructLiteralExpression),
    MacroCall(MacroCallExpression),
    ArrayLiteral(ArrayLiteralExpression),
    Index(IndexExpression),
    /// `&expr`, which makes a slice of an array.
    Reference(ReferenceExpression),
}

#[derive(Debug, Clone, PartialEq)]
pub struct BinaryExpression {
    pub left: Box<Expression>,
    pub operator: BinaryOperator,
    pub right: Box<Expression>,
}

#[derive(Debug, Clone, Copy, PartialEq, Eq)]
pub enum BinaryOperator {
    Add,
    Subtract,
    Multiply,
    Divide,
    Modulo,
    Equal,
    NotEqual,
    Less,
    Greater,
    LessEqual,
    GreaterEqual,
    And,
    Or,
}

#[derive(Debug, Clone, PartialEq)]
pub struct UnaryExpression {
    pub operator: UnaryOperator,
    pub operand: Box<Expression>,
}

#[derive(Debug, Clone, Copy, PartialEq, Eq)]
pub enum UnaryOperator {
    Not,
    Negate,
}

#[derive(Debug, Clone, PartialEq)]
pub struct CallExpression {
    pub callee: String,
    pub arguments: Vec<Expression>,
}

#[derive(Debug, Clone, PartialEq)]
pub struct WhileStatement {
    pub condition: Expression,
    pub body: Block,
}

#[derive(Debug, Clone, PartialEq)]
pub struct LoopStatement {
    pub body: Block,
}

#[derive(Debug, Clone, PartialEq)]
pub struct ForStatement {
    pub variable: String,
    pub iterable: ForIterable,
    pub body: Block,
}

#[derive(Debug, Clone, PartialEq)]
pub enum ForIterable {
    /// `start..end`
    Range(Box<Expression>, Box<Expression>),
    /// An array literal or an array variable.
    Expression(Box<Expression>),
}

#[derive(Debug, Clone, PartialEq)]
pub struct BreakStatement {}

#[derive(Debug, Clone, PartialEq)]
pub struct ContinueStatement {}

#[derive(Debug, Clone, PartialEq)]
pub struct FieldAccessExpression {
    pub object: Box<Expression>,
    pub field: String,
    pub span: Option<Span>,
}

#[derive(Debug, Clone, PartialEq)]
pub struct MethodCallExpression {
    pub object: Box<Expression>,
    pub method: String,
    pub arguments: Vec<Expression>,
    pub span: Option<Span>,
}

#[derive(Debug, Clone, PartialEq)]
pub struct AssociatedCallExpression {
    pub type_ident: String,
    pub function: String,
    pub arguments: Vec<Expression>,
    pub span: Option<Span>,
}

#[derive(Debug, Clone, PartialEq)]
pub struct StructLiteralExpression {
    pub struct_name: String,
    pub fields: Vec<StructLiteralField>,
    pub span: Option<Span>,
}

#[derive(Debug, Clone, PartialEq)]
pub struct StructLiteralField {
    pub name: String,
    pub value: Expression,
}

#[derive(Debug, Clone, PartialEq)]
pub struct MacroCallExpression {
    /// "print", "println", "format", "panic", "len" or "copy".
    pub macro_name: String,
    pub arguments: Vec<Expression>,
    pub span: Option<Span>,
}

#[derive(Debug, Clone, PartialEq)]
pub struct ArrayLiteralExpression {
    pub elements: Vec<Expression>,
    pub span: Option<Span>,
}

#[derive(Debug, Clone, PartialEq)]
pub struct IndexExpression {
    pub array: Box<Expression>,
    pub index: Box<Expression>,
    pub span: Option<Span>,
}

#[derive(Debug, Clone, PartialEq)]
pub struct ReferenceExpression {
    pub inner: Box<Expression>,
    pub span: Option<Span>,
}

// ---------------------------------------------------------------------------
// The mathematical image of the tree.
// ---------------------------------------------------------------------------

/// The image of an expression.
pub enum SExpr {
    IntLiteral(int),
    FloatLiteral(Seq<char>),
    BoolLiteral(bool),
    StringLiteral(Seq<char>),
    Variable(Seq<char>),
    Binary(Box<SExpr>, BinaryOperator, Box<SExpr>),
    Unary(UnaryOperator, Box<SExpr>),
    Call(Seq<char>, Seq<SExpr>),
    FieldAccess(Box<SExpr>, Seq<char>, Option<Span>),
    MethodCall(Box<SExpr>, Seq<char>, Seq<SExpr>, Option<Span>),
    AssociatedCall(Seq<char>, Seq<char>, Seq<SExpr>, Option<Span>),
    StructLiteral(Seq<char>, Seq<(Seq<char>, SExpr)>, Option<Span>),
    MacroCall(Seq<char>, Seq<SExpr>, Option<Span>),
    ArrayLiteral(Seq<SExpr>, Option<Span>),
    Index(Box<SExpr>, Box<SExpr>, Option<Span>),
    Reference(Box<SExpr>, Option<Span>),
}

/// The image of an expression.
pub open spec fn expr_view(e: Expression) -> SExpr
    decreases e, 0nat,
{
    match e {
        Expression::IntLiteral(v) => SExpr::IntLiteral(v as int),
        Expression::FloatLiteral(t) => SExpr::FloatLiteral(t@),
        Expression::BoolLiteral(b) => SExpr::BoolLiteral(b),
        Expression::StringLiteral(t) => SExpr::StringLiteral(t@),
        Expression::Variable(n) => SExpr::Variable(n@),
        Expression::Binary(b) => SExpr::Binary(Box::new(expr_view(*b.left)), b.operator, Box::new(expr_view(*b.right))),
        Expression::Unary(u) => SExpr::Unary(u.operator, Box::new(expr_view(*u.operand))),
        Expression::Call(c) => SExpr::Call(c.callee@, exprs_view(c.arguments@, c.arguments@.len())),
        Expression::FieldAccess(f) => SExpr::FieldAccess(Box::new(expr_view(*f.object)), f.field@, f.span),
        Expression::MethodCall(m) => SExpr::MethodCall(
            Box::new(expr_view(*m.object)), m.method@, exprs_view(m.arguments@, m.arguments@.len()), m.span),
        Expression::AssociatedCall(a) => SExpr::AssociatedCall(
            a.type_ident@, a.function@, exprs_view(a.arguments@, a.arguments@.len()), a.span),
        Expression::StructLiteral(l) => SExpr::StructLiteral(
            l.struct_name@, fields_view(l.fields@, l.fields@.len()), l.span),
        Expression::MacroCall(m) => SExpr::MacroCall(m.macro_name@, exprs_view(m.arguments@, m.arguments@.len()), m.span),
        Expression::ArrayLiteral(a) => SExpr::ArrayLiteral(exprs_view(a.elements@, a.elements@.len()), a.span),
        Expression::Index(x) => SExpr::Index(Box::new(expr_view(*x.array)), Box::new(expr_view(*x.index)), x.span),
        Expression::Reference(r) => SExpr::Reference(Box::new(expr_view(*r.inner)), r.span),
    }
}

/// The images of the first `n` expressions of `s`.
pub open spec fn exprs_view(s: Seq<Expression>, n: nat) -> Seq<SExpr>
    decreases s, n,
{
    if n == 0 || n > s.len() {
        seq![]
    } else {
        exprs_view(s, (n - 1) as nat).push(expr_view(s[n - 1]))
    }
}

/// The images of the first `n` fields of a struct literal.
pub open spec fn fields_view(s: Seq<StructLiteralField>, n: nat) -> Seq<(Seq<char>, SExpr)>
    decreases s, n,
{
    if n == 0 || n > s.len() {
        seq![]
    } else {
        fields_view(s, (n - 1) as nat).push((s[n - 1].name@, expr_view(s[n - 1].value)))
    }
}

impl View for Expression {
    type V = SExpr;

    open spec fn view(&self) -> SExpr {
        expr_view(*self)
    }
}

/// The image of an assignment target.
pub enum STarget {
    Variable(Seq<char>),
    FieldAccess(Box<SExpr>, Seq<char>, Option<Span>),
    Index(Box<SExpr>, Box<SExpr>, Option<Span>),
}

/// The image of what a `for` loop walks over.
pub enum SIterable {
    Range(SExpr, SExpr),
    Expression(SExpr),
}

/// The image of a statement.
pub enum SStmt {
    Return(Option<SExpr>),
    VarDecl(bool, Seq<char>, Option<SType>, Option<SExpr>),
    Assignment(STarget, SExpr, Option<Span>),
    If(SExpr, Seq<SStmt>, Option<Seq<SStmt>>),
    While(SExpr, Seq<SStmt>),
    Loop(Seq<SStmt>),
    For(Seq<char>, SIterable, Seq<SStmt>),
    Break,
    Continue,
    Expression(SExpr),
}

/// The image of an optional expression.
pub open spec fn opt_expr_view(e: Option<Expression>) -> Option<SExpr> {
    match e {
        Some(x) => Some(expr_view(x)),
        None => None,
    }
}

/// The image of an optional type.
pub open spec fn opt_type_view(t: Option<Type>) -> Option<SType> {
    match t {
        Some(x) => Some(type_view(x)),
        None => None,
    }
}

/// The image of an assignment target.
pub open spec fn target_view(t: AssignmentTarget) -> STarget {
    match t {
        AssignmentTarget::Variable(n) => STarget::Variable(n@),
        AssignmentTarget::FieldAccess(f) => STarget::FieldAccess(Box::new(expr_view(*f.object)), f.field@, f.span),
        AssignmentTarget::Index(x) => STarget::Index(Box::new(expr_view(*x.array)), Box::new(expr_view(*x.index)), x.span),
    }
}

/// The image of what a `for` loop walks over.
pub open spec fn iterable_view(it: ForIterable) -> SIterable {
    match it {
        ForIterable::Range(a, b) => SIterable::Range(expr_view(*a), expr_view(*b)),
        ForIterable::Expression(e) => SIterable::Expression(expr_view(*e)),
    }
}

/// The image of a statement.
pub open spec fn stmt_view(s: Statement) -> SStmt
    decreases s, 0nat,
{
    match s {
        Statement::Return(r) => SStmt::Return(opt_expr_view(r.value)),
        Statement::VarDecl(d) => SStmt::VarDecl(d.is_mutable, d.name@, opt_type_view(d.var_type), opt_expr_view(d.initializer)),
        Statement::Assignment(a) => SStmt::Assignment(target_view(a.target), expr_view(a.value), a.span),
        Statement::If(i) => SStmt::If(
            expr_view(i.condition),
            stmts_view(i.then_block.statements@, i.then_block.statements@.len()),
            match i.else_block {
                Some(b) => Some(stmts_view(b.statements@, b.statements@.len())),
                None => None,
            },
        ),
        Statement::While(w) => SStmt::While(expr_view(w.condition), stmts_view(w.body.statements@, w.body.statements@.len())),
        Statement::Loop(l) => SStmt::Loop(stmts_view(l.body.statements@, l.body.statements@.len())),
        Statement::For(f) => SStmt::For(
            f.variable@,
            match f.iterable {
                ForIterable::Range(a, b) => SIterable::Range(expr_view(*a), expr_view(*b)),
                ForIterable::Expression(e) => SIterable::Expression(expr_view(*e)),
            },
            stmts_view(f.body.statements@, f.body.statements@.len()),
        ),
        Statement::Break(_) => SStmt::Break,
        Statement::Continue(_) => SStmt::Continue,
        Statement::Expression(e) => SStmt::Expression(expr_view(e)),
    }
}

/// The images of the first `n` statements of `s`.
pub open spec fn stmts_view(s: Seq<Statement>, n: nat) -> Seq<SStmt>
    decreases s, n,
{
    if n == 0 || n > s.len() {
        seq![]
    } else {
        stmts_view(s, (n - 1) as nat).push(stmt_view(s[n - 1]))
    }
}

impl View for Statement {
    type V = SStmt;

    open spec fn view(&self) -> SStmt {
        stmt_view(*self)
    }
}

impl View for Block {
    type V = Seq<SStmt>;

    open spec fn view(&self) -> Seq<SStmt> {
        stmts_view(self.statements@, self.statements@.len())
    }
}

/// The image of a parameter list: names and types.
pub open spec fn params_view(s: Seq<Parameter>) -> Seq<(Seq<char>, SType)> {
    s.map_values(|p: Parameter| (p.name@, type_view(p.param_type)))
}

/// The image of a struct's field list: names and types.
pub open spec fn struct_fields_view(s: Seq<StructField>) -> Seq<(Seq<char>, SType)> {
    s.map_values(|f: StructField| (f.name@, type_view(f.field_type)))
}

/// The image of a function.
pub struct SFunction {
    pub name: Seq<char>,
    pub parameters: Seq<(Seq<char>, SType)>,
    pub return_type: SType,
    pub body: Seq<SStmt>,
}

/// The image of a method.
pub struct SMethod {
    pub name: Seq<char>,
    pub self_param: Option<SelfParam>,
    pub parameters: Seq<(Seq<char>, SType)>,
    pub return_type: SType,
    pub body: Seq<SStmt>,
}

/// The image of a struct definition.
pub struct SStruct {
    pub name: Seq<char>,
    pub fields: Seq<(Seq<char>, SType)>,
}

/// The image of an impl block.
pub struct SImpl {
    pub struct_name: Seq<char>,
    pub methods: Seq<SMethod>,
}

/// The image of a program.
pub struct SProgram {
    pub structs: Seq<SStruct>,
    pub impls: Seq<SImpl>,
    pub functions: Seq<SFunction>,
}

/// The images of methods.
pub open spec fn methods_view(s: Seq<Method>) -> Seq<SMethod> {
    s.map_values(|m: Method| m@)
}

/// The images of struct definitions.
pub open spec fn structs_view(s: Seq<Struct>) -> Seq<SStruct> {
    s.map_values(|x: Struct| x@)
}

/// The images of impl blocks.
pub open spec fn impls_view(s: Seq<Impl>) -> Seq<SImpl> {
    s.map_values(|x: Impl| x@)
}

/// The images of functions.
pub open spec fn functions_view(s: Seq<Function>) -> Seq<SFunction> {
    s.map_values(|f: Function| f@)
}

impl View for Function {
    type V = SFunction;

    open spec fn view(&self) -> SFunction {
        SFunction {
            name: self.name@,
            parameters: params_view(self.parameters@),
            return_type: self.return_type@,
            body: self.body@,
        }
    }
}

impl View for Method {
    type V = SMethod;

    open spec fn view(&self) -> SMethod {
        SMethod {
            name: self.name@,
            self_param: self.self_param,
            parameters: params_view(self.parameters@),
            return_type: self.return_type@,
            body: self.body@,
        }
    }
}

impl View for Struct {
    type V = SStruct;

    open spec fn view(&self) -> SStruct {
        SStruct { name: self.name@, fields: struct_fields_view(self.fields@) }
    }
}

impl View for Impl {
    type V = SImpl;

    open spec fn view(&self) -> SImpl {
        SImpl { struct_name: self.struct_name@, methods: methods_view(self.methods@) }
    }
}

impl View for Program {
    type V = SProgram;

    open spec fn view(&self) -> SProgram {
        SProgram {
            structs: structs_view(self.structs@),
            impls: impls_view(self.impls@),
            functions: functions_view(self.functions@),
        }
    }
}

/// The images of a sequence of expressions are the images of its elements.
pub proof fn lemma_exprs_view(s: Seq<Expression>, n: nat)
    requires
        n <= s.len(),
    ensures
        exprs_view(s, n).len() == n,
        forall|i: int| 0 <= i < n ==> #[trigger] exprs_view(s, n)[i] == expr_view(s[i]),
    decreases n,
{
    if n > 0 {
        lemma_exprs_view(s, (n - 1) as nat);
    }
}

/// The image of the first `n` expressions does not depend on what follows them.
pub proof fn lemma_exprs_view_prefix(s: Seq<Expression>, t: Seq<Expression>, n: nat)
    requires
        n <= s.len(),
        n <= t.len(),
        forall|i: int| 0 <= i < n ==> s[i] == t[i],
    ensures
        exprs_view(s, n) == exprs_view(t, n),
    decreases n,
{
    if n > 0 {
        lemma_exprs_view_prefix(s, t, (n - 1) as nat);
    }
}

/// Appending an expression appends its image.
pub proof fn lemma_exprs_view_push(s: Seq<Expression>, x: Expression)
    ensures
        exprs_view(s.push(x), s.len() + 1) == exprs_view(s, s.len()).push(expr_view(x)),
{
    lemma_exprs_view_prefix(s.push(x), s, s.len());
}

/// The image of the first `n` statements does not depend on what follows them.
pub proof fn lemma_stmts_view_prefix(s: Seq<Statement>, t: Seq<Statement>, n: nat)
    requires
        n <= s.len(),
        n <= t.len(),
        forall|i: int| 0 <= i < n ==> s[i] == t[i],
    ensures
        stmts_view(s, n) == stmts_view(t, n),
    decreases n,
{
    if n > 0 {
        lemma_stmts_view_prefix(s, t, (n - 1) as nat);
    }
}

/// Appending a statement appends its image.
pub proof fn lemma_stmts_view_push(s: Seq<Statement>, x: Statement)
    ensures
        stmts_view(s.push(x), s.len() + 1) == stmts_view(s, s.len()).push(stmt_view(x)),
{
    lemma_stmts_view_prefix(s.push(x), s, s.len());
}

/// The image of the first `n` struct literal fields does not depend on what follows them.
pub proof fn lemma_fields_view_prefix(s: Seq<StructLiteralField>, t: Seq<StructLiteralField>, n: nat)
    requires
        n <= s.len(),
        n <= t.len(),
        forall|i: int| 0 <= i < n ==> s[i] == t[i],
    ensures
        fields_view(s, n) == fields_view(t, n),
    decreases n,
{
    if n > 0 {
        lemma_fields_view_prefix(s, t, (n - 1) as nat);
    }
}

/// Appending a struct literal field appends its image.
pub proof fn lemma_fields_view_push(s: Seq<StructLiteralField>, x: StructLiteralField)
    ensures
        fields_view(s.push(x), s.len() + 1) == fields_view(s, s.len()).push((x.name@, expr_view(x.value))),
{
    lemma_fields_view_prefix(s.push(x), s, s.len());
}

/// The images of a sequence of statements are the images of its elements.
pub proof fn lemma_stmts_view(s: Seq<Statement>, n: nat)
    requires
        n <= s.len(),
    ensures
        stmts_view(s, n).len() == n,
        forall|i: int| 0 <= i < n ==> #[trigger] stmts_view(s, n)[i] == stmt_view(s[i]),
    decreases n,
{
    if n > 0 {
        lemma_stmts_view(s, (n - 1) as nat);
    }
}

/// The images of struct literal fields are the images of its elements.
pub proof fn lemma_fields_view(s: Seq<StructLiteralField>, n: nat)
    requires
        n <= s.len(),
    ensures
        fields_view(s, n).len() == n,
        forall|i: int| 0 <= i < n ==> #[trigger] fields_view(s, n)[i] == (s[i].name@, expr_view(s[i].value)),
    decreases n,
{
    if n > 0 {
        lemma_fields_view(s, (n - 1) as nat);
    }
}

/// A copy of an expression.
pub fn copy_expression(e: &Expression) -> (r: Expression)
    ensures
        expr_view(r) == expr_view(*e),
    decreases e, 2nat,
{
    match e {
        Expression::IntLiteral(v) => Expression::IntLiteral(*v),
        Expression::FloatLiteral(t) => Expression::FloatLiteral(t.clone()),
        Expression::BoolLiteral(b) => Expression::BoolLiteral(*b),
        Expression::StringLiteral(t) => Expression::StringLiteral(t.clone()),
        Expression::Variable(n) => Expression::Variable(n.clone()),
        Expression::Binary(b) => Expression::Binary(BinaryExpression {
            left: Box::new(copy_expression(&*b.left)),
            operator: b.operator,
            right: Box::new(copy_expression(&*b.right)),
        }),
        Expression::Unary(u) => Expression::Unary(UnaryExpression { operator: u.operator, operand: Box::new(copy_expression(&*u.operand)) }),
        Expression::Call(c) => {
            proof { assert(decreases_to!(*e => c.arguments@)); }
            Expression::Call(CallExpression { callee: c.callee.clone(), arguments: copy_expressions(&c.arguments) })
        },
        Expression::FieldAccess(f) => Expression::FieldAccess(FieldAccessExpression {
            object: Box::new(copy_expression(&*f.object)),
            field: f.field.clone(),
            span: f.span,
        }),
        Expression::MethodCall(m) => {
            proof { assert(decreases_to!(*e => m.arguments@)); }
            Expression::MethodCall(MethodCallExpression {
                object: Box::new(copy_expression(&*m.object)),
                method: m.method.clone(),
                arguments: copy_expressions(&m.arguments),
                span: m.span,
            })
        },
        Expression::AssociatedCall(a) => {
            proof { assert(decreases_to!(*e => a.arguments@)); }
            Expression::AssociatedCall(AssociatedCallExpression {
                type_ident: a.type_ident.clone(),
                function: a.function.clone(),
                arguments: copy_expressions(&a.arguments),
                span: a.span,
            })
        },
        Expression::StructLiteral(l) => {
            proof { assert(decreases_to!(*e => l.fields@)); }
            Expression::StructLiteral(StructLiteralExpression {
                struct_name: l.struct_name.clone(),
                fields: copy_literal_fields(&l.fields),
                span: l.span,
            })
        },
        Expression::MacroCall(m) => {
            proof { assert(decreases_to!(*e => m.arguments@)); }
            Expression::MacroCall(MacroCallExpression {
                macro_name: m.macro_name.clone(),
                arguments: copy_expressions(&m.arguments),
                span: m.span,
            })
        },
        Expression::ArrayLiteral(a) => {
            proof { assert(decreases_to!(*e => a.elements@)); }
            Expression::ArrayLiteral(ArrayLiteralExpression { elements: copy_expressions(&a.elements), span: a.span })
        },
        Expression::Index(x) => Expression::Index(IndexExpression {
            array: Box::new(copy_expression(&*x.array)),
            index: Box::new(copy_expression(&*x.index)),
            span: x.span,
        }),
        Expression::Reference(x) => Expression::Reference(ReferenceExpression { inner: Box::new(copy_expression(&*x.inner)), span: x.span }),
    }
}

/// A copy of a list of expressions.
pub fn copy_expressions(v: &Vec<Expression>) -> (r: Vec<Expression>)
    ensures
        r.len() == v.len(),
        exprs_view(r@, r@.len()) == exprs_view(v@, v@.len()),
    decreases v@, 1nat,
{
    let mut r: Vec<Expression> = Vec::new();
    let mut i: usize = 0;
    while i < v.len()
        invariant
            i <= v.len(),
            r.len() == i,
            forall|k: int| 0 <= k < i ==> #[trigger] expr_view(r@[k]) == expr_view(v@[k]),
        decreases v.len() - i,
    {
        proof { assert(decreases_to!(v@ => v@[i as int])); }
        let c = copy_expression(&v[i]);
        r.push(c);
        i += 1;
    }
    proof {
        lemma_exprs_view(r@, r@.len());
        lemma_exprs_view(v@, v@.len());
        assert(exprs_view(r@, r@.len()) =~= exprs_view(v@, v@.len()));
    }
    r
}

/// A copy of the fields of a struct literal.
pub fn copy_literal_fields(v: &Vec<StructLiteralField>) -> (r: Vec<StructLiteralField>)
    ensures
        r.len() == v.len(),
        fields_view(r@, r@.len()) == fields_view(v@, v@.len()),
    decreases v@, 1nat,
{
    let mut r: Vec<StructLiteralField> = Vec::new();
    let mut i: usize = 0;
    while i < v.len()
        invariant
            i <= v.len(),
            r.len() == i,
            forall|k: int| 0 <= k < i ==> #[trigger] r@[k].name@ == v@[k].name@ && expr_view(r@[k].value) == expr_view(v@[k].value),
        decreases v.len() - i,
    {
        proof {
            assert(decreases_to!(v@ => v@[i as int]));
            assert(decreases_to!(v@[i as int] => v@[i as int].value));
        }
        let f = StructLiteralField { name: v[i].name.clone(), value: copy_expression(&v[i].value) };
        r.push(f);
        i += 1;
    }
    proof {
        lemma_fields_view(r@, r@.len());
        lemma_fields_view(v@, v@.len());
        assert(fields_view(r@, r@.len()) =~= fields_view(v@, v@.len()));
    }
    r
}

/// A copy of an optional expression.
fn copy_opt_expression(e: &Option<Expression>) -> (r: Option<Expression>)
    ensures
        opt_expr_view(r) == opt_expr_view(*e),
{
    match e {
        Some(x) => Some(copy_expression(x)),
        None => None,
    }
}

/// A copy of an optional type.
fn copy_opt_type(t: &Option<Type>) -> (r: Option<Type>)
    ensures
        opt_type_view(r) == opt_type_view(*t),
{
    match t {
        Some(x) => Some(x.duplicate()),
        None => None,
    }
}

/// A copy of a statement.
pub fn copy_statement(s: &Statement) -> (r: Statement)
    ensures
        stmt_view(r) == stmt_view(*s),
    decreases s, 2nat,
{
    match s {
        Statement::Return(x) => Statement::Return(ReturnStatement { value: copy_opt_expression(&x.value) }),
        Statement::VarDecl(d) => Statement::VarDecl(VarDeclStatement {
            is_mutable: d.is_mutable,
            name: d.name.clone(),
            var_type: copy_opt_type(&d.var_type),
            initializer: copy_opt_expression(&d.initializer),
        }),
        Statement::Assignment(a) => {
            let target = match &a.target {
                AssignmentTarget::Variable(n) => AssignmentTarget::Variable(n.clone()),
                AssignmentTarget::FieldAccess(f) => AssignmentTarget::FieldAccess(FieldAccessExpression {
                    object: Box::new(copy_expression(&*f.object)),
                    field: f.field.clone(),
                    span: f.span,
                }),
                AssignmentTarget::Index(x) => AssignmentTarget::Index(IndexExpression {
                    array: Box::new(copy_expression(&*x.array)),
                    index: Box::new(copy_expression(&*x.index)),
                    span: x.span,
                }),
            };
            Statement::Assignment(AssignmentStatement { target, value: copy_expression(&a.value), span: a.span })
        },
        Statement::If(i) => {
            proof { assert(decreases_to!(*s => i.then_block.statements@)); }
            let else_block = match &i.else_block {
                Some(b) => {
                    proof { assert(decreases_to!(*s => b.statements@)); }
                    Some(Block { statements: copy_statements(&b.statements) })
                },
                None => None,
            };
            Statement::If(IfStatement {
                condition: copy_expression(&i.condition),
                then_block: Block { statements: copy_statements(&i.then_block.statements) },
                else_block,
            })
        },
        Statement::While(w) => {
            proof { assert(decreases_to!(*s => w.body.statements@)); }
            Statement::While(WhileStatement {
                condition: copy_expression(&w.condition),
                body: Block { statements: copy_statements(&w.body.statements) },
            })
        },
        Statement::Loop(l) => {
            proof { assert(decreases_to!(*s => l.body.statements@)); }
            Statement::Loop(LoopStatement { body: Block { statements: copy_statements(&l.body.statements) } })
        },
        Statement::For(f) => {
            proof { assert(decreases_to!(*s => f.body.statements@)); }
            let iterable = match &f.iterable {
                ForIterable::Range(a, b) => ForIterable::Range(Box::new(copy_expression(&**a)), Box::new(copy_expression(&**b))),
                ForIterable::Expression(x) => ForIterable::Expression(Box::new(copy_expression(&**x))),
            };
            Statement::For(ForStatement {
                variable: f.variable.clone(),
                iterable,
                body: Block { statements: copy_statements(&f.body.statements) },
            })
        },
        Statement::Break(_) => Statement::Break(BreakStatement {  }),
        Statement::Continue(_) => Statement::Continue(ContinueStatement {  }),
        Statement::Expression(x) => Statement::Expression(copy_expression(x)),
    }
}

/// A copy of a list of statements.
pub fn copy_statements(v: &Vec<Statement>) -> (r: Vec<Statement>)
    ensures
        r.len() == v.len(),
        stmts_view(r@, r@.len()) == stmts_view(v@, v@.len()),
    decreases v@, 1nat,
{
    let mut r: Vec<Statement> = Vec::new();
    let mut i: usize = 0;
    while i < v.len()
        invariant
            i <= v.len(),
            r.len() == i,
            forall|k: int| 0 <= k < i ==> #[trigger] stmt_view(r@[k]) == stmt_view(v@[k]),
        decreases v.len() - i,
    {
        proof { assert(decreases_to!(v@ => v@[i as int])); }
        let c = copy_statement(&v[i]);
        r.push(c);
        i += 1;
    }
    proof {
        lemma_stmts_view(r@, r@.len());
        lemma_stmts_view(v@, v@.len());
        assert(stmts_view(r@, r@.len()) =~= stmts_view(v@, v@.len()));
    }
    r
}

impl Clone for Expression {
    /// A copy of this expression (see `copy_expression`).
    fn clone(&self) -> (r: Expression)
        ensures
            r@ == self@,
    {
        copy_expression(self)
    }
}

impl Clone for Statement {
    /// A copy of this statement (see `copy_statement`).
    fn clone(&self) -> (r: Statement)
        ensures
            r@ == self@,
    {
        copy_statement(self)
    }
}

} // verus!
