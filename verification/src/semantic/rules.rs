//! The typing rules of the language, as mathematical functions over the images of the tree.
use vstd::prelude::*;

use crate::helper::text::nat_decimal;
use crate::parser::ast::{
    type_text, BinaryOperator, SExpr, Span, SFunction, SImpl, SIterable, SMethod, SProgram, SStmt, SStruct, STarget, SType, SelfParam,
    UnaryOperator,
};

verus! {

// ---------------------------------------------------------------------------
// Tables
// ---------------------------------------------------------------------------

/// The image of a method signature: name, self parameter, parameter types, return type.
pub struct SSig {
    pub name: Seq<char>,
    pub self_param: Option<SelfParam>,
    pub params: Seq<SType>,
    pub return_type: SType,
}

/// What the checker knows while it types an expression.
pub struct TEnv {
    /// Variables in scope: name, type, whether it may be assigned.
    pub symbols: Seq<(Seq<char>, SType, bool)>,
    /// Functions: name, parameter types, return type.
    pub functions: Seq<(Seq<char>, Seq<SType>, SType)>,
    /// Structs: name and fields.
    pub structs: Seq<(Seq<char>, Seq<(Seq<char>, SType)>)>,
    /// Impl blocks: struct name and method signatures.
    pub impls: Seq<(Seq<char>, Seq<SSig>)>,
    /// The self parameter of the method being checked, if any.
    pub self_param: Option<SelfParam>,
    /// The name of the file, for located messages.
    pub filename: Seq<char>,
}

/// The position of the first of `names`, from `i` on, that equals `name`.
pub open spec fn first_index(names: Seq<Seq<char>>, name: Seq<char>, i: nat) -> Option<nat>
    decreases names.len() - i,
{
    if i >= names.len() {
        None
    } else if names[i as int] == name {
        Some(i)
    } else {
        first_index(names, name, i + 1)
    }
}

/// A position found by `first_index` holds the name and lies in range.
pub proof fn lemma_first_index(names: Seq<Seq<char>>, name: Seq<char>, i: nat)
    ensures
        match first_index(names, name, i) {
            Some(k) => i <= k < names.len() && names[k as int] == name,
            None => forall|k: int| i <= k < names.len() ==> names[k] != name,
        },
    decreases names.len() - i,
{
    if i < names.len() && names[i as int] != name {
        lemma_first_index(names, name, i + 1);
    }
}

/// The names of the variables in scope.
pub open spec fn symbol_names(s: Seq<(Seq<char>, SType, bool)>) -> Seq<Seq<char>> {
    s.map_values(|x: (Seq<char>, SType, bool)| x.0)
}

/// The names of the functions.
pub open spec fn function_names(s: Seq<(Seq<char>, Seq<SType>, SType)>) -> Seq<Seq<char>> {
    s.map_values(|x: (Seq<char>, Seq<SType>, SType)| x.0)
}

/// The names of the structs.
pub open spec fn struct_names(s: Seq<(Seq<char>, Seq<(Seq<char>, SType)>)>) -> Seq<Seq<char>> {
    s.map_values(|x: (Seq<char>, Seq<(Seq<char>, SType)>)| x.0)
}

/// The names of the structs that have impl blocks.
pub open spec fn impl_names(s: Seq<(Seq<char>, Seq<SSig>)>) -> Seq<Seq<char>> {
    s.map_values(|x: (Seq<char>, Seq<SSig>)| x.0)
}

/// The names of fields (of a struct, or of a struct literal).
pub open spec fn field_names<T>(s: Seq<(Seq<char>, T)>) -> Seq<Seq<char>> {
    s.map_values(|x: (Seq<char>, T)| x.0)
}

/// The names of methods.
pub open spec fn sig_names(s: Seq<SSig>) -> Seq<Seq<char>> {
    s.map_values(|x: SSig| x.name)
}

/// The type and mutability of the variable `name`.
pub open spec fn lookup_symbol(env: TEnv, name: Seq<char>) -> Option<(SType, bool)> {
    match first_index(symbol_names(env.symbols), name, 0) {
        Some(k) => Some((env.symbols[k as int].1, env.symbols[k as int].2)),
        None => None,
    }
}

/// The fields of the struct `name`.
pub open spec fn lookup_struct(env: TEnv, name: Seq<char>) -> Option<Seq<(Seq<char>, SType)>> {
    match first_index(struct_names(env.structs), name, 0) {
        Some(k) => Some(env.structs[k as int].1),
        None => None,
    }
}

/// The methods of the struct `name`, when it has an impl block.
pub open spec fn lookup_impl(env: TEnv, name: Seq<char>) -> Option<Seq<SSig>> {
    match first_index(impl_names(env.impls), name, 0) {
        Some(k) => Some(env.impls[k as int].1),
        None => None,
    }
}

/// The type of the field `name` among `fields`.
pub open spec fn lookup_field(fields: Seq<(Seq<char>, SType)>, name: Seq<char>) -> Option<SType> {
    match first_index(field_names(fields), name, 0) {
        Some(k) => Some(fields[k as int].1),
        None => None,
    }
}

/// The signature of the method `name` among `methods`.
pub open spec fn lookup_sig(methods: Seq<SSig>, name: Seq<char>) -> Option<SSig> {
    match first_index(sig_names(methods), name, 0) {
        Some(k) => Some(methods[k as int]),
        None => None,
    }
}

// ---------------------------------------------------------------------------
// Edit distance and suggestions
// ---------------------------------------------------------------------------

/// The least of three numbers.
pub open spec fn min3(a: nat, b: nat, c: nat) -> nat {
    let m = if a <= b { a } else { b };
    if m <= c { m } else { c }
}

/// The Levenshtein distance: the least number of single-character insertions, deletions and
/// substitutions that turn `a` into `b`.
pub open spec fn lev(a: Seq<char>, b: Seq<char>) -> nat
    decreases a.len() + b.len(),
{
    if a.len() == 0 {
        b.len()
    } else if b.len() == 0 {
        a.len()
    } else {
        min3(
            lev(a.drop_last(), b) + 1,
            lev(a, b.drop_last()) + 1,
            lev(a.drop_last(), b.drop_last()) + if a.last() == b.last() { 0nat } else { 1nat },
        )
    }
}

/// Whether both lengths leave room for the table of distances in memory.
pub open spec fn measurable(a: Seq<char>, b: Seq<char>) -> bool {
    a.len() < usize::MAX && b.len() < usize::MAX
}

/// The distance is at most the longer length.
pub proof fn lemma_lev_le_max(a: Seq<char>, b: Seq<char>)
    ensures
        lev(a, b) <= if a.len() >= b.len() { a.len() } else { b.len() },
    decreases a.len() + b.len(),
{
    if a.len() > 0 && b.len() > 0 {
        lemma_lev_le_max(a.drop_last(), b.drop_last());
    }
}

/// A string is at distance zero from itself.
pub proof fn lemma_lev_self(a: Seq<char>)
    ensures
        lev(a, a) == 0,
    decreases a.len(),
{
    if a.len() > 0 {
        lemma_lev_self(a.drop_last());
    }
}

/// The distance from `a` to `b` is the distance from `b` to `a`.
pub proof fn lemma_lev_symmetric(a: Seq<char>, b: Seq<char>)
    ensures
        lev(a, b) == lev(b, a),
    decreases a.len() + b.len(),
{
    if a.len() > 0 && b.len() > 0 {
        lemma_lev_symmetric(a.drop_last(), b);
        lemma_lev_symmetric(a, b.drop_last());
        lemma_lev_symmetric(a.drop_last(), b.drop_last());
    }
}

/// The distance is at least the difference of the lengths.
pub proof fn lemma_lev_ge_len_diff(a: Seq<char>, b: Seq<char>)
    ensures
        lev(a, b) >= a.len() - b.len(),
        lev(a, b) >= b.len() - a.len(),
    decreases a.len() + b.len(),
{
    if a.len() > 0 && b.len() > 0 {
        lemma_lev_ge_len_diff(a.drop_last(), b);
        lemma_lev_ge_len_diff(a, b.drop_last());
        lemma_lev_ge_len_diff(a.drop_last(), b.drop_last());
    }
}

/// Only equal strings are at distance zero.
pub proof fn lemma_lev_zero(a: Seq<char>, b: Seq<char>)
    requires
        lev(a, b) == 0,
    ensures
        a == b,
    decreases a.len() + b.len(),
{
    if a.len() > 0 && b.len() > 0 {
        lemma_lev_zero(a.drop_last(), b.drop_last());
        assert(a =~= a.drop_last().push(a.last()));
        assert(b =~= b.drop_last().push(b.last()));
    } else {
        assert(a =~= b);
    }
}

/// The best suggestion among `names` from `i` on, after the best so far: the first name at the
/// least distance from `name`, when that distance is 1 or 2.
pub open spec fn similar_from(
    names: Seq<Seq<char>>,
    name: Seq<char>,
    i: nat,
    best: Option<(Seq<char>, nat)>,
) -> Option<(Seq<char>, nat)>
    decreases names.len() - i,
{
    if i >= names.len() {
        best
    } else {
        let d = lev(name, names[i as int]);
        let better = measurable(name, names[i as int]) && 0 < d <= 2 && match best {
            Some((_, bd)) => d < bd,
            None => true,
        };
        similar_from(names, name, i + 1, if better { Some((names[i as int], d)) } else { best })
    }
}

/// The variable to suggest in place of the undefined `name`.
pub open spec fn similar_name(env: TEnv, name: Seq<char>) -> Option<Seq<char>> {
    match similar_from(symbol_names(env.symbols), name, 0, None) {
        Some((n, _)) => Some(n),
        None => None,
    }
}

// ---------------------------------------------------------------------------
// Messages
// ---------------------------------------------------------------------------

/// `'s'`.
pub open spec fn q(s: Seq<char>) -> Seq<char> {
    "'"@ + s + "'"@
}

/// A message prefixed with the file name and, when known, the line and column.
pub open spec fn located(env: TEnv, message: Seq<char>, span: Option<Span>) -> Seq<char> {
    match span {
        Some(s) => env.filename + ":"@ + nat_decimal(s.line as nat) + ":"@ + nat_decimal(s.column as nat) + ": error: "@ + message,
        None => env.filename + ": error: "@ + message,
    }
}

/// How an operator is written.
pub open spec fn op_text(op: BinaryOperator) -> Seq<char> {
    match op {
        BinaryOperator::Add => "+"@,
        BinaryOperator::Subtract => "-"@,
        BinaryOperator::Multiply => "*"@,
        BinaryOperator::Divide => "/"@,
        BinaryOperator::Modulo => "%"@,
        BinaryOperator::Equal => "=="@,
        BinaryOperator::NotEqual => "!="@,
        BinaryOperator::Less => "<"@,
        BinaryOperator::Greater => ">"@,
        BinaryOperator::LessEqual => "<="@,
        BinaryOperator::GreaterEqual => ">="@,
        BinaryOperator::And => "&&"@,
        BinaryOperator::Or => "||"@,
    }
}

/// `'l' op 'r'`, as in messages on binary expressions.
pub open spec fn operands_text(l: SType, op: BinaryOperator, r: SType) -> Seq<char> {
    q(type_text(l)) + " "@ + op_text(op) + " "@ + q(type_text(r))
}

/// The message for an undefined variable, with a suggestion when there is one.
pub open spec fn undefined_variable(name: Seq<char>, suggestion: Option<Seq<char>>) -> Seq<char> {
    match suggestion {
        Some(s) => "Undefined variable "@ + q(name) + ", did you mean "@ + q(s) + "?"@,
        None => "Undefined variable "@ + q(name),
    }
}

/// `expected 'e', found 'f'`.
pub open spec fn expected_found(e: SType, f: SType) -> Seq<char> {
    ": expected "@ + q(type_text(e)) + ", found "@ + q(type_text(f))
}

/// `N arguments, but M were provided`.
pub open spec fn count_text(expected: nat, given: nat) -> Seq<char> {
    " expects "@ + nat_decimal(expected) + " arguments, but "@ + nat_decimal(given) + " were provided"@
}

// ---------------------------------------------------------------------------
// Expressions
// ---------------------------------------------------------------------------

/// Why a list of arguments does not fit: an argument fails, or the argument at a position has
/// the wrong type (expected, found).
pub enum ArgIssue {
    Failed(Seq<char>),
    Mismatch(nat, SType, SType),
}

/// Whether a type is a signed integer or floating-point type.
pub open spec fn is_signed_numeric(t: SType) -> bool {
    t is I8 || t is I16 || t is I32 || t is I64 || t is F32 || t is F64
}

/// The type of a binary expression whose operands have types `l` and `r`.
pub open spec fn binary_type(op: BinaryOperator, l: SType, r: SType) -> Result<SType, Seq<char>> {
    match op {
        BinaryOperator::Equal | BinaryOperator::NotEqual | BinaryOperator::Less | BinaryOperator::Greater
        | BinaryOperator::LessEqual | BinaryOperator::GreaterEqual => if l == r {
            Ok(SType::Bool)
        } else {
            Err("Type mismatch in comparison: "@ + operands_text(l, op, r))
        },
        BinaryOperator::And | BinaryOperator::Or => if l is Bool && r is Bool {
            Ok(SType::Bool)
        } else {
            Err("Logical operators require boolean operands, found "@ + operands_text(l, op, r))
        },
        _ => if l == r {
            Ok(l)
        } else {
            Err("Type mismatch in binary expression: "@ + operands_text(l, op, r))
        },
    }
}

/// The type of a unary expression whose operand has type `t`.
pub open spec fn unary_type(op: UnaryOperator, t: SType) -> Result<SType, Seq<char>> {
    match op {
        UnaryOperator::Not => if t is Bool {
            Ok(SType::Bool)
        } else {
            Err("Logical NOT requires boolean operand, found "@ + q(type_text(t)))
        },
        UnaryOperator::Negate => if is_signed_numeric(t) {
            Ok(t)
        } else {
            Err("Negation requires numeric operand, found "@ + q(type_text(t)))
        },
    }
}

/// The type of the field `field` of a value of type `t`.
pub open spec fn field_type(env: TEnv, t: SType, field: Seq<char>) -> Result<SType, Seq<char>> {
    match t {
        SType::Struct(s) => match lookup_struct(env, s) {
            Some(fields) => match lookup_field(fields, field) {
                Some(ft) => Ok(ft),
                None => Err("Struct "@ + q(s) + " has no field named "@ + q(field)),
            },
            None => Err("Undefined struct "@ + q(s)),
        },
        _ => Err("Cannot access field "@ + q(field) + " on non-struct type "@ + q(type_text(t))),
    }
}

/// The first field of the struct `fields` that the literal with field names `given` lacks.
pub open spec fn missing_field(fields: Seq<(Seq<char>, SType)>, given: Seq<Seq<char>>, i: nat) -> Option<Seq<char>>
    decreases fields.len() - i,
{
    if i >= fields.len() {
        None
    } else if first_index(given, fields[i as int].0, 0) is None {
        Some(fields[i as int].0)
    } else {
        missing_field(fields, given, i + 1)
    }
}

/// The types of the arguments `args` from `i` on, against the parameter types `params`.
pub open spec fn check_args(env: TEnv, args: Seq<SExpr>, params: Seq<SType>, i: nat) -> Option<ArgIssue>
    decreases args, args.len() - i,
{
    if i >= args.len() {
        None
    } else {
        match infer(env, args[i as int]) {
            Err(m) => Some(ArgIssue::Failed(m)),
            Ok(t) => if i < params.len() && t == params[i as int] {
                check_args(env, args, params, i + 1)
            } else {
                Some(ArgIssue::Mismatch(i, params[i as int], t))
            },
        }
    }
}

/// The first failure among the arguments `args` from `i` on.
pub open spec fn infer_all(env: TEnv, args: Seq<SExpr>, i: nat) -> Option<Seq<char>>
    decreases args, args.len() - i,
{
    if i >= args.len() {
        None
    } else {
        match infer(env, args[i as int]) {
            Err(m) => Some(m),
            Ok(_) => infer_all(env, args, i + 1),
        }
    }
}

/// The fields of a literal of struct `s` (with fields `defs`) from `i` on: each must exist and
/// its value have the field's type.
pub open spec fn check_lit_fields(
    env: TEnv,
    s: Seq<char>,
    defs: Seq<(Seq<char>, SType)>,
    lits: Seq<(Seq<char>, SExpr)>,
    i: nat,
) -> Option<Seq<char>>
    decreases lits, lits.len() - i,
{
    if i >= lits.len() {
        None
    } else {
        let name = lits[i as int].0;
        match lookup_field(defs, name) {
            None => Some("Struct "@ + q(s) + " has no field named "@ + q(name)),
            Some(ft) => {
                proof {
                    assert(decreases_to!(lits => lits[i as int]));
                    assert(decreases_to!(lits[i as int] => lits[i as int].1));
                }
                match infer(env, lits[i as int].1) {
                    Err(m) => Some(m),
                    Ok(vt) => if vt == ft {
                        check_lit_fields(env, s, defs, lits, i + 1)
                    } else {
                        Some("Type mismatch for field "@ + q(name) + " in struct "@ + q(s) + expected_found(ft, vt))
                    },
                }
            },
        }
    }
}

/// Whether `e` names a variable declared with `val`.
pub open spec fn immutable_variable(env: TEnv, e: SExpr) -> bool {
    match e {
        SExpr::Variable(n) => match lookup_symbol(env, n) {
            Some((_, m)) => !m,
            None => false,
        },
        _ => false,
    }
}

/// The type of an expression, or the message of the first error in it.
pub open spec fn infer(env: TEnv, e: SExpr) -> Result<SType, Seq<char>>
    decreases e, 0nat,
{
    match e {
        SExpr::IntLiteral(_) => Ok(SType::I32),
        SExpr::FloatLiteral(_) => Ok(SType::F64),
        SExpr::BoolLiteral(_) => Ok(SType::Bool),
        SExpr::StringLiteral(_) => Ok(SType::String),
        SExpr::Variable(name) => match lookup_symbol(env, name) {
            Some((t, _)) => Ok(t),
            None => Err(undefined_variable(name, similar_name(env, name))),
        },
        SExpr::Binary(l, op, r) => match infer(env, *l) {
            Err(m) => Err(m),
            Ok(lt) => match infer(env, *r) {
                Err(m) => Err(m),
                Ok(rt) => binary_type(op, lt, rt),
            },
        },
        SExpr::Unary(op, x) => match infer(env, *x) {
            Err(m) => Err(m),
            Ok(t) => unary_type(op, t),
        },
        SExpr::Call(callee, args) => match first_index(function_names(env.functions), callee, 0) {
            None => Err("Undefined function "@ + q(callee)),
            Some(k) => {
                let params = env.functions[k as int].1;
                if args.len() != params.len() {
                    Err("Function "@ + q(callee) + count_text(params.len(), args.len()))
                } else {
                    match check_args(env, args, params, 0) {
                        None => Ok(env.functions[k as int].2),
                        Some(ArgIssue::Failed(m)) => Err(m),
                        Some(ArgIssue::Mismatch(i, exp, found)) => Err(
                            "Type mismatch in argument "@ + nat_decimal(i + 1) + " of function "@ + q(callee) + expected_found(exp, found),
                        ),
                    }
                }
            },
        },
        SExpr::FieldAccess(obj, field, _) => match infer(env, *obj) {
            Err(m) => Err(m),
            Ok(t) => field_type(env, t, field),
        },
        SExpr::MethodCall(obj, method, args, span) => match infer(env, *obj) {
            Err(m) => Err(m),
            Ok(ot) => match ot {
                SType::Struct(s) => match lookup_impl(env, s) {
                    None => Err("No methods defined for struct "@ + q(s)),
                    Some(methods) => match lookup_sig(methods, method) {
                        None => Err("Struct "@ + q(s) + " has no method named "@ + q(method)),
                        Some(sig) => if sig.self_param is None {
                            Err(q(s + "::"@ + method) + " is an associated function, not an instance method. Use "@
                                + q(s + "::"@ + method + "()"@) + " instead."@)
                        } else if args.len() != sig.params.len() {
                            Err("Method "@ + q(s + "."@ + method) + count_text(sig.params.len(), args.len()))
                        } else {
                            match check_args(env, args, sig.params, 0) {
                                Some(ArgIssue::Failed(m)) => Err(m),
                                Some(ArgIssue::Mismatch(i, exp, found)) => Err(
                                    "Type mismatch in argument "@ + nat_decimal(i + 1) + " of "@ + q(s + "."@ + method) + expected_found(exp, found),
                                ),
                                None => if sig.self_param == Some(SelfParam::MutRef) && immutable_variable(env, *obj) {
                                    Err(located(env, "Cannot call mutable method "@ + q(s + "."@ + method) + " on immutable variable "@
                                        + q(obj->Variable_0) + ". Consider using 'var' instead of 'val'."@, span))
                                } else {
                                    Ok(sig.return_type)
                                },
                            }
                        },
                    },
                },
                _ => Err("Cannot call method "@ + q(method) + " on non-struct type "@ + q(type_text(ot))),
            },
        },
        SExpr::AssociatedCall(t, f, args, span) => if lookup_struct(env, t) is None {
            Err(located(env, "Undefined type "@ + q(t), span))
        } else {
            match lookup_impl(env, t) {
                None => Err("No methods defined for struct "@ + q(t)),
                Some(methods) => match lookup_sig(methods, f) {
                    None => Err("Undefined associated function "@ + q(t + "::"@ + f) + " for struct "@ + q(t)),
                    Some(sig) => if sig.self_param is Some {
                        Err(q(t + "::"@ + f) + " is an instance method, not an associated function"@)
                    } else if args.len() != sig.params.len() {
                        Err("Associated function "@ + q(t + "::"@ + f) + count_text(sig.params.len(), args.len()))
                    } else {
                        match check_args(env, args, sig.params, 0) {
                            None => Ok(sig.return_type),
                            Some(ArgIssue::Failed(m)) => Err(m),
                            Some(ArgIssue::Mismatch(i, exp, found)) => Err(
                                "Type mismatch in argument "@ + nat_decimal(i + 1) + " of "@ + q(t + "::"@ + f) + expected_found(exp, found),
                            ),
                        }
                    },
                },
            }
        },
        SExpr::StructLiteral(s, lits, span) => match lookup_struct(env, s) {
            None => Err(located(env, "Undefined struct "@ + q(s), span)),
            Some(defs) => match missing_field(defs, field_names(lits), 0) {
                Some(f) => Err("Missing field "@ + q(f) + " in struct literal for "@ + q(s)),
                None => match check_lit_fields(env, s, defs, lits, 0) {
                    Some(m) => Err(m),
                    None => Ok(SType::Struct(s)),
                },
            },
        },
        SExpr::MacroCall(name, args, span) => if name == "print"@ || name == "println"@ || name == "panic"@ {
            match infer_all(env, args, 0) {
                Some(m) => Err(m),
                None => Ok(SType::Void),
            }
        } else if name == "format"@ {
            match infer_all(env, args, 0) {
                Some(m) => Err(m),
                None => Ok(SType::String),
            }
        } else {
            Err(located(env, "Unknown builtin macro "@ + q(name), span))
        },
        SExpr::ArrayLiteral(elems, _) => if elems.len() == 0 {
            Err("Cannot infer the type of an empty array literal"@)
        } else {
            match infer(env, elems[0]) {
                Err(m) => Err(m),
                Ok(t) => match check_args(env, elems, Seq::new(elems.len(), |k: int| t), 1) {
                    None => Ok(SType::Array(Box::new(t), Some(elems.len()))),
                    Some(ArgIssue::Failed(m)) => Err(m),
                    Some(ArgIssue::Mismatch(i, exp, found)) => Err(
                        "Array element "@ + nat_decimal(i) + " has type "@ + q(type_text(found)) + ", expected "@ + q(type_text(exp)),
                    ),
                },
            }
        },
        SExpr::Index(arr, idx, _) => match infer(env, *arr) {
            Err(m) => Err(m),
            Ok(at) => match infer(env, *idx) {
                Err(m) => Err(m),
                Ok(_) => match at {
                    SType::Array(elem, _) => Ok(*elem),
                    _ => Err("Cannot index into non-array type "@ + q(type_text(at))),
                },
            },
        },
        SExpr::Reference(inner, _) => match infer(env, *inner) {
            Err(m) => Err(m),
            Ok(t) => match t {
                SType::Array(elem, _) => Ok(SType::Array(elem, None)),
                _ => Err("Cannot take a reference to non-array type "@ + q(type_text(t))),
            },
        },
    }
}

// ---------------------------------------------------------------------------
// Statements
// ---------------------------------------------------------------------------

/// The checker's state between statements: what it knows, the errors so far, and whether it
/// is inside a loop.
pub struct CState {
    pub env: TEnv,
    pub errors: Seq<Seq<char>>,
    pub in_loop: bool,
}

/// The state with one more error.
pub open spec fn push_err(st: CState, m: Seq<char>) -> CState {
    CState { env: st.env, errors: st.errors.push(m), in_loop: st.in_loop }
}

/// The variables with `name` bound to a type and mutability: a variable of that name is
/// replaced, else one is added.
pub open spec fn insert_symbol(
    syms: Seq<(Seq<char>, SType, bool)>,
    name: Seq<char>,
    t: SType,
    mutable: bool,
) -> Seq<(Seq<char>, SType, bool)> {
    match first_index(symbol_names(syms), name, 0) {
        Some(k) => syms.update(k as int, (name, t, mutable)),
        None => syms.push((name, t, mutable)),
    }
}

/// The environment with the variables `syms`.
pub open spec fn with_symbols(env: TEnv, syms: Seq<(Seq<char>, SType, bool)>) -> TEnv {
    TEnv {
        symbols: syms,
        functions: env.functions,
        structs: env.structs,
        impls: env.impls,
        self_param: env.self_param,
        filename: env.filename,
    }
}

/// The state with the variable `name` bound.
pub open spec fn bind(st: CState, name: Seq<char>, t: SType, mutable: bool) -> CState {
    CState { env: with_symbols(st.env, insert_symbol(st.env.symbols, name, t, mutable)), errors: st.errors, in_loop: st.in_loop }
}

/// The state with `in_loop` set as given.
pub open spec fn set_loop(st: CState, in_loop: bool) -> CState {
    CState { env: st.env, errors: st.errors, in_loop }
}

/// The state after typing an expression whose type is not needed: its error, if any, is recorded.
pub open spec fn note_expr(st: CState, e: SExpr) -> CState {
    match infer(st.env, e) {
        Err(m) => push_err(st, m),
        Ok(_) => st,
    }
}

/// The state after checking that a condition (of an `if` or a `while`, named by `kind`) is boolean.
pub open spec fn check_cond(st: CState, cond: SExpr, kind: Seq<char>) -> CState {
    match infer(st.env, cond) {
        Err(m) => push_err(st, m),
        Ok(t) => if t is Bool {
            st
        } else {
            push_err(st, kind + " condition must be boolean, found "@ + q(type_text(t)))
        },
    }
}

/// The state after checking a value assigned to something of type `target`: the value's error,
/// or the mismatch described by `what` ("variable 'x' has type" or "field has type").
pub open spec fn check_assigned(st: CState, value: SExpr, target: SType, prefix: Seq<char>) -> CState {
    match infer(st.env, value) {
        Err(m) => push_err(st, m),
        Ok(t) => if t == target {
            st
        } else {
            push_err(st, prefix + q(type_text(target)) + " but assigned value has type "@ + q(type_text(t)))
        },
    }
}

/// The errors for the elements of an array literal from `i` on whose type is not `t`.
pub open spec fn elem_errors(st: CState, elems: Seq<SExpr>, t: SType, i: nat) -> CState
    decreases elems.len() - i,
{
    if i >= elems.len() {
        st
    } else {
        let st1 = match infer(st.env, elems[i as int]) {
            Err(m) => push_err(st, m),
            Ok(et) => if et == t {
                st
            } else {
                push_err(st, "Array element "@ + nat_decimal(i) + " has type "@ + q(type_text(et)) + ", expected "@ + q(type_text(t)))
            },
        };
        elem_errors(st1, elems, t, i + 1)
    }
}

/// The state after checking what a `for` loop walks over and binding its variable.
pub open spec fn check_iterable(st: CState, var: Seq<char>, it: SIterable) -> CState {
    match it {
        SIterable::Range(a, b) => bind(note_expr(note_expr(st, a), b), var, SType::I32, false),
        SIterable::Expression(e) => match e {
            SExpr::ArrayLiteral(elems, _) => if elems.len() == 0 {
                st
            } else {
                match infer(st.env, elems[0]) {
                    Err(m) => push_err(st, m),
                    Ok(t) => bind(elem_errors(st, elems, t, 1), var, t, false),
                }
            },
            _ => match infer(st.env, e) {
                Err(m) => push_err(st, m),
                Ok(t) => match t {
                    SType::Array(elem, _) => bind(st, var, *elem, false),
                    _ => push_err(st, "Cannot iterate over non-array type "@ + q(type_text(t))),
                },
            },
        },
    }
}

/// Checks an assignment.
pub open spec fn check_assignment(st: CState, target: STarget, value: SExpr, span: Option<Span>) -> CState {
    let env = st.env;
    match target {
        STarget::Variable(name) => match lookup_symbol(env, name) {
            None => push_err(st, "Undefined variable "@ + q(name)),
            Some((vt, m)) => {
                let st1 = if m { st } else { push_err(st, "Cannot assign to immutable variable "@ + q(name)) };
                check_assigned(st1, value, vt, "Type mismatch in assignment: variable "@ + q(name) + " has type "@)
            },
        },
        STarget::FieldAccess(obj, field, fspan) => match infer(env, SExpr::FieldAccess(obj, field, fspan)) {
            Err(m) => push_err(st, m),
            Ok(ft) => {
                let st1 = match *obj {
                    SExpr::Variable(v) => if v == "self"@ {
                        match env.self_param {
                            Some(SelfParam::MutRef) => st,
                            Some(SelfParam::Ref) => push_err(st, located(env,
                                "Cannot assign to field of '&self' in method with immutable self reference. Use '&mut self' instead."@, span)),
                            _ => push_err(st, located(env, "Cannot assign to 'self' outside of method context"@, span)),
                        }
                    } else if immutable_variable(env, *obj) {
                        push_err(st, "Cannot assign to field of immutable variable "@ + q(v))
                    } else {
                        st
                    },
                    _ => st,
                };
                check_assigned(st1, value, ft, "Type mismatch in field assignment: field has type "@)
            },
        },
        STarget::Index(arr, idx, ispan) => match infer(env, SExpr::Index(arr, idx, ispan)) {
            Err(m) => push_err(st, m),
            Ok(et) => check_assigned(st, value, et, "Type mismatch in index assignment: element has type "@),
        },
    }
}

/// Checks a variable declaration; gives the state and the declared type to record.
pub open spec fn check_var_decl(st: CState, mutable: bool, name: Seq<char>, decl: Option<SType>, init: Option<SExpr>) -> (CState, Option<SType>) {
    if lookup_symbol(st.env, name) is Some {
        (push_err(st, "Variable "@ + q(name) + " is already declared in this scope"@), decl)
    } else {
        match decl {
            Some(dt) => {
                let st1 = match init {
                    Some(ie) => match infer(st.env, ie) {
                        Err(m) => push_err(st, m),
                        Ok(it) => if it == dt {
                            st
                        } else {
                            push_err(st, "Type mismatch: variable "@ + q(name) + " declared as "@ + q(type_text(dt))
                                + " but initialized with "@ + q(type_text(it)))
                        },
                    },
                    None => st,
                };
                (bind(st1, name, dt, mutable), decl)
            },
            None => match init {
                Some(ie) => match infer(st.env, ie) {
                    Ok(it) => (bind(st, name, it, mutable), Some(it)),
                    Err(m) => (bind(push_err(st, m), name, SType::I32, mutable), Some(SType::I32)),
                },
                None => (
                    bind(push_err(st, "Variable "@ + q(name) + " must have either a type annotation or an initializer"@), name, SType::I32, mutable),
                    Some(SType::I32),
                ),
            },
        }
    }
}

/// Checks a statement; gives the state after it and the statement with inferred types recorded.
pub open spec fn check_stmt(st: CState, s: SStmt) -> (CState, SStmt)
    decreases s, 0nat,
{
    match s {
        SStmt::Return(v) => match v {
            Some(e) => (note_expr(st, e), s),
            None => (st, s),
        },
        SStmt::VarDecl(mutable, name, decl, init) => {
            let (st1, t) = check_var_decl(st, mutable, name, decl, init);
            (st1, SStmt::VarDecl(mutable, name, t, init))
        },
        SStmt::Assignment(target, value, span) => (check_assignment(st, target, value, span), s),
        SStmt::If(cond, then_b, else_b) => {
            let (st1, t2) = check_stmts(check_cond(st, cond, "If"@), then_b);
            match else_b {
                Some(b) => {
                    let (st2, b2) = check_stmts(st1, b);
                    (st2, SStmt::If(cond, t2, Some(b2)))
                },
                None => (st1, SStmt::If(cond, t2, None)),
            }
        },
        SStmt::While(cond, body) => {
            let st1 = check_cond(st, cond, "While"@);
            let (st2, b2) = check_stmts(set_loop(st1, true), body);
            (set_loop(st2, st.in_loop), SStmt::While(cond, b2))
        },
        SStmt::Loop(body) => {
            let (st2, b2) = check_stmts(set_loop(st, true), body);
            (set_loop(st2, st.in_loop), SStmt::Loop(b2))
        },
        SStmt::For(var, it, body) => {
            let st1 = check_iterable(st, var, it);
            let (st2, b2) = check_stmts(set_loop(st1, true), body);
            (
                CState { env: with_symbols(st2.env, st.env.symbols), errors: st2.errors, in_loop: st.in_loop },
                SStmt::For(var, it, b2),
            )
        },
        SStmt::Break => if st.in_loop {
            (st, s)
        } else {
            (push_err(st, "'break' statement outside of loop"@), s)
        },
        SStmt::Continue => if st.in_loop {
            (st, s)
        } else {
            (push_err(st, "'continue' statement outside of loop"@), s)
        },
        SStmt::Expression(e) => (note_expr(st, e), s),
    }
}

/// Checks statements in order.
pub open spec fn check_stmts(st: CState, ss: Seq<SStmt>) -> (CState, Seq<SStmt>)
    decreases ss, ss.len(),
{
    if ss.len() == 0 {
        (st, ss)
    } else {
        proof {
            assert(decreases_to!(ss => ss[ss.len() - 1]));
        }
        let (st1, done) = check_stmts(st, ss.drop_last());
        let (st2, last) = check_stmt(st1, ss[ss.len() - 1]);
        (st2, done.push(last))
    }
}


/// `check_stmt`, sealed: its meaning is given by `unfold_check_stmt`.
#[verifier::opaque]
pub open spec fn check_stmt_s(st: CState, s: SStmt) -> (CState, SStmt) {
    check_stmt(st, s)
}

/// `check_stmts`, sealed: its meaning is given by `unfold_check_stmts`.
#[verifier::opaque]
pub open spec fn check_stmts_s(st: CState, ss: Seq<SStmt>) -> (CState, Seq<SStmt>) {
    check_stmts(st, ss)
}

/// One step of `check_stmt`.
pub proof fn unfold_check_stmt(st: CState, s: SStmt)
    ensures
        check_stmt_s(st, s) == {
    match s {
        SStmt::Return(v) => match v {
            Some(e) => (note_expr(st, e), s),
            None => (st, s),
        },
        SStmt::VarDecl(mutable, name, decl, init) => {
            let (st1, t) = check_var_decl(st, mutable, name, decl, init);
            (st1, SStmt::VarDecl(mutable, name, t, init))
        },
        SStmt::Assignment(target, value, span) => (check_assignment(st, target, value, span), s),
        SStmt::If(cond, then_b, else_b) => {
            let (st1, t2) = check_stmts_s(check_cond(st, cond, "If"@), then_b);
            match else_b {
                Some(b) => {
                    let (st2, b2) = check_stmts_s(st1, b);
                    (st2, SStmt::If(cond, t2, Some(b2)))
                },
                None => (st1, SStmt::If(cond, t2, None)),
            }
        },
        SStmt::While(cond, body) => {
            let st1 = check_cond(st, cond, "While"@);
            let (st2, b2) = check_stmts_s(set_loop(st1, true), body);
            (set_loop(st2, st.in_loop), SStmt::While(cond, b2))
        },
        SStmt::Loop(body) => {
            let (st2, b2) = check_stmts_s(set_loop(st, true), body);
            (set_loop(st2, st.in_loop), SStmt::Loop(b2))
        },
        SStmt::For(var, it, body) => {
            let st1 = check_iterable(st, var, it);
            let (st2, b2) = check_stmts_s(set_loop(st1, true), body);
            (
                CState { env: with_symbols(st2.env, st.env.symbols), errors: st2.errors, in_loop: st.in_loop },
                SStmt::For(var, it, b2),
            )
        },
        SStmt::Break => if st.in_loop {
            (st, s)
        } else {
            (push_err(st, "'break' statement outside of loop"@), s)
        },
        SStmt::Continue => if st.in_loop {
            (st, s)
        } else {
            (push_err(st, "'continue' statement outside of loop"@), s)
        },
        SStmt::Expression(e) => (note_expr(st, e), s),
    }
        },
{
    reveal(check_stmt_s);
    reveal(check_stmts_s);
}

/// One step of `check_stmts`.
pub proof fn unfold_check_stmts(st: CState, ss: Seq<SStmt>)
    ensures
        check_stmts_s(st, ss) == if ss.len() == 0 {
            (st, ss)
        } else {
            let (st1, done) = check_stmts_s(st, ss.drop_last());
            let (st2, last) = check_stmt_s(st1, ss[ss.len() - 1]);
            (st2, done.push(last))
        },
{
    reveal(check_stmt_s);
    reveal(check_stmts_s);
}

// ---------------------------------------------------------------------------
// Programs
// ---------------------------------------------------------------------------

/// The state of a checker that has seen nothing of a program in the file `filename`.
pub open spec fn initial_state(filename: Seq<char>) -> CState {
    CState {
        env: TEnv { symbols: seq![], functions: seq![], structs: seq![], impls: seq![], self_param: None, filename },
        errors: seq![],
        in_loop: false,
    }
}

/// The parameter types of a parameter list.
pub open spec fn param_types(ps: Seq<(Seq<char>, SType)>) -> Seq<SType> {
    ps.map_values(|p: (Seq<char>, SType)| p.1)
}

/// The signature of a method.
pub open spec fn sig_of(m: SMethod) -> SSig {
    SSig { name: m.name, self_param: m.self_param, params: param_types(m.parameters), return_type: m.return_type }
}

/// The state with other tables of structs, impl blocks and functions.
pub open spec fn with_tables(
    st: CState,
    structs: Seq<(Seq<char>, Seq<(Seq<char>, SType)>)>,
    impls: Seq<(Seq<char>, Seq<SSig>)>,
    functions: Seq<(Seq<char>, Seq<SType>, SType)>,
) -> CState {
    CState {
        env: TEnv {
            symbols: st.env.symbols,
            functions,
            structs,
            impls,
            self_param: st.env.self_param,
            filename: st.env.filename,
        },
        errors: st.errors,
        in_loop: st.in_loop,
    }
}

/// The state after recording struct definitions; a second definition of a name is an error.
pub open spec fn add_structs(st: CState, structs: Seq<SStruct>) -> CState
    decreases structs.len(),
{
    if structs.len() == 0 {
        st
    } else {
        let st1 = add_structs(st, structs.drop_last());
        let s = structs[structs.len() - 1];
        if lookup_struct(st1.env, s.name) is Some {
            push_err(st1, "Struct "@ + q(s.name) + " is already defined"@)
        } else {
            with_tables(st1, st1.env.structs.push((s.name, s.fields)), st1.env.impls, st1.env.functions)
        }
    }
}

/// The state after recording impl blocks; an impl block for an undefined struct, or a second one
/// for a struct, is an error.
pub open spec fn add_impls(st: CState, impls: Seq<SImpl>) -> CState
    decreases impls.len(),
{
    if impls.len() == 0 {
        st
    } else {
        let st1 = add_impls(st, impls.drop_last());
        let b = impls[impls.len() - 1];
        if lookup_struct(st1.env, b.struct_name) is None {
            push_err(st1, "Cannot implement methods for undefined struct "@ + q(b.struct_name))
        } else if lookup_impl(st1.env, b.struct_name) is Some {
            push_err(st1, "Struct "@ + q(b.struct_name) + " already has an impl block"@)
        } else {
            with_tables(
                st1,
                st1.env.structs,
                st1.env.impls.push((b.struct_name, b.methods.map_values(|m: SMethod| sig_of(m)))),
                st1.env.functions,
            )
        }
    }
}

/// The state after recording function signatures; a second function of a name is an error.
pub open spec fn add_functions(st: CState, functions: Seq<SFunction>) -> CState
    decreases functions.len(),
{
    if functions.len() == 0 {
        st
    } else {
        let st1 = add_functions(st, functions.drop_last());
        let f = functions[functions.len() - 1];
        if first_index(function_names(st1.env.functions), f.name, 0) is Some {
            push_err(st1, "Function "@ + q(f.name) + " is already defined"@)
        } else {
            with_tables(
                st1,
                st1.env.structs,
                st1.env.impls,
                st1.env.functions.push((f.name, param_types(f.parameters), f.return_type)),
            )
        }
    }
}

/// The variables `syms` with the parameters `ps` bound (immutable), in order.
pub open spec fn bind_params(syms: Seq<(Seq<char>, SType, bool)>, ps: Seq<(Seq<char>, SType)>) -> Seq<(Seq<char>, SType, bool)>
    decreases ps.len(),
{
    if ps.len() == 0 {
        syms
    } else {
        let p = ps[ps.len() - 1];
        insert_symbol(bind_params(syms, ps.drop_last()), p.0, p.1, false)
    }
}

/// The state with the variables `syms` and the self parameter `sp`.
pub open spec fn enter(st: CState, syms: Seq<(Seq<char>, SType, bool)>, sp: Option<SelfParam>) -> CState {
    CState {
        env: TEnv {
            symbols: syms,
            functions: st.env.functions,
            structs: st.env.structs,
            impls: st.env.impls,
            self_param: sp,
            filename: st.env.filename,
        },
        errors: st.errors,
        in_loop: st.in_loop,
    }
}

/// The variables in scope at the start of a method of the struct `s`: `self`, if the method has
/// it, and the parameters.
pub open spec fn method_symbols(s: Seq<char>, m: SMethod) -> Seq<(Seq<char>, SType, bool)> {
    let start: Seq<(Seq<char>, SType, bool)> = match m.self_param {
        Some(sp) => seq![("self"@, SType::Struct(s), sp == SelfParam::MutRef)],
        None => seq![],
    };
    bind_params(start, m.parameters)
}

/// Checks the body of a method of the struct `s`.
pub open spec fn check_method(st: CState, s: Seq<char>, m: SMethod) -> (CState, SMethod) {
    let (st1, body) = check_stmts(enter(st, method_symbols(s, m), m.self_param), m.body);
    (
        enter(st1, st1.env.symbols, None),
        SMethod { name: m.name, self_param: m.self_param, parameters: m.parameters, return_type: m.return_type, body },
    )
}

/// Checks the bodies of methods of the struct `s`, in order.
pub open spec fn check_methods(st: CState, s: Seq<char>, ms: Seq<SMethod>) -> (CState, Seq<SMethod>)
    decreases ms.len(),
{
    if ms.len() == 0 {
        (st, ms)
    } else {
        let (st1, done) = check_methods(st, s, ms.drop_last());
        let (st2, m) = check_method(st1, s, ms[ms.len() - 1]);
        (st2, done.push(m))
    }
}

/// Checks the methods of impl blocks, in order.
pub open spec fn check_impl_bodies(st: CState, impls: Seq<SImpl>) -> (CState, Seq<SImpl>)
    decreases impls.len(),
{
    if impls.len() == 0 {
        (st, impls)
    } else {
        let (st1, done) = check_impl_bodies(st, impls.drop_last());
        let b = impls[impls.len() - 1];
        let (st2, ms) = check_methods(st1, b.struct_name, b.methods);
        (st2, done.push(SImpl { struct_name: b.struct_name, methods: ms }))
    }
}

/// Checks the body of a function.
pub open spec fn check_function(st: CState, f: SFunction) -> (CState, SFunction) {
    let (st1, body) = check_stmts(enter(st, bind_params(seq![], f.parameters), None), f.body);
    (st1, SFunction { name: f.name, parameters: f.parameters, return_type: f.return_type, body })
}

/// Checks the bodies of functions, in order.
pub open spec fn check_functions(st: CState, fs: Seq<SFunction>) -> (CState, Seq<SFunction>)
    decreases fs.len(),
{
    if fs.len() == 0 {
        (st, fs)
    } else {
        let (st1, done) = check_functions(st, fs.drop_last());
        let (st2, f) = check_function(st1, fs[fs.len() - 1]);
        (st2, done.push(f))
    }
}

/// Checks a program: records its structs, impl blocks and functions, then checks the bodies of
/// the methods and of the functions. Gives the state after it and the program with inferred
/// types recorded.
pub open spec fn check_program(st: CState, p: SProgram) -> (CState, SProgram) {
    let st1 = add_functions(add_impls(add_structs(st, p.structs), p.impls), p.functions);
    let (st2, impls) = check_impl_bodies(st1, p.impls);
    let (st3, functions) = check_functions(st2, p.functions);
    (st3, SProgram { structs: p.structs, impls, functions })
}

/// The errors found in a program of the file `filename`, in the order they were found, and the
/// program with inferred types recorded.
pub open spec fn analysis(filename: Seq<char>, p: SProgram) -> (Seq<Seq<char>>, SProgram) {
    let (st, q) = check_program(initial_state(filename), p);
    (st.errors, q)
}

} // verus!
