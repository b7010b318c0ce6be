//! The C text that the generator writes, as mathematical functions over the images of the tree.
use vstd::prelude::*;

use crate::helper::text::{int_decimal, nat_decimal};
use crate::parser::ast::{
    c_type_text, slice_name_part, SExpr, SFunction, SImpl, SIterable, SMethod, SProgram, SStmt, SStruct,
    STarget, SType, SelfParam, UnaryOperator,
};
use crate::semantic::rules::{first_index, op_text};

verus! {

// ---------------------------------------------------------------------------
// Tables and state
// ---------------------------------------------------------------------------

/// What the generator knows of the program: variable types seen so far, structs and impl blocks.
pub struct GEnv {
    pub vars: Seq<(Seq<char>, SType)>,
    pub structs: Seq<(Seq<char>, Seq<(Seq<char>, SType)>)>,
    pub impls: Seq<(Seq<char>, Seq<(Seq<char>, SType)>)>,
}

/// Where generation stopped: the state reached, with the text written so far, and the message.
pub struct GFail {
    pub state: GState,
    pub message: Seq<char>,
}

/// The generator's state: what it knows, the indentation level, the next temporary's number,
/// and the text written so far.
pub struct GState {
    pub env: GEnv,
    pub indent: nat,
    pub temp: nat,
    pub out: Seq<char>,
}

/// The names of a table's entries.
pub open spec fn keys<T>(s: Seq<(Seq<char>, T)>) -> Seq<Seq<char>> {
    s.map_values(|x: (Seq<char>, T)| x.0)
}

/// The value of `name` in a table.
pub open spec fn lookup<T>(s: Seq<(Seq<char>, T)>, name: Seq<char>) -> Option<T> {
    match first_index(keys(s), name, 0) {
        Some(k) => Some(s[k as int].1),
        None => None,
    }
}

/// The table with `name` bound to `v`: an entry of that name is replaced, else one is added.
pub open spec fn insert<T>(s: Seq<(Seq<char>, T)>, name: Seq<char>, v: T) -> Seq<(Seq<char>, T)> {
    match first_index(keys(s), name, 0) {
        Some(k) => s.update(k as int, (name, v)),
        None => s.push((name, v)),
    }
}

/// The return type of the method `m` of the struct `s`, if it is known.
pub open spec fn method_return(env: GEnv, s: Seq<char>, m: Seq<char>) -> Option<SType> {
    match lookup(env.impls, s) {
        Some(methods) => lookup(methods, m),
        None => None,
    }
}

/// `line` on a line of its own, indented four spaces per level.
pub open spec fn emit(st: GState, line: Seq<char>) -> GState {
    GState { env: st.env, indent: st.indent, temp: st.temp, out: st.out + Seq::new(st.indent * 4, |i: int| ' ') + line + seq!['\n'] }
}

/// One level deeper.
pub open spec fn indent(st: GState) -> GState {
    GState { env: st.env, indent: if st.indent < usize::MAX { st.indent + 1 } else { st.indent }, temp: st.temp, out: st.out }
}

/// One level shallower.
pub open spec fn dedent(st: GState) -> GState {
    GState { env: st.env, indent: if st.indent > 0 { (st.indent - 1) as nat } else { 0 }, temp: st.temp, out: st.out }
}

/// The state with other variable types.
pub open spec fn with_vars(st: GState, vars: Seq<(Seq<char>, SType)>) -> GState {
    GState { env: GEnv { vars, structs: st.env.structs, impls: st.env.impls }, indent: st.indent, temp: st.temp, out: st.out }
}

// ---------------------------------------------------------------------------
// Text helpers
// ---------------------------------------------------------------------------

/// The parts separated by `sep`.
pub open spec fn join(parts: Seq<Seq<char>>, sep: Seq<char>) -> Seq<char>
    decreases parts.len(),
{
    if parts.len() == 0 {
        seq![]
    } else if parts.len() == 1 {
        parts[0]
    } else {
        join(parts.drop_last(), sep) + sep + parts[parts.len() - 1]
    }
}

/// A character as it is written inside a C string literal.
pub open spec fn escape_char(c: char) -> Seq<char> {
    if c == '\\' {
        "\\\\"@
    } else if c == '"' {
        "\\\""@
    } else if c == '\n' {
        "\\n"@
    } else if c == '\t' {
        "\\t"@
    } else if c == '\r' {
        "\\r"@
    } else {
        seq![c]
    }
}

/// Text as it is written inside a C string literal.
pub open spec fn escape(s: Seq<char>) -> Seq<char>
    decreases s.len(),
{
    if s.len() == 0 {
        seq![]
    } else {
        escape(s.drop_last()) + escape_char(s.last())
    }
}

/// The name of the C struct for slices whose elements have the C type `elem`.
pub open spec fn slice_struct(elem: Seq<char>) -> Seq<char> {
    "Slice_"@ + slice_name_part(elem)
}

/// Whether C text is a string literal: at least two characters, opening and closing with '"'.
pub open spec fn is_c_string(s: Seq<char>) -> bool {
    s.len() >= 2 && s[0] == '"' && s[s.len() - 1] == '"'
}

/// The printf conversion for a value of a type.
pub open spec fn format_spec(t: SType) -> Seq<char> {
    match t {
        SType::I8 | SType::I16 | SType::I32 | SType::Bool => "%d"@,
        SType::I64 => "%lld"@,
        SType::U8 | SType::U16 | SType::U32 => "%u"@,
        SType::U64 => "%llu"@,
        SType::F32 | SType::F64 => "%f"@,
        SType::String => "%s"@,
        SType::Array(_, _) | SType::Struct(_) => "%p"@,
        SType::Void => ""@,
    }
}

// ---------------------------------------------------------------------------
// What the generator infers
// ---------------------------------------------------------------------------

/// The struct that an expression's value belongs to, when the generator can tell.
pub open spec fn infer_name(env: GEnv, e: SExpr) -> Option<Seq<char>>
    decreases e,
{
    match e {
        SExpr::Variable(n) => match lookup(env.vars, n) {
            Some(SType::Struct(s)) => Some(s),
            _ => None,
        },
        SExpr::StructLiteral(s, _, _) => Some(s),
        SExpr::FieldAccess(obj, f, _) => match infer_name(env, *obj) {
            Some(s) => match lookup(env.structs, s) {
                Some(fields) => match lookup(fields, f) {
                    Some(SType::Struct(n)) => Some(n),
                    _ => None,
                },
                None => None,
            },
            None => None,
        },
        SExpr::MethodCall(obj, m, _, _) => match infer_name(env, *obj) {
            Some(s) => match method_return(env, s, m) {
                Some(SType::Struct(n)) => Some(n),
                _ => None,
            },
            None => None,
        },
        SExpr::AssociatedCall(t, f, _, _) => match method_return(env, t, f) {
            Some(SType::Struct(n)) => Some(n),
            _ => None,
        },
        _ => None,
    }
}

/// The type of an expression, when the generator can tell (for printing and slices).
pub open spec fn infer_c(env: GEnv, e: SExpr) -> Option<SType> {
    match e {
        SExpr::Variable(n) => lookup(env.vars, n),
        SExpr::IntLiteral(_) => Some(SType::I32),
        SExpr::FloatLiteral(_) => Some(SType::F64),
        SExpr::BoolLiteral(_) => Some(SType::Bool),
        SExpr::StringLiteral(_) => Some(SType::String),
        SExpr::FieldAccess(obj, f, _) => if f == "length"@ {
            Some(SType::I32)
        } else {
            match infer_name(env, *obj) {
                Some(s) => match lookup(env.structs, s) {
                    Some(fields) => lookup(fields, f),
                    None => None,
                },
                None => None,
            }
        },
        SExpr::Index(arr, _, _) => match *arr {
            SExpr::Variable(n) => match lookup(env.vars, n) {
                Some(SType::Array(elem, _)) => Some(*elem),
                _ => None,
            },
            _ => None,
        },
        _ => None,
    }
}

// ---------------------------------------------------------------------------
// Expressions
// ---------------------------------------------------------------------------

/// The C texts of the first `n` expressions of `args`.
pub open spec fn exprs_c(env: GEnv, args: Seq<SExpr>, n: nat) -> Seq<Seq<char>>
    decreases args, n,
{
    if n == 0 || n > args.len() {
        seq![]
    } else {
        exprs_c(env, args, (n - 1) as nat).push(expr_c(env, args[n - 1]))
    }
}

/// The texts of the first `n` expressions are `n`, one for each.
pub proof fn lemma_exprs_c(env: GEnv, args: Seq<SExpr>, n: nat)
    requires
        n <= args.len(),
    ensures
        exprs_c(env, args, n).len() == n,
        forall|k: int| 0 <= k < n ==> #[trigger] exprs_c(env, args, n)[k] == expr_c(env, args[k]),
    decreases n,
{
    if n > 0 {
        lemma_exprs_c(env, args, (n - 1) as nat);
    }
}

/// The C texts of the first `n` fields of a struct literal: `.name = value`.
pub open spec fn fields_c(env: GEnv, fields: Seq<(Seq<char>, SExpr)>, n: nat) -> Seq<Seq<char>>
    decreases fields, n,
{
    if n == 0 || n > fields.len() {
        seq![]
    } else {
        proof {
            assert(decreases_to!(fields => fields[n - 1]));
            assert(decreases_to!(fields[n - 1] => fields[n - 1].1));
        }
        fields_c(env, fields, (n - 1) as nat).push("."@ + fields[n - 1].0 + " = "@ + expr_c(env, fields[n - 1].1))
    }
}

/// `print!`: an empty `printf`, a string literal printed as it is, one value printed by the
/// conversion of its type (`%s` when the type is unknown), or all arguments handed to `printf`.
pub open spec fn print_c(env: GEnv, args: Seq<SExpr>) -> Seq<char>
    decreases args, args.len() + 1,
{
    if args.len() == 0 {
        "printf(\"\")"@
    } else if args.len() == 1 {
        let a = expr_c(env, args[0]);
        if is_c_string(a) {
            "printf("@ + a + ")"@
        } else {
            match infer_c(env, args[0]) {
                Some(t) => "printf(\""@ + format_spec(t) + "\", "@ + a + ")"@,
                None => "printf(\"%s\", "@ + a + ")"@,
            }
        }
    } else {
        "printf("@ + join(exprs_c(env, args, args.len()), ", "@) + ")"@
    }
}

/// `println!`: as `print!`, with a newline added to the format.
pub open spec fn println_c(env: GEnv, args: Seq<SExpr>) -> Seq<char>
    decreases args, args.len() + 1,
{
    if args.len() == 0 {
        "printf(\"\\n\")"@
    } else if args.len() == 1 {
        let a = expr_c(env, args[0]);
        if is_c_string(a) {
            "printf(\""@ + a.subrange(1, a.len() - 1) + "\\n\")"@
        } else {
            match infer_c(env, args[0]) {
                Some(t) => "printf(\""@ + format_spec(t) + "\\n\", "@ + a + ")"@,
                None => "printf(\"%s\\n\", "@ + a + ")"@,
            }
        }
    } else {
        let parts = exprs_c(env, args, args.len());
        let first = parts[0];
        let parts2 = if is_c_string(first) { parts.update(0, first.drop_last() + "\\n\""@) } else { parts };
        "printf("@ + join(parts2, ", "@) + ")"@
    }
}

/// `panic!`: the message printed to stderr, then `exit(1)`.
pub open spec fn panic_c(env: GEnv, args: Seq<SExpr>) -> Seq<char>
    decreases args, args.len() + 1,
{
    if args.len() == 0 {
        "(fprintf(stderr, \"panic\\n\"), exit(1))"@
    } else if args.len() == 1 {
        let a = expr_c(env, args[0]);
        if is_c_string(a) {
            "(fprintf(stderr, \""@ + a.subrange(1, a.len() - 1) + "\\n\"), exit(1))"@
        } else {
            "(fprintf(stderr, \"%s\\n\", "@ + a + "), exit(1))"@
        }
    } else {
        "(fprintf(stderr, "@ + join(exprs_c(env, args, args.len()), ", "@) + "), exit(1))"@
    }
}

/// `len!`: the size of a fixed array, the `length` field of a slice, else `0`.
pub open spec fn len_c(env: GEnv, args: Seq<SExpr>) -> Seq<char>
    decreases args, args.len() + 1,
{
    if args.len() == 0 {
        "0"@
    } else {
        match infer_c(env, args[0]) {
            Some(SType::Array(_, Some(n))) => nat_decimal(n),
            Some(SType::Array(_, None)) => "((int32_t)("@ + expr_c(env, args[0]) + ".length))"@,
            _ => "0"@,
        }
    }
}

/// `copy!(dst, src)`: a `memcpy` of a fixed array, else a comment saying why not.
pub open spec fn copy_c(env: GEnv, args: Seq<SExpr>) -> Seq<char>
    decreases args, args.len() + 1,
{
    if args.len() != 2 {
        "/* copy! expects 2 arguments */"@
    } else {
        let d = expr_c(env, args[0]);
        let s = expr_c(env, args[1]);
        match infer_c(env, args[1]) {
            Some(SType::Array(_, Some(_))) => "memcpy("@ + d + ", "@ + s + ", sizeof("@ + s + "))"@,
            Some(_) => "/* copy! currently only supports fixed-size arrays */"@,
            None => "/* copy! type inference failed */"@,
        }
    }
}

/// The C text of a call of a builtin macro; `format!` gives an empty string, and an unknown
/// macro a comment that names it.
pub open spec fn macro_c(env: GEnv, name: Seq<char>, args: Seq<SExpr>) -> Seq<char>
    decreases args, args.len() + 2,
{
    if name == "print"@ {
        print_c(env, args)
    } else if name == "println"@ {
        println_c(env, args)
    } else if name == "panic"@ {
        panic_c(env, args)
    } else if name == "format"@ {
        "\"\""@
    } else if name == "len"@ {
        len_c(env, args)
    } else if name == "copy"@ {
        copy_c(env, args)
    } else {
        "/* Unknown macro: "@ + name + " */"@
    }
}

/// `->` for the pointer `self`, `.` otherwise.
pub open spec fn accessor(obj: SExpr) -> Seq<char> {
    if obj == SExpr::Variable("self"@) {
        "->"@
    } else {
        "."@
    }
}

/// The C text of `&inner`: a slice over an array.
pub open spec fn reference_c(env: GEnv, inner: SExpr) -> Seq<char>
    decreases inner, 1nat,
{
    match inner {
        SExpr::Variable(v) => match lookup(env.vars, v) {
            Some(SType::Array(elem, Some(n))) => "("@ + slice_struct(c_type_text(*elem)) + "){.data = "@ + v + ", .length = "@
                + nat_decimal(n) + "}"@,
            _ => "/* cannot take reference of non-array "@ + v + " */"@,
        },
        SExpr::ArrayLiteral(elems, _) => if elems.len() == 0 {
            "/* empty array literal */"@
        } else {
            match infer_c(env, elems[0]) {
                None => "/* cannot infer array element type */"@,
                Some(t) => {
                    let items = join(exprs_c(env, elems, elems.len()), ", "@);
                    match t {
                        SType::Array(inner_elem, Some(inner_size)) => {
                            let base = c_type_text(*inner_elem);
                            "("@ + slice_struct(base) + "){.data = "@ + "(("@ + base + "["@ + nat_decimal(inner_size) + "]"@
                                + "[]){ "@ + items + " })"@ + ", .length = "@ + nat_decimal(elems.len()) + "}"@
                        },
                        _ => "("@ + slice_struct(c_type_text(t)) + "){.data = "@ + "(("@ + c_type_text(t) + "[]){ "@ + items
                            + " })"@ + ", .length = "@ + nat_decimal(elems.len()) + "}"@,
                    }
                },
            }
        },
        SExpr::Index(_, _, _) => match infer_c(env, inner) {
            Some(SType::Array(elem, Some(n))) => "("@ + slice_struct(c_type_text(*elem)) + "){.data = "@ + expr_c(env, inner)
                + ", .length = "@ + nat_decimal(n) + "}"@,
            Some(_) => "/* cannot create slice from indexed expression */"@,
            None => "/* cannot infer type of indexed expression */"@,
        },
        _ => "/* unsupported reference expression */"@,
    }
}

/// The C text of an expression.
pub open spec fn expr_c(env: GEnv, e: SExpr) -> Seq<char>
    decreases e, 0nat,
{
    match e {
        SExpr::IntLiteral(v) => int_decimal(v),
        SExpr::FloatLiteral(t) => t,
        SExpr::BoolLiteral(b) => if b { "true"@ } else { "false"@ },
        SExpr::StringLiteral(s) => "\""@ + escape(s) + "\""@,
        SExpr::Variable(n) => n,
        SExpr::Binary(l, op, r) => "("@ + expr_c(env, *l) + " "@ + op_text(op) + " "@ + expr_c(env, *r) + ")"@,
        SExpr::Unary(op, x) => "("@ + (match op {
            UnaryOperator::Not => "!"@,
            UnaryOperator::Negate => "-"@,
        }) + expr_c(env, *x) + ")"@,
        SExpr::Call(callee, args) => callee + "("@ + join(exprs_c(env, args, args.len()), ", "@) + ")"@,
        SExpr::FieldAccess(obj, field, _) => {
            let length = match *obj {
                SExpr::Variable(v) => if field == "length"@ {
                    match lookup(env.vars, v) {
                        Some(SType::Array(_, Some(n))) => Some(n),
                        _ => None,
                    }
                } else {
                    None
                },
                _ => None,
            };
            match length {
                Some(n) => nat_decimal(n),
                None => expr_c(env, *obj) + accessor(*obj) + field,
            }
        },
        SExpr::MethodCall(obj, m, args, _) => {
            let s = match infer_name(env, *obj) {
                Some(n) => n,
                None => "Unknown"@,
            };
            s + "_"@ + m + "("@ + join(seq!["&"@ + expr_c(env, *obj)] + exprs_c(env, args, args.len()), ", "@) + ")"@
        },
        SExpr::AssociatedCall(t, f, args, _) => t + "_"@ + f + "("@ + join(exprs_c(env, args, args.len()), ", "@) + ")"@,
        SExpr::StructLiteral(s, fields, _) => "("@ + s + "){"@ + join(fields_c(env, fields, fields.len()), ", "@) + "}"@,
        SExpr::MacroCall(name, args, _) => macro_c(env, name, args),
        SExpr::ArrayLiteral(elems, _) => if elems.len() == 0 {
            "/* empty array */"@
        } else {
            "{"@ + join(exprs_c(env, elems, elems.len()), ", "@) + "}"@
        },
        SExpr::Index(arr, idx, _) => match *arr {
            SExpr::Variable(v) => match lookup(env.vars, v) {
                Some(SType::Array(_, None)) => v + ".data["@ + expr_c(env, *idx) + "]"@,
                _ => v + "["@ + expr_c(env, *idx) + "]"@,
            },
            _ => expr_c(env, *arr) + "["@ + expr_c(env, *idx) + "]"@,
        },
        SExpr::Reference(inner, _) => reference_c(env, *inner),
    }
}

// ---------------------------------------------------------------------------
// Method chains
// ---------------------------------------------------------------------------

/// Whether an expression is a method called on the result of another method or associated call.
pub open spec fn is_method_chain(e: SExpr) -> bool {
    match e {
        SExpr::MethodCall(obj, _, _, _) => (*obj is MethodCall) || (*obj is AssociatedCall),
        _ => false,
    }
}

/// The name of the temporary numbered `n`.
pub open spec fn temp_name(n: nat) -> Seq<char> {
    "__tmp_"@ + nat_decimal(n)
}

/// The next temporary's number.
pub open spec fn next_temp(st: GState) -> GState {
    GState { env: st.env, indent: st.indent, temp: if st.temp < usize::MAX { st.temp + 1 } else { st.temp }, out: st.out }
}

/// Writes temporaries for the calls of a method chain, innermost first; gives the state and
/// the text that stands for the value of `e`.
pub open spec fn chain_temps(st: GState, e: SExpr) -> (GState, Seq<char>)
    decreases e,
{
    match e {
        SExpr::MethodCall(obj, m, args, _) => {
            let (st1, prev) = chain_temps(st, *obj);
            let name = temp_name(st1.temp);
            let st2 = next_temp(st1);
            let s = match infer_name(st2.env, *obj) {
                Some(n) => n,
                None => "Unknown"@,
            };
            let ret = match method_return(st2.env, s, m) {
                Some(t) => t,
                None => SType::Void,
            };
            let call = s + "_"@ + m + "("@ + join(seq!["&"@ + prev] + exprs_c(st2.env, args, args.len()), ", "@) + ")"@;
            (emit(st2, c_type_text(ret) + " "@ + name + " = "@ + call + ";"@), name)
        },
        SExpr::AssociatedCall(t, f, _, _) => {
            let name = temp_name(st.temp);
            let st1 = next_temp(st);
            let type_str = match method_return(st1.env, t, f) {
                Some(SType::Struct(n)) => n,
                _ => "Unknown"@,
            };
            (emit(st1, type_str + " "@ + name + " = "@ + expr_c(st1.env, e) + ";"@), name)
        },
        _ => (st, expr_c(st.env, e)),
    }
}

/// The text for an initial value: temporaries for a method chain, else the expression's text.
pub open spec fn init_c(st: GState, e: SExpr) -> (GState, Seq<char>) {
    if is_method_chain(e) {
        chain_temps(st, e)
    } else {
        (st, expr_c(st.env, e))
    }
}

// ---------------------------------------------------------------------------
// Statements
// ---------------------------------------------------------------------------

/// The sizes of the fixed-size array dimensions of a type, outermost first, and the type under them.
pub open spec fn array_dims(t: SType) -> (Seq<nat>, SType)
    decreases t,
{
    match t {
        SType::Array(elem, Some(n)) => {
            let (dims, base) = array_dims(*elem);
            (seq![n] + dims, base)
        },
        _ => (seq![], t),
    }
}

/// `[2][3]` for the sizes 2 and 3.
pub open spec fn dims_text(dims: Seq<nat>) -> Seq<char>
    decreases dims.len(),
{
    if dims.len() == 0 {
        seq![]
    } else {
        dims_text(dims.drop_last()) + "["@ + nat_decimal(dims[dims.len() - 1]) + "]"@
    }
}

/// Writes a variable declaration.
pub open spec fn var_decl_c(st: GState, mutable: bool, name: Seq<char>, t: SType, init: Option<SExpr>) -> GState {
    let st1 = with_vars(st, insert(st.env.vars, name, t));
    let head = (if mutable { ""@ } else { "const "@ }) + match t {
        SType::Array(_, Some(_)) => c_type_text(array_dims(t).1) + " "@ + name + dims_text(array_dims(t).0),
        _ => c_type_text(t) + " "@ + name,
    };
    match init {
        Some(e) => {
            let (st2, v) = init_c(st1, e);
            emit(st2, head + " = "@ + v + ";"@)
        },
        None => emit(st1, head + ";"@),
    }
}

/// The C text of an assignment's target.
pub open spec fn target_c(env: GEnv, target: STarget) -> Seq<char> {
    match target {
        STarget::Variable(n) => n,
        STarget::FieldAccess(obj, f, _) => expr_c(env, *obj) + accessor(*obj) + f,
        STarget::Index(arr, idx, span) => expr_c(env, SExpr::Index(arr, idx, span)),
    }
}

/// Writes `{`, then the statements one level deeper, then `}`.
pub open spec fn braced(st: GState, body: Seq<SStmt>) -> Result<GState, GFail>
    decreases body, 1nat,
{
    match stmts_c(indent(emit(st, "{"@)), body) {
        Ok(st1) => Ok(emit(dedent(st1), "}"@)),
        Err(m) => Err(m),
    }
}

/// Writes a statement.
pub open spec fn stmt_c(st: GState, s: SStmt) -> Result<GState, GFail>
    decreases s, 0nat,
{
    let env = st.env;
    match s {
        SStmt::Return(v) => match v {
            Some(e) => Ok(emit(st, "return "@ + expr_c(env, e) + ";"@)),
            None => Ok(emit(st, "return;"@)),
        },
        SStmt::VarDecl(mutable, name, t, init) => match t {
            Some(t) => Ok(var_decl_c(st, mutable, name, t, init)),
            None => Err(GFail { state: st, message: "Internal error: Variable '"@ + name + "' has no type after semantic analysis"@ }),
        },
        SStmt::Assignment(target, value, _) => Ok(emit(st, target_c(env, target) + " = "@ + expr_c(env, value) + ";"@)),
        SStmt::If(cond, then_b, else_b) => match braced(emit(st, "if ("@ + expr_c(env, cond) + ")"@), then_b) {
            Err(m) => Err(m),
            Ok(st1) => match else_b {
                Some(b) => braced(emit(st1, "else"@), b),
                None => Ok(st1),
            },
        },
        SStmt::While(cond, body) => braced(emit(st, "while ("@ + expr_c(env, cond) + ")"@), body),
        SStmt::Loop(body) => braced(emit(st, "while (1)"@), body),
        SStmt::For(var, it, body) => match it {
            SIterable::Range(a, b) => braced(
                emit(st, "for (int32_t "@ + var + " = "@ + expr_c(env, a) + "; "@ + var + " < "@ + expr_c(env, b) + "; "@ + var + "++)"@),
                body,
            ),
            SIterable::Expression(e) => {
                let counter = "__i_"@ + var;
                match e {
                    SExpr::ArrayLiteral(elems, _) => {
                        let array = "__array_"@ + var;
                        let st1 = emit(st, "int32_t "@ + array + "[] = {"@ + join(exprs_c(env, elems, elems.len()), ", "@) + "};"@);
                        let st2 = emit(st1, "for (size_t "@ + counter + " = 0; "@ + counter + " < "@ + nat_decimal(elems.len()) + "; "@
                            + counter + "++)"@);
                        let st3 = emit(indent(emit(st2, "{"@)), "int32_t "@ + var + " = "@ + array + "["@ + counter + "];"@);
                        match stmts_c(st3, body) {
                            Ok(st4) => Ok(emit(dedent(st4), "}"@)),
                            Err(m) => Err(m),
                        }
                    },
                    SExpr::Variable(a) => match lookup(env.vars, a) {
                        Some(SType::Array(elem, Some(n))) => {
                            let st2 = emit(st, "for (size_t "@ + counter + " = 0; "@ + counter + " < "@ + nat_decimal(n) + "; "@ + counter
                                + "++)"@);
                            let st3 = emit(indent(emit(st2, "{"@)), c_type_text(*elem) + " "@ + var + " = "@ + a + "["@ + counter + "];"@);
                            match stmts_c(st3, body) {
                                Ok(st4) => Ok(emit(dedent(st4), "}"@)),
                                Err(m) => Err(m),
                            }
                        },
                        _ => Err(GFail { state: st, message: "Cannot determine size of array '"@ + a + "'"@ }),
                    },
                    _ => Err(GFail { state: st, message: "For loop iterable must be array literal or array variable"@ }),
                }
            },
        },
        SStmt::Break => Ok(emit(st, "break;"@)),
        SStmt::Continue => Ok(emit(st, "continue;"@)),
        SStmt::Expression(e) => Ok(emit(st, expr_c(env, e) + ";"@)),
    }
}

/// Writes statements in order; the first error stops it.
pub open spec fn stmts_c(st: GState, ss: Seq<SStmt>) -> Result<GState, GFail>
    decreases ss, 0nat,
{
    if ss.len() == 0 {
        Ok(st)
    } else {
        proof {
            assert(decreases_to!(ss => ss[ss.len() - 1]));
        }
        match stmts_c(st, ss.drop_last()) {
            Ok(st1) => stmt_c(st1, ss[ss.len() - 1]),
            Err(m) => Err(m),
        }
    }
}

// ---------------------------------------------------------------------------
// Slice types
// ---------------------------------------------------------------------------

/// The C element type of a slice type.
pub open spec fn slice_elem(t: SType) -> Seq<Seq<char>> {
    match t {
        SType::Array(elem, None) => seq![c_type_text(*elem)],
        _ => seq![],
    }
}

/// The slice element types of parameters, in order.
pub open spec fn params_slices(ps: Seq<(Seq<char>, SType)>) -> Seq<Seq<char>>
    decreases ps.len(),
{
    if ps.len() == 0 {
        seq![]
    } else {
        params_slices(ps.drop_last()) + slice_elem(ps[ps.len() - 1].1)
    }
}

/// The slice element types of the variables a statement declares, nested blocks included.
pub open spec fn stmt_slices(s: SStmt) -> Seq<Seq<char>>
    decreases s, 0nat,
{
    match s {
        SStmt::VarDecl(_, _, Some(t), _) => slice_elem(t),
        SStmt::If(_, then_b, else_b) => stmts_slices(then_b) + match else_b {
            Some(b) => stmts_slices(b),
            None => seq![],
        },
        SStmt::While(_, b) => stmts_slices(b),
        SStmt::Loop(b) => stmts_slices(b),
        SStmt::For(_, _, b) => stmts_slices(b),
        _ => seq![],
    }
}

/// The slice element types of the variables statements declare, in order.
pub open spec fn stmts_slices(ss: Seq<SStmt>) -> Seq<Seq<char>>
    decreases ss, 1nat,
{
    if ss.len() == 0 {
        seq![]
    } else {
        proof {
            assert(decreases_to!(ss => ss[ss.len() - 1]));
        }
        stmts_slices(ss.drop_last()) + stmt_slices(ss[ss.len() - 1])
    }
}

/// The slice element types of methods' parameters and bodies, in order.
pub open spec fn methods_slices(ms: Seq<SMethod>) -> Seq<Seq<char>>
    decreases ms.len(),
{
    if ms.len() == 0 {
        seq![]
    } else {
        let m = ms[ms.len() - 1];
        methods_slices(ms.drop_last()) + params_slices(m.parameters) + stmts_slices(m.body)
    }
}

/// The slice element types of impl blocks, in order.
pub open spec fn impls_slices(bs: Seq<SImpl>) -> Seq<Seq<char>>
    decreases bs.len(),
{
    if bs.len() == 0 {
        seq![]
    } else {
        impls_slices(bs.drop_last()) + methods_slices(bs[bs.len() - 1].methods)
    }
}

/// The slice element types of functions' parameters, in order.
pub open spec fn functions_param_slices(fs: Seq<SFunction>) -> Seq<Seq<char>>
    decreases fs.len(),
{
    if fs.len() == 0 {
        seq![]
    } else {
        functions_param_slices(fs.drop_last()) + params_slices(fs[fs.len() - 1].parameters)
    }
}

/// The slice element types of functions' bodies, in order.
pub open spec fn functions_body_slices(fs: Seq<SFunction>) -> Seq<Seq<char>>
    decreases fs.len(),
{
    if fs.len() == 0 {
        seq![]
    } else {
        functions_body_slices(fs.drop_last()) + stmts_slices(fs[fs.len() - 1].body)
    }
}

/// The slice element types of a program in the order the generator meets them: function
/// parameters, then each method's parameters and body, then function bodies.
pub open spec fn program_slices(p: SProgram) -> Seq<Seq<char>> {
    functions_param_slices(p.functions) + impls_slices(p.impls) + functions_body_slices(p.functions)
}

/// The distinct items of `s`, each where it first occurs.
pub open spec fn distinct(s: Seq<Seq<char>>) -> Seq<Seq<char>>
    decreases s.len(),
{
    if s.len() == 0 {
        seq![]
    } else {
        let d = distinct(s.drop_last());
        if d.contains(s[s.len() - 1]) {
            d
        } else {
            d.push(s[s.len() - 1])
        }
    }
}

/// `d` with the items of `xs` that it lacks added in order.
pub open spec fn add_all(d: Seq<Seq<char>>, xs: Seq<Seq<char>>) -> Seq<Seq<char>>
    decreases xs.len(),
{
    if xs.len() == 0 {
        d
    } else {
        let d1 = add_all(d, xs.drop_last());
        if d1.contains(xs[xs.len() - 1]) {
            d1
        } else {
            d1.push(xs[xs.len() - 1])
        }
    }
}

/// Adding the items of two sequences is adding those of the first, then those of the second.
pub proof fn lemma_add_all_concat(d: Seq<Seq<char>>, xs: Seq<Seq<char>>, ys: Seq<Seq<char>>)
    ensures
        add_all(d, xs + ys) == add_all(add_all(d, xs), ys),
    decreases ys.len(),
{
    if ys.len() == 0 {
        assert(xs + ys =~= xs);
    } else {
        assert((xs + ys).drop_last() =~= xs + ys.drop_last());
        lemma_add_all_concat(d, xs, ys.drop_last());
    }
}

/// The distinct items of a sequence are those added to nothing.
pub proof fn lemma_distinct_add_all(s: Seq<Seq<char>>)
    ensures
        distinct(s) == add_all(seq![], s),
    decreases s.len(),
{
    if s.len() > 0 {
        lemma_distinct_add_all(s.drop_last());
    }
}

/// Writes the struct for slices of the C type `elem`.
pub open spec fn slice_typedef(st: GState, elem: Seq<char>) -> GState {
    let st1 = indent(emit(st, "typedef struct {"@));
    let st2 = emit(emit(st1, elem + "* data;"@), "size_t length;"@);
    emit(emit(dedent(st2), "} "@ + slice_struct(elem) + ";"@), seq![])
}

/// Writes the structs for slices of the C types `elems`, in order.
pub open spec fn slice_typedefs(st: GState, elems: Seq<Seq<char>>) -> GState
    decreases elems.len(),
{
    if elems.len() == 0 {
        st
    } else {
        slice_typedef(slice_typedefs(st, elems.drop_last()), elems[elems.len() - 1])
    }
}

// ---------------------------------------------------------------------------
// Definitions
// ---------------------------------------------------------------------------

/// Writes one line per field: `type name;`.
pub open spec fn field_lines(st: GState, fields: Seq<(Seq<char>, SType)>) -> GState
    decreases fields.len(),
{
    if fields.len() == 0 {
        st
    } else {
        let f = fields[fields.len() - 1];
        emit(field_lines(st, fields.drop_last()), c_type_text(f.1) + " "@ + f.0 + ";"@)
    }
}

/// Writes a struct definition.
pub open spec fn struct_c(st: GState, s: SStruct) -> GState {
    let st1 = field_lines(indent(emit(st, "typedef struct {"@)), s.fields);
    emit(emit(dedent(st1), "} "@ + s.name + ";"@), seq![])
}

/// Writes struct definitions, in order.
pub open spec fn structs_c(st: GState, ss: Seq<SStruct>) -> GState
    decreases ss.len(),
{
    if ss.len() == 0 {
        st
    } else {
        struct_c(structs_c(st, ss.drop_last()), ss[ss.len() - 1])
    }
}

/// The C parameters `type name`.
pub open spec fn params_c(ps: Seq<(Seq<char>, SType)>) -> Seq<Seq<char>> {
    ps.map_values(|p: (Seq<char>, SType)| c_type_text(p.1) + " "@ + p.0)
}

/// A C signature: `ret name(params)`, with `void` for no parameters.
pub open spec fn signature(ret: SType, name: Seq<char>, params: Seq<Seq<char>>) -> Seq<char> {
    c_type_text(ret) + " "@ + name + "("@ + (if params.len() == 0 { "void"@ } else { join(params, ", "@) }) + ")"@
}

/// The C parameters of a method of the struct `s`, its self parameter first; an owned self
/// parameter fails with `owned`.
pub open spec fn method_params(s: Seq<char>, m: SMethod, owned: Seq<char>) -> Result<Seq<Seq<char>>, Seq<char>> {
    match m.self_param {
        Some(SelfParam::Ref) => Ok(seq!["const "@ + s + "* self"@] + params_c(m.parameters)),
        Some(SelfParam::MutRef) => Ok(seq![s + "* self"@] + params_c(m.parameters)),
        Some(SelfParam::Owned) => Err(owned),
        None => Ok(params_c(m.parameters)),
    }
}

/// Writes the declarations of methods of the struct `s`.
pub open spec fn method_decls(st: GState, s: Seq<char>, ms: Seq<SMethod>) -> Result<GState, GFail>
    decreases ms.len(),
{
    if ms.len() == 0 {
        Ok(st)
    } else {
        match method_decls(st, s, ms.drop_last()) {
            Err(m) => Err(m),
            Ok(st1) => {
                let m = ms[ms.len() - 1];
                match method_params(s, m, "Owned self parameter not yet implemented"@) {
                    Err(e) => Err(GFail { state: st1, message: e }),
                    Ok(ps) => Ok(emit(st1, signature(m.return_type, s + "_"@ + m.name, ps) + ";"@)),
                }
            },
        }
    }
}

/// Writes the method declarations of impl blocks, a blank line after each block.
pub open spec fn impls_decls(st: GState, bs: Seq<SImpl>) -> Result<GState, GFail>
    decreases bs.len(),
{
    if bs.len() == 0 {
        Ok(st)
    } else {
        match impls_decls(st, bs.drop_last()) {
            Err(m) => Err(m),
            Ok(st1) => {
                let b = bs[bs.len() - 1];
                match method_decls(st1, b.struct_name, b.methods) {
                    Err(m) => Err(m),
                    Ok(st2) => Ok(emit(st2, seq![])),
                }
            },
        }
    }
}

/// The variable types `vars` with parameters bound, in order.
pub open spec fn bind_params(vars: Seq<(Seq<char>, SType)>, ps: Seq<(Seq<char>, SType)>) -> Seq<(Seq<char>, SType)>
    decreases ps.len(),
{
    if ps.len() == 0 {
        vars
    } else {
        let p = ps[ps.len() - 1];
        insert(bind_params(vars, ps.drop_last()), p.0, p.1)
    }
}

/// Writes a function definition; its parameters are the only variable types known at its start.
pub open spec fn function_c(st: GState, f: SFunction) -> Result<GState, GFail> {
    let st1 = with_vars(st, bind_params(seq![], f.parameters));
    braced_s(emit(st1, signature(f.return_type, f.name, params_c(f.parameters))), f.body)
}

/// Writes function definitions, in order.
pub open spec fn functions_c(st: GState, fs: Seq<SFunction>) -> Result<GState, GFail>
    decreases fs.len(),
{
    if fs.len() == 0 {
        Ok(st)
    } else {
        match functions_c(st, fs.drop_last()) {
            Err(m) => Err(m),
            Ok(st1) => function_c(st1, fs[fs.len() - 1]),
        }
    }
}

/// Writes a method definition of the struct `s`, followed by a blank line.
pub open spec fn method_c(st: GState, s: Seq<char>, m: SMethod) -> Result<GState, GFail> {
    match method_params(s, m, "Owned self parameter not supported in v0.2.0"@) {
        Err(e) => Err(GFail { state: st, message: e }),
        Ok(ps) => match braced_s(emit(st, signature(m.return_type, s + "_"@ + m.name, ps)), m.body) {
            Err(e) => Err(e),
            Ok(st1) => Ok(emit(st1, seq![])),
        },
    }
}

/// Writes method definitions of the struct `s`, in order.
pub open spec fn methods_c(st: GState, s: Seq<char>, ms: Seq<SMethod>) -> Result<GState, GFail>
    decreases ms.len(),
{
    if ms.len() == 0 {
        Ok(st)
    } else {
        match methods_c(st, s, ms.drop_last()) {
            Err(m) => Err(m),
            Ok(st1) => method_c(st1, s, ms[ms.len() - 1]),
        }
    }
}

/// Writes the method definitions of impl blocks, in order.
pub open spec fn impls_c(st: GState, bs: Seq<SImpl>) -> Result<GState, GFail>
    decreases bs.len(),
{
    if bs.len() == 0 {
        Ok(st)
    } else {
        match impls_c(st, bs.drop_last()) {
            Err(m) => Err(m),
            Ok(st1) => methods_c(st1, bs[bs.len() - 1].struct_name, bs[bs.len() - 1].methods),
        }
    }
}

/// The struct table: each struct's fields, a later definition of a name replacing an earlier.
pub open spec fn struct_table(ss: Seq<SStruct>) -> Seq<(Seq<char>, Seq<(Seq<char>, SType)>)>
    decreases ss.len(),
{
    if ss.len() == 0 {
        seq![]
    } else {
        insert(struct_table(ss.drop_last()), ss[ss.len() - 1].name, ss[ss.len() - 1].fields)
    }
}

/// The names and return types of methods.
pub open spec fn method_returns(ms: Seq<SMethod>) -> Seq<(Seq<char>, SType)> {
    ms.map_values(|m: SMethod| (m.name, m.return_type))
}

/// The impl table: each struct's methods (names and return types), a later block for a struct
/// replacing an earlier.
pub open spec fn impl_table(bs: Seq<SImpl>) -> Seq<(Seq<char>, Seq<(Seq<char>, SType)>)>
    decreases bs.len(),
{
    if bs.len() == 0 {
        seq![]
    } else {
        insert(impl_table(bs.drop_last()), bs[bs.len() - 1].struct_name, method_returns(bs[bs.len() - 1].methods))
    }
}

/// The lines that open every generated file.
pub open spec fn headers(st: GState) -> GState {
    let st1 = emit(emit(emit(st, "#include <stdio.h>"@), "#include <stdlib.h>"@), "#include <stdint.h>"@);
    emit(emit(emit(st1, "#include <stdbool.h>"@), "#include <string.h>"@), seq![])
}

/// The C translation of a program, or the message of the first thing that cannot be translated:
/// headers, slice structs, structs, method declarations, functions, then methods.
pub open spec fn program_c(p: SProgram) -> Result<Seq<char>, Seq<char>> {
    let st0 = GState {
        env: GEnv { vars: seq![], structs: struct_table(p.structs), impls: impl_table(p.impls) },
        indent: 0,
        temp: 0,
        out: seq![],
    };
    let st1 = structs_c(slice_typedefs(headers(st0), distinct(program_slices(p))), p.structs);
    match impls_decls(st1, p.impls) {
        Err(f) => Err(f.message),
        Ok(st2) => match functions_c(st2, p.functions) {
            Err(f) => Err(f.message),
            Ok(st3) => match impls_c(st3, p.impls) {
                Err(f) => Err(f.message),
                Ok(st4) => Ok(st4.out),
            },
        },
    }
}


/// `braced`, sealed: its meaning is given by `unfold_braced`.
#[verifier::opaque]
pub open spec fn braced_s(st: GState, body: Seq<SStmt>) -> Result<GState, GFail> {
    braced(st, body)
}

/// `stmt_c`, sealed: its meaning is given by `unfold_stmt_c`.
#[verifier::opaque]
pub open spec fn stmt_c_s(st: GState, s: SStmt) -> Result<GState, GFail> {
    stmt_c(st, s)
}

/// `stmts_c`, sealed: its meaning is given by `unfold_stmts_c`.
#[verifier::opaque]
pub open spec fn stmts_c_s(st: GState, ss: Seq<SStmt>) -> Result<GState, GFail> {
    stmts_c(st, ss)
}

/// One step of `braced`.
pub proof fn unfold_braced(st: GState, body: Seq<SStmt>)
    ensures
        braced_s(st, body) == {
    match stmts_c_s(indent(emit(st, "{"@)), body) {
        Ok(st1) => Ok(emit(dedent(st1), "}"@)),
        Err(m) => Err(m),
    }
        },
{
    reveal(braced_s);
    reveal(stmts_c_s);
}

/// One step of `stmt_c`.
pub proof fn unfold_stmt_c(st: GState, s: SStmt)
    ensures
        stmt_c_s(st, s) == {
    let env = st.env;
    match s {
        SStmt::Return(v) => match v {
            Some(e) => Ok(emit(st, "return "@ + expr_c(env, e) + ";"@)),
            None => Ok(emit(st, "return;"@)),
        },
        SStmt::VarDecl(mutable, name, t, init) => match t {
            Some(t) => Ok(var_decl_c(st, mutable, name, t, init)),
            None => Err(GFail { state: st, message: "Internal error: Variable '"@ + name + "' has no type after semantic analysis"@ }),
        },
        SStmt::Assignment(target, value, _) => Ok(emit(st, target_c(env, target) + " = "@ + expr_c(env, value) + ";"@)),
        SStmt::If(cond, then_b, else_b) => match braced_s(emit(st, "if ("@ + expr_c(env, cond) + ")"@), then_b) {
            Err(m) => Err(m),
            Ok(st1) => match else_b {
                Some(b) => braced_s(emit(st1, "else"@), b),
                None => Ok(st1),
            },
        },
        SStmt::While(cond, body) => braced_s(emit(st, "while ("@ + expr_c(env, cond) + ")"@), body),
        SStmt::Loop(body) => braced_s(emit(st, "while (1)"@), body),
        SStmt::For(var, it, body) => match it {
            SIterable::Range(a, b) => braced_s(
                emit(st, "for (int32_t "@ + var + " = "@ + expr_c(env, a) + "; "@ + var + " < "@ + expr_c(env, b) + "; "@ + var + "++)"@),
                body,
            ),
            SIterable::Expression(e) => {
                let counter = "__i_"@ + var;
                match e {
                    SExpr::ArrayLiteral(elems, _) => {
                        let array = "__array_"@ + var;
                        let st1 = emit(st, "int32_t "@ + array + "[] = {"@ + join(exprs_c(env, elems, elems.len()), ", "@) + "};"@);
                        let st2 = emit(st1, "for (size_t "@ + counter + " = 0; "@ + counter + " < "@ + nat_decimal(elems.len()) + "; "@
                            + counter + "++)"@);
                        let st3 = emit(indent(emit(st2, "{"@)), "int32_t "@ + var + " = "@ + array + "["@ + counter + "];"@);
                        match stmts_c_s(st3, body) {
                            Ok(st4) => Ok(emit(dedent(st4), "}"@)),
                            Err(m) => Err(m),
                        }
                    },
                    SExpr::Variable(a) => match lookup(env.vars, a) {
                        Some(SType::Array(elem, Some(n))) => {
                            let st2 = emit(st, "for (size_t "@ + counter + " = 0; "@ + counter + " < "@ + nat_decimal(n) + "; "@ + counter
                                + "++)"@);
                            let st3 = emit(indent(emit(st2, "{"@)), c_type_text(*elem) + " "@ + var + " = "@ + a + "["@ + counter + "];"@);
                            match stmts_c_s(st3, body) {
                                Ok(st4) => Ok(emit(dedent(st4), "}"@)),
                                Err(m) => Err(m),
                            }
                        },
                        _ => Err(GFail { state: st, message: "Cannot determine size of array '"@ + a + "'"@ }),
                    },
                    _ => Err(GFail { state: st, message: "For loop iterable must be array literal or array variable"@ }),
                }
            },
        },
        SStmt::Break => Ok(emit(st, "break;"@)),
        SStmt::Continue => Ok(emit(st, "continue;"@)),
        SStmt::Expression(e) => Ok(emit(st, expr_c(env, e) + ";"@)),
    }
        },
{
    reveal(stmt_c_s);
    reveal(stmts_c_s);
    reveal(braced_s);
}

/// One step of `stmts_c`.
pub proof fn unfold_stmts_c(st: GState, ss: Seq<SStmt>)
    ensures
        stmts_c_s(st, ss) == {
    if ss.len() == 0 {
        Ok(st)
    } else {
        match stmts_c_s(st, ss.drop_last()) {
            Ok(st1) => stmt_c_s(st1, ss[ss.len() - 1]),
            Err(m) => Err(m),
        }
    }
        },
{
    reveal(stmt_c_s);
    reveal(stmts_c_s);
}


/// Once statements fail, the statements after them do not matter.
pub proof fn lemma_stmts_c_err(st: GState, ss: Seq<SStmt>, j: nat)
    requires
        j <= ss.len(),
        stmts_c_s(st, ss.take(j as int)) is Err,
    ensures
        stmts_c_s(st, ss) == stmts_c_s(st, ss.take(j as int)),
    decreases ss.len(),
{
    if j == ss.len() {
        assert(ss.take(j as int) =~= ss);
    } else {
        assert(ss.drop_last().take(j as int) =~= ss.take(j as int));
        lemma_stmts_c_err(st, ss.drop_last(), j);
        unfold_stmts_c(st, ss);
    }
}


/// Once method declarations fail, those after them do not matter.
pub proof fn lemma_method_decls_err(st: GState, s: Seq<char>, ms: Seq<SMethod>, j: nat)
    requires
        j <= ms.len(),
        method_decls(st, s, ms.take(j as int)) is Err,
    ensures
        method_decls(st, s, ms) == method_decls(st, s, ms.take(j as int)),
    decreases ms.len(),
{
    if j == ms.len() {
        assert(ms.take(j as int) =~= ms);
    } else {
        assert(ms.drop_last().take(j as int) =~= ms.take(j as int));
        lemma_method_decls_err(st, s, ms.drop_last(), j);
    }
}

/// Once impl blocks' declarations fail, those after them do not matter.
pub proof fn lemma_impls_decls_err(st: GState, bs: Seq<SImpl>, j: nat)
    requires
        j <= bs.len(),
        impls_decls(st, bs.take(j as int)) is Err,
    ensures
        impls_decls(st, bs) == impls_decls(st, bs.take(j as int)),
    decreases bs.len(),
{
    if j == bs.len() {
        assert(bs.take(j as int) =~= bs);
    } else {
        assert(bs.drop_last().take(j as int) =~= bs.take(j as int));
        lemma_impls_decls_err(st, bs.drop_last(), j);
    }
}

/// Once functions fail, those after them do not matter.
pub proof fn lemma_functions_c_err(st: GState, fs: Seq<SFunction>, j: nat)
    requires
        j <= fs.len(),
        functions_c(st, fs.take(j as int)) is Err,
    ensures
        functions_c(st, fs) == functions_c(st, fs.take(j as int)),
    decreases fs.len(),
{
    if j == fs.len() {
        assert(fs.take(j as int) =~= fs);
    } else {
        assert(fs.drop_last().take(j as int) =~= fs.take(j as int));
        lemma_functions_c_err(st, fs.drop_last(), j);
    }
}

/// Once methods fail, those after them do not matter.
pub proof fn lemma_methods_c_err(st: GState, s: Seq<char>, ms: Seq<SMethod>, j: nat)
    requires
        j <= ms.len(),
        methods_c(st, s, ms.take(j as int)) is Err,
    ensures
        methods_c(st, s, ms) == methods_c(st, s, ms.take(j as int)),
    decreases ms.len(),
{
    if j == ms.len() {
        assert(ms.take(j as int) =~= ms);
    } else {
        assert(ms.drop_last().take(j as int) =~= ms.take(j as int));
        lemma_methods_c_err(st, s, ms.drop_last(), j);
    }
}

/// Once impl blocks fail, those after them do not matter.
pub proof fn lemma_impls_c_err(st: GState, bs: Seq<SImpl>, j: nat)
    requires
        j <= bs.len(),
        impls_c(st, bs.take(j as int)) is Err,
    ensures
        impls_c(st, bs) == impls_c(st, bs.take(j as int)),
    decreases bs.len(),
{
    if j == bs.len() {
        assert(bs.take(j as int) =~= bs);
    } else {
        assert(bs.drop_last().take(j as int) =~= bs.take(j as int));
        lemma_impls_c_err(st, bs.drop_last(), j);
    }
}

} // verus!
