//! Properties of the typing rules that hold across statements and whole programs.
use vstd::prelude::*;

use crate::parser::ast::{SFunction, SImpl, SMethod, SProgram, SStmt};
use crate::parser::ast::{type_text, BinaryOperator, SExpr, STarget, SType, SelfParam, UnaryOperator};
use super::rules::{
    check_args, check_lit_fields, count_text, field_names, first_index, function_names, immutable_variable, infer, located,
    lookup_field, lookup_impl, lookup_sig, lookup_struct, lookup_symbol, missing_field, q, undefined_variable,
};
use super::rules::{
    add_functions, add_impls, add_structs, analysis, check_function, check_functions, check_impl_bodies, check_method,
    check_methods, check_stmt, check_stmts, elem_errors, initial_state, lev, similar_from, similar_name, symbol_names,
    CState, TEnv,
};

verus! {

/// Whether `b` begins with all of `a`.
pub open spec fn extends(a: Seq<Seq<char>>, b: Seq<Seq<char>>) -> bool {
    a.len() <= b.len() && b.subrange(0, a.len() as int) == a
}

/// Extending is transitive.
pub proof fn lemma_extends_trans(a: Seq<Seq<char>>, b: Seq<Seq<char>>, c: Seq<Seq<char>>)
    requires
        extends(a, b),
        extends(b, c),
    ensures
        extends(a, c),
{
    assert(c.subrange(0, a.len() as int) =~= b.subrange(0, a.len() as int));
}

/// Whether every variable declaration in a statement, nested blocks included, has a type.
pub open spec fn stmt_typed(s: SStmt) -> bool
    decreases s, 0nat,
{
    match s {
        SStmt::VarDecl(_, _, t, _) => t is Some,
        SStmt::If(_, a, b) => stmts_typed(a) && match b {
            Some(x) => stmts_typed(x),
            None => true,
        },
        SStmt::While(_, b) => stmts_typed(b),
        SStmt::Loop(b) => stmts_typed(b),
        SStmt::For(_, _, b) => stmts_typed(b),
        _ => true,
    }
}

/// Whether every variable declaration in statements has a type.
pub open spec fn stmts_typed(ss: Seq<SStmt>) -> bool
    decreases ss, 1nat,
{
    if ss.len() == 0 {
        true
    } else {
        proof {
            assert(decreases_to!(ss => ss[ss.len() - 1]));
        }
        stmts_typed(ss.drop_last()) && stmt_typed(ss[ss.len() - 1])
    }
}

/// Whether every variable declaration in a program's functions and methods has a type.
pub open spec fn program_typed(p: SProgram) -> bool {
    &&& forall|i: int| 0 <= i < p.functions.len() ==> #[trigger] stmts_typed(p.functions[i].body)
    &&& forall|i: int, j: int|
        0 <= i < p.impls.len() && 0 <= j < p.impls[i].methods.len() ==> #[trigger] stmts_typed(p.impls[i].methods[j].body)
}

proof fn lemma_elem_errors(st: CState, elems: Seq<crate::parser::ast::SExpr>, t: crate::parser::ast::SType, i: nat)
    ensures
        extends(st.errors, elem_errors(st, elems, t, i).errors),
        elem_errors(st, elems, t, i).env == st.env,
        elem_errors(st, elems, t, i).in_loop == st.in_loop,
    decreases elems.len() - i,
{
    assert(st.errors.subrange(0, st.errors.len() as int) =~= st.errors);
    if i < elems.len() {
        let st1 = match super::rules::infer(st.env, elems[i as int]) {
            Err(m) => super::rules::push_err(st, m),
            Ok(et) => if et == t {
                st
            } else {
                super::rules::push_err(st, "Array element "@ + crate::helper::text::nat_decimal(i) + " has type "@
                    + super::rules::q(crate::parser::ast::type_text(et)) + ", expected "@ + super::rules::q(crate::parser::ast::type_text(t)))
            },
        };
        assert(extends(st.errors, st1.errors)) by {
            assert(st1.errors.subrange(0, st.errors.len() as int) =~= st.errors);
        }
        lemma_elem_errors(st1, elems, t, i + 1);
        lemma_extends_trans(st.errors, st1.errors, elem_errors(st, elems, t, i).errors);
    }
}

/// Checking a statement only adds errors; when it adds none, every declaration in the checked
/// statement has a type.
pub proof fn lemma_check_stmt(st: CState, s: SStmt)
    ensures
        extends(st.errors, check_stmt(st, s).0.errors),
        check_stmt(st, s).0.errors.len() == st.errors.len() ==> stmt_typed(check_stmt(st, s).1),
    decreases s, 0nat,
{
    let r = check_stmt(st, s);
    assert(st.errors.subrange(0, st.errors.len() as int) =~= st.errors);
    match s {
        SStmt::If(cond, then_b, else_b) => {
            let st1 = super::rules::check_cond(st, cond, "If"@);
            assert(st1.errors.subrange(0, st.errors.len() as int) =~= st.errors);
            lemma_check_stmts(st1, then_b);
            let (st2, t2) = check_stmts(st1, then_b);
            lemma_extends_trans(st.errors, st1.errors, st2.errors);
            match else_b {
                Some(b) => {
                    lemma_check_stmts(st2, b);
                    lemma_extends_trans(st.errors, st2.errors, check_stmts(st2, b).0.errors);
                },
                None => {},
            }
        },
        SStmt::While(cond, body) => {
            let st1 = super::rules::check_cond(st, cond, "While"@);
            assert(st1.errors.subrange(0, st.errors.len() as int) =~= st.errors);
            let st1b = super::rules::set_loop(st1, true);
            lemma_check_stmts(st1b, body);
            lemma_extends_trans(st.errors, st1b.errors, check_stmts(st1b, body).0.errors);
        },
        SStmt::Loop(body) => {
            lemma_check_stmts(super::rules::set_loop(st, true), body);
        },
        SStmt::For(var, it, body) => {
            let st1 = super::rules::check_iterable(st, var, it);
            assert(extends(st.errors, st1.errors)) by {
                match it {
                    crate::parser::ast::SIterable::Range(a, b) => {
                        let n1 = super::rules::note_expr(st, a);
                        assert(n1.errors.subrange(0, st.errors.len() as int) =~= st.errors);
                        let n2 = super::rules::note_expr(n1, b);
                        assert(n2.errors.subrange(0, n1.errors.len() as int) =~= n1.errors);
                        lemma_extends_trans(st.errors, n1.errors, n2.errors);
                    },
                    crate::parser::ast::SIterable::Expression(e) => {
                        match e {
                            crate::parser::ast::SExpr::ArrayLiteral(elems, _) => {
                                if elems.len() > 0 {
                                    match super::rules::infer(st.env, elems[0]) {
                                        Err(m) => {
                                            assert(st1.errors.subrange(0, st.errors.len() as int) =~= st.errors);
                                        },
                                        Ok(t) => {
                                            lemma_elem_errors(st, elems, t, 1);
                                        },
                                    }
                                }
                            },
                            _ => {
                                assert(st1.errors.subrange(0, st.errors.len() as int) =~= st.errors);
                            },
                        }
                    },
                }
            }
            let st1b = super::rules::set_loop(st1, true);
            lemma_check_stmts(st1b, body);
            lemma_extends_trans(st.errors, st1b.errors, check_stmts(st1b, body).0.errors);
        },
        _ => {
            assert(r.0.errors.subrange(0, st.errors.len() as int) =~= st.errors);
        },
    }
}

/// Checking statements only adds errors; when it adds none, every declaration in the checked
/// statements has a type.
pub proof fn lemma_check_stmts(st: CState, ss: Seq<SStmt>)
    ensures
        extends(st.errors, check_stmts(st, ss).0.errors),
        check_stmts(st, ss).0.errors.len() == st.errors.len() ==> stmts_typed(check_stmts(st, ss).1),
        check_stmts(st, ss).1.len() == ss.len(),
    decreases ss, 1nat,
{
    assert(st.errors.subrange(0, st.errors.len() as int) =~= st.errors);
    if ss.len() > 0 {
        lemma_check_stmts(st, ss.drop_last());
        let (st1, done) = check_stmts(st, ss.drop_last());
        lemma_check_stmt(st1, ss[ss.len() - 1]);
        let (st2, last) = check_stmt(st1, ss[ss.len() - 1]);
        lemma_extends_trans(st.errors, st1.errors, st2.errors);
        assert(done.push(last).drop_last() =~= done);
    }
}

/// Whether two checker states share what a statement cannot change: the function, struct and
/// impl tables, the method's self parameter, the file name, and whether checking is inside a loop.
pub open spec fn same_context(a: CState, b: CState) -> bool {
    &&& a.env.functions == b.env.functions
    &&& a.env.structs == b.env.structs
    &&& a.env.impls == b.env.impls
    &&& a.env.self_param == b.env.self_param
    &&& a.env.filename == b.env.filename
    &&& a.in_loop == b.in_loop
}

/// Checking a statement leaves the function, struct and impl tables, the self parameter and the
/// file name as they were, restores whether checking is inside a loop, and only adds errors.
pub proof fn lemma_check_stmt_context(st: CState, s: SStmt)
    ensures
        same_context(st, check_stmt(st, s).0),
        extends(st.errors, check_stmt(st, s).0.errors),
    decreases s, 0nat,
{
    lemma_check_stmt(st, s);
    match s {
        SStmt::If(cond, then_b, else_b) => {
            let st1 = super::rules::check_cond(st, cond, "If"@);
            lemma_check_stmts_context(st1, then_b);
            if let Some(b) = else_b {
                lemma_check_stmts_context(check_stmts(st1, then_b).0, b);
            }
        },
        SStmt::While(cond, body) => {
            let st1 = super::rules::check_cond(st, cond, "While"@);
            lemma_check_stmts_context(super::rules::set_loop(st1, true), body);
        },
        SStmt::Loop(body) => {
            lemma_check_stmts_context(super::rules::set_loop(st, true), body);
        },
        SStmt::For(var, it, body) => {
            let st1 = super::rules::check_iterable(st, var, it);
            assert(same_context(st, st1)) by {
                if let crate::parser::ast::SIterable::Expression(e) = it {
                    if let crate::parser::ast::SExpr::ArrayLiteral(elems, _) = e {
                        if elems.len() > 0 {
                            if let Ok(t) = super::rules::infer(st.env, elems[0]) {
                                lemma_elem_errors(st, elems, t, 1);
                            }
                        }
                    }
                }
            }
            lemma_check_stmts_context(super::rules::set_loop(st1, true), body);
        },
        _ => {},
    }
}

/// Checking statements keeps the context of `lemma_check_stmt_context` and only adds errors.
pub proof fn lemma_check_stmts_context(st: CState, ss: Seq<SStmt>)
    ensures
        same_context(st, check_stmts(st, ss).0),
        extends(st.errors, check_stmts(st, ss).0.errors),
    decreases ss, 1nat,
{
    lemma_check_stmts(st, ss);
    if ss.len() > 0 {
        lemma_check_stmts_context(st, ss.drop_last());
        lemma_check_stmt_context(check_stmts(st, ss.drop_last()).0, ss[ss.len() - 1]);
    }
}

/// Recording struct definitions only adds errors.
proof fn lemma_add_structs(st: CState, ss: Seq<crate::parser::ast::SStruct>)
    ensures
        extends(st.errors, add_structs(st, ss).errors),
    decreases ss.len(),
{
    assert(st.errors.subrange(0, st.errors.len() as int) =~= st.errors);
    if ss.len() > 0 {
        lemma_add_structs(st, ss.drop_last());
        let st1 = add_structs(st, ss.drop_last());
        assert(add_structs(st, ss).errors.subrange(0, st1.errors.len() as int) =~= st1.errors);
        lemma_extends_trans(st.errors, st1.errors, add_structs(st, ss).errors);
    }
}

/// Recording impl blocks only adds errors.
proof fn lemma_add_impls(st: CState, bs: Seq<SImpl>)
    ensures
        extends(st.errors, add_impls(st, bs).errors),
    decreases bs.len(),
{
    assert(st.errors.subrange(0, st.errors.len() as int) =~= st.errors);
    if bs.len() > 0 {
        lemma_add_impls(st, bs.drop_last());
        let st1 = add_impls(st, bs.drop_last());
        assert(add_impls(st, bs).errors.subrange(0, st1.errors.len() as int) =~= st1.errors);
        lemma_extends_trans(st.errors, st1.errors, add_impls(st, bs).errors);
    }
}

/// Recording function signatures only adds errors.
proof fn lemma_add_functions(st: CState, fs: Seq<SFunction>)
    ensures
        extends(st.errors, add_functions(st, fs).errors),
    decreases fs.len(),
{
    assert(st.errors.subrange(0, st.errors.len() as int) =~= st.errors);
    if fs.len() > 0 {
        lemma_add_functions(st, fs.drop_last());
        let st1 = add_functions(st, fs.drop_last());
        assert(add_functions(st, fs).errors.subrange(0, st1.errors.len() as int) =~= st1.errors);
        lemma_extends_trans(st.errors, st1.errors, add_functions(st, fs).errors);
    }
}

/// Checking methods only adds errors; when it adds none, their declarations have types.
proof fn lemma_check_methods(st: CState, s: Seq<char>, ms: Seq<SMethod>)
    ensures
        extends(st.errors, check_methods(st, s, ms).0.errors),
        check_methods(st, s, ms).1.len() == ms.len(),
        check_methods(st, s, ms).0.errors.len() == st.errors.len() ==> forall|j: int|
            0 <= j < ms.len() ==> #[trigger] stmts_typed(check_methods(st, s, ms).1[j].body),
    decreases ms.len(),
{
    assert(st.errors.subrange(0, st.errors.len() as int) =~= st.errors);
    if ms.len() > 0 {
        lemma_check_methods(st, s, ms.drop_last());
        let (st1, done) = check_methods(st, s, ms.drop_last());
        let m = ms[ms.len() - 1];
        let entered = super::rules::enter(st1, super::rules::method_symbols(s, m), m.self_param);
        lemma_check_stmts(entered, m.body);
        let (st2, m2) = check_method(st1, s, m);
        lemma_extends_trans(st.errors, st1.errors, st2.errors);
    }
}

/// Checking impl blocks only adds errors; when it adds none, their declarations have types.
proof fn lemma_check_impl_bodies(st: CState, bs: Seq<SImpl>)
    ensures
        extends(st.errors, check_impl_bodies(st, bs).0.errors),
        check_impl_bodies(st, bs).1.len() == bs.len(),
        forall|i: int| 0 <= i < bs.len() ==> #[trigger] check_impl_bodies(st, bs).1[i].methods.len() == bs[i].methods.len(),
        check_impl_bodies(st, bs).0.errors.len() == st.errors.len() ==> forall|i: int, j: int|
            0 <= i < bs.len() && 0 <= j < bs[i].methods.len() ==> #[trigger] stmts_typed(check_impl_bodies(st, bs).1[i].methods[j].body),
    decreases bs.len(),
{
    assert(st.errors.subrange(0, st.errors.len() as int) =~= st.errors);
    if bs.len() > 0 {
        lemma_check_impl_bodies(st, bs.drop_last());
        let (st1, done) = check_impl_bodies(st, bs.drop_last());
        let b = bs[bs.len() - 1];
        lemma_check_methods(st1, b.struct_name, b.methods);
        let (st2, ms) = check_methods(st1, b.struct_name, b.methods);
        lemma_extends_trans(st.errors, st1.errors, st2.errors);
    }
}

/// Checking functions only adds errors; when it adds none, their declarations have types.
proof fn lemma_check_functions(st: CState, fs: Seq<SFunction>)
    ensures
        extends(st.errors, check_functions(st, fs).0.errors),
        check_functions(st, fs).1.len() == fs.len(),
        check_functions(st, fs).0.errors.len() == st.errors.len() ==> forall|j: int|
            0 <= j < fs.len() ==> #[trigger] stmts_typed(check_functions(st, fs).1[j].body),
    decreases fs.len(),
{
    assert(st.errors.subrange(0, st.errors.len() as int) =~= st.errors);
    if fs.len() > 0 {
        lemma_check_functions(st, fs.drop_last());
        let (st1, done) = check_functions(st, fs.drop_last());
        let f = fs[fs.len() - 1];
        lemma_check_stmts(super::rules::enter(st1, super::rules::bind_params(seq![], f.parameters), None), f.body);
        let (st2, f2) = check_function(st1, f);
        lemma_extends_trans(st.errors, st1.errors, st2.errors);
    }
}

/// A program that checks without errors has a type recorded for every variable declaration,
/// which is what the C generator needs.
pub proof fn lemma_clean_analysis_is_typed(filename: Seq<char>, p: SProgram)
    requires
        analysis(filename, p).0.len() == 0,
    ensures
        program_typed(analysis(filename, p).1),
{
    let st0 = initial_state(filename);
    let sa = add_structs(st0, p.structs);
    let sb = add_impls(sa, p.impls);
    let sc = add_functions(sb, p.functions);
    lemma_add_structs(st0, p.structs);
    lemma_add_impls(sa, p.impls);
    lemma_add_functions(sb, p.functions);
    lemma_check_impl_bodies(sc, p.impls);
    let (sd, impls) = check_impl_bodies(sc, p.impls);
    lemma_check_functions(sd, p.functions);
    let (se, functions) = check_functions(sd, p.functions);
    lemma_extends_trans(st0.errors, sa.errors, sb.errors);
    lemma_extends_trans(st0.errors, sb.errors, sc.errors);
    lemma_extends_trans(sc.errors, sd.errors, se.errors);
}


/// The variable of a `for` loop, and every variable declared in its body, is out of scope after
/// the loop; and whether the checker is inside a loop is as before it.
pub proof fn lemma_for_scope(st: CState, var: Seq<char>, it: crate::parser::ast::SIterable, body: Seq<SStmt>)
    ensures
        check_stmt(st, SStmt::For(var, it, body)).0.env.symbols == st.env.symbols,
        check_stmt(st, SStmt::For(var, it, body)).0.in_loop == st.in_loop,
{
}

/// After a `while` or a `loop`, whether the checker is inside a loop is as before it.
pub proof fn lemma_loop_context(st: CState, cond: crate::parser::ast::SExpr, body: Seq<SStmt>)
    ensures
        check_stmt(st, SStmt::While(cond, body)).0.in_loop == st.in_loop,
        check_stmt(st, SStmt::Loop(body)).0.in_loop == st.in_loop,
{
}

/// `break` and `continue` are errors outside loops, and fine inside them.
pub proof fn lemma_break_outside_loop(st: CState)
    ensures
        check_stmt(st, SStmt::Break).0.errors == if st.in_loop {
            st.errors
        } else {
            st.errors.push("'break' statement outside of loop"@)
        },
        check_stmt(st, SStmt::Continue).0.errors == if st.in_loop {
            st.errors
        } else {
            st.errors.push("'continue' statement outside of loop"@)
        },
{
}

proof fn lemma_similar_from(names: Seq<Seq<char>>, name: Seq<char>, i: nat, best: Option<(Seq<char>, nat)>)
    requires
        best matches Some((b, d)) ==> names.contains(b) && d == lev(name, b) && 0 < d <= 2,
    ensures
        similar_from(names, name, i, best) matches Some((b, d)) ==> names.contains(b) && d == lev(name, b) && 0 < d <= 2,
    decreases names.len() - i,
{
    if i < names.len() {
        assert(names[i as int] == names[i as int]);
        let d = lev(name, names[i as int]);
        let better = super::rules::measurable(name, names[i as int]) && 0 < d <= 2 && match best {
            Some((_, bd)) => d < bd,
            None => true,
        };
        lemma_similar_from(names, name, i + 1, if better { Some((names[i as int], d)) } else { best });
    }
}

/// A suggested name is a variable in scope, one or two edits away from the undefined name.
pub proof fn lemma_suggestion(env: TEnv, name: Seq<char>)
    ensures
        similar_name(env, name) matches Some(s) ==> symbol_names(env.symbols).contains(s) && 0 < lev(name, s) <= 2,
{
    lemma_similar_from(symbol_names(env.symbols), name, 0, None);
}

/// A binary expression: the left operand's error, else the right one's; else, for arithmetic,
/// the operands' common type; for comparisons, `bool` when the types agree; for `&&` and `||`,
/// `bool` when both operands are `bool`; otherwise an error.
pub proof fn lemma_infer_binary(env: TEnv, l: SExpr, op: BinaryOperator, r: SExpr)
    ensures
        ({
            let e = SExpr::Binary(Box::new(l), op, Box::new(r));
            &&& infer(env, l) is Err ==> infer(env, e) == infer(env, l)
            &&& infer(env, l) is Ok && infer(env, r) is Err ==> infer(env, e) == infer(env, r)
            &&& (infer(env, l), infer(env, r)) matches (Ok(a), Ok(b)) ==> match op {
                BinaryOperator::Add | BinaryOperator::Subtract | BinaryOperator::Multiply | BinaryOperator::Divide
                | BinaryOperator::Modulo => if a == b { infer(env, e) == Ok::<SType, Seq<char>>(a) } else { infer(env, e) is Err },
                BinaryOperator::And | BinaryOperator::Or => if a is Bool && b is Bool {
                    infer(env, e) == Ok::<SType, Seq<char>>(SType::Bool)
                } else {
                    infer(env, e) is Err
                },
                _ => if a == b { infer(env, e) == Ok::<SType, Seq<char>>(SType::Bool) } else { infer(env, e) is Err },
            }
        }),
{
}

/// A unary expression: the operand's error; else `!` needs a `bool` and gives `bool`, and `-`
/// needs a signed integer or floating type and gives it (unsigned types are refused).
pub proof fn lemma_infer_unary(env: TEnv, op: UnaryOperator, x: SExpr)
    ensures
        ({
            let e = SExpr::Unary(op, Box::new(x));
            &&& infer(env, x) is Err ==> infer(env, e) == infer(env, x)
            &&& infer(env, x) matches Ok(t) ==> infer(env, e) == match op {
                UnaryOperator::Not => if t is Bool {
                    Ok(SType::Bool)
                } else {
                    Err("Logical NOT requires boolean operand, found "@ + q(type_text(t)))
                },
                UnaryOperator::Negate => if t is I8 || t is I16 || t is I32 || t is I64 || t is F32 || t is F64 {
                    Ok(t)
                } else {
                    Err("Negation requires numeric operand, found "@ + q(type_text(t)))
                },
            }
        }),
{
}

/// A variable has the type it was declared with; an undeclared one is an error that suggests
/// a similar name in scope when there is one.
pub proof fn lemma_infer_variable(env: TEnv, name: Seq<char>)
    ensures
        infer(env, SExpr::Variable(name)) == match lookup_symbol(env, name) {
            Some((t, _)) => Ok(t),
            None => Err(undefined_variable(name, similar_name(env, name))),
        },
        lookup_symbol(env, name) is None ==> match similar_name(env, name) {
            Some(s) => infer(env, SExpr::Variable(name)) == Err::<SType, Seq<char>>(
                "Undefined variable "@ + q(name) + ", did you mean "@ + q(s) + "?"@,
            ),
            None => infer(env, SExpr::Variable(name)) == Err::<SType, Seq<char>>("Undefined variable "@ + q(name)),
        },
{
}

proof fn lemma_check_args(env: TEnv, args: Seq<SExpr>, params: Seq<SType>, i: nat)
    requires
        args.len() == params.len(),
    ensures
        check_args(env, args, params, i) is None <==> forall|j: int| i <= j < args.len() ==> #[trigger] infer(env, args[j])
            == Ok::<SType, Seq<char>>(params[j]),
    decreases args.len() - i,
{
    if i < args.len() {
        lemma_check_args(env, args, params, i + 1);
        if check_args(env, args, params, i) is None {
            assert forall|j: int| i <= j < args.len() implies #[trigger] infer(env, args[j]) == Ok::<SType, Seq<char>>(params[j]) by {
                if j > i {
                    assert(check_args(env, args, params, i + 1) is None);
                }
            }
        } else if forall|j: int| i <= j < args.len() ==> #[trigger] infer(env, args[j]) == Ok::<SType, Seq<char>>(params[j]) {
            assert(infer(env, args[i as int]) == Ok::<SType, Seq<char>>(params[i as int]));
        }
    }
}

/// A call: an error for an undefined function or a wrong number of arguments; else the
/// function's return type exactly when every argument has its parameter's type.
pub proof fn lemma_infer_call(env: TEnv, callee: Seq<char>, args: Seq<SExpr>)
    ensures
        ({
            let e = SExpr::Call(callee, args);
            match first_index(function_names(env.functions), callee, 0) {
                None => infer(env, e) == Err::<SType, Seq<char>>("Undefined function "@ + q(callee)),
                Some(k) => {
                    let params = env.functions[k as int].1;
                    if args.len() != params.len() {
                        infer(env, e) == Err::<SType, Seq<char>>("Function "@ + q(callee) + count_text(params.len(), args.len()))
                    } else {
                        (infer(env, e) is Ok <==> forall|j: int| 0 <= j < args.len() ==> #[trigger] infer(env, args[j])
                            == Ok::<SType, Seq<char>>(params[j]))
                        && (infer(env, e) is Ok ==> infer(env, e) == Ok::<SType, Seq<char>>(env.functions[k as int].2))
                    }
                },
            }
        }),
{
    if let Some(k) = first_index(function_names(env.functions), callee, 0) {
        let params = env.functions[k as int].1;
        if args.len() == params.len() {
            lemma_check_args(env, args, params, 0);
        }
    }
}

/// A field access has the type of the first field of that name of the object's struct.
pub proof fn lemma_infer_field_access(env: TEnv, obj: SExpr, field: Seq<char>, span: Option<crate::parser::ast::Span>)
    ensures
        infer(env, SExpr::FieldAccess(Box::new(obj), field, span)) == match infer(env, obj) {
            Err(m) => Err(m),
            Ok(SType::Struct(s)) => match lookup_struct(env, s) {
                Some(fields) => match lookup_field(fields, field) {
                    Some(ft) => Ok(ft),
                    None => Err("Struct "@ + q(s) + " has no field named "@ + q(field)),
                },
                None => Err("Undefined struct "@ + q(s)),
            },
            Ok(t) => Err("Cannot access field "@ + q(field) + " on non-struct type "@ + q(type_text(t))),
        },
{
}

/// Whether a field given in a struct literal is one of the struct's, and its value has the type
/// of the first field of that name.
pub open spec fn field_value_fits(env: TEnv, defs: Seq<(Seq<char>, SType)>, lit: (Seq<char>, SExpr)) -> bool {
    match lookup_field(defs, lit.0) {
        Some(ft) => infer(env, lit.1) == Ok::<SType, Seq<char>>(ft),
        None => false,
    }
}

proof fn lemma_missing_field(fields: Seq<(Seq<char>, SType)>, given: Seq<Seq<char>>, i: nat)
    ensures
        missing_field(fields, given, i) is None <==> forall|j: int| i <= j < fields.len() ==> #[trigger] first_index(
            given,
            fields[j].0,
            0,
        ) is Some,
    decreases fields.len() - i,
{
    if i < fields.len() {
        lemma_missing_field(fields, given, i + 1);
        if missing_field(fields, given, i) is None {
            assert forall|j: int| i <= j < fields.len() implies #[trigger] first_index(given, fields[j].0, 0) is Some by {
                if j > i {
                    assert(missing_field(fields, given, i + 1) is None);
                }
            }
        }
    }
}

proof fn lemma_check_lit_fields(env: TEnv, s: Seq<char>, defs: Seq<(Seq<char>, SType)>, lits: Seq<(Seq<char>, SExpr)>, i: nat)
    ensures
        check_lit_fields(env, s, defs, lits, i) is None <==> forall|j: int| i <= j < lits.len() ==> #[trigger] field_value_fits(env, defs, lits[j]),
    decreases lits.len() - i,
{
    if i < lits.len() {
        lemma_check_lit_fields(env, s, defs, lits, i + 1);
        if check_lit_fields(env, s, defs, lits, i) is None {
            assert forall|j: int| i <= j < lits.len() implies #[trigger] field_value_fits(env, defs, lits[j]) by {
                if j > i {
                    assert(check_lit_fields(env, s, defs, lits, i + 1) is None);
                }
            }
        } else if forall|j: int| i <= j < lits.len() ==> #[trigger] field_value_fits(env, defs, lits[j]) {
            assert(field_value_fits(env, defs, lits[i as int]));
        }
    }
}

/// A struct literal has the struct's type exactly when the struct is defined, every field of
/// the struct is given, every given field is one of the struct's, and each value has the type
/// of the first field of its name.
pub proof fn lemma_infer_struct_literal(env: TEnv, s: Seq<char>, lits: Seq<(Seq<char>, SExpr)>, span: Option<crate::parser::ast::Span>)
    ensures
        ({
            let e = SExpr::StructLiteral(s, lits, span);
            &&& infer(env, e) is Ok ==> infer(env, e) == Ok::<SType, Seq<char>>(SType::Struct(s))
            &&& (infer(env, e) is Ok <==> match lookup_struct(env, s) {
                None => false,
                Some(defs) => {
                    &&& forall|j: int| 0 <= j < defs.len() ==> #[trigger] first_index(field_names(lits), defs[j].0, 0) is Some
                    &&& forall|j: int| 0 <= j < lits.len() ==> #[trigger] field_value_fits(env, defs, lits[j])
                },
            })
        }),
{
    if let Some(defs) = lookup_struct(env, s) {
        lemma_missing_field(defs, field_names(lits), 0);
        lemma_check_lit_fields(env, s, defs, lits, 0);
    }
}

/// A method call has the method's return type exactly when the object has a struct type whose
/// impl block has an instance method of that name, the arguments are as many as its parameters
/// and of their types, and a `&mut self` method is not called on an immutable variable (which
/// is an error of its own).
pub proof fn lemma_infer_method_call(
    env: TEnv,
    obj: SExpr,
    method: Seq<char>,
    args: Seq<SExpr>,
    span: Option<crate::parser::ast::Span>,
)
    ensures
        ({
            let e = SExpr::MethodCall(Box::new(obj), method, args, span);
            match infer(env, obj) {
                Ok(SType::Struct(s)) => match lookup_impl(env, s) {
                    Some(methods) => match lookup_sig(methods, method) {
                        Some(sig) => {
                            let args_fit = args.len() == sig.params.len() && forall|j: int| 0 <= j < args.len()
                                ==> #[trigger] infer(env, args[j]) == Ok::<SType, Seq<char>>(sig.params[j]);
                            &&& (infer(env, e) is Ok <==> sig.self_param is Some && args_fit && !(sig.self_param
                                == Some(SelfParam::MutRef) && immutable_variable(env, obj)))
                            &&& infer(env, e) is Ok ==> infer(env, e) == Ok::<SType, Seq<char>>(sig.return_type)
                            &&& sig.self_param == Some(SelfParam::MutRef) && immutable_variable(env, obj) && args_fit
                                ==> infer(env, e) == Err::<SType, Seq<char>>(located(
                                env,
                                "Cannot call mutable method "@ + q(s + "."@ + method) + " on immutable variable "@ + q(
                                    obj->Variable_0,
                                ) + ". Consider using 'var' instead of 'val'."@,
                                span,
                            ))
                        },
                        None => infer(env, e) is Err,
                    },
                    None => infer(env, e) is Err,
                },
                _ => infer(env, e) is Err,
            }
        }),
{
    if let Ok(SType::Struct(s)) = infer(env, obj) {
        if let Some(methods) = lookup_impl(env, s) {
            if let Some(sig) = lookup_sig(methods, method) {
                if args.len() == sig.params.len() {
                    lemma_check_args(env, args, sig.params, 0);
                }
            }
        }
    }
}

/// The type of what an assignment writes to: the variable's declared type, or the type of the
/// field or the element assigned to; none when there is no such thing.
pub open spec fn target_type(env: TEnv, target: STarget) -> Option<SType> {
    match target {
        STarget::Variable(n) => match lookup_symbol(env, n) {
            Some((t, _)) => Some(t),
            None => None,
        },
        STarget::FieldAccess(obj, field, span) => match infer(env, SExpr::FieldAccess(obj, field, span)) {
            Ok(t) => Some(t),
            Err(_) => None,
        },
        STarget::Index(arr, idx, span) => match infer(env, SExpr::Index(arr, idx, span)) {
            Ok(t) => Some(t),
            Err(_) => None,
        },
    }
}

/// An assignment passes the checker only when its target has a type and the assigned value
/// has that same type: a value of another type (or one without a type, or a target without
/// one) always adds an error, and checking never drops an error.
pub proof fn lemma_assignment_types_agree(st: CState, target: STarget, value: SExpr, span: Option<crate::parser::ast::Span>)
    ensures
        extends(st.errors, check_stmt(st, SStmt::Assignment(target, value, span)).0.errors),
        check_stmt(st, SStmt::Assignment(target, value, span)).0.errors.len() == st.errors.len() ==> (target_type(
            st.env,
            target,
        ) matches Some(tt) && infer(st.env, value) == Ok::<SType, Seq<char>>(tt)),
        (target_type(st.env, target) matches Some(tt) && infer(st.env, value) matches Ok(t) && t != tt)
            ==> check_stmt(st, SStmt::Assignment(target, value, span)).0.errors.len() > st.errors.len(),
{
    lemma_check_stmt(st, SStmt::Assignment(target, value, span));
}

/// The condition of an `if` or a `while` must be a `bool`: a statement whose check adds no
/// error has a condition of type `bool`.
pub proof fn lemma_conditions_are_boolean(st: CState, cond: SExpr, then_b: Seq<SStmt>, else_b: Option<Seq<SStmt>>, body: Seq<SStmt>)
    ensures
        check_stmt(st, SStmt::If(cond, then_b, else_b)).0.errors.len() == st.errors.len() ==> infer(st.env, cond)
            == Ok::<SType, Seq<char>>(SType::Bool),
        check_stmt(st, SStmt::While(cond, body)).0.errors.len() == st.errors.len() ==> infer(st.env, cond) == Ok::<
            SType,
            Seq<char>,
        >(SType::Bool),
{
    let st1 = super::rules::check_cond(st, cond, "If"@);
    lemma_check_stmts(st1, then_b);
    if let Some(b) = else_b {
        lemma_check_stmts(check_stmts(st1, then_b).0, b);
    }
    let st2 = super::rules::check_cond(st, cond, "While"@);
    lemma_check_stmts(super::rules::set_loop(st2, true), body);
}

/// A declaration with both a type and an initial value passes the checker only when the value
/// has the declared type.
pub proof fn lemma_declared_type_matches(st: CState, mutable: bool, name: Seq<char>, t: SType, init: SExpr)
    ensures
        check_stmt(st, SStmt::VarDecl(mutable, name, Some(t), Some(init))).0.errors.len() == st.errors.len() ==> infer(
            st.env,
            init,
        ) == Ok::<SType, Seq<char>>(t),
{
}

} // verus!
