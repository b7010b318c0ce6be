//! Properties of the generated text that hold across all of the generator's steps.
use vstd::prelude::*;

use crate::helper::text::nat_decimal;
use crate::parser::ast::{c_type_text, SExpr, SFunction, SImpl, SIterable, SMethod, SProgram, SStmt, SStruct, SType};
use super::emit::{
    braced, braced_s, chain_temps, dedent, emit, exprs_c, field_lines, function_c, functions_c, headers, impl_table,
    impls_c, impls_decls, indent, init_c, is_method_chain, join, lookup, method_decls, methods_c, next_temp,
    program_c, slice_typedef, slice_typedefs, stmt_c, stmts_c, struct_c, struct_table, structs_c, var_decl_c, with_vars,
    GEnv, GState,
};
use crate::semantic::laws::{program_typed, stmt_typed, stmts_typed};
use crate::semantic::rules::analysis;
use crate::lexer::token::spelling;
use crate::parser::ast::{BinaryOperator, UnaryOperator};
use crate::parser::laws::{binary_token, unary_token};

verus! {

/// Whether the text of `b` begins with all the text of `a`.
pub open spec fn keeps(a: GState, b: GState) -> bool {
    a.out.len() <= b.out.len() && b.out.subrange(0, a.out.len() as int) == a.out
}

/// A state whose text is that of `a` keeps it.
proof fn lemma_keeps_same(a: GState, b: GState)
    requires
        a.out == b.out,
    ensures
        keeps(a, b),
{
    assert(b.out.subrange(0, a.out.len() as int) =~= a.out);
}

/// Keeping is transitive.
proof fn lemma_keeps_trans(a: GState, b: GState, c: GState)
    requires
        keeps(a, b),
        keeps(b, c),
    ensures
        keeps(a, c),
{
    assert(c.out.subrange(0, a.out.len() as int) =~= b.out.subrange(0, a.out.len() as int));
}

/// Writing a line keeps the text before it.
proof fn lemma_emit(st: GState)
    ensures
        forall|line: Seq<char>| #[trigger] keeps(st, emit(st, line)),
{
    assert forall|line: Seq<char>| #[trigger] keeps(st, emit(st, line)) by {
        assert(emit(st, line).out.subrange(0, st.out.len() as int) =~= st.out);
    }
}

/// Writing the temporaries of a method chain keeps the text before them.
proof fn lemma_chain_temps(st: GState, e: SExpr)
    ensures
        keeps(st, chain_temps(st, e).0),
    decreases e,
{
    match e {
        SExpr::MethodCall(obj, _, _, _) => {
            lemma_chain_temps(st, *obj);
            let st1 = chain_temps(st, *obj).0;
            let st2 = next_temp(st1);
            lemma_keeps_same(st1, st2);
            lemma_emit(st2);
            lemma_keeps_trans(st, st1, st2);
            lemma_keeps_trans(st, st2, chain_temps(st, e).0);
        },
        SExpr::AssociatedCall(_, _, _, _) => {
            let st1 = next_temp(st);
            lemma_keeps_same(st, st1);
            lemma_emit(st1);
            lemma_keeps_trans(st, st1, chain_temps(st, e).0);
        },
        _ => {
            lemma_keeps_same(st, st);
        },
    }
}

/// Writing a variable declaration keeps the text before it.
proof fn lemma_var_decl(st: GState, mutable: bool, name: Seq<char>, t: SType, init: Option<SExpr>)
    ensures
        keeps(st, var_decl_c(st, mutable, name, t, init)),
{
    let st1 = with_vars(st, super::emit::insert(st.env.vars, name, t));
    lemma_keeps_same(st, st1);
    match init {
        Some(e) => {
            let st2 = init_c(st1, e).0;
            if is_method_chain(e) {
                lemma_chain_temps(st1, e);
            } else {
                lemma_keeps_same(st1, st2);
            }
            lemma_emit(st2);
            lemma_keeps_trans(st, st1, st2);
            lemma_keeps_trans(st, st2, var_decl_c(st, mutable, name, t, init));
        },
        None => {
            lemma_emit(st1);
            lemma_keeps_trans(st, st1, var_decl_c(st, mutable, name, t, init));
        },
    }
}

/// A braced block keeps the text before it.
pub proof fn lemma_braced(st: GState, body: Seq<SStmt>)
    ensures
        braced(st, body) is Ok ==> keeps(st, braced(st, body)->Ok_0),
    decreases body, 1nat,
{
    let st0 = indent(emit(st, "{"@));
    lemma_emit(st);
    lemma_keeps_same(emit(st, "{"@), st0);
    lemma_keeps_trans(st, emit(st, "{"@), st0);
    lemma_stmts_c(st0, body);
    if let Ok(st1) = stmts_c(st0, body) {
        lemma_keeps_trans(st, st0, st1);
        lemma_keeps_same(st1, dedent(st1));
        lemma_keeps_trans(st, st1, dedent(st1));
        lemma_emit(dedent(st1));
        lemma_keeps_trans(st, dedent(st1), emit(dedent(st1), "}"@));
    }
}

/// The body of a loop over an array, written after its first line, keeps the text before it.
proof fn lemma_block_tail(st: GState, line: Seq<char>, body: Seq<SStmt>)
    ensures
        stmts_c(emit(indent(emit(st, "{"@)), line), body) is Ok ==> keeps(
            st,
            emit(dedent(stmts_c(emit(indent(emit(st, "{"@)), line), body)->Ok_0), "}"@),
        ),
    decreases body, 2nat,
{
    let st0 = emit(st, "{"@);
    let st1 = indent(st0);
    let st3 = emit(st1, line);
    lemma_emit(st);
    lemma_keeps_same(st0, st1);
    lemma_emit(st1);
    lemma_keeps_trans(st, st0, st1);
    lemma_keeps_trans(st, st1, st3);
    lemma_stmts_c(st3, body);
    if let Ok(st4) = stmts_c(st3, body) {
        lemma_keeps_trans(st, st3, st4);
        lemma_keeps_same(st4, dedent(st4));
        lemma_keeps_trans(st, st4, dedent(st4));
        lemma_emit(dedent(st4));
        lemma_keeps_trans(st, dedent(st4), emit(dedent(st4), "}"@));
    }
}

/// Writing a statement keeps the text before it.
pub proof fn lemma_stmt_c(st: GState, s: SStmt)
    ensures
        stmt_c(st, s) is Ok ==> keeps(st, stmt_c(st, s)->Ok_0),
    decreases s, 0nat,
{
    let env = st.env;
    lemma_emit(st);
    match s {
        SStmt::VarDecl(mutable, name, t, init) => {
            if let Some(t) = t {
                lemma_var_decl(st, mutable, name, t, init);
            }
        },
        SStmt::If(cond, then_b, else_b) => {
            let st0 = emit(st, "if ("@ + super::emit::expr_c(env, cond) + ")"@);
            lemma_braced(st0, then_b);
            if let Ok(st1) = braced(st0, then_b) {
                lemma_keeps_trans(st, st0, st1);
                if let Some(b) = else_b {
                    let st2 = emit(st1, "else"@);
                    lemma_emit(st1);
                    lemma_keeps_trans(st, st1, st2);
                    lemma_braced(st2, b);
                    if let Ok(st3) = braced(st2, b) {
                        lemma_keeps_trans(st, st2, st3);
                    }
                }
            }
        },
        SStmt::While(cond, body) => {
            let st0 = emit(st, "while ("@ + super::emit::expr_c(env, cond) + ")"@);
            lemma_braced(st0, body);
            if let Ok(st1) = braced(st0, body) {
                lemma_keeps_trans(st, st0, st1);
            }
        },
        SStmt::Loop(body) => {
            let st0 = emit(st, "while (1)"@);
            lemma_braced(st0, body);
            if let Ok(st1) = braced(st0, body) {
                lemma_keeps_trans(st, st0, st1);
            }
        },
        SStmt::For(var, it, body) => {
            match it {
                SIterable::Range(a, b) => {
                    let st0 = emit(st, "for (int32_t "@ + var + " = "@ + super::emit::expr_c(env, a) + "; "@ + var + " < "@
                        + super::emit::expr_c(env, b) + "; "@ + var + "++)"@);
                    lemma_braced(st0, body);
                    if let Ok(st1) = braced(st0, body) {
                        lemma_keeps_trans(st, st0, st1);
                    }
                },
                SIterable::Expression(e) => {
                    let counter = "__i_"@ + var;
                    match e {
                        SExpr::ArrayLiteral(elems, _) => {
                            let array = "__array_"@ + var;
                            let st1 = emit(st, "int32_t "@ + array + "[] = {"@ + join(exprs_c(env, elems, elems.len()), ", "@) + "};"@);
                            let st2 = emit(st1, "for (size_t "@ + counter + " = 0; "@ + counter + " < "@ + nat_decimal(elems.len()) + "; "@
                                + counter + "++)"@);
                            lemma_emit(st1);
                            lemma_keeps_trans(st, st1, st2);
                            lemma_block_tail(st2, "int32_t "@ + var + " = "@ + array + "["@ + counter + "];"@, body);
                            if let Ok(st4) = stmts_c(emit(indent(emit(st2, "{"@)), "int32_t "@ + var + " = "@ + array + "["@ + counter + "];"@), body) {
                                lemma_keeps_trans(st, st2, emit(dedent(st4), "}"@));
                            }
                        },
                        SExpr::Variable(a) => {
                            if let Some(SType::Array(elem, Some(n))) = lookup(env.vars, a) {
                                let st2 = emit(st, "for (size_t "@ + counter + " = 0; "@ + counter + " < "@ + nat_decimal(n) + "; "@ + counter
                                    + "++)"@);
                                let line = c_type_text(*elem) + " "@ + var + " = "@ + a + "["@ + counter + "];"@;
                                lemma_block_tail(st2, line, body);
                                if let Ok(st4) = stmts_c(emit(indent(emit(st2, "{"@)), line), body) {
                                    lemma_keeps_trans(st, st2, emit(dedent(st4), "}"@));
                                }
                            }
                        },
                        _ => {},
                    }
                },
            }
        },
        _ => {},
    }
}

/// Writing statements keeps the text before them.
pub proof fn lemma_stmts_c(st: GState, ss: Seq<SStmt>)
    ensures
        stmts_c(st, ss) is Ok ==> keeps(st, stmts_c(st, ss)->Ok_0),
    decreases ss, 0nat,
{
    if ss.len() == 0 {
        lemma_keeps_same(st, st);
    } else {
        lemma_stmts_c(st, ss.drop_last());
        if let Ok(st1) = stmts_c(st, ss.drop_last()) {
            lemma_stmt_c(st1, ss[ss.len() - 1]);
            if let Ok(st2) = stmt_c(st1, ss[ss.len() - 1]) {
                lemma_keeps_trans(st, st1, st2);
            }
        }
    }
}

/// Writing the structs for slices keeps the text before them.
proof fn lemma_slice_typedefs(st: GState, elems: Seq<Seq<char>>)
    ensures
        keeps(st, slice_typedefs(st, elems)),
    decreases elems.len(),
{
    if elems.len() == 0 {
        lemma_keeps_same(st, st);
    } else {
        let a = slice_typedefs(st, elems.drop_last());
        lemma_slice_typedefs(st, elems.drop_last());
        let elem = elems[elems.len() - 1];
        let b = emit(a, "typedef struct {"@);
        let c = indent(b);
        let d = emit(emit(c, elem + "* data;"@), "size_t length;"@);
        let e = emit(dedent(d), "} "@ + super::emit::slice_struct(elem) + ";"@);
        lemma_emit(a);
        lemma_keeps_same(b, c);
        lemma_emit(c);
        lemma_emit(emit(c, elem + "* data;"@));
        lemma_keeps_same(d, dedent(d));
        lemma_emit(dedent(d));
        lemma_emit(e);
        lemma_keeps_trans(st, a, b);
        lemma_keeps_trans(st, b, c);
        lemma_keeps_trans(st, c, emit(c, elem + "* data;"@));
        lemma_keeps_trans(st, emit(c, elem + "* data;"@), d);
        lemma_keeps_trans(st, d, dedent(d));
        lemma_keeps_trans(st, dedent(d), e);
        lemma_keeps_trans(st, e, slice_typedef(a, elem));
    }
}

/// Writing fields keeps the text before them.
proof fn lemma_field_lines(st: GState, fields: Seq<(Seq<char>, SType)>)
    ensures
        keeps(st, field_lines(st, fields)),
    decreases fields.len(),
{
    if fields.len() == 0 {
        lemma_keeps_same(st, st);
    } else {
        lemma_field_lines(st, fields.drop_last());
        let a = field_lines(st, fields.drop_last());
        lemma_emit(a);
        lemma_keeps_trans(st, a, field_lines(st, fields));
    }
}

/// Writing struct definitions keeps the text before them.
proof fn lemma_structs_c(st: GState, ss: Seq<SStruct>)
    ensures
        keeps(st, structs_c(st, ss)),
    decreases ss.len(),
{
    if ss.len() == 0 {
        lemma_keeps_same(st, st);
    } else {
        lemma_structs_c(st, ss.drop_last());
        let a = structs_c(st, ss.drop_last());
        let s = ss[ss.len() - 1];
        let b = emit(a, "typedef struct {"@);
        let c = indent(b);
        let d = field_lines(c, s.fields);
        let e = emit(dedent(d), "} "@ + s.name + ";"@);
        lemma_emit(a);
        lemma_keeps_same(b, c);
        lemma_field_lines(c, s.fields);
        lemma_keeps_same(d, dedent(d));
        lemma_emit(dedent(d));
        lemma_emit(e);
        lemma_keeps_trans(st, a, b);
        lemma_keeps_trans(st, b, c);
        lemma_keeps_trans(st, c, d);
        lemma_keeps_trans(st, d, dedent(d));
        lemma_keeps_trans(st, dedent(d), e);
        lemma_keeps_trans(st, e, struct_c(a, s));
    }
}

/// Writing method declarations keeps the text before them.
proof fn lemma_method_decls(st: GState, s: Seq<char>, ms: Seq<SMethod>)
    ensures
        method_decls(st, s, ms) is Ok ==> keeps(st, method_decls(st, s, ms)->Ok_0),
    decreases ms.len(),
{
    if ms.len() == 0 {
        lemma_keeps_same(st, st);
    } else {
        lemma_method_decls(st, s, ms.drop_last());
        if let Ok(a) = method_decls(st, s, ms.drop_last()) {
            lemma_emit(a);
            if let Ok(b) = method_decls(st, s, ms) {
                lemma_keeps_trans(st, a, b);
            }
        }
    }
}

/// Writing the method declarations of impl blocks keeps the text before them.
proof fn lemma_impls_decls(st: GState, bs: Seq<SImpl>)
    ensures
        impls_decls(st, bs) is Ok ==> keeps(st, impls_decls(st, bs)->Ok_0),
    decreases bs.len(),
{
    if bs.len() == 0 {
        lemma_keeps_same(st, st);
    } else {
        lemma_impls_decls(st, bs.drop_last());
        if let Ok(a) = impls_decls(st, bs.drop_last()) {
            let b = bs[bs.len() - 1];
            lemma_method_decls(a, b.struct_name, b.methods);
            if let Ok(c) = method_decls(a, b.struct_name, b.methods) {
                lemma_emit(c);
                lemma_keeps_trans(st, a, c);
                lemma_keeps_trans(st, c, emit(c, seq![]));
            }
        }
    }
}

/// Writing function definitions keeps the text before them.
proof fn lemma_functions_c(st: GState, fs: Seq<SFunction>)
    ensures
        functions_c(st, fs) is Ok ==> keeps(st, functions_c(st, fs)->Ok_0),
    decreases fs.len(),
{
    if fs.len() == 0 {
        lemma_keeps_same(st, st);
    } else {
        lemma_functions_c(st, fs.drop_last());
        if let Ok(a) = functions_c(st, fs.drop_last()) {
            let f = fs[fs.len() - 1];
            let b = with_vars(a, super::emit::bind_params(seq![], f.parameters));
            let c = emit(b, super::emit::signature(f.return_type, f.name, super::emit::params_c(f.parameters)));
            lemma_keeps_same(a, b);
            lemma_emit(b);
            lemma_braced(c, f.body);
            reveal(braced_s);
            if let Ok(d) = function_c(a, f) {
                lemma_keeps_trans(st, a, b);
                lemma_keeps_trans(st, b, c);
                lemma_keeps_trans(st, c, d);
            }
        }
    }
}

/// Writing method definitions keeps the text before them.
proof fn lemma_methods_c(st: GState, s: Seq<char>, ms: Seq<SMethod>)
    ensures
        methods_c(st, s, ms) is Ok ==> keeps(st, methods_c(st, s, ms)->Ok_0),
    decreases ms.len(),
{
    if ms.len() == 0 {
        lemma_keeps_same(st, st);
    } else {
        lemma_methods_c(st, s, ms.drop_last());
        if let Ok(a) = methods_c(st, s, ms.drop_last()) {
            let m = ms[ms.len() - 1];
            reveal(braced_s);
            if let Ok(ps) = super::emit::method_params(s, m, "Owned self parameter not supported in v0.2.0"@) {
                let c = emit(a, super::emit::signature(m.return_type, s + "_"@ + m.name, ps));
                lemma_emit(a);
                lemma_braced(c, m.body);
                if let Ok(d) = braced(c, m.body) {
                    lemma_emit(d);
                    lemma_keeps_trans(st, a, c);
                    lemma_keeps_trans(st, c, d);
                    lemma_keeps_trans(st, d, emit(d, seq![]));
                }
            }
        }
    }
}

/// Writing the method definitions of impl blocks keeps the text before them.
proof fn lemma_impls_c(st: GState, bs: Seq<SImpl>)
    ensures
        impls_c(st, bs) is Ok ==> keeps(st, impls_c(st, bs)->Ok_0),
    decreases bs.len(),
{
    if bs.len() == 0 {
        lemma_keeps_same(st, st);
    } else {
        lemma_impls_c(st, bs.drop_last());
        if let Ok(a) = impls_c(st, bs.drop_last()) {
            let b = bs[bs.len() - 1];
            lemma_methods_c(a, b.struct_name, b.methods);
            if let Ok(c) = methods_c(a, b.struct_name, b.methods) {
                lemma_keeps_trans(st, a, c);
            }
        }
    }
}

/// The lines that open every generated C file: the standard headers and a blank line.
pub open spec fn c_preamble() -> Seq<char> {
    "#include <stdio.h>\n#include <stdlib.h>\n#include <stdint.h>\n#include <stdbool.h>\n#include <string.h>\n\n"@
}

/// The generator only ever adds text after what it has written, so every C file it produces
/// begins with the standard headers.
pub proof fn lemma_output_starts_with_headers(p: SProgram)
    ensures
        program_c(p) is Ok ==> c_preamble().is_prefix_of(program_c(p)->Ok_0),
{
    let st0 = GState {
        env: GEnv { vars: seq![], structs: struct_table(p.structs), impls: impl_table(p.impls) },
        indent: 0,
        temp: 0,
        out: seq![],
    };
    let h = headers(st0);
    assert(h.out =~= c_preamble()) by {
        reveal_strlit("#include <stdio.h>");
        reveal_strlit("#include <stdlib.h>");
        reveal_strlit("#include <stdint.h>");
        reveal_strlit("#include <stdbool.h>");
        reveal_strlit("#include <string.h>");
        reveal_strlit("#include <stdio.h>\n#include <stdlib.h>\n#include <stdint.h>\n#include <stdbool.h>\n#include <string.h>\n\n");
    }
    let h1 = slice_typedefs(h, super::emit::distinct(super::emit::program_slices(p)));
    let st1 = structs_c(h1, p.structs);
    lemma_slice_typedefs(h, super::emit::distinct(super::emit::program_slices(p)));
    lemma_structs_c(h1, p.structs);
    lemma_keeps_trans(h, h1, st1);
    lemma_impls_decls(st1, p.impls);
    if let Ok(st2) = impls_decls(st1, p.impls) {
        lemma_keeps_trans(h, st1, st2);
        lemma_functions_c(st2, p.functions);
        if let Ok(st3) = functions_c(st2, p.functions) {
            lemma_keeps_trans(h, st2, st3);
            lemma_impls_c(st3, p.impls);
            if let Ok(st4) = impls_c(st3, p.impls) {
                lemma_keeps_trans(h, st3, st4);
                assert(c_preamble().is_prefix_of(st4.out));
            }
        }
    }
}

/// Whether a message names a construct the generator does not support: an owned `self`
/// parameter, a `for` loop over something other than an array, or an array whose size is unknown.
pub open spec fn unsupported_feature(m: Seq<char>) -> bool {
    ||| m == "Owned self parameter not yet implemented"@
    ||| m == "Owned self parameter not supported in v0.2.0"@
    ||| m == "For loop iterable must be array literal or array variable"@
    ||| exists|a: Seq<char>| m == #[trigger] ("Cannot determine size of array '"@ + a + "'"@)
}

/// A braced block of typed statements fails only on an unsupported construct.
proof fn lemma_braced_errors(st: GState, body: Seq<SStmt>)
    requires
        stmts_typed(body),
    ensures
        braced(st, body) matches Err(f) ==> unsupported_feature(f.message),
    decreases body, 2nat,
{
    lemma_stmts_errors(indent(emit(st, "{"@)), body);
}

/// A typed statement fails only on an unsupported construct.
proof fn lemma_stmt_errors(st: GState, s: SStmt)
    requires
        stmt_typed(s),
    ensures
        stmt_c(st, s) matches Err(f) ==> unsupported_feature(f.message),
    decreases s, 0nat,
{
    let env = st.env;
    match s {
        SStmt::If(cond, then_b, else_b) => {
            let st0 = emit(st, "if ("@ + super::emit::expr_c(env, cond) + ")"@);
            lemma_braced_errors(st0, then_b);
            if let Ok(st1) = braced(st0, then_b) {
                if let Some(b) = else_b {
                    lemma_braced_errors(emit(st1, "else"@), b);
                }
            }
        },
        SStmt::While(cond, body) => {
            lemma_braced_errors(emit(st, "while ("@ + super::emit::expr_c(env, cond) + ")"@), body);
        },
        SStmt::Loop(body) => {
            lemma_braced_errors(emit(st, "while (1)"@), body);
        },
        SStmt::For(var, it, body) => {
            match it {
                SIterable::Range(a, b) => {
                    lemma_braced_errors(
                        emit(st, "for (int32_t "@ + var + " = "@ + super::emit::expr_c(env, a) + "; "@ + var + " < "@
                            + super::emit::expr_c(env, b) + "; "@ + var + "++)"@),
                        body,
                    );
                },
                SIterable::Expression(e) => {
                    let counter = "__i_"@ + var;
                    match e {
                        SExpr::ArrayLiteral(elems, _) => {
                            let array = "__array_"@ + var;
                            let st1 = emit(st, "int32_t "@ + array + "[] = {"@ + join(exprs_c(env, elems, elems.len()), ", "@) + "};"@);
                            let st2 = emit(st1, "for (size_t "@ + counter + " = 0; "@ + counter + " < "@ + nat_decimal(elems.len()) + "; "@
                                + counter + "++)"@);
                            let st3 = emit(indent(emit(st2, "{"@)), "int32_t "@ + var + " = "@ + array + "["@ + counter + "];"@);
                            lemma_stmts_errors(st3, body);
                        },
                        SExpr::Variable(a) => {
                            match lookup(env.vars, a) {
                                Some(SType::Array(elem, Some(n))) => {
                                    let st2 = emit(st, "for (size_t "@ + counter + " = 0; "@ + counter + " < "@ + nat_decimal(n) + "; "@
                                        + counter + "++)"@);
                                    let st3 = emit(indent(emit(st2, "{"@)), c_type_text(*elem) + " "@ + var + " = "@ + a + "["@ + counter
                                        + "];"@);
                                    lemma_stmts_errors(st3, body);
                                },
                                _ => {
                                    assert(unsupported_feature("Cannot determine size of array '"@ + a + "'"@));
                                },
                            }
                        },
                        _ => {},
                    }
                },
            }
        },
        _ => {},
    }
}

/// Typed statements fail only on an unsupported construct.
proof fn lemma_stmts_errors(st: GState, ss: Seq<SStmt>)
    requires
        stmts_typed(ss),
    ensures
        stmts_c(st, ss) matches Err(f) ==> unsupported_feature(f.message),
    decreases ss, 1nat,
{
    if ss.len() > 0 {
        lemma_stmts_errors(st, ss.drop_last());
        if let Ok(st1) = stmts_c(st, ss.drop_last()) {
            lemma_stmt_errors(st1, ss[ss.len() - 1]);
        }
    }
}

/// Declaring methods fails only on an owned `self` parameter.
proof fn lemma_method_decls_errors(st: GState, s: Seq<char>, ms: Seq<SMethod>)
    ensures
        method_decls(st, s, ms) matches Err(f) ==> unsupported_feature(f.message),
    decreases ms.len(),
{
    if ms.len() > 0 {
        lemma_method_decls_errors(st, s, ms.drop_last());
    }
}

/// Declaring the methods of impl blocks fails only on an owned `self` parameter.
proof fn lemma_impls_decls_errors(st: GState, bs: Seq<SImpl>)
    ensures
        impls_decls(st, bs) matches Err(f) ==> unsupported_feature(f.message),
    decreases bs.len(),
{
    if bs.len() > 0 {
        lemma_impls_decls_errors(st, bs.drop_last());
        if let Ok(st1) = impls_decls(st, bs.drop_last()) {
            lemma_method_decls_errors(st1, bs[bs.len() - 1].struct_name, bs[bs.len() - 1].methods);
        }
    }
}

/// Functions with typed bodies fail only on an unsupported construct.
proof fn lemma_functions_errors(st: GState, fs: Seq<SFunction>)
    requires
        forall|i: int| 0 <= i < fs.len() ==> #[trigger] stmts_typed(fs[i].body),
    ensures
        functions_c(st, fs) matches Err(f) ==> unsupported_feature(f.message),
    decreases fs.len(),
{
    if fs.len() > 0 {
        let init = fs.drop_last();
        assert forall|i: int| 0 <= i < init.len() implies #[trigger] stmts_typed(init[i].body) by {
            assert(init[i] == fs[i]);
        }
        lemma_functions_errors(st, init);
        if let Ok(st1) = functions_c(st, init) {
            let f = fs[fs.len() - 1];
            assert(stmts_typed(f.body));
            let b = with_vars(st1, super::emit::bind_params(seq![], f.parameters));
            reveal(braced_s);
            lemma_braced_errors(emit(b, super::emit::signature(f.return_type, f.name, super::emit::params_c(f.parameters))), f.body);
        }
    }
}

/// Methods with typed bodies fail only on an unsupported construct.
proof fn lemma_methods_errors(st: GState, s: Seq<char>, ms: Seq<SMethod>)
    requires
        forall|j: int| 0 <= j < ms.len() ==> #[trigger] stmts_typed(ms[j].body),
    ensures
        methods_c(st, s, ms) matches Err(f) ==> unsupported_feature(f.message),
    decreases ms.len(),
{
    if ms.len() > 0 {
        let init = ms.drop_last();
        assert forall|j: int| 0 <= j < init.len() implies #[trigger] stmts_typed(init[j].body) by {
            assert(init[j] == ms[j]);
        }
        lemma_methods_errors(st, s, init);
        if let Ok(st1) = methods_c(st, s, init) {
            let m = ms[ms.len() - 1];
            assert(stmts_typed(m.body));
            reveal(braced_s);
            if let Ok(ps) = super::emit::method_params(s, m, "Owned self parameter not supported in v0.2.0"@) {
                lemma_braced_errors(emit(st1, super::emit::signature(m.return_type, s + "_"@ + m.name, ps)), m.body);
            }
        }
    }
}

/// Impl blocks whose methods have typed bodies fail only on an unsupported construct.
proof fn lemma_impls_errors(st: GState, bs: Seq<SImpl>)
    requires
        forall|i: int, j: int| 0 <= i < bs.len() && 0 <= j < bs[i].methods.len() ==> #[trigger] stmts_typed(bs[i].methods[j].body),
    ensures
        impls_c(st, bs) matches Err(f) ==> unsupported_feature(f.message),
    decreases bs.len(),
{
    if bs.len() > 0 {
        let init = bs.drop_last();
        assert forall|i: int, j: int| 0 <= i < init.len() && 0 <= j < init[i].methods.len() implies #[trigger] stmts_typed(
            init[i].methods[j].body,
        ) by {
            assert(init[i] == bs[i]);
        }
        lemma_impls_errors(st, init);
        if let Ok(st1) = impls_c(st, init) {
            let b = bs[bs.len() - 1];
            assert forall|j: int| 0 <= j < b.methods.len() implies #[trigger] stmts_typed(b.methods[j].body) by {
                assert(stmts_typed(bs[bs.len() - 1].methods[j].body));
            }
            lemma_methods_errors(st1, b.struct_name, b.methods);
        }
    }
}

/// When every variable declaration has a type, translating a program to C fails only on a
/// construct the generator does not support, never on a missing type.
pub proof fn lemma_typed_program_errors(p: SProgram)
    requires
        program_typed(p),
    ensures
        program_c(p) matches Err(m) ==> unsupported_feature(m),
{
    let st0 = GState {
        env: GEnv { vars: seq![], structs: struct_table(p.structs), impls: impl_table(p.impls) },
        indent: 0,
        temp: 0,
        out: seq![],
    };
    let st1 = structs_c(slice_typedefs(headers(st0), super::emit::distinct(super::emit::program_slices(p))), p.structs);
    lemma_impls_decls_errors(st1, p.impls);
    if let Ok(st2) = impls_decls(st1, p.impls) {
        lemma_functions_errors(st2, p.functions);
        if let Ok(st3) = functions_c(st2, p.functions) {
            lemma_impls_errors(st3, p.impls);
        }
    }
}

/// A program that passes the type checker is translated to C unless it uses a construct the
/// generator does not support; the generator never stops on a variable without a type.
pub proof fn lemma_checked_program_generates(filename: Seq<char>, p: SProgram)
    requires
        analysis(filename, p).0.len() == 0,
    ensures
        program_c(analysis(filename, p).1) matches Err(m) ==> unsupported_feature(m),
{
    crate::semantic::laws::lemma_clean_analysis_is_typed(filename, p);
    lemma_typed_program_errors(analysis(filename, p).1);
}

/// The C text of an operator expression writes the operator as the source does: a prefix
/// operator with the text of the token it is read from ("-" for negation, "!" for not), and a
/// binary operator with the text of its token between its operands, in order; each in
/// parentheses.
pub proof fn lemma_operator_text(env: GEnv, op: UnaryOperator, x: SExpr, l: SExpr, bop: BinaryOperator, r: SExpr)
    ensures
        spelling(unary_token(op)) matches Some(t) && super::emit::expr_c(env, SExpr::Unary(op, Box::new(x))) == "("@ + t
            + super::emit::expr_c(env, x) + ")"@,
        spelling(binary_token(bop)) matches Some(t) && super::emit::expr_c(env, SExpr::Binary(Box::new(l), bop, Box::new(r)))
            == "("@ + super::emit::expr_c(env, l) + " "@ + t + " "@ + super::emit::expr_c(env, r) + ")"@,
{
    crate::parser::laws::lemma_operator_text_is_spelling(bop);
}

} // verus!
