use vstd::prelude::*;

use crate::helper::text::{chars_of, string_from, string_of_range, usize_to_string};
use crate::parser::ast::{exprs_view, lemma_exprs_view, MacroCallExpression, Type};
use super::c_codegen::{is_c_string, join_strings, strings_view, CCodeGenerator};
use super::emit;

verus! {

/// Translates calls of the builtin macros.
pub struct BuiltinMacroGenerator;

/// The text between the first and the last character of `s`.
fn inner_text(s: &String) -> (r: String)
    requires
        s@.len() >= 2,
    ensures
        r@ == s@.subrange(1, s@.len() - 1),
{
    let cs = chars_of(s.as_str());
    string_of_range(&cs, 1, cs.len() - 1)
}

impl BuiltinMacroGenerator {
    /// The printf conversion for a value of a type.
    pub fn type_to_format_specifier(ty: &Type) -> (r: &'static str)
        ensures
            r@ == emit::format_spec(ty@),
    {
        match ty {
            Type::I8 | Type::I16 | Type::I32 | Type::Bool => "%d",
            Type::I64 => "%lld",
            Type::U8 | Type::U16 | Type::U32 => "%u",
            Type::U64 => "%llu",
            Type::F32 | Type::F64 => "%f",
            Type::String => "%s",
            Type::Array { .. } | Type::Struct(_) => "%p",
            Type::Void => "",
        }
    }

    /// The C text of a call of a builtin macro: `print!` and `println!` become `printf`, `panic!`
    /// prints to stderr and exits, `len!` gives an array's length, `copy!` copies an array.
    pub fn generate_macro_call(macro_call: &MacroCallExpression, gen: &CCodeGenerator) -> (r: String)
        ensures
            r@ == emit::macro_c(gen.genv(), macro_call.macro_name@, exprs_view(macro_call.arguments@, macro_call.arguments@.len())),
        decreases macro_call, 1nat,
    {
        let name = &macro_call.macro_name;
        if name.eq(&string_from("print")) {
            Self::generate_print(macro_call, gen)
        } else if name.eq(&string_from("println")) {
            Self::generate_println(macro_call, gen)
        } else if name.eq(&string_from("panic")) {
            Self::generate_panic(macro_call, gen)
        } else if name.eq(&string_from("format")) {
            Self::generate_format()
        } else if name.eq(&string_from("len")) {
            Self::generate_len(macro_call, gen)
        } else if name.eq(&string_from("copy")) {
            Self::generate_copy(macro_call, gen)
        } else {
            let mut r = string_from("/* Unknown macro: ");
            r.append(name.as_str());
            r.append(" */");
            r
        }
    }

    /// `print!(...)` as a call of `printf`.
    fn generate_print(macro_call: &MacroCallExpression, gen: &CCodeGenerator) -> (r: String)
        ensures
            r@ == emit::print_c(gen.genv(), exprs_view(macro_call.arguments@, macro_call.arguments@.len())),
        decreases macro_call, 0nat,
    {
        let args = &macro_call.arguments;
        let n = args.len();
        proof {
            lemma_exprs_view(args@, args@.len());
            assert(decreases_to!(*macro_call => macro_call.arguments));
            assert(decreases_to!(macro_call.arguments => macro_call.arguments@));
        }
        if n == 0 {
            string_from("printf(\"\")")
        } else if n == 1 {
            proof { assert(decreases_to!(args@ => args@[0])); }
            let a = gen.expression_to_c(&args[0]);
            if is_c_string(&a) {
                let mut r = string_from("printf(");
                r.append(a.as_str());
                r.append(")");
                r
            } else {
                match gen.infer_expression_type(&args[0]) {
                    Some(t) => {
                        let mut r = string_from("printf(\"");
                        r.append(Self::type_to_format_specifier(&t));
                        r.append("\", ");
                        r.append(a.as_str());
                        r.append(")");
                        r
                    },
                    None => {
                        let mut r = string_from("printf(\"%s\", ");
                        r.append(a.as_str());
                        r.append(")");
                        r
                    },
                }
            }
        } else {
            let mut r = string_from("printf(");
            r.append(join_strings(&gen.exprs_to_c(args), ", ").as_str());
            r.append(")");
            r
        }
    }

    /// `println!(...)` as a call of `printf` whose format ends in a newline.
    fn generate_println(macro_call: &MacroCallExpression, gen: &CCodeGenerator) -> (r: String)
        ensures
            r@ == emit::println_c(gen.genv(), exprs_view(macro_call.arguments@, macro_call.arguments@.len())),
        decreases macro_call, 0nat,
    {
        let args = &macro_call.arguments;
        let n = args.len();
        proof {
            lemma_exprs_view(args@, args@.len());
            assert(decreases_to!(*macro_call => macro_call.arguments));
            assert(decreases_to!(macro_call.arguments => macro_call.arguments@));
        }
        if n == 0 {
            string_from("printf(\"\\n\")")
        } else if n == 1 {
            proof { assert(decreases_to!(args@ => args@[0])); }
            let a = gen.expression_to_c(&args[0]);
            if is_c_string(&a) {
                let mut r = string_from("printf(\"");
                r.append(inner_text(&a).as_str());
                r.append("\\n\")");
                r
            } else {
                match gen.infer_expression_type(&args[0]) {
                    Some(t) => {
                        let mut r = string_from("printf(\"");
                        r.append(Self::type_to_format_specifier(&t));
                        r.append("\\n\", ");
                        r.append(a.as_str());
                        r.append(")");
                        r
                    },
                    None => {
                        let mut r = string_from("printf(\"%s\\n\", ");
                        r.append(a.as_str());
                        r.append(")");
                        r
                    },
                }
            }
        } else {
            let mut parts = gen.exprs_to_c(args);
            let ghost pv = strings_view(parts@);
            proof { emit::lemma_exprs_c(gen.genv(), exprs_view(args@, args@.len()), args@.len()); }
            if is_c_string(&parts[0]) {
                let cs = chars_of(parts[0].as_str());
                let mut first = string_of_range(&cs, 0, cs.len() - 1);
                first.append("\\n\"");
                let ghost fv = first@;
                parts.set(0, first);
                assert(strings_view(parts@) =~= pv.update(0, fv));
                assert(pv[0].drop_last() =~= cs@.subrange(0, cs@.len() - 1));
            }
            let mut r = string_from("printf(");
            r.append(join_strings(&parts, ", ").as_str());
            r.append(")");
            r
        }
    }

    /// `panic!(...)`: the message to stderr, then `exit(1)`.
    fn generate_panic(macro_call: &MacroCallExpression, gen: &CCodeGenerator) -> (r: String)
        ensures
            r@ == emit::panic_c(gen.genv(), exprs_view(macro_call.arguments@, macro_call.arguments@.len())),
        decreases macro_call, 0nat,
    {
        let args = &macro_call.arguments;
        let n = args.len();
        proof {
            lemma_exprs_view(args@, args@.len());
            assert(decreases_to!(*macro_call => macro_call.arguments));
            assert(decreases_to!(macro_call.arguments => macro_call.arguments@));
        }
        if n == 0 {
            string_from("(fprintf(stderr, \"panic\\n\"), exit(1))")
        } else if n == 1 {
            proof { assert(decreases_to!(args@ => args@[0])); }
            let a = gen.expression_to_c(&args[0]);
            if is_c_string(&a) {
                let mut r = string_from("(fprintf(stderr, \"");
                r.append(inner_text(&a).as_str());
                r.append("\\n\"), exit(1))");
                r
            } else {
                let mut r = string_from("(fprintf(stderr, \"%s\\n\", ");
                r.append(a.as_str());
                r.append("), exit(1))");
                r
            }
        } else {
            let mut r = string_from("(fprintf(stderr, ");
            r.append(join_strings(&gen.exprs_to_c(args), ", ").as_str());
            r.append("), exit(1))");
            r
        }
    }

    /// `format!(...)`: string formatting is not supported yet, so the result is the empty string.
    fn generate_format() -> (r: String)
        ensures
            r@ == "\"\""@,
    {
        string_from("\"\"")
    }

    /// `len!(arr)`: the size of a fixed array, or the `length` field of a slice.
    fn generate_len(macro_call: &MacroCallExpression, gen: &CCodeGenerator) -> (r: String)
        ensures
            r@ == emit::len_c(gen.genv(), exprs_view(macro_call.arguments@, macro_call.arguments@.len())),
        decreases macro_call, 0nat,
    {
        let args = &macro_call.arguments;
        proof {
            lemma_exprs_view(args@, args@.len());
            assert(decreases_to!(*macro_call => macro_call.arguments));
            assert(decreases_to!(macro_call.arguments => macro_call.arguments@));
        }
        if args.len() == 0 {
            string_from("0")
        } else {
            match gen.infer_expression_type(&args[0]) {
                Some(Type::Array { element_type: _, size: Some(k) }) => usize_to_string(k),
                Some(Type::Array { element_type: _, size: None }) => {
                    proof { assert(decreases_to!(args@ => args@[0])); }
                    let mut r = string_from("((int32_t)(");
                    r.append(gen.expression_to_c(&args[0]).as_str());
                    r.append(".length))");
                    r
                },
                _ => string_from("0"),
            }
        }
    }

    /// `copy!(dst, src)`: a `memcpy` of a fixed-size array.
    fn generate_copy(macro_call: &MacroCallExpression, gen: &CCodeGenerator) -> (r: String)
        ensures
            r@ == emit::copy_c(gen.genv(), exprs_view(macro_call.arguments@, macro_call.arguments@.len())),
        decreases macro_call, 0nat,
    {
        let args = &macro_call.arguments;
        proof {
            lemma_exprs_view(args@, args@.len());
            assert(decreases_to!(*macro_call => macro_call.arguments));
            assert(decreases_to!(macro_call.arguments => macro_call.arguments@));
        }
        if args.len() != 2 {
            string_from("/* copy! expects 2 arguments */")
        } else {
            proof {
                assert(decreases_to!(args@ => args@[0]));
                assert(decreases_to!(args@ => args@[1]));
            }
            let d = gen.expression_to_c(&args[0]);
            let s = gen.expression_to_c(&args[1]);
            match gen.infer_expression_type(&args[1]) {
                Some(Type::Array { element_type: _, size: Some(_) }) => {
                    let mut r = string_from("memcpy(");
                    r.append(d.as_str());
                    r.append(", ");
                    r.append(s.as_str());
                    r.append(", sizeof(");
                    r.append(s.as_str());
                    r.append("))");
                    r
                },
                Some(_) => string_from("/* copy! currently only supports fixed-size arrays */"),
                None => string_from("/* copy! type inference failed */"),
            }
        }
    }
}

} // verus!
