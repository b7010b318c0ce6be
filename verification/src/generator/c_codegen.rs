use vstd::prelude::*;

use crate::helper::text::{chars_of, i64_to_string, push_char, string_from, usize_to_string};
use crate::parser::ast::{
    expr_view, exprs_view, fields_view, lemma_exprs_view, lemma_fields_view, slice_name_of, Expression,
    iterable_view, lemma_stmts_view, opt_expr_view, stmt_view, target_view, AssignmentTarget, Block, ForIterable,
    functions_view, impls_view, methods_view, params_view, struct_fields_view, structs_view, Function, Impl, Method,
    Parameter, Program, SFunction, SImpl, SMethod, SStruct, SelfParam, Struct, ForStatement, IndexExpression, ReferenceExpression, SExpr, SStmt, Statement, VarDeclStatement, SType, StructField, StructLiteralField, Type, UnaryOperator,
};
use crate::semantic::rules::first_index;
use crate::semantic::type_checker::{copy_fields, operator_to_string};
use super::builtin::BuiltinMacroGenerator;
use super::emit::{self, GEnv, GFail, GState};

verus! {

/// The texts of a list of strings.
pub open spec fn strings_view(s: Seq<String>) -> Seq<Seq<char>> {
    s.map_values(|x: String| x@)
}

/// A variable and its type.
pub struct VarType {
    pub name: String,
    pub ty: Type,
}

impl View for VarType {
    type V = (Seq<char>, SType);

    open spec fn view(&self) -> (Seq<char>, SType) {
        (self.name@, self.ty@)
    }
}

/// A struct and its fields.
pub struct StructEntry {
    pub name: String,
    pub fields: Vec<StructField>,
}

impl View for StructEntry {
    type V = (Seq<char>, Seq<(Seq<char>, SType)>);

    open spec fn view(&self) -> (Seq<char>, Seq<(Seq<char>, SType)>) {
        (self.name@, crate::parser::ast::struct_fields_view(self.fields@))
    }
}

/// A method's name and return type.
pub struct MethodReturn {
    pub name: String,
    pub return_type: Type,
}

impl View for MethodReturn {
    type V = (Seq<char>, SType);

    open spec fn view(&self) -> (Seq<char>, SType) {
        (self.name@, self.return_type@)
    }
}

/// The methods of one struct's impl block.
pub struct ImplEntry {
    pub struct_name: String,
    pub methods: Vec<MethodReturn>,
}

/// The images of methods' names and return types.
pub open spec fn returns_view(s: Seq<MethodReturn>) -> Seq<(Seq<char>, SType)> {
    s.map_values(|m: MethodReturn| m@)
}

impl View for ImplEntry {
    type V = (Seq<char>, Seq<(Seq<char>, SType)>);

    open spec fn view(&self) -> (Seq<char>, Seq<(Seq<char>, SType)>) {
        (self.struct_name@, returns_view(self.methods@))
    }
}

/// The images of variable types.
pub open spec fn vars_view(s: Seq<VarType>) -> Seq<(Seq<char>, SType)> {
    s.map_values(|x: VarType| x@)
}

/// The images of struct entries.
pub open spec fn struct_entries_view(s: Seq<StructEntry>) -> Seq<(Seq<char>, Seq<(Seq<char>, SType)>)> {
    s.map_values(|x: StructEntry| x@)
}

/// The images of impl entries.
pub open spec fn impl_entries_view(s: Seq<ImplEntry>) -> Seq<(Seq<char>, Seq<(Seq<char>, SType)>)> {
    s.map_values(|x: ImplEntry| x@)
}

/// The image of an optional type.
pub open spec fn opt_ty(t: Option<Type>) -> Option<SType> {
    match t {
        Some(x) => Some(x@),
        None => None,
    }
}

/// The image of an optional name.
pub open spec fn opt_name(t: Option<String>) -> Option<Seq<char>> {
    match t {
        Some(x) => Some(x@),
        None => None,
    }
}

/// The parts separated by `sep`.
pub fn join_strings(parts: &Vec<String>, sep: &str) -> (r: String)
    ensures
        r@ == emit::join(strings_view(parts@), sep@),
{
    let ghost pv = strings_view(parts@);
    let mut r = String::new();
    let mut i: usize = 0;
    while i < parts.len()
        invariant
            i <= parts.len(),
            pv == strings_view(parts@),
            pv.len() == parts.len(),
            r@ == emit::join(pv.take(i as int), sep@),
        decreases parts.len() - i,
    {
        assert(pv.take(i + 1).drop_last() =~= pv.take(i as int));
        if i > 0 {
            r.append(sep);
        }
        r.append(parts[i].as_str());
        i += 1;
    }
    assert(pv.take(parts.len() as int) =~= pv);
    r
}

/// Text as it is written inside a C string literal.
pub fn escape_c(s: &String) -> (r: String)
    ensures
        r@ == emit::escape(s@),
{
    let cs = chars_of(s.as_str());
    let mut r = String::new();
    let mut i: usize = 0;
    while i < cs.len()
        invariant
            i <= cs.len(),
            cs@ == s@,
            r@ == emit::escape(cs@.take(i as int)),
        decreases cs.len() - i,
    {
        let c = cs[i];
        assert(cs@.take(i + 1).drop_last() =~= cs@.take(i as int));
        if c == '\\' {
            r.append("\\\\");
        } else if c == '"' {
            r.append("\\\"");
        } else if c == '\n' {
            r.append("\\n");
        } else if c == '\t' {
            r.append("\\t");
        } else if c == '\r' {
            r.append("\\r");
        } else {
            push_char(&mut r, c);
        }
        i += 1;
    }
    assert(cs@.take(cs.len() as int) =~= cs@);
    r
}

/// The name of the C struct for slices of the C type `elem`.
pub fn slice_struct_name(elem: &String) -> (r: String)
    ensures
        r@ == emit::slice_struct(elem@),
{
    let mut r = string_from("Slice_");
    r.append(slice_name_of(elem).as_str());
    r
}

/// Translates a program to C.
pub struct CCodeGenerator {
    output: String,
    indent_level: usize,
    variable_types: Vec<VarType>,
    struct_table: Vec<StructEntry>,
    impl_table: Vec<ImplEntry>,
    temp_var_counter: usize,
}

impl CCodeGenerator {
    /// What the generator knows.
    pub closed spec fn genv(&self) -> GEnv {
        GEnv {
            vars: vars_view(self.variable_types@),
            structs: struct_entries_view(self.struct_table@),
            impls: impl_entries_view(self.impl_table@),
        }
    }

    /// The generator's state.
    pub closed spec fn gstate(&self) -> GState {
        GState { env: self.genv(), indent: self.indent_level as nat, temp: self.temp_var_counter as nat, out: self.output@ }
    }

    /// A generator with empty tables and no text.
    pub fn new() -> (g: CCodeGenerator)
        ensures
            g.gstate() == (GState { env: GEnv { vars: seq![], structs: seq![], impls: seq![] }, indent: 0, temp: 0, out: seq![] }),
            g.genv() == (GEnv { vars: seq![], structs: seq![], impls: seq![] }),
    {
        let g = CCodeGenerator {
            output: String::new(),
            indent_level: 0,
            variable_types: Vec::new(),
            struct_table: Vec::new(),
            impl_table: Vec::new(),
            temp_var_counter: 0,
        };
        assert(g.genv().vars =~= seq![]);
        assert(g.genv().structs =~= seq![]);
        assert(g.genv().impls =~= seq![]);
        g
    }

    /// Writes `line` on a line of its own at the current indentation.
    fn emit_line(&mut self, line: &str)
        ensures
            final(self).gstate() == emit::emit(old(self).gstate(), line@),
    {
        let ghost start = self.output@;
        let mut i: usize = 0;
        while i < self.indent_level
            invariant
                i <= self.indent_level,
                self.output@ == start + Seq::new((i * 4) as nat, |k: int| ' '),
                start == old(self).output@,
                self.genv() == old(self).genv(),
                self.indent_level == old(self).indent_level,
                self.temp_var_counter == old(self).temp_var_counter,
            decreases self.indent_level - i,
        {
            let ghost before = self.output@;
            self.output.append("    ");
            proof {
                reveal_strlit("    ");
                assert(before + "    "@ =~= start + Seq::new(((i + 1) * 4) as nat, |k: int| ' '));
            }
            i += 1;
        }
        let ghost before = self.output@;
        self.output.append(line);
        push_char(&mut self.output, '\n');
        assert(self.output@ =~= before + line@ + seq!['\n']);
    }

    /// One level deeper.
    fn indent(&mut self)
        ensures
            final(self).gstate() == emit::indent(old(self).gstate()),
    {
        if self.indent_level < usize::MAX {
            self.indent_level += 1;
        }
    }

    /// One level shallower.
    fn dedent(&mut self)
        ensures
            final(self).gstate() == emit::dedent(old(self).gstate()),
    {
        if self.indent_level > 0 {
            self.indent_level -= 1;
        }
    }

    /// The type of the variable `name`, if known.
    fn var_type(&self, name: &String) -> (r: Option<&Type>)
        ensures
            match r {
                Some(t) => emit::lookup(self.genv().vars, name@) == Some(t@),
                None => emit::lookup(self.genv().vars, name@) is None,
            },
    {
        let ghost names = emit::keys(self.genv().vars);
        let mut i: usize = 0;
        while i < self.variable_types.len()
            invariant
                i <= self.variable_types.len(),
                names == emit::keys(self.genv().vars),
                names.len() == self.variable_types.len(),
                forall|k: int| 0 <= k < names.len() ==> #[trigger] names[k] == self.variable_types@[k].name@,
                first_index(names, name@, 0) == first_index(names, name@, i as nat),
            decreases self.variable_types.len() - i,
        {
            if self.variable_types[i].name.eq(name) {
                return Some(&self.variable_types[i].ty);
            }
            i += 1;
        }
        None
    }

    /// The fields of the struct `name`, if known.
    fn struct_fields(&self, name: &String) -> (r: Option<&Vec<StructField>>)
        ensures
            match r {
                Some(f) => emit::lookup(self.genv().structs, name@) == Some(crate::parser::ast::struct_fields_view(f@)),
                None => emit::lookup(self.genv().structs, name@) is None,
            },
    {
        let ghost names = emit::keys(self.genv().structs);
        let mut i: usize = 0;
        while i < self.struct_table.len()
            invariant
                i <= self.struct_table.len(),
                names == emit::keys(self.genv().structs),
                names.len() == self.struct_table.len(),
                forall|k: int| 0 <= k < names.len() ==> #[trigger] names[k] == self.struct_table@[k].name@,
                first_index(names, name@, 0) == first_index(names, name@, i as nat),
            decreases self.struct_table.len() - i,
        {
            if self.struct_table[i].name.eq(name) {
                return Some(&self.struct_table[i].fields);
            }
            i += 1;
        }
        None
    }

    /// The type of the field `name` among `fields`.
    fn field_type<'a>(fields: &'a Vec<StructField>, name: &String) -> (r: Option<&'a Type>)
        ensures
            match r {
                Some(t) => emit::lookup(crate::parser::ast::struct_fields_view(fields@), name@) == Some(t@),
                None => emit::lookup(crate::parser::ast::struct_fields_view(fields@), name@) is None,
            },
    {
        let ghost names = emit::keys(crate::parser::ast::struct_fields_view(fields@));
        let mut i: usize = 0;
        while i < fields.len()
            invariant
                i <= fields.len(),
                names == emit::keys(crate::parser::ast::struct_fields_view(fields@)),
                names.len() == fields.len(),
                forall|k: int| 0 <= k < names.len() ==> #[trigger] names[k] == fields@[k].name@,
                first_index(names, name@, 0) == first_index(names, name@, i as nat),
            decreases fields.len() - i,
        {
            if fields[i].name.eq(name) {
                return Some(&fields[i].field_type);
            }
            i += 1;
        }
        None
    }

    /// The return type of the method `m` of the struct `s`, if known.
    fn method_return(&self, s: &String, m: &String) -> (r: Option<&Type>)
        ensures
            match r {
                Some(t) => emit::method_return(self.genv(), s@, m@) == Some(t@),
                None => emit::method_return(self.genv(), s@, m@) is None,
            },
    {
        let ghost names = emit::keys(self.genv().impls);
        let mut i: usize = 0;
        while i < self.impl_table.len()
            invariant
                i <= self.impl_table.len(),
                names == emit::keys(self.genv().impls),
                names.len() == self.impl_table.len(),
                forall|k: int| 0 <= k < names.len() ==> #[trigger] names[k] == self.impl_table@[k].struct_name@,
                first_index(names, s@, 0) == first_index(names, s@, i as nat),
            decreases self.impl_table.len() - i,
        {
            if self.impl_table[i].struct_name.eq(s) {
                let methods = &self.impl_table[i].methods;
                let ghost mnames = emit::keys(returns_view(methods@));
                let mut j: usize = 0;
                while j < methods.len()
                    invariant
                        j <= methods.len(),
                        i < self.impl_table.len(),
                        names == emit::keys(self.genv().impls),
                        names[i as int] == s@,
                        first_index(names, s@, 0) == first_index(names, s@, i as nat),
                        methods@ == self.impl_table@[i as int].methods@,
                        mnames == emit::keys(returns_view(methods@)),
                        mnames.len() == methods.len(),
                        forall|k: int| 0 <= k < mnames.len() ==> #[trigger] mnames[k] == methods@[k].name@,
                        first_index(mnames, m@, 0) == first_index(mnames, m@, j as nat),
                    decreases methods.len() - j,
                {
                    if methods[j].name.eq(m) {
                        return Some(&methods[j].return_type);
                    }
                    j += 1;
                }
                return None;
            }
            i += 1;
        }
        None
    }

    /// The struct that an expression's value belongs to, when it can be told.
    fn infer_expression_type_name(&self, e: &Expression) -> (r: Option<String>)
        ensures
            opt_name(r) == emit::infer_name(self.genv(), e@),
        decreases e,
    {
        match e {
            Expression::Variable(n) => match self.var_type(n) {
                Some(Type::Struct(s)) => Some(s.clone()),
                _ => None,
            },
            Expression::StructLiteral(l) => Some(l.struct_name.clone()),
            Expression::FieldAccess(f) => match self.infer_expression_type_name(&f.object) {
                Some(s) => match self.struct_fields(&s) {
                    Some(fields) => match Self::field_type(fields, &f.field) {
                        Some(Type::Struct(n)) => Some(n.clone()),
                        _ => None,
                    },
                    None => None,
                },
                None => None,
            },
            Expression::MethodCall(m) => match self.infer_expression_type_name(&m.object) {
                Some(s) => match self.method_return(&s, &m.method) {
                    Some(Type::Struct(n)) => Some(n.clone()),
                    _ => None,
                },
                None => None,
            },
            Expression::AssociatedCall(a) => match self.method_return(&a.type_ident, &a.function) {
                Some(Type::Struct(n)) => Some(n.clone()),
                _ => None,
            },
            _ => None,
        }
    }

    /// The type of an expression, when it can be told.
    pub(crate) fn infer_expression_type(&self, e: &Expression) -> (r: Option<Type>)
        ensures
            opt_ty(r) == emit::infer_c(self.genv(), e@),
    {
        match e {
            Expression::Variable(n) => {
                let r = match self.var_type(n) {
                    Some(t) => Some(t.duplicate()),
                    None => None,
                };
                assert(opt_ty(r) == emit::infer_c(self.genv(), e@));
                r
            },
            Expression::IntLiteral(_) => Some(Type::I32),
            Expression::FloatLiteral(_) => Some(Type::F64),
            Expression::BoolLiteral(_) => Some(Type::Bool),
            Expression::StringLiteral(_) => Some(Type::String),
            Expression::FieldAccess(f) => {
                if f.field.eq(&string_from("length")) {
                    return Some(Type::I32);
                }
                let r = match self.infer_expression_type_name(&f.object) {
                    Some(s) => match self.struct_fields(&s) {
                        Some(fields) => match Self::field_type(fields, &f.field) {
                            Some(t) => Some(t.duplicate()),
                            None => None,
                        },
                        None => None,
                    },
                    None => None,
                };
                assert(opt_ty(r) == emit::infer_c(self.genv(), e@));
                r
            },
            Expression::Index(x) => {
                let r = match &*x.array {
                    Expression::Variable(n) => {
                        assert(expr_view(*x.array) == SExpr::Variable(n@));
                        match self.var_type(n) {
                            Some(Type::Array { element_type, size: _ }) => Some(element_type.duplicate()),
                            _ => None,
                        }
                    },
                    _ => None,
                };
                assert(opt_ty(r) == emit::infer_c(self.genv(), e@));
                r
            },
            Expression::Binary(_) => None,
            Expression::Unary(_) => None,
            Expression::Call(_) => None,
            Expression::MethodCall(_) => None,
            Expression::AssociatedCall(_) => None,
            Expression::StructLiteral(_) => None,
            Expression::MacroCall(_) => None,
            Expression::ArrayLiteral(_) => None,
            Expression::Reference(_) => None,
        }
    }
}


/// Whether C text is a string literal: at least two characters, opening and closing with '"'.
pub fn is_c_string(s: &String) -> (r: bool)
    ensures
        r == emit::is_c_string(s@),
{
    let cs = chars_of(s.as_str());
    let n = cs.len();
    n >= 2 && cs[0] == '"' && cs[n - 1] == '"'
}

impl CCodeGenerator {
    /// The C texts of expressions.
    pub(crate) fn exprs_to_c(&self, args: &Vec<Expression>) -> (r: Vec<String>)
        ensures
            strings_view(r@) == emit::exprs_c(self.genv(), exprs_view(args@, args@.len()), args@.len()),
        decreases args@, 1nat,
    {
        let ghost env = self.genv();
        let ghost ev = exprs_view(args@, args@.len());
        proof { lemma_exprs_view(args@, args@.len()); }
        let mut r: Vec<String> = Vec::new();
        let mut i: usize = 0;
        assert(strings_view(r@) =~= Seq::<Seq<char>>::empty());
        while i < args.len()
            invariant
                i <= args.len(),
                env == self.genv(),
                ev == exprs_view(args@, args@.len()),
                ev.len() == args.len(),
                forall|k: int| 0 <= k < args.len() ==> #[trigger] ev[k] == expr_view(args@[k]),
                strings_view(r@) == emit::exprs_c(env, ev, i as nat),
            decreases args.len() - i,
        {
            proof {
                assert(decreases_to!(args@ => args@[i as int]));
            }
            let c = self.expression_to_c(&args[i]);
            let ghost before = r@;
            r.push(c);
            assert(strings_view(r@) =~= strings_view(before).push(c@));
            i += 1;
        }
        r
    }

    /// The C texts of a struct literal's fields: `.name = value`.
    fn fields_to_c(&self, fields: &Vec<StructLiteralField>) -> (r: Vec<String>)
        ensures
            strings_view(r@) == emit::fields_c(self.genv(), fields_view(fields@, fields@.len()), fields@.len()),
        decreases fields@, 1nat,
    {
        let ghost env = self.genv();
        let ghost fv = fields_view(fields@, fields@.len());
        proof { lemma_fields_view(fields@, fields@.len()); }
        let mut r: Vec<String> = Vec::new();
        let mut i: usize = 0;
        assert(strings_view(r@) =~= Seq::<Seq<char>>::empty());
        while i < fields.len()
            invariant
                i <= fields.len(),
                env == self.genv(),
                fv == fields_view(fields@, fields@.len()),
                fv.len() == fields.len(),
                forall|k: int| 0 <= k < fields.len() ==> #[trigger] fv[k] == (fields@[k].name@, expr_view(fields@[k].value)),
                strings_view(r@) == emit::fields_c(env, fv, i as nat),
            decreases fields.len() - i,
        {
            proof {
                assert(decreases_to!(fields@ => fields@[i as int]));
                assert(decreases_to!(fields@[i as int] => fields@[i as int].value));
            }
            let mut c = string_from(".");
            c.append(fields[i].name.as_str());
            c.append(" = ");
            c.append(self.expression_to_c(&fields[i].value).as_str());
            let ghost before = r@;
            r.push(c);
            assert(strings_view(r@) =~= strings_view(before).push(c@));
            i += 1;
        }
        r
    }

    /// The C text of `&inner`: a slice over an array.
    fn reference_to_c(&self, r: &ReferenceExpression) -> (s: String)
        ensures
            s@ == emit::reference_c(self.genv(), expr_view(*r.inner)),
        decreases r, 1nat,
    {
        match &*r.inner {
            Expression::Variable(v) => {
                assert(expr_view(*r.inner) == SExpr::Variable(v@));
                match self.var_type(v) {
                    Some(Type::Array { element_type, size: Some(n) }) => {
                        let mut s = string_from("(");
                        s.append(slice_struct_name(&element_type.to_c_type()).as_str());
                        s.append("){.data = ");
                        s.append(v.as_str());
                        s.append(", .length = ");
                        s.append(usize_to_string(*n).as_str());
                        s.append("}");
                        s
                    },
                    _ => {
                        let mut s = string_from("/* cannot take reference of non-array ");
                        s.append(v.as_str());
                        s.append(" */");
                        s
                    },
                }
            },
            Expression::ArrayLiteral(al) => {
                let elems = &al.elements;
                assert(expr_view(*r.inner) == SExpr::ArrayLiteral(exprs_view(elems@, elems@.len()), al.span));
                proof { lemma_exprs_view(elems@, elems@.len()); }
                if elems.len() == 0 {
                    return string_from("/* empty array literal */");
                }
                match self.infer_expression_type(&elems[0]) {
                    None => string_from("/* cannot infer array element type */"),
                    Some(t) => {
                        proof {
                            assert(decreases_to!(*r => *r.inner));
                            assert(decreases_to!(*r.inner => *al));
                            assert(decreases_to!(*al => al.elements));
                            assert(decreases_to!(al.elements => al.elements@));
                        }
                        let items = join_strings(&self.exprs_to_c(elems), ", ");
                        match &t {
                            Type::Array { element_type, size: Some(inner_size) } => {
                                let base = element_type.to_c_type();
                                let mut s = string_from("(");
                                s.append(slice_struct_name(&base).as_str());
                                s.append("){.data = ");
                                s.append("((");
                                s.append(base.as_str());
                                s.append("[");
                                s.append(usize_to_string(*inner_size).as_str());
                                s.append("]");
                                s.append("[]){ ");
                                s.append(items.as_str());
                                s.append(" })");
                                s.append(", .length = ");
                                s.append(usize_to_string(elems.len()).as_str());
                                s.append("}");
                                s
                            },
                            _ => {
                                let ct = t.to_c_type();
                                let mut s = string_from("(");
                                s.append(slice_struct_name(&ct).as_str());
                                s.append("){.data = ");
                                s.append("((");
                                s.append(ct.as_str());
                                s.append("[]){ ");
                                s.append(items.as_str());
                                s.append(" })");
                                s.append(", .length = ");
                                s.append(usize_to_string(elems.len()).as_str());
                                s.append("}");
                                s
                            },
                        }
                    },
                }
            },
            Expression::Index(_) => match self.infer_expression_type(&r.inner) {
                Some(Type::Array { element_type, size: Some(n) }) => {
                    let mut s = string_from("(");
                    s.append(slice_struct_name(&element_type.to_c_type()).as_str());
                    s.append("){.data = ");
                    s.append(self.expression_to_c(&r.inner).as_str());
                    s.append(", .length = ");
                    s.append(usize_to_string(n).as_str());
                    s.append("}");
                    s
                },
                Some(_) => string_from("/* cannot create slice from indexed expression */"),
                None => string_from("/* cannot infer type of indexed expression */"),
            },
            _ => string_from("/* unsupported reference expression */"),
        }
    }

    /// The C text of `arr[idx]`; a slice variable is indexed through its `data`.
    fn index_to_c(&self, x: &IndexExpression) -> (r: String)
        ensures
            r@ == emit::expr_c(self.genv(), SExpr::Index(Box::new(expr_view(*x.array)), Box::new(expr_view(*x.index)), x.span)),
        decreases x, 1nat,
    {
        match &*x.array {
            Expression::Variable(v) => {
                assert(expr_view(*x.array) == SExpr::Variable(v@));
                let slice = match self.var_type(v) {
                    Some(Type::Array { element_type: _, size: None }) => true,
                    _ => false,
                };
                let mut r = v.clone();
                if slice {
                    r.append(".data[");
                } else {
                    r.append("[");
                }
                r.append(self.expression_to_c(&x.index).as_str());
                r.append("]");
                r
            },
            _ => {
                let mut r = self.expression_to_c(&x.array);
                r.append("[");
                r.append(self.expression_to_c(&x.index).as_str());
                r.append("]");
                r
            },
        }
    }

    /// The C text of an expression.
    pub(crate) fn expression_to_c(&self, e: &Expression) -> (r: String)
        ensures
            r@ == emit::expr_c(self.genv(), e@),
        decreases e, 2nat,
    {
        match e {
            Expression::IntLiteral(v) => i64_to_string(*v),
            Expression::FloatLiteral(t) => t.clone(),
            Expression::BoolLiteral(b) => if *b { string_from("true") } else { string_from("false") },
            Expression::StringLiteral(s) => {
                let mut r = string_from("\"");
                r.append(escape_c(s).as_str());
                r.append("\"");
                r
            },
            Expression::Variable(n) => n.clone(),
            Expression::Binary(b) => {
                let mut r = string_from("(");
                r.append(self.expression_to_c(&b.left).as_str());
                r.append(" ");
                r.append(operator_to_string(b.operator));
                r.append(" ");
                r.append(self.expression_to_c(&b.right).as_str());
                r.append(")");
                r
            },
            Expression::Unary(u) => {
                let mut r = string_from("(");
                match u.operator {
                    UnaryOperator::Not => r.append("!"),
                    UnaryOperator::Negate => r.append("-"),
                }
                r.append(self.expression_to_c(&u.operand).as_str());
                r.append(")");
                r
            },
            Expression::Call(c) => {
                proof {
                    assert(decreases_to!(*e => c.arguments@));
                    lemma_exprs_view(c.arguments@, c.arguments@.len());
                }
                let mut r = c.callee.clone();
                r.append("(");
                r.append(join_strings(&self.exprs_to_c(&c.arguments), ", ").as_str());
                r.append(")");
                r
            },
            Expression::FieldAccess(f) => {
                let ghost env = self.genv();
                let length: Option<usize> = match &*f.object {
                    Expression::Variable(v) => {
                        assert(expr_view(*f.object) == SExpr::Variable(v@));
                        if f.field.eq(&string_from("length")) {
                            match self.var_type(v) {
                                Some(Type::Array { element_type: _, size: Some(n) }) => Some(*n),
                                _ => None,
                            }
                        } else {
                            None
                        }
                    },
                    _ => None,
                };
                match length {
                    Some(n) => usize_to_string(n),
                    None => {
                        let mut r = self.expression_to_c(&f.object);
                        r.append(accessor(&f.object));
                        r.append(f.field.as_str());
                        r
                    },
                }
            },
            Expression::MethodCall(m) => {
                proof {
                    assert(decreases_to!(*e => m.arguments@));
                    lemma_exprs_view(m.arguments@, m.arguments@.len());
                }
                let obj = self.expression_to_c(&m.object);
                let mut parts: Vec<String> = Vec::new();
                let mut first = string_from("&");
                first.append(obj.as_str());
                parts.push(first);
                let rest = self.exprs_to_c(&m.arguments);
                let mut i: usize = 0;
                while i < rest.len()
                    invariant
                        i <= rest.len(),
                        strings_view(parts@) == seq![("&"@ + obj@)] + strings_view(rest@).take(i as int),
                    decreases rest.len() - i,
                {
                    let ghost before = parts@;
                    parts.push(rest[i].clone());
                    assert(strings_view(parts@) =~= strings_view(before).push(rest@[i as int]@));
                    assert(strings_view(parts@) =~= seq![("&"@ + obj@)] + strings_view(rest@).take(i + 1));
                    i += 1;
                }
                assert(strings_view(rest@).take(rest.len() as int) =~= strings_view(rest@));
                let mut r = match self.infer_expression_type_name(&m.object) {
                    Some(s) => s,
                    None => string_from("Unknown"),
                };
                r.append("_");
                r.append(m.method.as_str());
                r.append("(");
                r.append(join_strings(&parts, ", ").as_str());
                r.append(")");
                r
            },
            Expression::AssociatedCall(a) => {
                proof {
                    assert(decreases_to!(*e => a.arguments@));
                    lemma_exprs_view(a.arguments@, a.arguments@.len());
                }
                let mut r = a.type_ident.clone();
                r.append("_");
                r.append(a.function.as_str());
                r.append("(");
                r.append(join_strings(&self.exprs_to_c(&a.arguments), ", ").as_str());
                r.append(")");
                r
            },
            Expression::StructLiteral(l) => {
                proof {
                    assert(decreases_to!(*e => l.fields@));
                    lemma_fields_view(l.fields@, l.fields@.len());
                }
                let mut r = string_from("(");
                r.append(l.struct_name.as_str());
                r.append("){");
                r.append(join_strings(&self.fields_to_c(&l.fields), ", ").as_str());
                r.append("}");
                r
            },
            Expression::MacroCall(m) => BuiltinMacroGenerator::generate_macro_call(m, self),
            Expression::ArrayLiteral(a) => {
                if a.elements.len() == 0 {
                    proof { lemma_exprs_view(a.elements@, a.elements@.len()); }
                    return string_from("/* empty array */");
                }
                proof {
                    assert(decreases_to!(*e => a.elements@));
                    lemma_exprs_view(a.elements@, a.elements@.len());
                }
                let mut r = string_from("{");
                r.append(join_strings(&self.exprs_to_c(&a.elements), ", ").as_str());
                r.append("}");
                r
            },
            Expression::Index(x) => self.index_to_c(x),
            Expression::Reference(r) => self.reference_to_c(r),
        }
    }
}

/// `->` for the pointer `self`, `.` otherwise.
fn accessor(obj: &Expression) -> (r: &'static str)
    ensures
        r@ == emit::accessor(obj@),
{
    match obj {
        Expression::Variable(n) => {
            assert(obj@ == SExpr::Variable(n@));
            if n.eq(&string_from("self")) {
                "->"
            } else {
                "."
            }
        },
        _ => ".",
    }
}


/// Whether a generated result agrees with what the rules give: the same state, or the same
/// message with the same state (the text written before the failure included).
pub open spec fn gen_agrees(r: Result<(), String>, st: GState, s: Result<GState, GFail>) -> bool {
    match (r, s) {
        (Ok(()), Ok(x)) => st == x,
        (Err(m), Err(x)) => m@ == x.message && st == x.state,
        _ => false,
    }
}

/// The sizes of the fixed-size array dimensions of a type, outermost first, and the type under them.
fn collect_array_dimensions(ty: &Type) -> (r: (Vec<usize>, Type))
    ensures
        (r.0@.map_values(|n: usize| n as nat), r.1@) == emit::array_dims(ty@),
    decreases ty,
{
    match ty {
        Type::Array { element_type, size: Some(n) } => {
            let (mut dims, base) = collect_array_dimensions(element_type);
            let ghost before = dims@;
            dims.insert(0, *n);
            assert(dims@.map_values(|n: usize| n as nat) =~= seq![*n as nat] + before.map_values(|n: usize| n as nat));
            (dims, base)
        },
        _ => {
            let dims: Vec<usize> = Vec::new();
            assert(dims@.map_values(|n: usize| n as nat) =~= Seq::<nat>::empty());
            (dims, ty.duplicate())
        },
    }
}

/// `[2][3]` for the sizes 2 and 3.
fn dims_text(dims: &Vec<usize>) -> (r: String)
    ensures
        r@ == emit::dims_text(dims@.map_values(|n: usize| n as nat)),
{
    let ghost dv = dims@.map_values(|n: usize| n as nat);
    let mut r = String::new();
    let mut i: usize = 0;
    while i < dims.len()
        invariant
            i <= dims.len(),
            dv == dims@.map_values(|n: usize| n as nat),
            dv.len() == dims.len(),
            r@ == emit::dims_text(dv.take(i as int)),
        decreases dims.len() - i,
    {
        assert(dv.take(i + 1).drop_last() =~= dv.take(i as int));
        r.append("[");
        r.append(usize_to_string(dims[i]).as_str());
        r.append("]");
        i += 1;
    }
    assert(dv.take(dims.len() as int) =~= dv);
    r
}

impl CCodeGenerator {
    /// Records the type of the variable `name`, replacing an earlier one.
    fn insert_var(&mut self, name: String, ty: Type)
        ensures
            final(self).gstate() == emit::with_vars(old(self).gstate(), emit::insert(old(self).genv().vars, name@, ty@)),
    {
        let ghost old_vars = self.genv().vars;
        let ghost entry = (name@, ty@);
        let ghost names = emit::keys(old_vars);
        let mut i: usize = 0;
        while i < self.variable_types.len()
            invariant
                i <= self.variable_types.len(),
                old_vars == self.genv().vars,
                entry == (name@, ty@),
                self.gstate() == old(self).gstate(),
                names == emit::keys(old_vars),
                names.len() == self.variable_types.len(),
                forall|k: int| 0 <= k < names.len() ==> #[trigger] names[k] == self.variable_types@[k].name@,
                first_index(names, name@, 0) == first_index(names, name@, i as nat),
            decreases self.variable_types.len() - i,
        {
            if self.variable_types[i].name.eq(&name) {
                let v = VarType { name, ty };
                assert(v@ == entry);
                let ghost before = self.variable_types@;
                self.variable_types.set(i, v);
                assert(self.variable_types@ == before.update(i as int, v));
                assert(vars_view(self.variable_types@) =~= old_vars.update(i as int, entry));
                return;
            }
            i += 1;
        }
        self.variable_types.push(VarType { name, ty });
        assert(self.genv().vars =~= old_vars.push(entry));
    }

    /// Whether an expression is a method called on the result of another call.
    fn is_method_chain(&self, e: &Expression) -> (r: bool)
        ensures
            r == emit::is_method_chain(e@),
    {
        match e {
            Expression::MethodCall(m) => {
                assert((expr_view(*m.object) is MethodCall) == (*m.object is MethodCall));
                assert((expr_view(*m.object) is AssociatedCall) == (*m.object is AssociatedCall));
                match &*m.object {
                    Expression::MethodCall(_) | Expression::AssociatedCall(_) => true,
                    _ => false,
                }
            },
            _ => false,
        }
    }

    /// The name of the next temporary, which is then used up.
    fn next_temp_name(&mut self) -> (r: String)
        ensures
            r@ == emit::temp_name(old(self).gstate().temp),
            final(self).gstate() == emit::next_temp(old(self).gstate()),
    {
        let mut r = string_from("__tmp_");
        r.append(usize_to_string(self.temp_var_counter).as_str());
        if self.temp_var_counter < usize::MAX {
            self.temp_var_counter += 1;
        }
        r
    }

    /// Writes temporaries for the calls of a method chain, innermost first; gives the text for
    /// the value of `e`.
    fn chain_temps(&mut self, e: &Expression) -> (r: String)
        ensures
            (final(self).gstate(), r@) == emit::chain_temps(old(self).gstate(), e@),
        decreases e,
    {
        match e {
            Expression::MethodCall(m) => {
                let prev = self.chain_temps(&m.object);
                let name = self.next_temp_name();
                let s = match self.infer_expression_type_name(&m.object) {
                    Some(s) => s,
                    None => string_from("Unknown"),
                };
                let ret = match self.method_return(&s, &m.method) {
                    Some(t) => t.duplicate(),
                    None => Type::Void,
                };
                proof { lemma_exprs_view(m.arguments@, m.arguments@.len()); }
                let rest = self.exprs_to_c(&m.arguments);
                let mut parts: Vec<String> = Vec::new();
                let mut first = string_from("&");
                first.append(prev.as_str());
                parts.push(first);
                let mut i: usize = 0;
                while i < rest.len()
                    invariant
                        i <= rest.len(),
                        strings_view(parts@) == seq![("&"@ + prev@)] + strings_view(rest@).take(i as int),
                    decreases rest.len() - i,
                {
                    let ghost before = parts@;
                    parts.push(rest[i].clone());
                    assert(strings_view(parts@) =~= strings_view(before).push(rest@[i as int]@));
                    assert(strings_view(parts@) =~= seq![("&"@ + prev@)] + strings_view(rest@).take(i + 1));
                    i += 1;
                }
                assert(strings_view(rest@).take(rest.len() as int) =~= strings_view(rest@));
                let mut call = s;
                call.append("_");
                call.append(m.method.as_str());
                call.append("(");
                call.append(join_strings(&parts, ", ").as_str());
                call.append(")");
                let mut line = ret.to_c_type();
                line.append(" ");
                line.append(name.as_str());
                line.append(" = ");
                line.append(call.as_str());
                line.append(";");
                self.emit_line(line.as_str());
                name
            },
            Expression::AssociatedCall(a) => {
                let name = self.next_temp_name();
                let type_str = match self.method_return(&a.type_ident, &a.function) {
                    Some(Type::Struct(n)) => n.clone(),
                    _ => string_from("Unknown"),
                };
                let mut line = type_str;
                line.append(" ");
                line.append(name.as_str());
                line.append(" = ");
                line.append(self.expression_to_c(e).as_str());
                line.append(";");
                self.emit_line(line.as_str());
                name
            },
            _ => self.expression_to_c(e),
        }
    }

    /// The text for an initial value: temporaries for a method chain, else the expression's text.
    fn generate_method_chain_temps(&mut self, e: &Expression) -> (r: String)
        ensures
            (final(self).gstate(), r@) == emit::init_c(old(self).gstate(), e@),
    {
        if !self.is_method_chain(e) {
            return self.expression_to_c(e);
        }
        self.chain_temps(e)
    }

    /// Writes a variable declaration whose type is `t`.
    fn generate_var_decl(&mut self, d: &VarDeclStatement, t: &Type)
        ensures
            final(self).gstate() == emit::var_decl_c(old(self).gstate(), d.is_mutable, d.name@, t@, opt_expr_view(d.initializer)),
    {
        self.insert_var(d.name.clone(), t.duplicate());
        let mut head = if d.is_mutable { String::new() } else { string_from("const ") };
        let decl = match t {
            Type::Array { element_type: _, size: Some(_) } => {
                let (dims, base) = collect_array_dimensions(t);
                let mut decl = base.to_c_type();
                decl.append(" ");
                decl.append(d.name.as_str());
                decl.append(dims_text(&dims).as_str());
                decl
            },
            _ => {
                let mut decl = t.to_c_type();
                decl.append(" ");
                decl.append(d.name.as_str());
                decl
            },
        };
        head.append(decl.as_str());
        proof {
            reveal_strlit("");
        }
        match &d.initializer {
            Some(e) => {
                let v = self.generate_method_chain_temps(e);
                head.append(" = ");
                head.append(v.as_str());
                head.append(";");
                self.emit_line(head.as_str());
            },
            None => {
                head.append(";");
                self.emit_line(head.as_str());
            },
        }
    }

    /// The C text of an assignment's target.
    fn target_to_c(&self, t: &AssignmentTarget) -> (r: String)
        ensures
            r@ == emit::target_c(self.genv(), target_view(*t)),
    {
        match t {
            AssignmentTarget::Variable(n) => n.clone(),
            AssignmentTarget::FieldAccess(f) => {
                let mut r = self.expression_to_c(&f.object);
                r.append(accessor(&f.object));
                r.append(f.field.as_str());
                r
            },
            AssignmentTarget::Index(x) => self.index_to_c(x),
        }
    }

    /// Writes the statements of a block in order, stopping at the first error.
    fn generate_statements(&mut self, b: &Block) -> (r: Result<(), String>)
        ensures
            gen_agrees(r, final(self).gstate(), emit::stmts_c_s(old(self).gstate(), b@)),
        decreases b, 0nat,
    {
        let ghost st0 = self.gstate();
        let ghost ss = b@;
        proof {
            lemma_stmts_view(b.statements@, b.statements@.len());
            emit::unfold_stmts_c(st0, ss.take(0));
        }
        assert(ss.take(0) =~= Seq::<SStmt>::empty());
        let mut i: usize = 0;
        while i < b.statements.len()
            invariant
                i <= b.statements.len(),
                ss == b@,
                st0 == old(self).gstate(),
                ss.len() == b.statements.len(),
                forall|k: int| 0 <= k < ss.len() ==> #[trigger] ss[k] == stmt_view(b.statements@[k]),
                emit::stmts_c_s(st0, ss.take(i as int)) == Ok::<GState, GFail>(self.gstate()),
            decreases b.statements.len() - i,
        {
            proof {
                assert(decreases_to!(*b => b.statements));
                assert(decreases_to!(b.statements => b.statements@));
                assert(decreases_to!(b.statements@ => b.statements@[i as int]));
                assert(ss.take(i + 1).drop_last() =~= ss.take(i as int));
                assert(ss.take(i + 1).len() == i + 1);
                assert(ss.take(i + 1)[i as int] == b.statements@[i as int]@);
                emit::unfold_stmts_c(st0, ss.take(i + 1));
            }
            match self.generate_statement(&b.statements[i]) {
                Ok(()) => {},
                Err(m) => {
                    proof { emit::lemma_stmts_c_err(st0, ss, (i + 1) as nat); }
                    return Err(m);
                },
            }
            i += 1;
        }
        assert(ss.take(b.statements.len() as int) =~= ss);
        Ok(())
    }

    /// Writes `{`, the statements of a block one level deeper, and `}`.
    fn generate_braced(&mut self, b: &Block) -> (r: Result<(), String>)
        ensures
            gen_agrees(r, final(self).gstate(), emit::braced_s(old(self).gstate(), b@)),
        decreases b, 1nat,
    {
        proof { emit::unfold_braced(self.gstate(), b@); }
        self.emit_line("{");
        self.indent();
        match self.generate_statements(b) {
            Ok(()) => {},
            Err(m) => {
                return Err(m);
            },
        }
        self.dedent();
        self.emit_line("}");
        Ok(())
    }

    /// Writes a statement.
    fn generate_statement(&mut self, s: &Statement) -> (r: Result<(), String>)
        ensures
            gen_agrees(r, final(self).gstate(), emit::stmt_c_s(old(self).gstate(), s@)),
        decreases s, 2nat,
    {
        proof { emit::unfold_stmt_c(self.gstate(), s@); }
        match s {
            Statement::Return(r) => match &r.value {
                Some(e) => {
                    let mut line = string_from("return ");
                    line.append(self.expression_to_c(e).as_str());
                    line.append(";");
                    self.emit_line(line.as_str());
                    Ok(())
                },
                None => {
                    self.emit_line("return;");
                    Ok(())
                },
            },
            Statement::VarDecl(d) => match &d.var_type {
                Some(t) => {
                    self.generate_var_decl(d, t);
                    Ok(())
                },
                None => {
                    let mut m = string_from("Internal error: Variable '");
                    m.append(d.name.as_str());
                    m.append("' has no type after semantic analysis");
                    Err(m)
                },
            },
            Statement::Assignment(a) => {
                let value = self.expression_to_c(&a.value);
                let mut line = self.target_to_c(&a.target);
                line.append(" = ");
                line.append(value.as_str());
                line.append(";");
                self.emit_line(line.as_str());
                Ok(())
            },
            Statement::If(i) => {
                let mut line = string_from("if (");
                line.append(self.expression_to_c(&i.condition).as_str());
                line.append(")");
                self.emit_line(line.as_str());
                match self.generate_braced(&i.then_block) {
                    Ok(()) => {},
                    Err(m) => {
                        return Err(m);
                    },
                }
                match &i.else_block {
                    Some(b) => {
                        self.emit_line("else");
                        self.generate_braced(b)
                    },
                    None => Ok(()),
                }
            },
            Statement::While(w) => {
                let mut line = string_from("while (");
                line.append(self.expression_to_c(&w.condition).as_str());
                line.append(")");
                self.emit_line(line.as_str());
                self.generate_braced(&w.body)
            },
            Statement::Loop(l) => {
                self.emit_line("while (1)");
                self.generate_braced(&l.body)
            },
            Statement::For(f) => self.generate_for(f),
            Statement::Break(_) => {
                self.emit_line("break;");
                Ok(())
            },
            Statement::Continue(_) => {
                self.emit_line("continue;");
                Ok(())
            },
            Statement::Expression(e) => {
                let mut line = self.expression_to_c(e);
                line.append(";");
                self.emit_line(line.as_str());
                Ok(())
            },
        }
    }

    /// Writes a `for` loop.
    fn generate_for(&mut self, f: &ForStatement) -> (r: Result<(), String>)
        ensures
            gen_agrees(r, final(self).gstate(), emit::stmt_c_s(old(self).gstate(), SStmt::For(f.variable@, iterable_view(f.iterable), f.body@))),
        decreases f, 1nat,
    {
        proof { emit::unfold_stmt_c(self.gstate(), SStmt::For(f.variable@, iterable_view(f.iterable), f.body@)); }
        let var = &f.variable;
        match &f.iterable {
            ForIterable::Range(a, b) => {
                let mut line = string_from("for (int32_t ");
                line.append(var.as_str());
                line.append(" = ");
                line.append(self.expression_to_c(a).as_str());
                line.append("; ");
                line.append(var.as_str());
                line.append(" < ");
                line.append(self.expression_to_c(b).as_str());
                line.append("; ");
                line.append(var.as_str());
                line.append("++)");
                self.emit_line(line.as_str());
                self.generate_braced(&f.body)
            },
            ForIterable::Expression(e) => {
                let mut counter = string_from("__i_");
                counter.append(var.as_str());
                match &**e {
                    Expression::ArrayLiteral(al) => {
                        let elems = &al.elements;
                        proof { lemma_exprs_view(elems@, elems@.len()); }
                        assert(expr_view(**e) == SExpr::ArrayLiteral(exprs_view(elems@, elems@.len()), al.span));
                        let mut array = string_from("__array_");
                        array.append(var.as_str());
                        let mut line = string_from("int32_t ");
                        line.append(array.as_str());
                        line.append("[] = {");
                        line.append(join_strings(&self.exprs_to_c(elems), ", ").as_str());
                        line.append("};");
                        self.emit_line(line.as_str());
                        let mut head = string_from("for (size_t ");
                        head.append(counter.as_str());
                        head.append(" = 0; ");
                        head.append(counter.as_str());
                        head.append(" < ");
                        head.append(usize_to_string(elems.len()).as_str());
                        head.append("; ");
                        head.append(counter.as_str());
                        head.append("++)");
                        self.emit_line(head.as_str());
                        self.emit_line("{");
                        self.indent();
                        let mut decl = string_from("int32_t ");
                        decl.append(var.as_str());
                        decl.append(" = ");
                        decl.append(array.as_str());
                        decl.append("[");
                        decl.append(counter.as_str());
                        decl.append("];");
                        self.emit_line(decl.as_str());
                    },
                    Expression::Variable(a) => {
                        assert(expr_view(**e) == SExpr::Variable(a@));
                        let (n, elem) = match self.var_type(a) {
                            Some(Type::Array { element_type, size: Some(n) }) => (*n, element_type.to_c_type()),
                            _ => {
                                let mut m = string_from("Cannot determine size of array '");
                                m.append(a.as_str());
                                m.append("'");
                                return Err(m);
                            },
                        };
                        let mut head = string_from("for (size_t ");
                        head.append(counter.as_str());
                        head.append(" = 0; ");
                        head.append(counter.as_str());
                        head.append(" < ");
                        head.append(usize_to_string(n).as_str());
                        head.append("; ");
                        head.append(counter.as_str());
                        head.append("++)");
                        self.emit_line(head.as_str());
                        self.emit_line("{");
                        self.indent();
                        let mut decl = elem;
                        decl.append(" ");
                        decl.append(var.as_str());
                        decl.append(" = ");
                        decl.append(a.as_str());
                        decl.append("[");
                        decl.append(counter.as_str());
                        decl.append("];");
                        self.emit_line(decl.as_str());
                    },
                    _ => {
                        return Err(string_from("For loop iterable must be array literal or array variable"));
                    },
                }
                match self.generate_statements(&f.body) {
                    Ok(()) => {},
                    Err(m) => {
                        return Err(m);
                    },
                }
                self.dedent();
                self.emit_line("}");
                Ok(())
            },
        }
    }
}


/// Whether `x` is among `v`.
fn contains_string(v: &Vec<String>, x: &String) -> (r: bool)
    ensures
        r == strings_view(v@).contains(x@),
{
    let ghost vv = strings_view(v@);
    let mut i: usize = 0;
    while i < v.len()
        invariant
            i <= v.len(),
            vv == strings_view(v@),
            vv.len() == v.len(),
            forall|k: int| 0 <= k < i ==> vv[k] != x@,
        decreases v.len() - i,
    {
        if v[i].eq(x) {
            assert(vv[i as int] == x@);
            return true;
        }
        i += 1;
    }
    false
}

/// Adds the C element type of a slice type to `out`, unless it is there already.
fn note_slice(out: &mut Vec<String>, t: &Type)
    ensures
        strings_view(final(out)@) == emit::add_all(strings_view(old(out)@), emit::slice_elem(t@)),
{
    let ghost d = strings_view(out@);
    match t {
        Type::Array { element_type, size: None } => {
            let e = element_type.to_c_type();
            assert(seq![e@].drop_last() =~= Seq::<Seq<char>>::empty());
            assert(emit::slice_elem(t@) == seq![e@]);
            assert(emit::add_all(d, Seq::<Seq<char>>::empty()) == d);
            if !contains_string(out, &e) {
                let ghost ev = e@;
                out.push(e);
                assert(strings_view(out@) =~= d.push(ev));
            }
        },
        _ => {},
    }
}

/// Adds the slice element types of parameters to `out`.
fn params_slices_into(ps: &Vec<Parameter>, out: &mut Vec<String>)
    ensures
        strings_view(final(out)@) == emit::add_all(strings_view(old(out)@), emit::params_slices(params_view(ps@))),
{
    let ghost d0 = strings_view(out@);
    let ghost pv = params_view(ps@);
    let mut i: usize = 0;
    assert(pv.take(0) =~= Seq::<(Seq<char>, SType)>::empty());
    while i < ps.len()
        invariant
            i <= ps.len(),
            pv == params_view(ps@),
            pv.len() == ps.len(),
            d0 == strings_view(old(out)@),
            strings_view(out@) == emit::add_all(d0, emit::params_slices(pv.take(i as int))),
        decreases ps.len() - i,
    {
        assert(pv.take(i + 1).drop_last() =~= pv.take(i as int));
        proof {
            emit::lemma_add_all_concat(d0, emit::params_slices(pv.take(i as int)), emit::slice_elem(pv[i as int].1));
        }
        note_slice(out, &ps[i].param_type);
        i += 1;
    }
    assert(pv.take(ps.len() as int) =~= pv);
}

/// Adds the slice element types of the variables a statement declares to `out`.
fn stmt_slices_into(s: &Statement, out: &mut Vec<String>)
    ensures
        strings_view(final(out)@) == emit::add_all(strings_view(old(out)@), emit::stmt_slices(s@)),
    decreases s, 2nat,
{
    let ghost d0 = strings_view(out@);
    match s {
        Statement::VarDecl(d) => match &d.var_type {
            Some(t) => note_slice(out, t),
            None => {},
        },
        Statement::If(i) => {
            collect_slice_types_from_block(&i.then_block, out);
            match &i.else_block {
                Some(b) => {
                    proof { emit::lemma_add_all_concat(d0, emit::stmts_slices(i.then_block@), emit::stmts_slices(b@)); }
                    collect_slice_types_from_block(b, out);
                },
                None => {
                    assert(emit::stmts_slices(i.then_block@) + Seq::<Seq<char>>::empty() =~= emit::stmts_slices(i.then_block@));
                },
            }
        },
        Statement::While(w) => collect_slice_types_from_block(&w.body, out),
        Statement::Loop(l) => collect_slice_types_from_block(&l.body, out),
        Statement::For(f) => collect_slice_types_from_block(&f.body, out),
        _ => {},
    }
}

/// Adds the slice element types of the variables a block declares to `out`.
fn collect_slice_types_from_block(b: &Block, out: &mut Vec<String>)
    ensures
        strings_view(final(out)@) == emit::add_all(strings_view(old(out)@), emit::stmts_slices(b@)),
    decreases b, 1nat,
{
    let ghost d0 = strings_view(out@);
    let ghost ss = b@;
    proof { lemma_stmts_view(b.statements@, b.statements@.len()); }
    let mut i: usize = 0;
    assert(ss.take(0) =~= Seq::<SStmt>::empty());
    while i < b.statements.len()
        invariant
            i <= b.statements.len(),
            ss == b@,
            ss.len() == b.statements.len(),
            forall|k: int| 0 <= k < ss.len() ==> #[trigger] ss[k] == stmt_view(b.statements@[k]),
            d0 == strings_view(old(out)@),
            strings_view(out@) == emit::add_all(d0, emit::stmts_slices(ss.take(i as int))),
        decreases b.statements.len() - i,
    {
        proof {
            assert(decreases_to!(*b => b.statements));
            assert(decreases_to!(b.statements => b.statements@));
            assert(decreases_to!(b.statements@ => b.statements@[i as int]));
            assert(ss.take(i + 1).drop_last() =~= ss.take(i as int));
            assert(ss.take(i + 1)[i as int] == ss[i as int]);
            emit::lemma_add_all_concat(d0, emit::stmts_slices(ss.take(i as int)), emit::stmt_slices(ss[i as int]));
        }
        stmt_slices_into(&b.statements[i], out);
        i += 1;
    }
    assert(ss.take(b.statements.len() as int) =~= ss);
}

/// The C parameters `type name`.
fn params_text(ps: &Vec<Parameter>) -> (r: Vec<String>)
    ensures
        strings_view(r@) == emit::params_c(params_view(ps@)),
{
    let mut r: Vec<String> = Vec::new();
    let mut i: usize = 0;
    while i < ps.len()
        invariant
            i <= ps.len(),
            strings_view(r@) == emit::params_c(params_view(ps@)).take(i as int),
        decreases ps.len() - i,
    {
        let mut p = ps[i].param_type.to_c_type();
        p.append(" ");
        p.append(ps[i].name.as_str());
        let ghost before = r@;
        r.push(p);
        assert(strings_view(r@) =~= strings_view(before).push(p@));
        assert(strings_view(r@) =~= emit::params_c(params_view(ps@)).take(i + 1));
        i += 1;
    }
    assert(emit::params_c(params_view(ps@)).take(ps.len() as int) =~= emit::params_c(params_view(ps@)));
    r
}

/// A C signature: `ret name(params)`, with `void` for no parameters.
fn signature_text(ret: &Type, name: &String, params: &Vec<String>) -> (r: String)
    ensures
        r@ == emit::signature(ret@, name@, strings_view(params@)),
{
    let mut r = ret.to_c_type();
    r.append(" ");
    r.append(name.as_str());
    r.append("(");
    if params.len() == 0 {
        r.append("void");
    } else {
        r.append(join_strings(params, ", ").as_str());
    }
    r.append(")");
    r
}

/// The C parameters of a method of the struct `s`, its self parameter first; an owned self
/// parameter fails with `owned`.
fn method_params_text(s: &String, m: &Method, owned: &str) -> (r: Result<Vec<String>, String>)
    ensures
        match (r, emit::method_params(s@, m@, owned@)) {
            (Ok(v), Ok(x)) => strings_view(v@) == x,
            (Err(e), Err(x)) => e@ == x,
            _ => false,
        },
{
    let rest = params_text(&m.parameters);
    let mut v: Vec<String> = Vec::new();
    match m.self_param {
        Some(SelfParam::Ref) => {
            let mut p = string_from("const ");
            p.append(s.as_str());
            p.append("* self");
            v.push(p);
        },
        Some(SelfParam::MutRef) => {
            let mut p = s.clone();
            p.append("* self");
            v.push(p);
        },
        Some(SelfParam::Owned) => {
            return Err(string_from(owned));
        },
        None => {},
    }
    let ghost start = strings_view(v@);
    let mut i: usize = 0;
    while i < rest.len()
        invariant
            i <= rest.len(),
            strings_view(v@) == start + strings_view(rest@).take(i as int),
        decreases rest.len() - i,
    {
        let ghost before = v@;
        v.push(rest[i].clone());
        assert(strings_view(v@) =~= strings_view(before).push(rest@[i as int]@));
        assert(strings_view(v@) =~= start + strings_view(rest@).take(i + 1));
        i += 1;
    }
    assert(strings_view(rest@).take(rest.len() as int) =~= strings_view(rest@));
    Ok(v)
}

impl CCodeGenerator {
    /// Writes the structs for the slice types that the program uses, each once, in the order
    /// they are met: function parameters, each method's parameters and body, function bodies.
    fn generate_slice_structs(&mut self, program: &Program)
        ensures
            final(self).gstate() == emit::slice_typedefs(old(self).gstate(), emit::distinct(emit::program_slices(program@))),
    {
        let ghost fv = functions_view(program.functions@);
        let ghost iv = impls_view(program.impls@);
        let mut out: Vec<String> = Vec::new();
        assert(strings_view(out@) =~= Seq::<Seq<char>>::empty());
        let ghost d0 = strings_view(out@);
        let mut i: usize = 0;
        assert(fv.take(0) =~= Seq::<SFunction>::empty());
        while i < program.functions.len()
            invariant
                i <= program.functions.len(),
                fv == functions_view(program.functions@),
                fv.len() == program.functions.len(),
                d0 == Seq::<Seq<char>>::empty(),
                strings_view(out@) == emit::add_all(d0, emit::functions_param_slices(fv.take(i as int))),
            decreases program.functions.len() - i,
        {
            assert(fv.take(i + 1).drop_last() =~= fv.take(i as int));
            proof {
                emit::lemma_add_all_concat(d0, emit::functions_param_slices(fv.take(i as int)), emit::params_slices(fv[i as int].parameters));
            }
            params_slices_into(&program.functions[i].parameters, &mut out);
            i += 1;
        }
        assert(fv.take(program.functions.len() as int) =~= fv);
        let ghost d1 = strings_view(out@);
        let mut i: usize = 0;
        assert(iv.take(0) =~= Seq::<SImpl>::empty());
        while i < program.impls.len()
            invariant
                i <= program.impls.len(),
                iv == impls_view(program.impls@),
                iv.len() == program.impls.len(),
                strings_view(out@) == emit::add_all(d1, emit::impls_slices(iv.take(i as int))),
            decreases program.impls.len() - i,
        {
            assert(iv.take(i + 1).drop_last() =~= iv.take(i as int));
            let methods = &program.impls[i].methods;
            let ghost mv = methods_view(methods@);
            let ghost d2 = strings_view(out@);
            let mut j: usize = 0;
            assert(mv.take(0) =~= Seq::<SMethod>::empty());
            while j < methods.len()
                invariant
                    j <= methods.len(),
                    mv == methods_view(methods@),
                    mv.len() == methods.len(),
                    strings_view(out@) == emit::add_all(d2, emit::methods_slices(mv.take(j as int))),
                decreases methods.len() - j,
            {
                assert(mv.take(j + 1).drop_last() =~= mv.take(j as int));
                let m = &methods[j];
                proof {
                    emit::lemma_add_all_concat(d2, emit::methods_slices(mv.take(j as int)), emit::params_slices(mv[j as int].parameters));
                    emit::lemma_add_all_concat(
                        d2,
                        emit::methods_slices(mv.take(j as int)) + emit::params_slices(mv[j as int].parameters),
                        emit::stmts_slices(mv[j as int].body),
                    );
                }
                params_slices_into(&m.parameters, &mut out);
                collect_slice_types_from_block(&m.body, &mut out);
                j += 1;
            }
            assert(mv.take(methods.len() as int) =~= mv);
            proof {
                emit::lemma_add_all_concat(d1, emit::impls_slices(iv.take(i as int)), emit::methods_slices(iv[i as int].methods));
            }
            i += 1;
        }
        assert(iv.take(program.impls.len() as int) =~= iv);
        let ghost d3 = strings_view(out@);
        let mut i: usize = 0;
        while i < program.functions.len()
            invariant
                i <= program.functions.len(),
                fv == functions_view(program.functions@),
                fv.len() == program.functions.len(),
                strings_view(out@) == emit::add_all(d3, emit::functions_body_slices(fv.take(i as int))),
            decreases program.functions.len() - i,
        {
            assert(fv.take(i + 1).drop_last() =~= fv.take(i as int));
            proof {
                emit::lemma_add_all_concat(d3, emit::functions_body_slices(fv.take(i as int)), emit::stmts_slices(fv[i as int].body));
            }
            collect_slice_types_from_block(&program.functions[i].body, &mut out);
            i += 1;
        }
        proof {
            let a = emit::functions_param_slices(fv);
            let b = emit::impls_slices(iv);
            let c = emit::functions_body_slices(fv);
            emit::lemma_add_all_concat(d0, a, b);
            emit::lemma_add_all_concat(d0, a + b, c);
            emit::lemma_distinct_add_all(a + b + c);
        }
        let ghost st0 = self.gstate();
        let ghost ev = strings_view(out@);
        let mut k: usize = 0;
        assert(ev.take(0) =~= Seq::<Seq<char>>::empty());
        while k < out.len()
            invariant
                k <= out.len(),
                ev == strings_view(out@),
                ev.len() == out.len(),
                self.gstate() == emit::slice_typedefs(st0, ev.take(k as int)),
            decreases out.len() - k,
        {
            assert(ev.take(k + 1).drop_last() =~= ev.take(k as int));
            let e = &out[k];
            self.emit_line("typedef struct {");
            self.indent();
            let mut data = e.clone();
            data.append("* data;");
            self.emit_line(data.as_str());
            self.emit_line("size_t length;");
            self.dedent();
            let mut close = string_from("} ");
            close.append(slice_struct_name(e).as_str());
            close.append(";");
            self.emit_line(close.as_str());
            self.emit_line("");
            proof { reveal_strlit(""); }
            k += 1;
        }
        assert(ev.take(out.len() as int) =~= ev);
    }

    /// Writes a struct definition.
    fn generate_struct(&mut self, s: &Struct)
        ensures
            final(self).gstate() == emit::struct_c(old(self).gstate(), s@),
    {
        self.emit_line("typedef struct {");
        self.indent();
        let ghost st0 = self.gstate();
        let ghost fv = struct_fields_view(s.fields@);
        let mut i: usize = 0;
        assert(fv.take(0) =~= Seq::<(Seq<char>, SType)>::empty());
        while i < s.fields.len()
            invariant
                i <= s.fields.len(),
                fv == struct_fields_view(s.fields@),
                fv.len() == s.fields.len(),
                self.gstate() == emit::field_lines(st0, fv.take(i as int)),
            decreases s.fields.len() - i,
        {
            assert(fv.take(i + 1).drop_last() =~= fv.take(i as int));
            let mut line = s.fields[i].field_type.to_c_type();
            line.append(" ");
            line.append(s.fields[i].name.as_str());
            line.append(";");
            self.emit_line(line.as_str());
            i += 1;
        }
        assert(fv.take(s.fields.len() as int) =~= fv);
        self.dedent();
        let mut close = string_from("} ");
        close.append(s.name.as_str());
        close.append(";");
        self.emit_line(close.as_str());
        self.emit_line("");
        proof { reveal_strlit(""); }
    }

    /// Writes the declarations of the methods of the struct `struct_name`, then a blank line.
    fn generate_method_declarations(&mut self, struct_name: &String, methods: &Vec<Method>) -> (r: Result<(), String>)
        ensures
            gen_agrees(r, final(self).gstate(), match emit::method_decls(old(self).gstate(), struct_name@, methods_view(methods@)) {
                Ok(st) => Ok(emit::emit(st, seq![])),
                Err(m) => Err(m),
            }),
    {
        let ghost st0 = self.gstate();
        let ghost mv = methods_view(methods@);
        let mut i: usize = 0;
        assert(mv.take(0) =~= Seq::<SMethod>::empty());
        while i < methods.len()
            invariant
                i <= methods.len(),
                st0 == old(self).gstate(),
                mv == methods_view(methods@),
                mv.len() == methods.len(),
                emit::method_decls(st0, struct_name@, mv.take(i as int)) == Ok::<GState, GFail>(self.gstate()),
            decreases methods.len() - i,
        {
            assert(mv.take(i + 1).drop_last() =~= mv.take(i as int));
            assert(mv.take(i + 1)[i as int] == methods@[i as int]@);
            let m = &methods[i];
            match method_params_text(struct_name, m, "Owned self parameter not yet implemented") {
                Err(e) => {
                    proof { emit::lemma_method_decls_err(st0, struct_name@, mv, (i + 1) as nat); }
                    return Err(e);
                },
                Ok(ps) => {
                    let name = joined_name(struct_name, &m.name);
                    let mut line = signature_text(&m.return_type, &name, &ps);
                    line.append(";");
                    self.emit_line(line.as_str());
                },
            }
            i += 1;
        }
        assert(mv.take(methods.len() as int) =~= mv);
        self.emit_line("");
        proof { reveal_strlit(""); }
        Ok(())
    }

    /// Writes a function definition; its parameters are the only variable types known at its start.
    fn generate_function(&mut self, f: &Function) -> (r: Result<(), String>)
        ensures
            gen_agrees(r, final(self).gstate(), emit::function_c(old(self).gstate(), f@)),
    {
        self.variable_types = Vec::new();
        assert(self.genv().vars =~= Seq::<(Seq<char>, SType)>::empty());
        let ghost st0 = self.gstate();
        let ghost pv = params_view(f.parameters@);
        let mut i: usize = 0;
        assert(pv.take(0) =~= Seq::<(Seq<char>, SType)>::empty());
        while i < f.parameters.len()
            invariant
                i <= f.parameters.len(),
                pv == params_view(f.parameters@),
                pv.len() == f.parameters.len(),
                self.gstate() == emit::with_vars(st0, emit::bind_params(seq![], pv.take(i as int))),
            decreases f.parameters.len() - i,
        {
            assert(pv.take(i + 1).drop_last() =~= pv.take(i as int));
            self.insert_var(f.parameters[i].name.clone(), f.parameters[i].param_type.duplicate());
            i += 1;
        }
        assert(pv.take(f.parameters.len() as int) =~= pv);
        let sig = signature_text(&f.return_type, &f.name, &params_text(&f.parameters));
        self.emit_line(sig.as_str());
        self.generate_braced(&f.body)
    }

    /// Writes a method definition of the struct `s`, then a blank line.
    fn generate_method(&mut self, s: &String, m: &Method) -> (r: Result<(), String>)
        ensures
            gen_agrees(r, final(self).gstate(), emit::method_c(old(self).gstate(), s@, m@)),
    {
        let ps = match method_params_text(s, m, "Owned self parameter not supported in v0.2.0") {
            Ok(ps) => ps,
            Err(e) => {
                return Err(e);
            },
        };
        let name = joined_name(s, &m.name);
        let sig = signature_text(&m.return_type, &name, &ps);
        self.emit_line(sig.as_str());
        match self.generate_braced(&m.body) {
            Ok(()) => {},
            Err(e) => {
                return Err(e);
            },
        }
        self.emit_line("");
        proof { reveal_strlit(""); }
        Ok(())
    }

    /// Writes the method definitions of the struct `s`, in order.
    fn generate_methods(&mut self, s: &String, methods: &Vec<Method>) -> (r: Result<(), String>)
        ensures
            gen_agrees(r, final(self).gstate(), emit::methods_c(old(self).gstate(), s@, methods_view(methods@))),
    {
        let ghost st0 = self.gstate();
        let ghost mv = methods_view(methods@);
        let mut i: usize = 0;
        assert(mv.take(0) =~= Seq::<SMethod>::empty());
        while i < methods.len()
            invariant
                i <= methods.len(),
                st0 == old(self).gstate(),
                mv == methods_view(methods@),
                mv.len() == methods.len(),
                emit::methods_c(st0, s@, mv.take(i as int)) == Ok::<GState, GFail>(self.gstate()),
            decreases methods.len() - i,
        {
            assert(mv.take(i + 1).drop_last() =~= mv.take(i as int));
            assert(mv.take(i + 1)[i as int] == methods@[i as int]@);
            match self.generate_method(s, &methods[i]) {
                Ok(()) => {},
                Err(e) => {
                    proof { emit::lemma_methods_c_err(st0, s@, mv, (i + 1) as nat); }
                    return Err(e);
                },
            }
            i += 1;
        }
        assert(mv.take(methods.len() as int) =~= mv);
        Ok(())
    }

    /// Records a struct's fields, replacing an earlier struct of the same name.
    fn insert_struct(&mut self, s: &Struct)
        ensures
            final(self).gstate() == (GState {
                env: GEnv {
                    vars: old(self).genv().vars,
                    structs: emit::insert(old(self).genv().structs, s.name@, struct_fields_view(s.fields@)),
                    impls: old(self).genv().impls,
                },
                indent: old(self).gstate().indent,
                temp: old(self).gstate().temp,
                out: old(self).gstate().out,
            }),
    {
        let entry = StructEntry { name: s.name.clone(), fields: copy_fields(&s.fields) };
        let ghost old_t = self.genv().structs;
        let ghost ev = entry@;
        let ghost names = emit::keys(old_t);
        let mut i: usize = 0;
        while i < self.struct_table.len()
            invariant
                i <= self.struct_table.len(),
                old_t == self.genv().structs,
                ev == entry@,
                ev == (s.name@, struct_fields_view(s.fields@)),
                self.gstate() == old(self).gstate(),
                names == emit::keys(old_t),
                names.len() == self.struct_table.len(),
                forall|k: int| 0 <= k < names.len() ==> #[trigger] names[k] == self.struct_table@[k].name@,
                first_index(names, s.name@, 0) == first_index(names, s.name@, i as nat),
            decreases self.struct_table.len() - i,
        {
            if self.struct_table[i].name.eq(&s.name) {
                let ghost before = self.struct_table@;
                self.struct_table.set(i, entry);
                assert(struct_entries_view(self.struct_table@) =~= old_t.update(i as int, ev));
                return;
            }
            i += 1;
        }
        self.struct_table.push(entry);
        assert(struct_entries_view(self.struct_table@) =~= old_t.push(ev));
    }

    /// Records a struct's method return types, replacing an earlier impl block for the struct.
    fn insert_impl(&mut self, b: &Impl)
        ensures
            final(self).gstate() == (GState {
                env: GEnv {
                    vars: old(self).genv().vars,
                    structs: old(self).genv().structs,
                    impls: emit::insert(old(self).genv().impls, b.struct_name@, emit::method_returns(methods_view(b.methods@))),
                },
                indent: old(self).gstate().indent,
                temp: old(self).gstate().temp,
                out: old(self).gstate().out,
            }),
    {
        let mut methods: Vec<MethodReturn> = Vec::new();
        let ghost target = emit::method_returns(methods_view(b.methods@));
        let mut j: usize = 0;
        while j < b.methods.len()
            invariant
                j <= b.methods.len(),
                target == emit::method_returns(methods_view(b.methods@)),
                target.len() == b.methods.len(),
                returns_view(methods@) == target.take(j as int),
            decreases b.methods.len() - j,
        {
            let mr = MethodReturn { name: b.methods[j].name.clone(), return_type: b.methods[j].return_type.duplicate() };
            let ghost before = methods@;
            assert(mr@ == target[j as int]);
            methods.push(mr);
            assert(returns_view(methods@) =~= returns_view(before).push(mr@));
            assert(returns_view(methods@) =~= target.take(j + 1));
            j += 1;
        }
        assert(target.take(b.methods.len() as int) =~= target);
        let entry = ImplEntry { struct_name: b.struct_name.clone(), methods };
        let ghost old_t = self.genv().impls;
        let ghost ev = entry@;
        let ghost names = emit::keys(old_t);
        let mut i: usize = 0;
        while i < self.impl_table.len()
            invariant
                i <= self.impl_table.len(),
                old_t == self.genv().impls,
                ev == entry@,
                ev == (b.struct_name@, emit::method_returns(methods_view(b.methods@))),
                self.gstate() == old(self).gstate(),
                names == emit::keys(old_t),
                names.len() == self.impl_table.len(),
                forall|k: int| 0 <= k < names.len() ==> #[trigger] names[k] == self.impl_table@[k].struct_name@,
                first_index(names, b.struct_name@, 0) == first_index(names, b.struct_name@, i as nat),
            decreases self.impl_table.len() - i,
        {
            if self.impl_table[i].struct_name.eq(&b.struct_name) {
                self.impl_table.set(i, entry);
                assert(impl_entries_view(self.impl_table@) =~= old_t.update(i as int, ev));
                return;
            }
            i += 1;
        }
        self.impl_table.push(entry);
        assert(impl_entries_view(self.impl_table@) =~= old_t.push(ev));
    }

    /// Translates a program to C: headers, slice structs, structs, method declarations,
    /// functions, then methods. Fails with a message for a variable whose type is unknown, a
    /// `for` loop over something other than an array, or an owned `self` parameter.
    pub fn generate(self, program: &Program) -> (r: Result<String, String>)
        requires
            self.gstate() == (GState { env: GEnv { vars: seq![], structs: seq![], impls: seq![] }, indent: 0, temp: 0, out: seq![] }),
        ensures
            match (r, emit::program_c(program@)) {
                (Ok(t), Ok(x)) => t@ == x,
                (Err(m), Err(x)) => m@ == x,
                _ => false,
            },
    {
        let mut g = self;
        g.build_tables(program);
        match g.generate_all(program) {
            Ok(()) => Ok(g.output),
            Err(m) => Err(m),
        }
    }

    /// Records the struct and impl tables of a program.
    fn build_tables(&mut self, program: &Program)
        requires
            old(self).gstate() == (GState { env: GEnv { vars: seq![], structs: seq![], impls: seq![] }, indent: 0, temp: 0, out: seq![] }),
        ensures
            final(self).gstate() == (GState {
                env: GEnv { vars: seq![], structs: emit::struct_table(structs_view(program.structs@)), impls: emit::impl_table(impls_view(program.impls@)) },
                indent: 0,
                temp: 0,
                out: seq![],
            }),
    {
        let ghost sv = structs_view(program.structs@);
        let ghost iv = impls_view(program.impls@);
        let mut i: usize = 0;
        assert(sv.take(0) =~= Seq::<SStruct>::empty());
        while i < program.structs.len()
            invariant
                i <= program.structs.len(),
                sv == structs_view(program.structs@),
                sv.len() == program.structs.len(),
                self.gstate() == (GState {
                    env: GEnv { vars: seq![], structs: emit::struct_table(sv.take(i as int)), impls: seq![] },
                    indent: 0,
                    temp: 0,
                    out: seq![],
                }),
            decreases program.structs.len() - i,
        {
            assert(sv.take(i + 1).drop_last() =~= sv.take(i as int));
            self.insert_struct(&program.structs[i]);
            i += 1;
        }
        assert(sv.take(program.structs.len() as int) =~= sv);
        let mut i: usize = 0;
        assert(iv.take(0) =~= Seq::<SImpl>::empty());
        while i < program.impls.len()
            invariant
                i <= program.impls.len(),
                iv == impls_view(program.impls@),
                iv.len() == program.impls.len(),
                self.gstate() == (GState {
                    env: GEnv { vars: seq![], structs: emit::struct_table(sv), impls: emit::impl_table(iv.take(i as int)) },
                    indent: 0,
                    temp: 0,
                    out: seq![],
                }),
            decreases program.impls.len() - i,
        {
            assert(iv.take(i + 1).drop_last() =~= iv.take(i as int));
            self.insert_impl(&program.impls[i]);
            i += 1;
        }
        assert(iv.take(program.impls.len() as int) =~= iv);
    }

    /// Writes everything after the tables are recorded.
    fn generate_all(&mut self, program: &Program) -> (r: Result<(), String>)
        requires
            old(self).gstate() == (GState {
                env: GEnv { vars: seq![], structs: emit::struct_table(structs_view(program.structs@)), impls: emit::impl_table(impls_view(program.impls@)) },
                indent: 0,
                temp: 0,
                out: seq![],
            }),
        ensures
            match (r, emit::program_c(program@)) {
                (Ok(()), Ok(x)) => final(self).output@ == x,
                (Err(m), Err(x)) => m@ == x,
                _ => false,
            },
    {
        let ghost init = self.gstate();
        self.emit_line("#include <stdio.h>");
        self.emit_line("#include <stdlib.h>");
        self.emit_line("#include <stdint.h>");
        self.emit_line("#include <stdbool.h>");
        self.emit_line("#include <string.h>");
        self.emit_line("");
        proof { reveal_strlit(""); }
        self.generate_slice_structs(program);
        let ghost sv = structs_view(program.structs@);
        let ghost st0 = self.gstate();
        let mut i: usize = 0;
        assert(sv.take(0) =~= Seq::<SStruct>::empty());
        while i < program.structs.len()
            invariant
                i <= program.structs.len(),
                sv == structs_view(program.structs@),
                sv.len() == program.structs.len(),
                self.gstate() == emit::structs_c(st0, sv.take(i as int)),
            decreases program.structs.len() - i,
        {
            assert(sv.take(i + 1).drop_last() =~= sv.take(i as int));
            self.generate_struct(&program.structs[i]);
            i += 1;
        }
        assert(sv.take(program.structs.len() as int) =~= sv);
        let ghost iv = impls_view(program.impls@);
        let ghost st1 = self.gstate();
        assert(st1 == emit::structs_c(emit::slice_typedefs(emit::headers(init), emit::distinct(emit::program_slices(program@))), sv));
        let mut i: usize = 0;
        assert(iv.take(0) =~= Seq::<SImpl>::empty());
        while i < program.impls.len()
            invariant
                i <= program.impls.len(),
                iv == impls_view(program.impls@),
                iv.len() == program.impls.len(),
                emit::impls_decls(st1, iv.take(i as int)) == Ok::<GState, GFail>(self.gstate()),
                init == (GState {
                    env: GEnv { vars: seq![], structs: emit::struct_table(structs_view(program.structs@)), impls: emit::impl_table(impls_view(program.impls@)) },
                    indent: 0,
                    temp: 0,
                    out: seq![],
                }),
                sv == structs_view(program.structs@),
                st1 == emit::structs_c(emit::slice_typedefs(emit::headers(init), emit::distinct(emit::program_slices(program@))), sv),
            decreases program.impls.len() - i,
        {
            assert(iv.take(i + 1).drop_last() =~= iv.take(i as int));
            assert(iv.take(i + 1)[i as int] == program.impls@[i as int]@);
            match self.generate_method_declarations(&program.impls[i].struct_name, &program.impls[i].methods) {
                Ok(()) => {},
                Err(m) => {
                    proof {
                        emit::lemma_impls_decls_err(st1, iv, (i + 1) as nat);
                    }
                    return Err(m);
                },
            }
            i += 1;
        }
        assert(iv.take(program.impls.len() as int) =~= iv);
        let ghost fv = functions_view(program.functions@);
        let ghost st2 = self.gstate();
        let mut i: usize = 0;
        assert(fv.take(0) =~= Seq::<SFunction>::empty());
        while i < program.functions.len()
            invariant
                i <= program.functions.len(),
                fv == functions_view(program.functions@),
                fv.len() == program.functions.len(),
                emit::impls_decls(st1, iv) == Ok::<GState, GFail>(st2),
                emit::functions_c(st2, fv.take(i as int)) == Ok::<GState, GFail>(self.gstate()),
                init == (GState {
                    env: GEnv { vars: seq![], structs: emit::struct_table(structs_view(program.structs@)), impls: emit::impl_table(impls_view(program.impls@)) },
                    indent: 0,
                    temp: 0,
                    out: seq![],
                }),
                sv == structs_view(program.structs@),
                iv == impls_view(program.impls@),
                st1 == emit::structs_c(emit::slice_typedefs(emit::headers(init), emit::distinct(emit::program_slices(program@))), sv),
            decreases program.functions.len() - i,
        {
            assert(fv.take(i + 1).drop_last() =~= fv.take(i as int));
            assert(fv.take(i + 1)[i as int] == program.functions@[i as int]@);
            match self.generate_function(&program.functions[i]) {
                Ok(()) => {},
                Err(m) => {
                    proof { emit::lemma_functions_c_err(st2, fv, (i + 1) as nat); }
                    return Err(m);
                },
            }
            i += 1;
        }
        assert(fv.take(program.functions.len() as int) =~= fv);
        let ghost st3 = self.gstate();
        let mut i: usize = 0;
        while i < program.impls.len()
            invariant
                i <= program.impls.len(),
                iv == impls_view(program.impls@),
                iv.len() == program.impls.len(),
                emit::impls_decls(st1, iv) == Ok::<GState, GFail>(st2),
                emit::functions_c(st2, fv) == Ok::<GState, GFail>(st3),
                emit::impls_c(st3, iv.take(i as int)) == Ok::<GState, GFail>(self.gstate()),
                init == (GState {
                    env: GEnv { vars: seq![], structs: emit::struct_table(structs_view(program.structs@)), impls: emit::impl_table(impls_view(program.impls@)) },
                    indent: 0,
                    temp: 0,
                    out: seq![],
                }),
                sv == structs_view(program.structs@),
                fv == functions_view(program.functions@),
                st1 == emit::structs_c(emit::slice_typedefs(emit::headers(init), emit::distinct(emit::program_slices(program@))), sv),
            decreases program.impls.len() - i,
        {
            assert(iv.take(i + 1).drop_last() =~= iv.take(i as int));
            assert(iv.take(i + 1)[i as int] == program.impls@[i as int]@);
            match self.generate_methods(&program.impls[i].struct_name, &program.impls[i].methods) {
                Ok(()) => {},
                Err(m) => {
                    proof { emit::lemma_impls_c_err(st3, iv, (i + 1) as nat); }
                    return Err(m);
                },
            }
            i += 1;
        }
        assert(iv.take(program.impls.len() as int) =~= iv);
        Ok(())
    }
}

/// `s_m`, the C name of the method `m` of the struct `s`.
fn joined_name(s: &String, m: &String) -> (r: String)
    ensures
        r@ == s@ + "_"@ + m@,
{
    let mut r = s.clone();
    r.append("_");
    r.append(m.as_str());
    r
}

} // verus!
