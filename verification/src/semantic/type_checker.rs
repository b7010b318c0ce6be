use vstd::prelude::*;

use crate::helper::text::{chars_of, string_from, usize_to_string};
use crate::parser::ast::{
    expr_view, exprs_view, fields_view, iterable_view, lemma_exprs_view, lemma_fields_view, lemma_stmts_view,
    lemma_stmts_view_push, opt_expr_view, opt_type_view, stmt_view, stmts_view, target_view, AssignmentStatement,
    AssignmentTarget, ForIterable, SExpr, SStmt, VarDeclStatement, struct_fields_view, functions_view, impls_view,
    methods_view, params_view, structs_view, Function, Impl, Parameter, Program, SFunction, SImpl, SMethod, SStruct, Struct, type_text, BinaryOperator, Block, Expression, IndexExpression, FieldAccessExpression, Method,
    SType, SelfParam, Span, Statement, StructField, StructLiteralField, Type, UnaryOperator,
};
use super::rules::{
    self, field_names, first_index, function_names, impl_names, sig_names, struct_names,
    symbol_names, ArgIssue, CState, SSig, TEnv,
};

verus! {

/// A variable in scope.
pub struct Symbol {
    pub name: String,
    pub ty: Type,
    pub mutable: bool,
}

impl View for Symbol {
    type V = (Seq<char>, SType, bool);

    open spec fn view(&self) -> (Seq<char>, SType, bool) {
        (self.name@, self.ty@, self.mutable)
    }
}

/// The images of the variables in scope.
pub open spec fn symbols_view(s: Seq<Symbol>) -> Seq<(Seq<char>, SType, bool)> {
    s.map_values(|x: Symbol| x@)
}

/// The images of a list of types.
pub open spec fn types_view(s: Seq<Type>) -> Seq<SType> {
    s.map_values(|t: Type| t@)
}

/// A function's signature.
pub struct FunctionSig {
    pub name: String,
    pub params: Vec<Type>,
    pub return_type: Type,
}

impl View for FunctionSig {
    type V = (Seq<char>, Seq<SType>, SType);

    open spec fn view(&self) -> (Seq<char>, Seq<SType>, SType) {
        (self.name@, types_view(self.params@), self.return_type@)
    }
}

/// A struct and its fields.
pub struct StructInfo {
    pub name: String,
    pub fields: Vec<StructField>,
}

impl View for StructInfo {
    type V = (Seq<char>, Seq<(Seq<char>, SType)>);

    open spec fn view(&self) -> (Seq<char>, Seq<(Seq<char>, SType)>) {
        (self.name@, struct_fields_view(self.fields@))
    }
}

/// A method's signature.
pub struct MethodSig {
    pub name: String,
    pub self_param: Option<SelfParam>,
    pub params: Vec<Type>,
    pub return_type: Type,
}

impl View for MethodSig {
    type V = SSig;

    open spec fn view(&self) -> SSig {
        SSig { name: self.name@, self_param: self.self_param, params: types_view(self.params@), return_type: self.return_type@ }
    }
}

/// The method signatures of one struct's impl block.
pub struct ImplInfo {
    pub struct_name: String,
    pub methods: Vec<MethodSig>,
}

impl View for ImplInfo {
    type V = (Seq<char>, Seq<SSig>);

    open spec fn view(&self) -> (Seq<char>, Seq<SSig>) {
        (self.struct_name@, sigs_view(self.methods@))
    }
}

/// The images of method signatures.
pub open spec fn sigs_view(s: Seq<MethodSig>) -> Seq<SSig> {
    s.map_values(|m: MethodSig| m@)
}

/// The image of a typing result.
pub open spec fn ty_res(r: Result<Type, String>) -> Result<SType, Seq<char>> {
    match r {
        Ok(t) => Ok(t@),
        Err(m) => Err(m@),
    }
}

/// Why a list of arguments does not fit.
pub enum ArgProblem {
    Failed(String),
    Mismatch(usize, Type, Type),
}

/// The image of an argument check.
pub open spec fn arg_res(r: Result<(), ArgProblem>) -> Option<ArgIssue> {
    match r {
        Ok(()) => None,
        Err(ArgProblem::Failed(m)) => Some(ArgIssue::Failed(m@)),
        Err(ArgProblem::Mismatch(i, e, f)) => Some(ArgIssue::Mismatch(i as nat, e@, f@)),
    }
}

/// The image of a check that gives the first failure, if any.
pub open spec fn fail_res(r: Result<(), String>) -> Option<Seq<char>> {
    match r {
        Ok(()) => None,
        Err(m) => Some(m@),
    }
}

/// Checks types and names, collecting every error it finds.
pub struct TypeChecker {
    symbols: Vec<Symbol>,
    functions: Vec<FunctionSig>,
    structs: Vec<StructInfo>,
    impls: Vec<ImplInfo>,
    errors: Vec<String>,
    in_loop: bool,
    current_method_self_param: Option<SelfParam>,
    filename: String,
}

/// `'s'`.
fn quoted(s: &str) -> (r: String)
    ensures
        r@ == rules::q(s@),
{
    let mut r = string_from("'");
    r.append(s);
    r.append("'");
    r
}

/// A type's name in quotes.
fn type_quoted(t: &Type) -> (r: String)
    ensures
        r@ == rules::q(type_text(t@)),
{
    quoted(t.to_string().as_str())
}

/// `a` followed by `sep` and `b`, as in `Point::new`.
fn joined(a: &str, sep: &str, b: &str) -> (r: String)
    ensures
        r@ == a@ + sep@ + b@,
{
    let mut r = string_from(a);
    r.append(sep);
    r.append(b);
    r
}

/// ` expects N arguments, but M were provided`.
fn count_text(expected: usize, given: usize) -> (r: String)
    ensures
        r@ == rules::count_text(expected as nat, given as nat),
{
    let mut r = string_from(" expects ");
    r.append(usize_to_string(expected).as_str());
    r.append(" arguments, but ");
    r.append(usize_to_string(given).as_str());
    r.append(" were provided");
    r
}

/// `: expected 'e', found 'f'`.
fn expected_found(e: &Type, f: &Type) -> (r: String)
    ensures
        r@ == rules::expected_found(e@, f@),
{
    let mut r = string_from(": expected ");
    r.append(type_quoted(e).as_str());
    r.append(", found ");
    r.append(type_quoted(f).as_str());
    r
}

/// How an operator is written.
pub(crate) fn operator_to_string(op: BinaryOperator) -> (r: &'static str)
    ensures
        r@ == rules::op_text(op),
{
    match op {
        BinaryOperator::Add => "+",
        BinaryOperator::Subtract => "-",
        BinaryOperator::Multiply => "*",
        BinaryOperator::Divide => "/",
        BinaryOperator::Modulo => "%",
        BinaryOperator::Equal => "==",
        BinaryOperator::NotEqual => "!=",
        BinaryOperator::Less => "<",
        BinaryOperator::Greater => ">",
        BinaryOperator::LessEqual => "<=",
        BinaryOperator::GreaterEqual => ">=",
        BinaryOperator::And => "&&",
        BinaryOperator::Or => "||",
    }
}

/// `'l' op 'r'`.
fn operands_text(l: &Type, op: BinaryOperator, r: &Type) -> (s: String)
    ensures
        s@ == rules::operands_text(l@, op, r@),
{
    let mut s = type_quoted(l);
    s.append(" ");
    s.append(operator_to_string(op));
    s.append(" ");
    s.append(type_quoted(r).as_str());
    s
}

/// A copy of a struct's fields.
pub fn copy_fields(v: &Vec<StructField>) -> (r: Vec<StructField>)
    ensures
        r@ == v@,
{
    let mut r: Vec<StructField> = Vec::new();
    let mut i: usize = 0;
    while i < v.len()
        invariant
            i <= v.len(),
            r@ == v@.take(i as int),
        decreases v.len() - i,
    {
        r.push(StructField { name: v[i].name.clone(), field_type: v[i].field_type.duplicate() });
        assert(r@ =~= v@.take(i + 1));
        i += 1;
    }
    assert(v@.take(v.len() as int) =~= v@);
    r
}

impl TypeChecker {
    /// What the checker knows.
    pub closed spec fn env(&self) -> TEnv {
        TEnv {
            symbols: symbols_view(self.symbols@),
            functions: self.functions@.map_values(|f: FunctionSig| f@),
            structs: self.structs@.map_values(|s: StructInfo| s@),
            impls: self.impls@.map_values(|i: ImplInfo| i@),
            self_param: self.current_method_self_param,
            filename: self.filename@,
        }
    }

    /// The checker's state: what it knows, the errors so far, and whether it is in a loop.
    pub closed spec fn state(&self) -> CState {
        CState { env: self.env(), errors: self.errors@.map_values(|s: String| s@), in_loop: self.in_loop }
    }

    /// A checker for the file `filename`, with empty tables and no errors.
    pub fn new(filename: String) -> (c: TypeChecker)
        ensures
            c.state() == (CState {
                env: TEnv {
                    symbols: seq![],
                    functions: seq![],
                    structs: seq![],
                    impls: seq![],
                    self_param: None,
                    filename: filename@,
                },
                errors: seq![],
                in_loop: false,
            }),
    {
        let c = TypeChecker {
            symbols: Vec::new(),
            functions: Vec::new(),
            structs: Vec::new(),
            impls: Vec::new(),
            errors: Vec::new(),
            in_loop: false,
            current_method_self_param: None,
            filename,
        };
        assert(c.state().env.symbols =~= seq![]);
        assert(c.state().env.functions =~= seq![]);
        assert(c.state().env.structs =~= seq![]);
        assert(c.state().env.impls =~= seq![]);
        assert(c.state().errors =~= seq![]);
        c
    }

    /// The errors collected so far, in the order they were found.
    pub fn get_errors(&self) -> (r: &Vec<String>)
        ensures
            r@.map_values(|s: String| s@) == self.state().errors,
    {
        &self.errors
    }

    // -----------------------------------------------------------------------
    // Lookups
    // -----------------------------------------------------------------------

    /// The position of the function `name`.
    fn find_function(&self, name: &String) -> (r: Option<usize>)
        ensures
            match r {
                Some(k) => first_index(function_names(self.env().functions), name@, 0) == Some(k as nat) && k < self.functions.len(),
                None => first_index(function_names(self.env().functions), name@, 0) is None,
            },
    {
        let ghost names = function_names(self.env().functions);
        let mut i: usize = 0;
        while i < self.functions.len()
            invariant
                i <= self.functions.len(),
                names == function_names(self.env().functions),
                names.len() == self.functions.len(),
                forall|k: int| 0 <= k < names.len() ==> #[trigger] names[k] == self.functions@[k].name@,
                first_index(names, name@, 0) == first_index(names, name@, i as nat),
            decreases self.functions.len() - i,
        {
            if self.functions[i].name.eq(name) {
                return Some(i);
            }
            i += 1;
        }
        None
    }

    /// The position of the struct `name`.
    fn find_struct(&self, name: &String) -> (r: Option<usize>)
        ensures
            match r {
                Some(k) => first_index(struct_names(self.env().structs), name@, 0) == Some(k as nat) && k < self.structs.len(),
                None => first_index(struct_names(self.env().structs), name@, 0) is None,
            },
    {
        let ghost names = struct_names(self.env().structs);
        let mut i: usize = 0;
        while i < self.structs.len()
            invariant
                i <= self.structs.len(),
                names == struct_names(self.env().structs),
                names.len() == self.structs.len(),
                forall|k: int| 0 <= k < names.len() ==> #[trigger] names[k] == self.structs@[k].name@,
                first_index(names, name@, 0) == first_index(names, name@, i as nat),
            decreases self.structs.len() - i,
        {
            if self.structs[i].name.eq(name) {
                return Some(i);
            }
            i += 1;
        }
        None
    }

    /// The position of the impl block for the struct `name`.
    fn find_impl(&self, name: &String) -> (r: Option<usize>)
        ensures
            match r {
                Some(k) => first_index(impl_names(self.env().impls), name@, 0) == Some(k as nat) && k < self.impls.len(),
                None => first_index(impl_names(self.env().impls), name@, 0) is None,
            },
    {
        let ghost names = impl_names(self.env().impls);
        let mut i: usize = 0;
        while i < self.impls.len()
            invariant
                i <= self.impls.len(),
                names == impl_names(self.env().impls),
                names.len() == self.impls.len(),
                forall|k: int| 0 <= k < names.len() ==> #[trigger] names[k] == self.impls@[k].struct_name@,
                first_index(names, name@, 0) == first_index(names, name@, i as nat),
            decreases self.impls.len() - i,
        {
            if self.impls[i].struct_name.eq(name) {
                return Some(i);
            }
            i += 1;
        }
        None
    }

    /// The position of the field `name` among `fields`.
    fn find_field(fields: &Vec<StructField>, name: &String) -> (r: Option<usize>)
        ensures
            match r {
                Some(k) => first_index(field_names(struct_fields_view(fields@)), name@, 0) == Some(k as nat) && k < fields.len(),
                None => first_index(field_names(struct_fields_view(fields@)), name@, 0) is None,
            },
    {
        let ghost names = field_names(struct_fields_view(fields@));
        let mut i: usize = 0;
        while i < fields.len()
            invariant
                i <= fields.len(),
                names == field_names(struct_fields_view(fields@)),
                names.len() == fields.len(),
                forall|k: int| 0 <= k < names.len() ==> #[trigger] names[k] == fields@[k].name@,
                first_index(names, name@, 0) == first_index(names, name@, i as nat),
            decreases fields.len() - i,
        {
            if fields[i].name.eq(name) {
                return Some(i);
            }
            i += 1;
        }
        None
    }

    /// The position of the method `name` among `methods`.
    fn find_method(methods: &Vec<MethodSig>, name: &String) -> (r: Option<usize>)
        ensures
            match r {
                Some(k) => first_index(sig_names(sigs_view(methods@)), name@, 0) == Some(k as nat) && k < methods.len(),
                None => first_index(sig_names(sigs_view(methods@)), name@, 0) is None,
            },
    {
        let ghost names = sig_names(sigs_view(methods@));
        let mut i: usize = 0;
        while i < methods.len()
            invariant
                i <= methods.len(),
                names == sig_names(sigs_view(methods@)),
                names.len() == methods.len(),
                forall|k: int| 0 <= k < names.len() ==> #[trigger] names[k] == methods@[k].name@,
                first_index(names, name@, 0) == first_index(names, name@, i as nat),
            decreases methods.len() - i,
        {
            if methods[i].name.eq(name) {
                return Some(i);
            }
            i += 1;
        }
        None
    }

    /// The position of the variable `name`.
    fn find_symbol(&self, name: &String) -> (r: Option<usize>)
        ensures
            match r {
                Some(k) => first_index(symbol_names(self.env().symbols), name@, 0) == Some(k as nat) && k < self.symbols.len(),
                None => first_index(symbol_names(self.env().symbols), name@, 0) is None,
            },
    {
        let ghost names = symbol_names(self.env().symbols);
        let mut i: usize = 0;
        while i < self.symbols.len()
            invariant
                i <= self.symbols.len(),
                names == symbol_names(self.env().symbols),
                names.len() == self.symbols.len(),
                forall|k: int| 0 <= k < names.len() ==> #[trigger] names[k] == self.symbols@[k].name@,
                first_index(names, name@, 0) == first_index(names, name@, i as nat),
            decreases self.symbols.len() - i,
        {
            if self.symbols[i].name.eq(name) {
                return Some(i);
            }
            i += 1;
        }
        None
    }
}

/// The Levenshtein distance between two strings, counted in characters.
pub fn levenshtein_distance(s1: &str, s2: &str) -> (r: usize)
    requires
        rules::measurable(s1@, s2@),
    ensures
        r == rules::lev(s1@, s2@),
{
    let a = chars_of(s1);
    let b = chars_of(s2);
    let n = a.len();
    let m = b.len();
    // prev[j] is the distance from the first i characters of `a` to the first j of `b`.
    let mut prev: Vec<usize> = Vec::new();
    let mut j: usize = 0;
    while j <= m
        invariant
            j <= m + 1,
            m < usize::MAX,
            m == b@.len(),
            prev@.len() == j,
            forall|k: int| 0 <= k < j ==> prev@[k] == rules::lev(a@.take(0), b@.take(k)),
        decreases m + 1 - j,
    {
        proof {
            assert(a@.take(0).len() == 0);
        }
        prev.push(j);
        j += 1;
    }
    let mut i: usize = 0;
    while i < n
        invariant
            i <= n,
            n == a@.len(),
            m == b@.len(),
            n < usize::MAX,
            m < usize::MAX,
            prev@.len() == m + 1,
            forall|k: int| 0 <= k <= m ==> prev@[k] == rules::lev(a@.take(i as int), b@.take(k)),
        decreases n - i,
    {
        let mut cur: Vec<usize> = Vec::new();
        proof {
            assert(b@.take(0).len() == 0);
            assert(a@.take(i + 1).len() == i + 1);
        }
        cur.push(i + 1);
        let mut j: usize = 0;
        while j < m
            invariant
                i < n,
                j <= m,
                n == a@.len(),
                m == b@.len(),
                n < usize::MAX,
                m < usize::MAX,
                prev@.len() == m + 1,
                forall|k: int| 0 <= k <= m ==> prev@[k] == rules::lev(a@.take(i as int), b@.take(k)),
                cur@.len() == j + 1,
                forall|k: int| 0 <= k <= j ==> cur@[k] == rules::lev(a@.take(i + 1), b@.take(k)),
            decreases m - j,
        {
            let ghost x = a@.take(i + 1);
            let ghost y = b@.take(j + 1);
            proof {
                assert(x.drop_last() =~= a@.take(i as int));
                assert(y.drop_last() =~= b@.take(j as int));
                assert(x.last() == a@[i as int]);
                assert(y.last() == b@[j as int]);
                rules::lemma_lev_le_max(a@.take(i as int), b@.take(j + 1));
                rules::lemma_lev_le_max(a@.take(i + 1), b@.take(j as int));
                rules::lemma_lev_le_max(a@.take(i as int), b@.take(j as int));
            }
            let cost: usize = if a[i] == b[j] { 0 } else { 1 };
            let del = prev[j + 1] + 1;
            let ins = cur[j] + 1;
            let sub = prev[j] + cost;
            let best = if del <= ins { del } else { ins };
            let best = if best <= sub { best } else { sub };
            cur.push(best);
            j += 1;
        }
        prev = cur;
        i += 1;
    }
    proof {
        assert(a@.take(n as int) =~= s1@);
        assert(b@.take(m as int) =~= s2@);
    }
    prev[m]
}

impl TypeChecker {
    /// The variable to suggest for the undefined `name`: the first in scope at the least
    /// distance from it, when that distance is 1 or 2.
    fn find_similar_variable(&self, name: &String) -> (r: Option<String>)
        ensures
            match r {
                Some(s) => rules::similar_name(self.env(), name@) == Some(s@),
                None => rules::similar_name(self.env(), name@) is None,
            },
    {
        let ghost names = symbol_names(self.env().symbols);
        let mut best: Option<(usize, usize)> = None;
        let nl = chars_of(name.as_str()).len();
        let mut i: usize = 0;
        while i < self.symbols.len()
            invariant
                i <= self.symbols.len(),
                nl == name@.len(),
                names == symbol_names(self.env().symbols),
                names.len() == self.symbols.len(),
                forall|k: int| 0 <= k < names.len() ==> #[trigger] names[k] == self.symbols@[k].name@,
                match best {
                    Some((k, d)) => k < i,
                    None => true,
                },
                rules::similar_from(names, name@, 0, None) == rules::similar_from(
                    names,
                    name@,
                    i as nat,
                    match best {
                        Some((k, d)) => Some((names[k as int], d as nat)),
                        None => None,
                    },
                ),
            decreases self.symbols.len() - i,
        {
            let other = &self.symbols[i].name;
            let ol = chars_of(other.as_str()).len();
            if nl < usize::MAX && ol < usize::MAX {
                let d = levenshtein_distance(name.as_str(), other.as_str());
                let better = 0 < d && d <= 2 && match best {
                    Some((_, bd)) => d < bd,
                    None => true,
                };
                if better {
                    best = Some((i, d));
                }
            }
            i += 1;
        }
        match best {
            Some((k, _)) => Some(self.symbols[k].name.clone()),
            None => None,
        }
    }
}


impl TypeChecker {
    /// The position of the field `name` among the fields of a struct literal.
    fn find_lit_field(lits: &Vec<StructLiteralField>, name: &String) -> (r: Option<usize>)
        ensures
            match r {
                Some(k) => first_index(field_names(fields_view(lits@, lits@.len())), name@, 0) == Some(k as nat) && k < lits.len(),
                None => first_index(field_names(fields_view(lits@, lits@.len())), name@, 0) is None,
            },
    {
        proof { lemma_fields_view(lits@, lits@.len()); }
        let ghost names = field_names(fields_view(lits@, lits@.len()));
        let mut i: usize = 0;
        while i < lits.len()
            invariant
                i <= lits.len(),
                names == field_names(fields_view(lits@, lits@.len())),
                names.len() == lits.len(),
                forall|k: int| 0 <= k < names.len() ==> #[trigger] names[k] == lits@[k].name@,
                first_index(names, name@, 0) == first_index(names, name@, i as nat),
            decreases lits.len() - i,
        {
            if lits[i].name.eq(name) {
                return Some(i);
            }
            i += 1;
        }
        None
    }

    /// `message`, prefixed with the file name and, when known, the line and column.
    fn error_with_span(&self, message: String, span: Option<Span>) -> (r: String)
        ensures
            r@ == rules::located(self.env(), message@, span),
    {
        let mut r = self.filename.clone();
        match span {
            Some(s) => {
                r.append(":");
                r.append(usize_to_string(s.line).as_str());
                r.append(":");
                r.append(usize_to_string(s.column).as_str());
                r.append(": error: ");
            },
            None => {
                r.append(": error: ");
            },
        }
        r.append(message.as_str());
        r
    }

    /// The type of a variable, or the message for an undefined one.
    fn infer_variable(&self, name: &String) -> (r: Result<Type, String>)
        ensures
            ty_res(r) == rules::infer(self.env(), SExpr::Variable(name@)),
    {
        match self.find_symbol(name) {
            Some(k) => Ok(self.symbols[k].ty.duplicate()),
            None => {
                let mut m = string_from("Undefined variable ");
                m.append(quoted(name.as_str()).as_str());
                match self.find_similar_variable(name) {
                    Some(s) => {
                        m.append(", did you mean ");
                        m.append(quoted(s.as_str()).as_str());
                        m.append("?");
                    },
                    None => {},
                }
                Err(m)
            },
        }
    }

    /// The type of a binary expression with operand types `l` and `r`.
    fn binary_type(op: BinaryOperator, l: Type, r: Type) -> (res: Result<Type, String>)
        ensures
            ty_res(res) == rules::binary_type(op, l@, r@),
    {
        match op {
            BinaryOperator::Equal | BinaryOperator::NotEqual | BinaryOperator::Less | BinaryOperator::Greater
            | BinaryOperator::LessEqual | BinaryOperator::GreaterEqual => {
                if l.same_as(&r) {
                    Ok(Type::Bool)
                } else {
                    let mut m = string_from("Type mismatch in comparison: ");
                    m.append(operands_text(&l, op, &r).as_str());
                    Err(m)
                }
            },
            BinaryOperator::And | BinaryOperator::Or => {
                if matches!(l, Type::Bool) && matches!(r, Type::Bool) {
                    Ok(Type::Bool)
                } else {
                    let mut m = string_from("Logical operators require boolean operands, found ");
                    m.append(operands_text(&l, op, &r).as_str());
                    Err(m)
                }
            },
            _ => {
                if l.same_as(&r) {
                    Ok(l)
                } else {
                    let mut m = string_from("Type mismatch in binary expression: ");
                    m.append(operands_text(&l, op, &r).as_str());
                    Err(m)
                }
            },
        }
    }

    /// The type of a unary expression with operand type `t`.
    fn unary_type(op: UnaryOperator, t: Type) -> (res: Result<Type, String>)
        ensures
            ty_res(res) == rules::unary_type(op, t@),
    {
        match op {
            UnaryOperator::Not => {
                if matches!(t, Type::Bool) {
                    Ok(Type::Bool)
                } else {
                    let mut m = string_from("Logical NOT requires boolean operand, found ");
                    m.append(type_quoted(&t).as_str());
                    Err(m)
                }
            },
            UnaryOperator::Negate => match t {
                Type::I8 | Type::I16 | Type::I32 | Type::I64 | Type::F32 | Type::F64 => Ok(t),
                _ => {
                    let mut m = string_from("Negation requires numeric operand, found ");
                    m.append(type_quoted(&t).as_str());
                    Err(m)
                },
            },
        }
    }

    /// The type of the field `field` of a value of type `t`.
    fn field_type(&self, t: &Type, field: &String) -> (r: Result<Type, String>)
        ensures
            ty_res(r) == rules::field_type(self.env(), t@, field@),
    {
        match t {
            Type::Struct(s) => match self.find_struct(s) {
                Some(k) => {
                    let fields = &self.structs[k].fields;
                    match Self::find_field(fields, field) {
                        Some(j) => Ok(fields[j].field_type.duplicate()),
                        None => {
                            let mut m = string_from("Struct ");
                            m.append(quoted(s.as_str()).as_str());
                            m.append(" has no field named ");
                            m.append(quoted(field.as_str()).as_str());
                            Err(m)
                        },
                    }
                },
                None => {
                    let mut m = string_from("Undefined struct ");
                    m.append(quoted(s.as_str()).as_str());
                    Err(m)
                },
            },
            _ => {
                let mut m = string_from("Cannot access field ");
                m.append(quoted(field.as_str()).as_str());
                m.append(" on non-struct type ");
                m.append(type_quoted(t).as_str());
                Err(m)
            },
        }
    }

    /// The type of an expression, or the message of the first error in it.
    fn infer_expression_type(&self, e: &Expression) -> (r: Result<Type, String>)
        ensures
            ty_res(r) == rules::infer(self.env(), e@),
        decreases e, 3nat,
    {
        match e {
            Expression::IntLiteral(_) => Ok(Type::I32),
            Expression::FloatLiteral(_) => Ok(Type::F64),
            Expression::BoolLiteral(_) => Ok(Type::Bool),
            Expression::StringLiteral(_) => Ok(Type::String),
            Expression::Variable(name) => self.infer_variable(name),
            Expression::Binary(b) => {
                let lt = match self.infer_expression_type(&b.left) {
                    Ok(t) => t,
                    Err(m) => {
                        return Err(m);
                    },
                };
                let rt = match self.infer_expression_type(&b.right) {
                    Ok(t) => t,
                    Err(m) => {
                        return Err(m);
                    },
                };
                Self::binary_type(b.operator, lt, rt)
            },
            Expression::Unary(u) => {
                let t = match self.infer_expression_type(&u.operand) {
                    Ok(t) => t,
                    Err(m) => {
                        return Err(m);
                    },
                };
                Self::unary_type(u.operator, t)
            },
            Expression::Call(_) => self.infer_call(e),
            Expression::FieldAccess(f) => self.infer_field_access(f),
            Expression::MethodCall(_) => self.infer_method_call(e),
            Expression::AssociatedCall(_) => self.infer_associated_call(e),
            Expression::StructLiteral(_) => self.infer_struct_literal(e),
            Expression::MacroCall(_) => self.infer_macro_call(e),
            Expression::ArrayLiteral(_) => self.infer_array_literal(e),
            Expression::Index(x) => self.infer_index(x),
            Expression::Reference(r) => {
                let t = match self.infer_expression_type(&r.inner) {
                    Ok(t) => t,
                    Err(m) => {
                        return Err(m);
                    },
                };
                match t {
                    Type::Array { element_type, size: _ } => Ok(Type::Array { element_type, size: None }),
                    _ => {
                        let mut m = string_from("Cannot take a reference to non-array type ");
                        m.append(type_quoted(&t).as_str());
                        Err(m)
                    },
                }
            },
        }
    }

    /// The type of `obj.field`.
    fn infer_field_access(&self, f: &FieldAccessExpression) -> (r: Result<Type, String>)
        ensures
            ty_res(r) == rules::infer(self.env(), SExpr::FieldAccess(Box::new(expr_view(*f.object)), f.field@, f.span)),
        decreases f, 0nat,
    {
        let t = match self.infer_expression_type(&f.object) {
            Ok(t) => t,
            Err(m) => {
                return Err(m);
            },
        };
        self.field_type(&t, &f.field)
    }

    /// The type of `arr[idx]`.
    fn infer_index(&self, x: &IndexExpression) -> (r: Result<Type, String>)
        ensures
            ty_res(r) == rules::infer(self.env(), SExpr::Index(Box::new(expr_view(*x.array)), Box::new(expr_view(*x.index)), x.span)),
        decreases x, 0nat,
    {
        let at = match self.infer_expression_type(&x.array) {
            Ok(t) => t,
            Err(m) => {
                return Err(m);
            },
        };
        match self.infer_expression_type(&x.index) {
            Ok(_) => {},
            Err(m) => {
                return Err(m);
            },
        }
        match at {
            Type::Array { element_type, size: _ } => Ok(*element_type),
            _ => {
                let mut m = string_from("Cannot index into non-array type ");
                m.append(type_quoted(&at).as_str());
                Err(m)
            },
        }
    }

    /// The arguments `args` from `start` on, against the parameter types `params`.
    fn check_args(&self, parent: &Expression, args: &Vec<Expression>, params: &Vec<Type>, start: usize) -> (r: Result<(), ArgProblem>)
        requires
            decreases_to!(*parent => args@),
            args.len() == params.len(),
            start <= args.len(),
        ensures
            arg_res(r) == rules::check_args(self.env(), exprs_view(args@, args@.len()), types_view(params@), start as nat),
            match r {
                Err(ArgProblem::Mismatch(i, _, _)) => i < args.len(),
                _ => true,
            },
        decreases parent, 1nat,
    {
        let ghost env = self.env();
        let ghost ev = exprs_view(args@, args@.len());
        let ghost pv = types_view(params@);
        proof { lemma_exprs_view(args@, args@.len()); }
        let mut i: usize = start;
        while i < args.len()
            invariant
                start <= i <= args.len(),
                args.len() == params.len(),
                env == self.env(),
                ev == exprs_view(args@, args@.len()),
                pv == types_view(params@),
                ev.len() == args.len(),
                pv.len() == params.len(),
                forall|k: int| 0 <= k < args.len() ==> #[trigger] ev[k] == expr_view(args@[k]),
                forall|k: int| 0 <= k < params.len() ==> #[trigger] pv[k] == params@[k]@,
                decreases_to!(*parent => args@),
                rules::check_args(env, ev, pv, start as nat) == rules::check_args(env, ev, pv, i as nat),
            decreases args.len() - i,
        {
            proof {
                assert(decreases_to!(args@ => args@[i as int]));
            }
            match self.infer_expression_type(&args[i]) {
                Err(m) => {
                    return Err(ArgProblem::Failed(m));
                },
                Ok(t) => {
                    if !t.same_as(&params[i]) {
                        return Err(ArgProblem::Mismatch(i, params[i].duplicate(), t));
                    }
                },
            }
            i += 1;
        }
        Ok(())
    }

    /// The first failure among the arguments `args` from `start` on.
    fn infer_all(&self, parent: &Expression, args: &Vec<Expression>) -> (r: Result<(), String>)
        requires
            decreases_to!(*parent => args@),
        ensures
            fail_res(r) == rules::infer_all(self.env(), exprs_view(args@, args@.len()), 0),
        decreases parent, 1nat,
    {
        let ghost env = self.env();
        let ghost ev = exprs_view(args@, args@.len());
        proof { lemma_exprs_view(args@, args@.len()); }
        let mut i: usize = 0;
        while i < args.len()
            invariant
                i <= args.len(),
                env == self.env(),
                ev == exprs_view(args@, args@.len()),
                ev.len() == args.len(),
                forall|k: int| 0 <= k < args.len() ==> #[trigger] ev[k] == expr_view(args@[k]),
                decreases_to!(*parent => args@),
                rules::infer_all(env, ev, 0) == rules::infer_all(env, ev, i as nat),
            decreases args.len() - i,
        {
            proof {
                assert(decreases_to!(args@ => args@[i as int]));
            }
            match self.infer_expression_type(&args[i]) {
                Err(m) => {
                    return Err(m);
                },
                Ok(_) => {},
            }
            i += 1;
        }
        Ok(())
    }

    /// The type of a function call.
    fn infer_call(&self, e: &Expression) -> (r: Result<Type, String>)
        requires
            e is Call,
        ensures
            ty_res(r) == rules::infer(self.env(), e@),
        decreases e, 2nat,
    {
        let c = match e {
            Expression::Call(c) => c,
            _ => {
                return Err(String::new());
            },
        };
        match self.find_function(&c.callee) {
            None => {
                let mut m = string_from("Undefined function ");
                m.append(quoted(c.callee.as_str()).as_str());
                Err(m)
            },
            Some(k) => {
                let f = &self.functions[k];
                proof {
                    lemma_exprs_view(c.arguments@, c.arguments@.len());
                }
                if c.arguments.len() != f.params.len() {
                    let mut m = string_from("Function ");
                    m.append(quoted(c.callee.as_str()).as_str());
                    m.append(count_text(f.params.len(), c.arguments.len()).as_str());
                    return Err(m);
                }
                proof {
                    lemma_exprs_view(c.arguments@, c.arguments@.len());
                    assert(decreases_to!(*e => c.arguments@));
                }
                match self.check_args(e, &c.arguments, &f.params, 0) {
                    Ok(()) => Ok(f.return_type.duplicate()),
                    Err(ArgProblem::Failed(m)) => Err(m),
                    Err(ArgProblem::Mismatch(i, exp, found)) => {
                        let mut m = string_from("Type mismatch in argument ");
                        m.append(usize_to_string(i + 1).as_str());
                        m.append(" of function ");
                        m.append(quoted(c.callee.as_str()).as_str());
                        m.append(expected_found(&exp, &found).as_str());
                        Err(m)
                    },
                }
            },
        }
    }
}


impl TypeChecker {
    /// `s.m` or `s::m`, quoted.
    fn member_quoted(s: &String, sep: &str, m: &String) -> (r: String)
        ensures
            r@ == rules::q(s@ + sep@ + m@),
    {
        quoted(joined(s.as_str(), sep, m.as_str()).as_str())
    }

    /// The message for a mutable method called on a variable declared with `val`, if `obj` is one.
    fn immutable_receiver(&self, obj: &Expression, s: &String, method: &String, span: Option<Span>) -> (r: Option<String>)
        ensures
            match r {
                Some(m) => rules::immutable_variable(self.env(), obj@) && m@ == rules::located(self.env(),
                    "Cannot call mutable method "@ + rules::q(s@ + "."@ + method@) + " on immutable variable "@
                    + rules::q(obj@->Variable_0) + ". Consider using 'var' instead of 'val'."@, span),
                None => !rules::immutable_variable(self.env(), obj@),
            },
    {
        match obj {
            Expression::Variable(v) => match self.find_symbol(v) {
                Some(k) => {
                    if self.symbols[k].mutable {
                        None
                    } else {
                        let mut m = string_from("Cannot call mutable method ");
                        m.append(Self::member_quoted(s, ".", method).as_str());
                        m.append(" on immutable variable ");
                        m.append(quoted(v.as_str()).as_str());
                        m.append(". Consider using 'var' instead of 'val'.");
                        Some(self.error_with_span(m, span))
                    }
                },
                None => None,
            },
            _ => None,
        }
    }

    /// The type of a method call.
    fn infer_method_call(&self, e: &Expression) -> (r: Result<Type, String>)
        requires
            e is MethodCall,
        ensures
            ty_res(r) == rules::infer(self.env(), e@),
        decreases e, 2nat,
    {
        let mc = match e {
            Expression::MethodCall(m) => m,
            _ => {
                return Err(String::new());
            },
        };
        let ot = match self.infer_expression_type(&mc.object) {
            Ok(t) => t,
            Err(m) => {
                return Err(m);
            },
        };
        let s = match &ot {
            Type::Struct(s) => s,
            _ => {
                let mut m = string_from("Cannot call method ");
                m.append(quoted(mc.method.as_str()).as_str());
                m.append(" on non-struct type ");
                m.append(type_quoted(&ot).as_str());
                return Err(m);
            },
        };
        let k = match self.find_impl(s) {
            Some(k) => k,
            None => {
                let mut m = string_from("No methods defined for struct ");
                m.append(quoted(s.as_str()).as_str());
                return Err(m);
            },
        };
        let methods = &self.impls[k].methods;
        let j = match Self::find_method(methods, &mc.method) {
            Some(j) => j,
            None => {
                let mut m = string_from("Struct ");
                m.append(quoted(s.as_str()).as_str());
                m.append(" has no method named ");
                m.append(quoted(mc.method.as_str()).as_str());
                return Err(m);
            },
        };
        let sig = &methods[j];
        proof {
            lemma_exprs_view(mc.arguments@, mc.arguments@.len());
        }
        if sig.self_param.is_none() {
            let mut m = Self::member_quoted(s, "::", &mc.method);
            m.append(" is an associated function, not an instance method. Use ");
            let mut call = joined(s.as_str(), "::", mc.method.as_str());
            call.append("()");
            m.append(quoted(call.as_str()).as_str());
            m.append(" instead.");
            return Err(m);
        }
        if mc.arguments.len() != sig.params.len() {
            let mut m = string_from("Method ");
            m.append(Self::member_quoted(s, ".", &mc.method).as_str());
            m.append(count_text(sig.params.len(), mc.arguments.len()).as_str());
            return Err(m);
        }
        proof {
            assert(decreases_to!(*e => mc.arguments@));
        }
        match self.check_args(e, &mc.arguments, &sig.params, 0) {
            Err(ArgProblem::Failed(m)) => Err(m),
            Err(ArgProblem::Mismatch(i, exp, found)) => {
                let mut m = string_from("Type mismatch in argument ");
                m.append(usize_to_string(i + 1).as_str());
                m.append(" of ");
                m.append(Self::member_quoted(s, ".", &mc.method).as_str());
                m.append(expected_found(&exp, &found).as_str());
                Err(m)
            },
            Ok(()) => {
                let mutating = match sig.self_param {
                    Some(SelfParam::MutRef) => true,
                    _ => false,
                };
                if mutating {
                    match self.immutable_receiver(&mc.object, s, &mc.method, mc.span) {
                        Some(m) => {
                            return Err(m);
                        },
                        None => {},
                    }
                }
                Ok(sig.return_type.duplicate())
            },
        }
    }

    /// The type of a call of an associated function, `T::f(args)`.
    fn infer_associated_call(&self, e: &Expression) -> (r: Result<Type, String>)
        requires
            e is AssociatedCall,
        ensures
            ty_res(r) == rules::infer(self.env(), e@),
        decreases e, 2nat,
    {
        let ac = match e {
            Expression::AssociatedCall(a) => a,
            _ => {
                return Err(String::new());
            },
        };
        let t = &ac.type_ident;
        if self.find_struct(t).is_none() {
            let mut m = string_from("Undefined type ");
            m.append(quoted(t.as_str()).as_str());
            return Err(self.error_with_span(m, ac.span));
        }
        let k = match self.find_impl(t) {
            Some(k) => k,
            None => {
                let mut m = string_from("No methods defined for struct ");
                m.append(quoted(t.as_str()).as_str());
                return Err(m);
            },
        };
        let methods = &self.impls[k].methods;
        let j = match Self::find_method(methods, &ac.function) {
            Some(j) => j,
            None => {
                let mut m = string_from("Undefined associated function ");
                m.append(Self::member_quoted(t, "::", &ac.function).as_str());
                m.append(" for struct ");
                m.append(quoted(t.as_str()).as_str());
                return Err(m);
            },
        };
        let sig = &methods[j];
        proof {
            lemma_exprs_view(ac.arguments@, ac.arguments@.len());
        }
        if sig.self_param.is_some() {
            let mut m = Self::member_quoted(t, "::", &ac.function);
            m.append(" is an instance method, not an associated function");
            return Err(m);
        }
        if ac.arguments.len() != sig.params.len() {
            let mut m = string_from("Associated function ");
            m.append(Self::member_quoted(t, "::", &ac.function).as_str());
            m.append(count_text(sig.params.len(), ac.arguments.len()).as_str());
            return Err(m);
        }
        proof {
            assert(decreases_to!(*e => ac.arguments@));
        }
        match self.check_args(e, &ac.arguments, &sig.params, 0) {
            Ok(()) => Ok(sig.return_type.duplicate()),
            Err(ArgProblem::Failed(m)) => Err(m),
            Err(ArgProblem::Mismatch(i, exp, found)) => {
                let mut m = string_from("Type mismatch in argument ");
                m.append(usize_to_string(i + 1).as_str());
                m.append(" of ");
                m.append(Self::member_quoted(t, "::", &ac.function).as_str());
                m.append(expected_found(&exp, &found).as_str());
                Err(m)
            },
        }
    }

    /// The fields of a literal of struct `s` (with fields `defs`): each must exist and its value
    /// have the field's type.
    fn check_lit_fields(
        &self,
        parent: &Expression,
        s: &String,
        defs: &Vec<StructField>,
        lits: &Vec<StructLiteralField>,
    ) -> (r: Result<(), String>)
        requires
            decreases_to!(*parent => lits@),
        ensures
            fail_res(r) == rules::check_lit_fields(self.env(), s@, struct_fields_view(defs@), fields_view(lits@, lits@.len()), 0),
        decreases parent, 1nat,
    {
        let ghost env = self.env();
        let ghost lv = fields_view(lits@, lits@.len());
        let ghost dv = struct_fields_view(defs@);
        proof { lemma_fields_view(lits@, lits@.len()); }
        let mut i: usize = 0;
        while i < lits.len()
            invariant
                i <= lits.len(),
                env == self.env(),
                lv == fields_view(lits@, lits@.len()),
                dv == struct_fields_view(defs@),
                lv.len() == lits.len(),
                forall|k: int| 0 <= k < lits.len() ==> #[trigger] lv[k] == (lits@[k].name@, expr_view(lits@[k].value)),
                decreases_to!(*parent => lits@),
                rules::check_lit_fields(env, s@, dv, lv, 0) == rules::check_lit_fields(env, s@, dv, lv, i as nat),
            decreases lits.len() - i,
        {
            let name = &lits[i].name;
            match Self::find_field(defs, name) {
                None => {
                    let mut m = string_from("Struct ");
                    m.append(quoted(s.as_str()).as_str());
                    m.append(" has no field named ");
                    m.append(quoted(name.as_str()).as_str());
                    return Err(m);
                },
                Some(j) => {
                    proof {
                        assert(decreases_to!(lits@ => lits@[i as int]));
                        assert(decreases_to!(lits@[i as int] => lits@[i as int].value));
                    }
                    match self.infer_expression_type(&lits[i].value) {
                        Err(m) => {
                            return Err(m);
                        },
                        Ok(vt) => {
                            if !vt.same_as(&defs[j].field_type) {
                                let mut m = string_from("Type mismatch for field ");
                                m.append(quoted(name.as_str()).as_str());
                                m.append(" in struct ");
                                m.append(quoted(s.as_str()).as_str());
                                m.append(expected_found(&defs[j].field_type, &vt).as_str());
                                return Err(m);
                            }
                        },
                    }
                },
            }
            i += 1;
        }
        Ok(())
    }

    /// The type of a struct literal.
    fn infer_struct_literal(&self, e: &Expression) -> (r: Result<Type, String>)
        requires
            e is StructLiteral,
        ensures
            ty_res(r) == rules::infer(self.env(), e@),
        decreases e, 2nat,
    {
        let sl = match e {
            Expression::StructLiteral(l) => l,
            _ => {
                return Err(String::new());
            },
        };
        let s = &sl.struct_name;
        let k = match self.find_struct(s) {
            Some(k) => k,
            None => {
                let mut m = string_from("Undefined struct ");
                m.append(quoted(s.as_str()).as_str());
                return Err(self.error_with_span(m, sl.span));
            },
        };
        let defs = &self.structs[k].fields;
        let ghost dv = struct_fields_view(defs@);
        let ghost given = field_names(fields_view(sl.fields@, sl.fields@.len()));
        let mut i: usize = 0;
        while i < defs.len()
            invariant
                i <= defs.len(),
                dv == struct_fields_view(defs@),
                dv.len() == defs.len(),
                given == field_names(fields_view(sl.fields@, sl.fields@.len())),
                e@ == SExpr::StructLiteral(s@, fields_view(sl.fields@, sl.fields@.len()), sl.span),
                rules::lookup_struct(self.env(), s@) == Some(dv),
                rules::missing_field(dv, given, 0) == rules::missing_field(dv, given, i as nat),
            decreases defs.len() - i,
        {
            assert(dv[i as int].0 == defs@[i as int].name@);
            if Self::find_lit_field(&sl.fields, &defs[i].name).is_none() {
                let mut m = string_from("Missing field ");
                m.append(quoted(defs[i].name.as_str()).as_str());
                m.append(" in struct literal for ");
                m.append(quoted(s.as_str()).as_str());
                return Err(m);
            }
            i += 1;
        }
        proof {
            assert(decreases_to!(*e => sl.fields@));
        }
        match self.check_lit_fields(e, s, defs, &sl.fields) {
            Err(m) => Err(m),
            Ok(()) => Ok(Type::Struct(s.clone())),
        }
    }

    /// The type of a macro call.
    fn infer_macro_call(&self, e: &Expression) -> (r: Result<Type, String>)
        requires
            e is MacroCall,
        ensures
            ty_res(r) == rules::infer(self.env(), e@),
        decreases e, 2nat,
    {
        let mc = match e {
            Expression::MacroCall(m) => m,
            _ => {
                return Err(String::new());
            },
        };
        let name = &mc.macro_name;
        let result = if name.eq(&string_from("print")) || name.eq(&string_from("println")) || name.eq(&string_from("panic")) {
            Type::Void
        } else if name.eq(&string_from("format")) {
            Type::String
        } else {
            let mut m = string_from("Unknown builtin macro ");
            m.append(quoted(name.as_str()).as_str());
            return Err(self.error_with_span(m, mc.span));
        };
        proof {
            assert(decreases_to!(*e => mc.arguments@));
        }
        match self.infer_all(e, &mc.arguments) {
            Err(m) => Err(m),
            Ok(()) => Ok(result),
        }
    }

    /// The type of an array literal: `[N]T` for `N` elements of type `T`.
    fn infer_array_literal(&self, e: &Expression) -> (r: Result<Type, String>)
        requires
            e is ArrayLiteral,
        ensures
            ty_res(r) == rules::infer(self.env(), e@),
        decreases e, 2nat,
    {
        let al = match e {
            Expression::ArrayLiteral(a) => a,
            _ => {
                return Err(String::new());
            },
        };
        let n = al.elements.len();
        if n == 0 {
            return Err(string_from("Cannot infer the type of an empty array literal"));
        }
        proof {
            lemma_exprs_view(al.elements@, al.elements@.len());
            assert(decreases_to!(*e => al.elements@));
            assert(decreases_to!(al.elements@ => al.elements@[0]));
        }
        let t = match self.infer_expression_type(&al.elements[0]) {
            Ok(t) => t,
            Err(m) => {
                return Err(m);
            },
        };
        let mut params: Vec<Type> = Vec::new();
        let mut i: usize = 0;
        while i < n
            invariant
                i <= n,
                params@.len() == i,
                forall|k: int| 0 <= k < i ==> #[trigger] params@[k] == t,
            decreases n - i,
        {
            params.push(t.duplicate());
            i += 1;
        }
        proof {
            assert(types_view(params@) =~= Seq::new(exprs_view(al.elements@, al.elements@.len()).len(), |k: int| t@));
        }
        match self.check_args(e, &al.elements, &params, 1) {
            Ok(()) => Ok(Type::Array { element_type: Box::new(t), size: Some(n) }),
            Err(ArgProblem::Failed(m)) => Err(m),
            Err(ArgProblem::Mismatch(i, exp, found)) => {
                let mut m = string_from("Array element ");
                m.append(usize_to_string(i).as_str());
                m.append(" has type ");
                m.append(type_quoted(&found).as_str());
                m.append(", expected ");
                m.append(type_quoted(&exp).as_str());
                Err(m)
            },
        }
    }
}


impl TypeChecker {
    /// Records an error.
    fn push_error(&mut self, m: String)
        ensures
            final(self).state() == rules::push_err(old(self).state(), m@),
    {
        self.errors.push(m);
        assert(final(self).state().errors =~= old(self).state().errors.push(m@));
    }

    /// Binds the variable `name`, replacing one of that name.
    fn bind(&mut self, name: String, ty: Type, mutable: bool)
        ensures
            final(self).state() == rules::bind(old(self).state(), name@, ty@, mutable),
    {
        let ghost old_syms = self.env().symbols;
        let ghost entry = (name@, ty@, mutable);
        match self.find_symbol(&name) {
            Some(k) => {
                self.symbols.set(k, Symbol { name, ty, mutable });
                assert(self.env().symbols =~= old_syms.update(k as int, entry));
            },
            None => {
                self.symbols.push(Symbol { name, ty, mutable });
                assert(self.env().symbols =~= old_syms.push(entry));
            },
        }
    }

    /// Types an expression whose type is not needed, recording its error.
    fn note_expr(&mut self, e: &Expression)
        ensures
            final(self).state() == rules::note_expr(old(self).state(), e@),
    {
        match self.infer_expression_type(e) {
            Err(m) => self.push_error(m),
            Ok(_) => {},
        }
    }

    /// Checks that the condition of an `if` or a `while` (named by `kind`) is boolean.
    fn check_cond(&mut self, cond: &Expression, kind: &str)
        ensures
            final(self).state() == rules::check_cond(old(self).state(), cond@, kind@),
    {
        match self.infer_expression_type(cond) {
            Err(m) => self.push_error(m),
            Ok(t) => {
                if !matches!(t, Type::Bool) {
                    let mut m = string_from(kind);
                    m.append(" condition must be boolean, found ");
                    m.append(type_quoted(&t).as_str());
                    self.push_error(m);
                }
            },
        }
    }

    /// Checks a value assigned to something of type `target`; `prefix` begins the message for
    /// a mismatch.
    fn check_assigned(&mut self, value: &Expression, target: &Type, prefix: String)
        ensures
            final(self).state() == rules::check_assigned(old(self).state(), value@, target@, prefix@),
    {
        match self.infer_expression_type(value) {
            Err(m) => self.push_error(m),
            Ok(t) => {
                if !t.same_as(target) {
                    let mut m = prefix;
                    m.append(type_quoted(target).as_str());
                    m.append(" but assigned value has type ");
                    m.append(type_quoted(&t).as_str());
                    self.push_error(m);
                }
            },
        }
    }

    /// Records the elements of an array literal, from `start` on, whose type is not `t`.
    fn elem_errors(&mut self, elems: &Vec<Expression>, t: &Type, start: usize)
        ensures
            final(self).state() == rules::elem_errors(old(self).state(), exprs_view(elems@, elems@.len()), t@, start as nat),
    {
        let ghost ev = exprs_view(elems@, elems@.len());
        proof { lemma_exprs_view(elems@, elems@.len()); }
        let ghost target = rules::elem_errors(self.state(), ev, t@, start as nat);
        let mut i: usize = start;
        if i > elems.len() {
            return;
        }
        while i < elems.len()
            invariant
                start <= i <= elems.len(),
                ev == exprs_view(elems@, elems@.len()),
                ev.len() == elems.len(),
                forall|k: int| 0 <= k < elems.len() ==> #[trigger] ev[k] == expr_view(elems@[k]),
                rules::elem_errors(self.state(), ev, t@, i as nat) == target,
            decreases elems.len() - i,
        {
            match self.infer_expression_type(&elems[i]) {
                Err(m) => self.push_error(m),
                Ok(et) => {
                    if !et.same_as(t) {
                        let mut m = string_from("Array element ");
                        m.append(usize_to_string(i).as_str());
                        m.append(" has type ");
                        m.append(type_quoted(&et).as_str());
                        m.append(", expected ");
                        m.append(type_quoted(t).as_str());
                        self.push_error(m);
                    }
                },
            }
            i += 1;
        }
    }

    /// Checks what a `for` loop walks over and binds its variable.
    fn check_iterable(&mut self, var: &String, it: &ForIterable)
        ensures
            final(self).state() == rules::check_iterable(old(self).state(), var@, iterable_view(*it)),
    {
        match it {
            ForIterable::Range(a, b) => {
                self.note_expr(a);
                self.note_expr(b);
                self.bind(var.clone(), Type::I32, false);
            },
            ForIterable::Expression(e) => match &**e {
                Expression::ArrayLiteral(al) => {
                    let elems = &al.elements;
                    proof { lemma_exprs_view(elems@, elems@.len()); }
                    if elems.len() > 0 {
                        match self.infer_expression_type(&elems[0]) {
                            Err(m) => self.push_error(m),
                            Ok(t) => {
                                self.elem_errors(elems, &t, 1);
                                self.bind(var.clone(), t, false);
                            },
                        }
                    }
                },
                _ => match self.infer_expression_type(e) {
                    Err(m) => self.push_error(m),
                    Ok(t) => match t {
                        Type::Array { element_type, size: _ } => self.bind(var.clone(), *element_type, false),
                        _ => {
                            let mut m = string_from("Cannot iterate over non-array type ");
                            m.append(type_quoted(&t).as_str());
                            self.push_error(m);
                        },
                    },
                },
            },
        }
    }

    /// Checks an assignment.
    fn check_assignment(&mut self, a: &AssignmentStatement)
        ensures
            final(self).state() == rules::check_assignment(old(self).state(), target_view(a.target), a.value@, a.span),
    {
        match &a.target {
            AssignmentTarget::Variable(name) => match self.find_symbol(name) {
                None => {
                    let mut m = string_from("Undefined variable ");
                    m.append(quoted(name.as_str()).as_str());
                    self.push_error(m);
                },
                Some(k) => {
                    let vt = self.symbols[k].ty.duplicate();
                    if !self.symbols[k].mutable {
                        let mut m = string_from("Cannot assign to immutable variable ");
                        m.append(quoted(name.as_str()).as_str());
                        self.push_error(m);
                    }
                    let mut prefix = string_from("Type mismatch in assignment: variable ");
                    prefix.append(quoted(name.as_str()).as_str());
                    prefix.append(" has type ");
                    self.check_assigned(&a.value, &vt, prefix);
                },
            },
            AssignmentTarget::FieldAccess(f) => match self.infer_field_access(f) {
                Err(m) => self.push_error(m),
                Ok(ft) => {
                    match &*f.object {
                        Expression::Variable(v) => {
                            if v.eq(&string_from("self")) {
                                match self.current_method_self_param {
                                    Some(SelfParam::MutRef) => {},
                                    Some(SelfParam::Ref) => {
                                        let m = self.error_with_span(
                                            string_from("Cannot assign to field of '&self' in method with immutable self reference. Use '&mut self' instead."),
                                            a.span,
                                        );
                                        self.push_error(m);
                                    },
                                    _ => {
                                        let m = self.error_with_span(string_from("Cannot assign to 'self' outside of method context"), a.span);
                                        self.push_error(m);
                                    },
                                }
                            } else {
                                match self.find_symbol(v) {
                                    Some(k) => {
                                        if !self.symbols[k].mutable {
                                            let mut m = string_from("Cannot assign to field of immutable variable ");
                                            m.append(quoted(v.as_str()).as_str());
                                            self.push_error(m);
                                        }
                                    },
                                    None => {},
                                }
                            }
                        },
                        _ => {},
                    }
                    self.check_assigned(&a.value, &ft, string_from("Type mismatch in field assignment: field has type "));
                },
            },
            AssignmentTarget::Index(x) => match self.infer_index(x) {
                Err(m) => self.push_error(m),
                Ok(et) => self.check_assigned(&a.value, &et, string_from("Type mismatch in index assignment: element has type ")),
            },
        }
    }

    /// Checks a variable declaration, recording an inferred type in it.
    fn check_var_decl(&mut self, d: &mut VarDeclStatement)
        ensures
            (final(self).state(), opt_type_view(final(d).var_type)) == rules::check_var_decl(
                old(self).state(),
                old(d).is_mutable,
                old(d).name@,
                opt_type_view(old(d).var_type),
                opt_expr_view(old(d).initializer),
            ),
            final(d).is_mutable == old(d).is_mutable,
            final(d).name == old(d).name,
            final(d).initializer == old(d).initializer,
    {
        if self.find_symbol(&d.name).is_some() {
            let mut m = string_from("Variable ");
            m.append(quoted(d.name.as_str()).as_str());
            m.append(" is already declared in this scope");
            self.push_error(m);
            return;
        }
        match &d.var_type {
            Some(dt) => {
                match &d.initializer {
                    Some(init) => match self.infer_expression_type(init) {
                        Err(m) => self.push_error(m),
                        Ok(it) => {
                            if !it.same_as(dt) {
                                let mut m = string_from("Type mismatch: variable ");
                                m.append(quoted(d.name.as_str()).as_str());
                                m.append(" declared as ");
                                m.append(type_quoted(dt).as_str());
                                m.append(" but initialized with ");
                                m.append(type_quoted(&it).as_str());
                                self.push_error(m);
                            }
                        },
                    },
                    None => {},
                }
                self.bind(d.name.clone(), dt.duplicate(), d.is_mutable);
            },
            None => {
                let t = match &d.initializer {
                    Some(init) => match self.infer_expression_type(init) {
                        Ok(it) => it,
                        Err(m) => {
                            self.push_error(m);
                            Type::I32
                        },
                    },
                    None => {
                        let mut m = string_from("Variable ");
                        m.append(quoted(d.name.as_str()).as_str());
                        m.append(" must have either a type annotation or an initializer");
                        self.push_error(m);
                        Type::I32
                    },
                };
                self.bind(d.name.clone(), t.duplicate(), d.is_mutable);
                d.var_type = Some(t);
            },
        }
    }

    /// Checks a statement, recording inferred types in it.
    fn check_statement(&mut self, s: &mut Statement)
        ensures
            (final(self).state(), final(s)@) == rules::check_stmt_s(old(self).state(), old(s)@),
        decreases *old(s),
    {
        proof { rules::unfold_check_stmt(self.state(), s@); }
        match s {
            Statement::Return(r) => match &r.value {
                Some(e) => self.note_expr(e),
                None => {},
            },
            Statement::VarDecl(d) => self.check_var_decl(d),
            Statement::Assignment(a) => self.check_assignment(a),
            Statement::If(i) => {
                self.check_cond(&i.condition, "If");
                self.check_block(&mut i.then_block);
                match &mut i.else_block {
                    Some(b) => self.check_block(b),
                    None => {},
                }
            },
            Statement::While(w) => {
                self.check_cond(&w.condition, "While");
                let saved = self.in_loop;
                self.in_loop = true;
                self.check_block(&mut w.body);
                self.in_loop = saved;
            },
            Statement::Loop(l) => {
                let saved = self.in_loop;
                self.in_loop = true;
                self.check_block(&mut l.body);
                self.in_loop = saved;
            },
            Statement::For(f) => {
                let saved_symbols = self.copy_symbols();
                let saved = self.in_loop;
                self.check_iterable(&f.variable, &f.iterable);
                self.in_loop = true;
                self.check_block(&mut f.body);
                self.in_loop = saved;
                self.symbols = saved_symbols;
            },
            Statement::Break(_) => {
                if !self.in_loop {
                    self.push_error(string_from("'break' statement outside of loop"));
                }
            },
            Statement::Continue(_) => {
                if !self.in_loop {
                    self.push_error(string_from("'continue' statement outside of loop"));
                }
            },
            Statement::Expression(e) => self.note_expr(e),
        }
    }

    /// A copy of the variables in scope.
    fn copy_symbols(&self) -> (r: Vec<Symbol>)
        ensures
            symbols_view(r@) == self.env().symbols,
    {
        let mut r: Vec<Symbol> = Vec::new();
        let mut i: usize = 0;
        while i < self.symbols.len()
            invariant
                i <= self.symbols.len(),
                symbols_view(r@) == self.env().symbols.take(i as int),
            decreases self.symbols.len() - i,
        {
            let s = &self.symbols[i];
            let x = Symbol { name: s.name.clone(), ty: s.ty.duplicate(), mutable: s.mutable };
            let ghost before = r@;
            assert(x@ == self.env().symbols[i as int]);
            r.push(x);
            assert(symbols_view(r@) =~= symbols_view(before).push(x@));
            assert(symbols_view(r@) =~= self.env().symbols.take(i + 1));
            i += 1;
        }
        assert(self.env().symbols.take(self.symbols.len() as int) =~= self.env().symbols);
        r
    }

    /// Checks the statements of a block in order.
    fn check_block(&mut self, b: &mut Block)
        ensures
            (final(self).state(), final(b)@) == rules::check_stmts_s(old(self).state(), old(b)@),
        decreases *old(b),
    {
        let ghost st0 = self.state();
        let ghost orig = b.statements@;
        let ghost n = orig.len();
        let ghost ss = stmts_view(orig, n);
        proof { lemma_stmts_view(orig, n); }
        let mut pending: Vec<Statement> = Vec::new();
        std::mem::swap(&mut pending, &mut b.statements);
        let mut done: Vec<Statement> = Vec::new();
        assert(ss.take(0) =~= Seq::<SStmt>::empty());
        proof { rules::unfold_check_stmts(st0, ss.take(0)); }
        assert(stmts_view(done@, 0) =~= Seq::<SStmt>::empty());
        assert(pending@ =~= orig.subrange(0, n as int));
        while pending.len() > 0
            invariant
                n == orig.len(),
                done@.len() + pending@.len() == n,
                pending@ == orig.subrange(done@.len() as int, n as int),
                ss == stmts_view(orig, n),
                ss.len() == n,
                forall|k: int| 0 <= k < n ==> #[trigger] ss[k] == stmt_view(orig[k]),
                orig == old(b).statements@,
                (self.state(), stmts_view(done@, done@.len())) == rules::check_stmts_s(st0, ss.take(done@.len() as int)),
            decreases pending@.len(),
        {
            let ghost k = done@.len();
            let mut st = pending.remove(0);
            proof {
                assert(st == orig[k as int]);
                assert(decreases_to!(*old(b) => old(b).statements));
                assert(decreases_to!(old(b).statements => old(b).statements@));
                assert(decreases_to!(old(b).statements@ => old(b).statements@[k as int]));
                assert(ss.take((k + 1) as int).drop_last() =~= ss.take(k as int));
                assert(ss.take((k + 1) as int)[k as int] == stmt_view(st));
                rules::unfold_check_stmts(st0, ss.take((k + 1) as int));
                lemma_stmts_view_push(done@, st);
            }
            let ghost done_before = done@;
            self.check_statement(&mut st);
            proof { lemma_stmts_view_push(done_before, st); }
            done.push(st);
            assert(pending@ =~= orig.subrange(done@.len() as int, n as int));
        }
        assert(ss.take(n as int) =~= ss);
        b.statements = done;
    }
}


/// The types of a parameter list.
fn param_type_list(ps: &Vec<Parameter>) -> (r: Vec<Type>)
    ensures
        types_view(r@) == rules::param_types(params_view(ps@)),
{
    let mut r: Vec<Type> = Vec::new();
    let mut i: usize = 0;
    while i < ps.len()
        invariant
            i <= ps.len(),
            types_view(r@) == rules::param_types(params_view(ps@)).take(i as int),
        decreases ps.len() - i,
    {
        let ghost before = r@;
        r.push(ps[i].param_type.duplicate());
        assert(types_view(r@) =~= types_view(before).push(ps@[i as int].param_type@));
        assert(types_view(r@) =~= rules::param_types(params_view(ps@)).take(i + 1));
        i += 1;
    }
    assert(rules::param_types(params_view(ps@)).take(ps.len() as int) =~= rules::param_types(params_view(ps@)));
    r
}

/// The signatures of methods.
fn method_sigs(ms: &Vec<Method>) -> (r: Vec<MethodSig>)
    ensures
        sigs_view(r@) == methods_view(ms@).map_values(|m: SMethod| rules::sig_of(m)),
{
    let ghost target = methods_view(ms@).map_values(|m: SMethod| rules::sig_of(m));
    let mut r: Vec<MethodSig> = Vec::new();
    let mut i: usize = 0;
    while i < ms.len()
        invariant
            i <= ms.len(),
            target == methods_view(ms@).map_values(|m: SMethod| rules::sig_of(m)),
            target.len() == ms.len(),
            sigs_view(r@) == target.take(i as int),
        decreases ms.len() - i,
    {
        let m = &ms[i];
        let sig = MethodSig {
            name: m.name.clone(),
            self_param: m.self_param,
            params: param_type_list(&m.parameters),
            return_type: m.return_type.duplicate(),
        };
        let ghost before = r@;
        assert(sig@ == target[i as int]);
        r.push(sig);
        assert(sigs_view(r@) =~= sigs_view(before).push(sig@));
        assert(sigs_view(r@) =~= target.take(i + 1));
        i += 1;
    }
    assert(target.take(ms.len() as int) =~= target);
    r
}

impl TypeChecker {
    /// Records struct definitions.
    fn add_structs(&mut self, structs: &Vec<Struct>)
        ensures
            final(self).state() == rules::add_structs(old(self).state(), structs_view(structs@)),
    {
        let ghost st0 = self.state();
        let ghost sv = structs_view(structs@);
        let mut i: usize = 0;
        assert(sv.take(0) =~= Seq::<SStruct>::empty());
        while i < structs.len()
            invariant
                i <= structs.len(),
                sv == structs_view(structs@),
                sv.len() == structs.len(),
                self.state() == rules::add_structs(st0, sv.take(i as int)),
            decreases structs.len() - i,
        {
            let s = &structs[i];
            assert(sv.take(i + 1).drop_last() =~= sv.take(i as int));
            if self.find_struct(&s.name).is_some() {
                let mut m = string_from("Struct ");
                m.append(quoted(s.name.as_str()).as_str());
                m.append(" is already defined");
                self.push_error(m);
            } else {
                let info = StructInfo { name: s.name.clone(), fields: copy_fields(&s.fields) };
                let ghost before = self.env().structs;
                self.structs.push(info);
                assert(self.env().structs =~= before.push((s.name@, struct_fields_view(s.fields@))));
            }
            i += 1;
        }
        assert(sv.take(structs.len() as int) =~= sv);
    }

    /// Records impl blocks.
    fn add_impls(&mut self, impls: &Vec<Impl>)
        ensures
            final(self).state() == rules::add_impls(old(self).state(), impls_view(impls@)),
    {
        let ghost st0 = self.state();
        let ghost iv = impls_view(impls@);
        let mut i: usize = 0;
        assert(iv.take(0) =~= Seq::<SImpl>::empty());
        while i < impls.len()
            invariant
                i <= impls.len(),
                iv == impls_view(impls@),
                iv.len() == impls.len(),
                self.state() == rules::add_impls(st0, iv.take(i as int)),
            decreases impls.len() - i,
        {
            let b = &impls[i];
            assert(iv.take(i + 1).drop_last() =~= iv.take(i as int));
            if self.find_struct(&b.struct_name).is_none() {
                let mut m = string_from("Cannot implement methods for undefined struct ");
                m.append(quoted(b.struct_name.as_str()).as_str());
                self.push_error(m);
            } else if self.find_impl(&b.struct_name).is_some() {
                let mut m = string_from("Struct ");
                m.append(quoted(b.struct_name.as_str()).as_str());
                m.append(" already has an impl block");
                self.push_error(m);
            } else {
                let info = ImplInfo { struct_name: b.struct_name.clone(), methods: method_sigs(&b.methods) };
                let ghost before = self.env().impls;
                self.impls.push(info);
                assert(self.env().impls =~= before.push(
                    (b.struct_name@, methods_view(b.methods@).map_values(|m: SMethod| rules::sig_of(m))),
                ));
            }
            i += 1;
        }
        assert(iv.take(impls.len() as int) =~= iv);
    }

    /// Records function signatures.
    fn add_functions(&mut self, functions: &Vec<Function>)
        ensures
            final(self).state() == rules::add_functions(old(self).state(), functions_view(functions@)),
    {
        let ghost st0 = self.state();
        let ghost fv = functions_view(functions@);
        let mut i: usize = 0;
        assert(fv.take(0) =~= Seq::<SFunction>::empty());
        while i < functions.len()
            invariant
                i <= functions.len(),
                fv == functions_view(functions@),
                fv.len() == functions.len(),
                self.state() == rules::add_functions(st0, fv.take(i as int)),
            decreases functions.len() - i,
        {
            let f = &functions[i];
            assert(fv.take(i + 1).drop_last() =~= fv.take(i as int));
            if self.find_function(&f.name).is_some() {
                let mut m = string_from("Function ");
                m.append(quoted(f.name.as_str()).as_str());
                m.append(" is already defined");
                self.push_error(m);
            } else {
                let sig = FunctionSig {
                    name: f.name.clone(),
                    params: param_type_list(&f.parameters),
                    return_type: f.return_type.duplicate(),
                };
                let ghost before = self.env().functions;
                self.functions.push(sig);
                assert(self.env().functions =~= before.push(
                    (f.name@, rules::param_types(params_view(f.parameters@)), f.return_type@),
                ));
            }
            i += 1;
        }
        assert(fv.take(functions.len() as int) =~= fv);
    }

    /// Binds the parameters `ps` (immutable), in order.
    fn bind_params(&mut self, ps: &Vec<Parameter>)
        ensures
            final(self).state() == rules::enter(
                old(self).state(),
                rules::bind_params(old(self).env().symbols, params_view(ps@)),
                old(self).env().self_param,
            ),
    {
        let ghost st0 = self.state();
        let ghost pv = params_view(ps@);
        let mut i: usize = 0;
        assert(pv.take(0) =~= Seq::<(Seq<char>, SType)>::empty());
        while i < ps.len()
            invariant
                i <= ps.len(),
                pv == params_view(ps@),
                pv.len() == ps.len(),
                self.state() == rules::enter(st0, rules::bind_params(st0.env.symbols, pv.take(i as int)), st0.env.self_param),
            decreases ps.len() - i,
        {
            assert(pv.take(i + 1).drop_last() =~= pv.take(i as int));
            self.bind(ps[i].name.clone(), ps[i].param_type.duplicate(), false);
            i += 1;
        }
        assert(pv.take(ps.len() as int) =~= pv);
    }

    /// Checks the body of a method of the struct `s`.
    fn check_method(&mut self, s: &String, m: &mut Method)
        ensures
            (final(self).state(), final(m)@) == rules::check_method(old(self).state(), s@, old(m)@),
    {
        self.symbols = Vec::new();
        self.current_method_self_param = m.self_param;
        match m.self_param {
            Some(sp) => {
                let mutable = match sp {
                    SelfParam::MutRef => true,
                    _ => false,
                };
                self.symbols.push(Symbol { name: string_from("self"), ty: Type::Struct(s.clone()), mutable });
            },
            None => {},
        }
        assert(self.env().symbols =~= match old(m)@.self_param {
            Some(sp) => seq![("self"@, SType::Struct(s@), sp == SelfParam::MutRef)],
            None => Seq::<(Seq<char>, SType, bool)>::empty(),
        });
        self.bind_params(&m.parameters);
        self.check_block(&mut m.body);
        self.current_method_self_param = None;
        proof { reveal(rules::check_stmts_s); }
    }

    /// Checks the body of a function.
    fn check_function(&mut self, f: &mut Function)
        ensures
            (final(self).state(), final(f)@) == rules::check_function(old(self).state(), old(f)@),
    {
        self.symbols = Vec::new();
        self.current_method_self_param = None;
        assert(self.env().symbols =~= Seq::<(Seq<char>, SType, bool)>::empty());
        self.bind_params(&f.parameters);
        self.check_block(&mut f.body);
        proof { reveal(rules::check_stmts_s); }
    }

    /// Checks the bodies of the methods of the struct `s`, in order.
    fn check_methods(&mut self, s: &String, ms: &mut Vec<Method>)
        ensures
            (final(self).state(), methods_view(final(ms)@)) == rules::check_methods(old(self).state(), s@, methods_view(old(ms)@)),
    {
        let ghost st0 = self.state();
        let ghost orig = ms@;
        let ghost n = orig.len();
        let ghost mv = methods_view(orig);
        let mut pending: Vec<Method> = Vec::new();
        std::mem::swap(&mut pending, ms);
        let mut done: Vec<Method> = Vec::new();
        assert(mv.take(0) =~= Seq::<SMethod>::empty());
        assert(methods_view(done@) =~= Seq::<SMethod>::empty());
        assert(pending@ =~= orig.subrange(0, n as int));
        while pending.len() > 0
            invariant
                n == orig.len(),
                done@.len() + pending@.len() == n,
                pending@ == orig.subrange(done@.len() as int, n as int),
                mv == methods_view(orig),
                (self.state(), methods_view(done@)) == rules::check_methods(st0, s@, mv.take(done@.len() as int)),
            decreases pending@.len(),
        {
            let ghost k = done@.len();
            let mut m = pending.remove(0);
            assert(mv.take((k + 1) as int).drop_last() =~= mv.take(k as int));
            assert(mv.take((k + 1) as int)[k as int] == m@);
            self.check_method(s, &mut m);
            let ghost before = done@;
            done.push(m);
            assert(methods_view(done@) =~= methods_view(before).push(m@));
            assert(pending@ =~= orig.subrange(done@.len() as int, n as int));
        }
        assert(mv.take(n as int) =~= mv);
        *ms = done;
    }

    /// Checks the methods of impl blocks, in order.
    fn check_impl_bodies(&mut self, impls: &mut Vec<Impl>)
        ensures
            (final(self).state(), impls_view(final(impls)@)) == rules::check_impl_bodies(old(self).state(), impls_view(old(impls)@)),
    {
        let ghost st0 = self.state();
        let ghost orig = impls@;
        let ghost n = orig.len();
        let ghost iv = impls_view(orig);
        let mut pending: Vec<Impl> = Vec::new();
        std::mem::swap(&mut pending, impls);
        let mut done: Vec<Impl> = Vec::new();
        assert(iv.take(0) =~= Seq::<SImpl>::empty());
        assert(impls_view(done@) =~= Seq::<SImpl>::empty());
        assert(pending@ =~= orig.subrange(0, n as int));
        while pending.len() > 0
            invariant
                n == orig.len(),
                done@.len() + pending@.len() == n,
                pending@ == orig.subrange(done@.len() as int, n as int),
                iv == impls_view(orig),
                (self.state(), impls_view(done@)) == rules::check_impl_bodies(st0, iv.take(done@.len() as int)),
            decreases pending@.len(),
        {
            let ghost k = done@.len();
            let mut b = pending.remove(0);
            assert(iv.take((k + 1) as int).drop_last() =~= iv.take(k as int));
            assert(iv.take((k + 1) as int)[k as int] == b@);
            self.check_methods(&b.struct_name, &mut b.methods);
            let ghost before = done@;
            done.push(b);
            assert(impls_view(done@) =~= impls_view(before).push(b@));
            assert(pending@ =~= orig.subrange(done@.len() as int, n as int));
        }
        assert(iv.take(n as int) =~= iv);
        *impls = done;
    }

    /// Checks the bodies of functions, in order.
    fn check_functions(&mut self, fs: &mut Vec<Function>)
        ensures
            (final(self).state(), functions_view(final(fs)@)) == rules::check_functions(old(self).state(), functions_view(old(fs)@)),
    {
        let ghost st0 = self.state();
        let ghost orig = fs@;
        let ghost n = orig.len();
        let ghost fv = functions_view(orig);
        let mut pending: Vec<Function> = Vec::new();
        std::mem::swap(&mut pending, fs);
        let mut done: Vec<Function> = Vec::new();
        assert(fv.take(0) =~= Seq::<SFunction>::empty());
        assert(functions_view(done@) =~= Seq::<SFunction>::empty());
        assert(pending@ =~= orig.subrange(0, n as int));
        while pending.len() > 0
            invariant
                n == orig.len(),
                done@.len() + pending@.len() == n,
                pending@ == orig.subrange(done@.len() as int, n as int),
                fv == functions_view(orig),
                (self.state(), functions_view(done@)) == rules::check_functions(st0, fv.take(done@.len() as int)),
            decreases pending@.len(),
        {
            let ghost k = done@.len();
            let mut f = pending.remove(0);
            assert(fv.take((k + 1) as int).drop_last() =~= fv.take(k as int));
            assert(fv.take((k + 1) as int)[k as int] == f@);
            self.check_function(&mut f);
            let ghost before = done@;
            done.push(f);
            assert(functions_view(done@) =~= functions_view(before).push(f@));
            assert(pending@ =~= orig.subrange(done@.len() as int, n as int));
        }
        assert(fv.take(n as int) =~= fv);
        *fs = done;
    }

    /// Checks a program: records its structs, impl blocks and functions, then checks the bodies
    /// of its methods and functions, recording inferred variable types in it. Every error found
    /// is kept (see `get_errors`); the result is the first of them, if any.
    pub fn check_program(&mut self, program: &mut Program) -> (r: Result<(), String>)
        ensures
            (final(self).state(), final(program)@) == rules::check_program(old(self).state(), old(program)@),
            match r {
                Ok(()) => final(self).state().errors.len() == 0,
                Err(m) => final(self).state().errors.len() > 0 && m@ == final(self).state().errors[0],
            },
    {
        self.add_structs(&program.structs);
        self.add_impls(&program.impls);
        self.add_functions(&program.functions);
        self.check_impl_bodies(&mut program.impls);
        self.check_functions(&mut program.functions);
        if self.errors.len() > 0 {
            Err(self.errors[0].clone())
        } else {
            Ok(())
        }
    }
}

} // verus!
