//! What an error report shows: where the error is, the source lines around it, and the marker
//! under the offending text.
use vstd::prelude::*;

use super::search::{
    ends, ends_chars, find, find_chars, occurs, has_chars, lines_of, lines_view, pieces, skip_ws, starts, starts_chars,
    sub_chars, text_lines, trim, trim_chars, trim_start, trim_start_chars,
};
use super::text::{
    char_is_whitespace, chars_of, is_white_space, lemma_utf8_len_bounds, lemma_utf8_prefix, nat_decimal, push_char,
    string_of_chars, usize_to_string, utf8_len, utf8_prefix_len, utf8_width,
};
use super::types::{CompileError, ErrorType, Span};

verus! {

// ---------------------------------------------------------------------------
// The marker under an error
// ---------------------------------------------------------------------------

/// Moving left from `k`, the position just after the nearest white space (or 0).
pub open spec fn back_to_space(line: Seq<char>, k: nat) -> nat
    decreases k,
{
    if k > 0 && k <= line.len() && !is_white_space(line[k - 1]) {
        back_to_space(line, (k - 1) as nat)
    } else {
        k
    }
}

/// Whether a character ends an expression: `;`, `{`, `}` or `,`.
pub open spec fn is_stop(c: char) -> bool {
    c == ';' || c == '{' || c == '}' || c == ','
}

/// Moving right from `k`, the position of the nearest character that ends an expression (or the end).
pub open spec fn forward_to_stop(line: Seq<char>, k: nat) -> nat
    decreases line.len() - k,
{
    if k < line.len() && !is_stop(line[k as int]) {
        forward_to_stop(line, k + 1)
    } else {
        k
    }
}

/// `k` moved left over white space, but not before `start`.
pub open spec fn trim_back_to(line: Seq<char>, start: nat, k: nat) -> nat
    decreases k,
{
    if k > start && k <= line.len() && is_white_space(line[k - 1]) {
        trim_back_to(line, start, (k - 1) as nat)
    } else {
        k
    }
}

/// The marker under the text at `column` (1-based) of `line`: `^` followed by one `~` for each
/// further character of the expression there; a lone `^` when the column is 0 or past the
/// line's last byte, or the expression is a single character. The column is compared with the
/// line's length in bytes, and then counts characters.
pub open spec fn highlight(line: Seq<char>, column: nat) -> Seq<char> {
    if column == 0 || column > utf8_len(line) {
        "^"@
    } else {
        let start = (column - 1) as nat;
        let first = back_to_space(line, start);
        let end = trim_back_to(line, start, forward_to_stop(line, start));
        let length = end - first;
        if length <= 1 {
            "^"@
        } else {
            seq!['^'] + Seq::new((length - 1) as nat, |i: int| '~')
        }
    }
}

// ---------------------------------------------------------------------------
// Finding where an error is
// ---------------------------------------------------------------------------

/// Whether the marker at `column` can be worked out for `line`: the column is 0, past the
/// line's last byte, or at most one past its last character.
pub open spec fn marker_fits(line: Seq<char>, column: nat) -> bool {
    column == 0 || column > utf8_len(line) || column - 1 <= line.len()
}

/// A location: 1-based line and column.
pub open spec fn at(line: nat, column: nat) -> Option<Span> {
    Some(Span { line: line as usize, column: column as usize })
}

/// Whether text holds one of the arithmetic operators, with spaces round it.
pub open spec fn has_arith_op(s: Seq<char>) -> bool {
    occurs(s, " + "@) || occurs(s, " - "@) || occurs(s, " * "@) || occurs(s, " / "@) || occurs(s, " % "@)
}

/// The first line, from `i` on, that declares a variable with an arithmetic expression; the
/// location of the expression's first character.
pub open spec fn binop_location(lines: Seq<Seq<char>>, i: nat) -> Option<Span>
    decreases lines.len() - i,
{
    if i >= lines.len() {
        None
    } else {
        let line = lines[i as int];
        let here = if starts(trim_start(line), "//"@) {
            None
        } else if (occurs(line, "val "@) || occurs(line, "var "@)) && occurs(line, " = "@) {
            match find(line, " = "@) {
                Some(eq) => if has_arith_op(line.skip((eq + 3) as int)) {
                    at(i + 1, skip_ws(line, utf8_len(line.take(eq as int)) + 3) + 1)
                } else {
                    None
                },
                None => None,
            }
        } else {
            None
        };
        if here is Some {
            here
        } else {
            binop_location(lines, i + 1)
        }
    }
}

/// The text between the first two single quotes of a message.
pub open spec fn quoted_name(message: Seq<char>) -> Option<Seq<char>> {
    match find(message, "'"@) {
        Some(a) => match find(message.skip((a + 1) as int), "'"@) {
            Some(b) => Some(message.subrange((a + 1) as int, (a + 1 + b) as int)),
            None => None,
        },
        None => None,
    }
}

/// The first use of the name `v`, from line `i` on, that is neither in a comment nor declared
/// there (by its first occurrence on the line).
pub open spec fn use_location(lines: Seq<Seq<char>>, v: Seq<char>, i: nat) -> Option<Span>
    decreases lines.len() - i,
{
    if i >= lines.len() {
        None
    } else {
        let line = lines[i as int];
        let here = match find(line, v) {
            Some(pos) => {
                let before = line.take(pos as int);
                let t = trim(before);
                if !occurs(before, "//"@) && !(ends(t, "val "@) || ends(t, "var "@) || ends(t, "val"@) || ends(t, "var"@)) {
                    at(i + 1, utf8_len(line.take(pos as int)) + 1)
                } else {
                    None
                }
            },
            None => None,
        };
        if here is Some {
            here
        } else {
            use_location(lines, v, i + 1)
        }
    }
}

/// The first assignment `v =`, from line `i` on, that is not a declaration.
pub open spec fn assignment_location(lines: Seq<Seq<char>>, v: Seq<char>, i: nat) -> Option<Span>
    decreases lines.len() - i,
{
    if i >= lines.len() {
        None
    } else {
        let line = lines[i as int];
        let here = match find(line, v + " ="@) {
            Some(pos) => {
                let before = line.take(pos as int);
                if !occurs(before, "val "@) && !occurs(before, "var "@) {
                    at(i + 1, utf8_len(line.take(pos as int)) + 1)
                } else {
                    None
                }
            },
            None => None,
        };
        if here is Some {
            here
        } else {
            assignment_location(lines, v, i + 1)
        }
    }
}

/// The second declaration of `v`, from line `i` on (`seen` when the first one came before `i`).
pub open spec fn redeclaration_location(lines: Seq<Seq<char>>, v: Seq<char>, i: nat, seen: bool) -> Option<Span>
    decreases lines.len() - i,
{
    if i >= lines.len() {
        None
    } else {
        let line = lines[i as int];
        let declares = (occurs(line, "val "@ + v) || occurs(line, "var "@ + v)) && !starts(trim_start(line), "//"@);
        if declares && seen {
            match find(line, v) {
                Some(pos) => at(i + 1, utf8_len(line.take(pos as int)) + 1),
                None => redeclaration_location(lines, v, i + 1, seen),
            }
        } else {
            redeclaration_location(lines, v, i + 1, seen || declares)
        }
    }
}

/// Where in the source an error without a location most likely is, guessed from its message.
pub open spec fn error_location(source: Seq<char>, message: Seq<char>) -> Option<Span> {
    let lines = text_lines(source);
    let a = if occurs(message, "Type mismatch in binary expression"@) { binop_location(lines, 0) } else { None };
    let b = if occurs(message, "Undefined variable"@) {
        match quoted_name(message) {
            Some(v) => use_location(lines, v, 0),
            None => None,
        }
    } else {
        None
    };
    let c = if occurs(message, "Cannot assign to immutable variable"@) {
        match quoted_name(message) {
            Some(v) => assignment_location(lines, v, 0),
            None => None,
        }
    } else {
        None
    };
    let d = if occurs(message, "already declared"@) {
        match quoted_name(message) {
            Some(v) => redeclaration_location(lines, v, 0, false),
            None => None,
        }
    } else {
        None
    };
    if a is Some {
        a
    } else if b is Some {
        b
    } else if c is Some {
        c
    } else {
        d
    }
}

/// Whether `span` points into `lines`: at one of them, at most one column past its last byte.
pub open spec fn points_into(lines: Seq<Seq<char>>, span: Span) -> bool {
    &&& 1 <= span.line <= lines.len()
    &&& 1 <= span.column <= utf8_len(lines[span.line - 1]) + 1
}

/// Whether the lines are few and short enough for their positions to be machine integers.
pub open spec fn measurable_lines(lines: Seq<Seq<char>>) -> bool {
    &&& lines.len() < usize::MAX
    &&& forall|j: int| 0 <= j < lines.len() ==> #[trigger] utf8_len(lines[j]) < usize::MAX
}

/// Skipping white space from `i` stops at the end at the latest, or at `i` when it is past it.
proof fn lemma_skip_ws_bound(s: Seq<char>, i: nat)
    ensures
        i <= skip_ws(s, i),
        i <= s.len() ==> skip_ws(s, i) <= s.len(),
        i > s.len() ==> skip_ws(s, i) == i,
    decreases s.len() - i,
{
    if i < s.len() && is_white_space(s[i as int]) {
        lemma_skip_ws_bound(s, i + 1);
    }
}

/// Where `pat` occurs, it fits in the text, and there the text is `pat`.
proof fn lemma_find_fits(s: Seq<char>, pat: Seq<char>)
    ensures
        match find(s, pat) {
            Some(k) => k + pat.len() <= s.len() && s.subrange(k as int, (k + pat.len()) as int) == pat,
            None => true,
        },
{
    super::search::lemma_find_from(s, pat, 0);
}

/// The bytes before a position where `pat` occurs are no more than the line's.
proof fn lemma_found_bytes(line: Seq<char>, pat: Seq<char>)
    ensures
        match find(line, pat) {
            Some(k) => utf8_len(line.take(k as int)) <= utf8_len(line),
            None => true,
        },
{
    lemma_find_fits(line, pat);
    if let Some(k) = find(line, pat) {
        lemma_utf8_prefix(line, k);
    }
}

proof fn lemma_binop_location_within(lines: Seq<Seq<char>>, i: nat)
    requires
        measurable_lines(lines),
    ensures
        match binop_location(lines, i) {
            Some(sp) => points_into(lines, sp),
            None => true,
        },
    decreases lines.len() - i,
{
    if i < lines.len() {
        let line = lines[i as int];
        assert(utf8_len(lines[i as int]) < usize::MAX);
        lemma_find_fits(line, " = "@);
        reveal_strlit(" = ");
        if let Some(eq) = find(line, " = "@) {
            let e = eq as int;
            assert(line[e] == ' ' && line[e + 1] == '=' && line[e + 2] == ' ') by {
                assert(line.subrange(e, e + 3)[0] == line[e]);
                assert(line.subrange(e, e + 3)[1] == line[e + 1]);
                assert(line.subrange(e, e + 3)[2] == line[e + 2]);
            }
            lemma_utf8_prefix(line, eq);
            lemma_utf8_prefix(line, eq + 1);
            lemma_utf8_prefix(line, eq + 2);
            lemma_utf8_prefix(line, eq + 3);
            lemma_utf8_len_bounds(line);
            lemma_skip_ws_bound(line, utf8_len(line.take(eq as int)) + 3);
        }
        lemma_binop_location_within(lines, i + 1);
    }
}

proof fn lemma_use_location_within(lines: Seq<Seq<char>>, v: Seq<char>, i: nat)
    requires
        measurable_lines(lines),
    ensures
        match use_location(lines, v, i) {
            Some(sp) => points_into(lines, sp),
            None => true,
        },
    decreases lines.len() - i,
{
    if i < lines.len() {
        assert(utf8_len(lines[i as int]) < usize::MAX);
        lemma_found_bytes(lines[i as int], v);
        lemma_use_location_within(lines, v, i + 1);
    }
}

proof fn lemma_assignment_location_within(lines: Seq<Seq<char>>, v: Seq<char>, i: nat)
    requires
        measurable_lines(lines),
    ensures
        match assignment_location(lines, v, i) {
            Some(sp) => points_into(lines, sp),
            None => true,
        },
    decreases lines.len() - i,
{
    if i < lines.len() {
        assert(utf8_len(lines[i as int]) < usize::MAX);
        lemma_found_bytes(lines[i as int], v + " ="@);
        lemma_assignment_location_within(lines, v, i + 1);
    }
}

proof fn lemma_redeclaration_location_within(lines: Seq<Seq<char>>, v: Seq<char>, i: nat, seen: bool)
    requires
        measurable_lines(lines),
    ensures
        match redeclaration_location(lines, v, i, seen) {
            Some(sp) => points_into(lines, sp),
            None => true,
        },
    decreases lines.len() - i,
{
    if i < lines.len() {
        let line = lines[i as int];
        let declares = (occurs(line, "val "@ + v) || occurs(line, "var "@ + v)) && !starts(trim_start(line), "//"@);
        assert(utf8_len(lines[i as int]) < usize::MAX);
        lemma_found_bytes(line, v);
        lemma_redeclaration_location_within(lines, v, i + 1, seen);
        lemma_redeclaration_location_within(lines, v, i + 1, seen || declares);
    }
}

/// A location guessed from an error's message always points into the source: at one of its
/// lines, at most one column past that line's last byte.
pub proof fn lemma_error_location_within(source: Seq<char>, message: Seq<char>)
    requires
        utf8_len(source) < usize::MAX,
    ensures
        match error_location(source, message) {
            Some(sp) => points_into(text_lines(source), sp),
            None => true,
        },
{
    let lines = text_lines(source);
    lemma_lines_bounds(source);
    lemma_lines_utf8(source);
    lemma_utf8_len_bounds(source);
    assert(measurable_lines(lines));
    lemma_binop_location_within(lines, 0);
    if let Some(v) = quoted_name(message) {
        lemma_use_location_within(lines, v, 0);
        lemma_assignment_location_within(lines, v, 0);
        lemma_redeclaration_location_within(lines, v, 0, false);
    }
}

/// No piece of a text has more bytes than the text.
proof fn lemma_pieces_utf8(s: Seq<char>)
    ensures
        forall|j: int| 0 <= j < pieces(s).len() ==> #[trigger] utf8_len(pieces(s)[j]) <= utf8_len(s),
    decreases s.len(),
{
    if s.len() > 0 {
        lemma_pieces_utf8(s.drop_last());
        lemma_pieces_bounds(s.drop_last());
        let p = pieces(s.drop_last());
        if s.last() != '\n' {
            let l = p[p.len() - 1];
            assert(l.push(s.last()).drop_last() =~= l);
        }
        assert(utf8_len(s) == utf8_len(s.drop_last()) + utf8_width(s.last()));
        assert forall|j: int| 0 <= j < pieces(s).len() implies #[trigger] utf8_len(pieces(s)[j]) <= utf8_len(s) by {
            if j < p.len() {
                assert(utf8_len(p[j]) <= utf8_len(s.drop_last()));
                if !(s.last() != '\n' && j == p.len() - 1) {
                    assert(pieces(s)[j] == p[j]);
                } else {
                    let l = p[p.len() - 1];
                    assert(pieces(s)[j] == l.push(s.last()));
                    assert(utf8_len(l.push(s.last())) == utf8_len(l) + utf8_width(s.last()));
                }
            } else {
                assert(pieces(s)[j] == Seq::<char>::empty());
            }
        }
    }
}

/// No line of a text has more bytes than the text.
pub proof fn lemma_lines_utf8(s: Seq<char>)
    ensures
        forall|j: int| 0 <= j < text_lines(s).len() ==> #[trigger] utf8_len(text_lines(s)[j]) <= utf8_len(s),
{
    lemma_pieces_utf8(s);
    lemma_pieces_bounds(s);
    let p = pieces(s);
    assert forall|j: int| 0 <= j < text_lines(s).len() implies #[trigger] utf8_len(text_lines(s)[j]) <= utf8_len(s) by {
        assert(utf8_len(p[j]) <= utf8_len(s));
        if p[j].len() > 0 {
            assert(utf8_len(p[j].drop_last()) <= utf8_len(p[j]));
        }
    }
}

/// No piece of a text is longer than the text, and there is at most one more piece than characters.
pub proof fn lemma_pieces_bounds(s: Seq<char>)
    ensures
        1 <= pieces(s).len() <= s.len() + 1,
        forall|j: int| 0 <= j < pieces(s).len() ==> #[trigger] pieces(s)[j].len() <= s.len(),
    decreases s.len(),
{
    if s.len() > 0 {
        lemma_pieces_bounds(s.drop_last());
    }
}

/// No line of a text is longer than the text, and there are no more lines than characters.
pub proof fn lemma_lines_bounds(s: Seq<char>)
    ensures
        text_lines(s).len() <= s.len(),
        forall|j: int| 0 <= j < text_lines(s).len() ==> #[trigger] text_lines(s)[j].len() <= s.len(),
{
    lemma_pieces_bounds(s);
    let p = pieces(s);
    if p[p.len() - 1].len() == 0 {
        if p.len() > 1 {
            assert(s.len() >= 1);
        }
    }
    assert forall|j: int| 0 <= j < text_lines(s).len() implies #[trigger] text_lines(s)[j].len() <= s.len() by {
        assert(p[j].len() <= s.len());
    }
    if p[p.len() - 1].len() > 0 {
        assert(p.len() - 1 <= s.len() - 1) by {
            lemma_pieces_chars(s);
        }
    } else if p.len() > 1 {
        lemma_pieces_chars(s);
    }
}

/// Each piece but the last is followed by a newline, so the pieces and the newlines together
/// are no more than the characters.
pub proof fn lemma_pieces_chars(s: Seq<char>)
    ensures
        (pieces(s).len() - 1) + pieces(s)[pieces(s).len() - 1].len() <= s.len(),
    decreases s.len(),
{
    if s.len() > 0 {
        lemma_pieces_chars(s.drop_last());
        lemma_pieces_bounds(s.drop_last());
    }
}

// ---------------------------------------------------------------------------
// The lines round an error
// ---------------------------------------------------------------------------

/// The source lines shown round an error.
pub struct SourceContext {
    /// The width of the line-number column: at least 3.
    pub width: usize,
    /// The line before, with its number.
    pub previous: Option<(usize, String)>,
    /// The number of the line with the error.
    pub line_number: usize,
    /// The line with the error.
    pub line: String,
    /// The spaces before the marker.
    pub indent: usize,
    /// The marker under the error: `^~~~`.
    pub marker: String,
    /// The line after, with its number.
    pub next: Option<(usize, String)>,
}

/// The image of a numbered line.
pub open spec fn numbered_view(x: Option<(usize, String)>) -> Option<(nat, Seq<char>)> {
    match x {
        Some((n, s)) => Some((n as nat, s@)),
        None => None,
    }
}

/// Whether `c` shows the lines of `source` round `span`.
pub open spec fn context_of(source: Seq<char>, span: Span, c: SourceContext) -> bool {
    let lines = text_lines(source);
    let idx = span.line - 1;
    &&& c.width == if nat_decimal(span.line as nat).len() >= 3 { nat_decimal(span.line as nat).len() } else { 3 }
    &&& numbered_view(c.previous) == if idx > 0 { Some(((span.line - 1) as nat, lines[idx - 1])) } else { None }
    &&& c.line_number == span.line
    &&& c.line@ == lines[idx]
    &&& c.indent == if span.column > 0 { span.column - 1 } else { 0 }
    &&& c.marker@ == highlight(lines[idx], span.column as nat)
    &&& numbered_view(c.next) == if idx + 1 < lines.len() { Some(((span.line + 1) as nat, lines[idx + 1])) } else { None }
}

/// Formats errors against the source they are about.
pub struct MessageFormatter {
    source: String,
    filename: String,
}

impl MessageFormatter {
    /// The source text.
    pub closed spec fn source_text(&self) -> Seq<char> {
        self.source@
    }

    /// The file's name.
    pub closed spec fn file_name(&self) -> Seq<char> {
        self.filename@
    }

    /// A formatter for `source`, read from the file `filename`.
    pub fn new(source: String, filename: String) -> (m: MessageFormatter)
        ensures
            m.source_text() == source@,
            m.file_name() == filename@,
    {
        MessageFormatter { source, filename }
    }

    /// The file's name.
    pub fn filename(&self) -> (r: &String)
        ensures
            r@ == self.file_name(),
    {
        &self.filename
    }

    /// The word that labels an error of any kind: "error".
    pub fn get_error_label(&self, error_type: &ErrorType) -> (r: &'static str)
        ensures
            r@ == "error"@,
    {
        match error_type {
            ErrorType::LexerError => "error",
            ErrorType::ParseError => "error",
            ErrorType::TypeError => "error",
            ErrorType::NameError => "error",
            ErrorType::GeneratorError => "error",
        }
    }

    /// The marker under the text at `column` (1-based) of `line`.
    pub fn get_error_highlight(&self, line: &str, column: usize) -> (r: String)
        requires
            marker_fits(line@, column as nat),
        ensures
            r@ == highlight(line@, column as nat),
    {
        let chars = chars_of(line);
        assert(chars@.take(chars.len() as int) =~= chars@);
        let bytes = utf8_prefix_len(&chars, chars.len());
        if column == 0 || column as u128 > bytes {
            return string_from_caret();
        }
        let start = column - 1;
        let mut first = start;
        while first > 0 && !char_is_whitespace(chars[first - 1])
            invariant
                first <= start <= chars.len(),
                back_to_space(chars@, start as nat) == back_to_space(chars@, first as nat),
            decreases first,
        {
            first -= 1;
        }
        let mut end = start;
        while end < chars.len() && !(chars[end] == ';' || chars[end] == '{' || chars[end] == '}' || chars[end] == ',')
            invariant
                start <= end <= chars.len(),
                forward_to_stop(chars@, start as nat) == forward_to_stop(chars@, end as nat),
            decreases chars.len() - end,
        {
            end += 1;
        }
        let ghost stop = end;
        while end > start && char_is_whitespace(chars[end - 1])
            invariant
                start <= end <= chars.len(),
                trim_back_to(chars@, start as nat, stop as nat) == trim_back_to(chars@, start as nat, end as nat),
            decreases end,
        {
            end -= 1;
        }
        let length = end - first;
        if length <= 1 {
            return string_from_caret();
        }
        let mut r = string_from_caret();
        let mut k: usize = 1;
        while k < length
            invariant
                1 <= k <= length,
                r@ == seq!['^'] + Seq::new((k - 1) as nat, |i: int| '~'),
            decreases length - k,
        {
            push_char(&mut r, '~');
            k += 1;
            assert(r@ =~= seq!['^'] + Seq::new((k - 1) as nat, |i: int| '~'));
        }
        r
    }
}

/// `^`.
fn string_from_caret() -> (r: String)
    ensures
        r@ == "^"@,
        r@ == seq!['^'],
{
    let r = super::text::string_from("^");
    proof {
        reveal_strlit("^");
    }
    r
}


/// The characters of `a` followed by those of `b`.
fn concat_chars(a: &str, b: &Vec<char>) -> (r: Vec<char>)
    ensures
        r@ == a@ + b@,
{
    let mut r = chars_of(a);
    let ghost start = r@;
    let mut i: usize = 0;
    while i < b.len()
        invariant
            i <= b.len(),
            r@ == start + b@.take(i as int),
        decreases b.len() - i,
    {
        r.push(b[i]);
        i += 1;
        assert(r@ =~= start + b@.take(i as int));
    }
    assert(b@.take(b.len() as int) =~= b@);
    r
}

/// The number of bytes of the first `k` characters of a line.
fn bytes_before(line: &Vec<char>, k: usize) -> (r: usize)
    requires
        k <= line.len(),
        utf8_len(line@) < usize::MAX,
    ensures
        r == utf8_len(line@.take(k as int)),
{
    proof { lemma_utf8_prefix(line@, k as nat); }
    let b = utf8_prefix_len(line, k);
    b as usize
}

/// The location `(i + 1, pos + 1)`.
fn span_after(i: usize, pos: usize) -> (r: Option<Span>)
    requires
        i < usize::MAX,
        pos < usize::MAX,
    ensures
        r == at((i + 1) as nat, (pos + 1) as nat),
{
    Some(Span::new(i + 1, pos + 1))
}

/// The first line that declares a variable with an arithmetic expression.
fn binop_location_of(lines: &Vec<Vec<char>>) -> (r: Option<Span>)
    requires
        lines.len() < usize::MAX,
        forall|j: int| 0 <= j < lines.len() ==> #[trigger] utf8_len(lines@[j]@) < usize::MAX,
    ensures
        r == binop_location(lines_view(lines@), 0),
{
    let ghost lv = lines_view(lines@);
    let eq_pat = chars_of(" = ");
    proof { reveal_strlit(" = "); }
    let mut i: usize = 0;
    while i < lines.len()
        invariant
            i <= lines.len(),
            lines.len() < usize::MAX,
            forall|j: int| 0 <= j < lines.len() ==> #[trigger] utf8_len(lines@[j]@) < usize::MAX,
            lv == lines_view(lines@),
            eq_pat@ == " = "@,
            eq_pat@.len() == 3,
            binop_location(lv, 0) == binop_location(lv, i as nat),
        decreases lines.len() - i,
    {
        let line = &lines[i];
        assert(lv[i as int] == line@);
        assert(utf8_len(lines@[i as int]@) < usize::MAX);
        proof { lemma_utf8_len_bounds(line@); }
        let ts = trim_start_chars(line);
        if !starts_chars(&ts, "//") && (has_chars(line, "val ") || has_chars(line, "var ")) && has_chars(line, " = ") {
            match find_chars(line, &eq_pat) {
                Some(eq) => {
                    proof { super::search::lemma_find_from(line@, eq_pat@, 0); }
                    let after = sub_chars(line, eq + 3, line.len());
                    assert(after@ =~= line@.skip((eq + 3) as int));
                    if has_chars(&after, " + ") || has_chars(&after, " - ") || has_chars(&after, " * ") || has_chars(&after, " / ")
                        || has_chars(&after, " % ") {
                        let ghost e = eq as int;
                        proof {
                            reveal_strlit(" = ");
                            assert(line@[e] == ' ' && line@[e + 1] == '=' && line@[e + 2] == ' ') by {
                                assert(line@.subrange(e, e + 3)[0] == line@[e]);
                                assert(line@.subrange(e, e + 3)[1] == line@[e + 1]);
                                assert(line@.subrange(e, e + 3)[2] == line@[e + 2]);
                            }
                            lemma_utf8_prefix(line@, eq as nat);
                            lemma_utf8_prefix(line@, (eq + 1) as nat);
                            lemma_utf8_prefix(line@, (eq + 2) as nat);
                            lemma_utf8_prefix(line@, (eq + 3) as nat);
                        }
                        let b = bytes_before(line, eq) + 3;
                        let ghost b0 = b;
                        let mut start = b;
                        while start < line.len() && char_is_whitespace(line[start])
                            invariant
                                b0 <= start,
                                b0 <= line.len() ==> start <= line.len(),
                                b0 > line.len() ==> start == b0,
                                b0 <= utf8_len(line@) < usize::MAX,
                                line.len() <= utf8_len(line@),
                                skip_ws(line@, b0 as nat) == skip_ws(line@, start as nat),
                            decreases line.len() - start,
                        {
                            start += 1;
                        }
                        return span_after(i, start);
                    }
                },
                None => {},
            }
        }
        i += 1;
    }
    None
}

/// The text between the first two single quotes of a message.
fn quoted_name_of(message: &Vec<char>) -> (r: Option<Vec<char>>)
    ensures
        match r {
            Some(v) => quoted_name(message@) == Some(v@),
            None => quoted_name(message@) is None,
        },
{
    let quote = chars_of("'");
    let n = message.len();
    proof { reveal_strlit("'"); }
    match find_chars(message, &quote) {
        Some(a) => {
            proof {
                super::search::lemma_find_from(message@, quote@, 0);
                assert(quote@.len() == 1);
                assert(a + 1 <= message@.len());
            }
            let rest = sub_chars(message, a + 1, n);
            assert(rest@ =~= message@.skip((a + 1) as int));
            match find_chars(&rest, &quote) {
                Some(b) => {
                    proof { super::search::lemma_find_from(rest@, quote@, 0); }
                    Some(sub_chars(message, a + 1, a + 1 + b))
                },
                None => None,
            }
        },
        None => None,
    }
}

/// The first use of `v` that is neither in a comment nor its declaration.
fn use_location_of(lines: &Vec<Vec<char>>, v: &Vec<char>) -> (r: Option<Span>)
    requires
        lines.len() < usize::MAX,
        forall|j: int| 0 <= j < lines.len() ==> #[trigger] utf8_len(lines@[j]@) < usize::MAX,
    ensures
        r == use_location(lines_view(lines@), v@, 0),
{
    let ghost lv = lines_view(lines@);
    let mut i: usize = 0;
    while i < lines.len()
        invariant
            i <= lines.len(),
            lines.len() < usize::MAX,
            forall|j: int| 0 <= j < lines.len() ==> #[trigger] utf8_len(lines@[j]@) < usize::MAX,
            lv == lines_view(lines@),
            use_location(lv, v@, 0) == use_location(lv, v@, i as nat),
        decreases lines.len() - i,
    {
        let line = &lines[i];
        assert(lv[i as int] == line@);
        assert(utf8_len(lines@[i as int]@) < usize::MAX);
        proof { lemma_utf8_len_bounds(line@); }
        match find_chars(line, v) {
            Some(pos) => {
                proof { super::search::lemma_find_from(line@, v@, 0); }
                let before = sub_chars(line, 0, pos);
                assert(before@ =~= line@.take(pos as int));
                let t = trim_chars(&before);
                if !has_chars(&before, "//") && !(ends_chars(&t, "val ") || ends_chars(&t, "var ") || ends_chars(&t, "val")
                    || ends_chars(&t, "var")) {
                    proof { lemma_utf8_prefix(line@, pos as nat); }
                    return span_after(i, bytes_before(line, pos));
                }
            },
            None => {},
        }
        i += 1;
    }
    None
}

/// The first assignment `v =` that is not a declaration.
fn assignment_location_of(lines: &Vec<Vec<char>>, v: &Vec<char>) -> (r: Option<Span>)
    requires
        lines.len() < usize::MAX,
        forall|j: int| 0 <= j < lines.len() ==> #[trigger] utf8_len(lines@[j]@) < usize::MAX,
    ensures
        r == assignment_location(lines_view(lines@), v@, 0),
{
    let ghost lv = lines_view(lines@);
    let mut pattern = v.clone();
    pattern.push(' ');
    pattern.push('=');
    proof { reveal_strlit(" ="); }
    assert(pattern@ =~= v@ + " ="@);
    let mut i: usize = 0;
    while i < lines.len()
        invariant
            i <= lines.len(),
            lines.len() < usize::MAX,
            forall|j: int| 0 <= j < lines.len() ==> #[trigger] utf8_len(lines@[j]@) < usize::MAX,
            lv == lines_view(lines@),
            pattern@ == v@ + " ="@,
            assignment_location(lv, v@, 0) == assignment_location(lv, v@, i as nat),
        decreases lines.len() - i,
    {
        let line = &lines[i];
        assert(lv[i as int] == line@);
        assert(utf8_len(lines@[i as int]@) < usize::MAX);
        proof { lemma_utf8_len_bounds(line@); }
        match find_chars(line, &pattern) {
            Some(pos) => {
                proof { super::search::lemma_find_from(line@, pattern@, 0); }
                let before = sub_chars(line, 0, pos);
                assert(before@ =~= line@.take(pos as int));
                if !has_chars(&before, "val ") && !has_chars(&before, "var ") {
                    proof { lemma_utf8_prefix(line@, pos as nat); }
                    return span_after(i, bytes_before(line, pos));
                }
            },
            None => {},
        }
        i += 1;
    }
    None
}

/// The second declaration of `v`.
fn redeclaration_location_of(lines: &Vec<Vec<char>>, v: &Vec<char>) -> (r: Option<Span>)
    requires
        lines.len() < usize::MAX,
        forall|j: int| 0 <= j < lines.len() ==> #[trigger] utf8_len(lines@[j]@) < usize::MAX,
    ensures
        r == redeclaration_location(lines_view(lines@), v@, 0, false),
{
    let ghost lv = lines_view(lines@);
    let val_v = concat_chars("val ", v);
    let var_v = concat_chars("var ", v);
    let mut seen = false;
    let mut i: usize = 0;
    while i < lines.len()
        invariant
            i <= lines.len(),
            lines.len() < usize::MAX,
            forall|j: int| 0 <= j < lines.len() ==> #[trigger] utf8_len(lines@[j]@) < usize::MAX,
            lv == lines_view(lines@),
            val_v@ == "val "@ + v@,
            var_v@ == "var "@ + v@,
            redeclaration_location(lv, v@, 0, false) == redeclaration_location(lv, v@, i as nat, seen),
        decreases lines.len() - i,
    {
        let line = &lines[i];
        assert(lv[i as int] == line@);
        assert(utf8_len(lines@[i as int]@) < usize::MAX);
        proof { lemma_utf8_len_bounds(line@); }
        let ts = trim_start_chars(line);
        let declares = (find_chars(line, &val_v).is_some() || find_chars(line, &var_v).is_some()) && !starts_chars(&ts, "//");
        if declares && seen {
            match find_chars(line, v) {
                Some(pos) => {
                    proof { super::search::lemma_find_from(line@, v@, 0); }
                    proof { lemma_utf8_prefix(line@, pos as nat); }
                    return span_after(i, bytes_before(line, pos));
                },
                None => {},
            }
        } else {
            seen = seen || declares;
        }
        i += 1;
    }
    None
}

impl MessageFormatter {
    /// Where in the source an error without a location most likely is, guessed from its message:
    /// a declaration with arithmetic for a mismatch in a binary expression, the first use of an
    /// undefined variable, the assignment to an immutable one, or the second declaration of a
    /// name declared twice.
    pub fn find_error_location(&self, error_message: &str) -> (r: Option<Span>)
        requires
            utf8_len(self.source_text()) < usize::MAX,
        ensures
            r == error_location(self.source_text(), error_message@),
    {
        let lines = lines_of(self.source.as_str());
        proof {
            lemma_lines_bounds(self.source@);
            lemma_lines_utf8(self.source@);
            lemma_utf8_len_bounds(self.source@);
            assert forall|j: int| 0 <= j < lines.len() implies #[trigger] utf8_len(lines@[j]@) < usize::MAX by {
                assert(lines_view(lines@)[j] == lines@[j]@);
            }
        }
        let msg = chars_of(error_message);
        if has_chars(&msg, "Type mismatch in binary expression") {
            match binop_location_of(&lines) {
                Some(s) => {
                    return Some(s);
                },
                None => {},
            }
        }
        if has_chars(&msg, "Undefined variable") {
            match quoted_name_of(&msg) {
                Some(v) => match use_location_of(&lines, &v) {
                    Some(s) => {
                        return Some(s);
                    },
                    None => {},
                },
                None => {},
            }
        }
        if has_chars(&msg, "Cannot assign to immutable variable") {
            match quoted_name_of(&msg) {
                Some(v) => match assignment_location_of(&lines, &v) {
                    Some(s) => {
                        return Some(s);
                    },
                    None => {},
                },
                None => {},
            }
        }
        if has_chars(&msg, "already declared") {
            match quoted_name_of(&msg) {
                Some(v) => {
                    return redeclaration_location_of(&lines, &v);
                },
                None => {},
            }
        }
        None
    }

    /// Where an error is: its own location, or else where its message suggests.
    pub fn locate(&self, error: &CompileError) -> (r: Option<Span>)
        requires
            utf8_len(self.source_text()) < usize::MAX,
        ensures
            r == match error.span {
                Some(s) => Some(s),
                None => error_location(self.source_text(), error.message@),
            },
    {
        match error.span {
            Some(s) => Some(s),
            None => self.find_error_location(error.message.as_str()),
        }
    }

    /// Whether the marker under `span` can be worked out: the span's line is not in the source,
    /// or its column is 0, past the line's last byte, or at most one past its last character.
    pub fn marker_fits_at(&self, span: Span) -> (r: bool)
        ensures
            r == (1 <= span.line <= text_lines(self.source_text()).len() ==> marker_fits(
                text_lines(self.source_text())[span.line - 1],
                span.column as nat,
            )),
    {
        let lines = lines_of(self.source.as_str());
        let ghost lv = lines_view(lines@);
        if span.line == 0 || span.line > lines.len() {
            return true;
        }
        let line = &lines[span.line - 1];
        assert(lv[span.line - 1] == line@);
        assert(line@.take(line.len() as int) =~= line@);
        let bytes = utf8_prefix_len(line, line.len());
        span.column == 0 || span.column as u128 > bytes || span.column - 1 <= line.len()
    }

    /// The source lines shown round `span`: the line before, the line itself with the marker
    /// under the error, and the line after. None when the line is not in the source.
    pub fn show_source_context(&self, span: Span) -> (r: Option<SourceContext>)
        requires
            1 <= span.line <= text_lines(self.source_text()).len() ==> marker_fits(
                text_lines(self.source_text())[span.line - 1],
                span.column as nat,
            ),
        ensures
            match r {
                Some(c) => 1 <= span.line <= text_lines(self.source_text()).len() && context_of(self.source_text(), span, c),
                None => span.line == 0 || span.line > text_lines(self.source_text()).len(),
            },
    {
        let lines = lines_of(self.source.as_str());
        let ghost lv = lines_view(lines@);
        if span.line == 0 || span.line > lines.len() {
            return None;
        }
        let idx = span.line - 1;
        let digits = chars_of(usize_to_string(span.line).as_str()).len();
        let width = if digits >= 3 { digits } else { 3 };
        let previous = if idx > 0 {
            Some((span.line - 1, string_of_chars(&lines[idx - 1])))
        } else {
            None
        };
        let line = string_of_chars(&lines[idx]);
        let next = if idx + 1 < lines.len() {
            Some((span.line + 1, string_of_chars(&lines[idx + 1])))
        } else {
            None
        };
        let indent = if span.column > 0 { span.column - 1 } else { 0 };
        let marker = self.get_error_highlight(line.as_str(), span.column);
        assert(lv[idx as int] == lines@[idx as int]@);
        assert(idx > 0 ==> lv[idx - 1] == lines@[idx - 1]@);
        assert(idx + 1 < lines.len() ==> lv[idx + 1] == lines@[idx + 1]@);
        Some(SourceContext { width, previous, line_number: span.line, line, indent, marker, next })
    }
}

} // verus!
