use vstd::prelude::*;

use super::token::{text_matches, Token, TokenType, TokenKind, TokenView};
use crate::helper::text::{
    chars_equal_str, chars_of, char_is_alphabetic, char_is_alphanumeric, is_digit, nat_decimal, push_char,
    string_from, string_of_range, unicode_alphabetic, unicode_alphanumeric, usize_to_string,
};

verus! {

// ---------------------------------------------------------------------------
// The lexical grammar, as functions on the source text.
// ---------------------------------------------------------------------------

/// Where scanning stands: the next character, and the current line and column.
pub struct ScanPos {
    pub cur: nat,
    pub line: nat,
    pub col: nat,
}

/// Whether the character at `i` exists and is `c`.
pub open spec fn next_is(src: Seq<char>, i: nat, c: char) -> bool {
    i < src.len() && src[i as int] == c
}

/// Whether `c` may continue an identifier: '_', an ASCII letter or digit, or beyond ASCII a
/// character that is Alphabetic or Numeric in Unicode.
pub open spec fn ident_char(c: char) -> bool {
    if (c as u32) < 128 {
        ascii_letter(c) || is_digit(c) || c == '_'
    } else {
        unicode_alphanumeric(c)
    }
}

/// Whether `c` is one of the ASCII letters 'a'..='z' and 'A'..='Z'.
pub open spec fn ascii_letter(c: char) -> bool {
    ('a' <= c && c <= 'z') || ('A' <= c && c <= 'Z')
}

/// Whether `c` may start a word: '_' or a letter (an ASCII letter, or beyond ASCII a character
/// with the Unicode Alphabetic property).
pub open spec fn word_start(c: char) -> bool {
    if (c as u32) < 128 {
        ascii_letter(c) || c == '_'
    } else {
        unicode_alphabetic(c)
    }
}

/// The end of the run of identifier characters starting at `i`.
pub open spec fn ident_end(src: Seq<char>, i: nat) -> nat
    decreases src.len() - i,
{
    if i < src.len() && ident_char(src[i as int]) {
        ident_end(src, i + 1)
    } else {
        i
    }
}

/// The end of the run of decimal digits starting at `i`.
pub open spec fn digits_end(src: Seq<char>, i: nat) -> nat
    decreases src.len() - i,
{
    if i < src.len() && is_digit(src[i as int]) {
        digits_end(src, i + 1)
    } else {
        i
    }
}

/// The position of the next newline at or after `i`, or the end of the source.
pub open spec fn line_end(src: Seq<char>, i: nat) -> nat
    decreases src.len() - i,
{
    if i < src.len() && src[i as int] != '\n' {
        line_end(src, i + 1)
    } else {
        i
    }
}

/// The message for a block comment that never ends.
pub open spec fn unterminated_comment_message(line: nat) -> Seq<char> {
    "Unterminated block comment at line "@ + nat_decimal(line)
}

/// Skips the body of a block comment that starts at `i` (after its opening `/*`):
/// the position just after the closing `*/`, counting lines on the way.
pub open spec fn block_comment_end(src: Seq<char>, i: nat, line: nat, col: nat) -> Result<ScanPos, Seq<char>>
    decreases src.len() - i,
{
    if i >= src.len() {
        Err(unterminated_comment_message(line))
    } else if src[i as int] == '*' {
        if next_is(src, i + 1, '/') {
            Ok(ScanPos { cur: i + 2, line, col: col + 2 })
        } else {
            block_comment_end(src, i + 1, line, col + 1)
        }
    } else if src[i as int] == '\n' {
        block_comment_end(src, i + 1, line + 1, 1)
    } else {
        block_comment_end(src, i + 1, line, col + 1)
    }
}

/// The kind of a word: a keyword, a type name, a boolean literal, or an identifier.
pub open spec fn word_kind(text: Seq<char>) -> TokenKind {
    if text == "def"@ { TokenKind::Def }
    else if text == "return"@ { TokenKind::Return }
    else if text == "val"@ { TokenKind::Val }
    else if text == "var"@ { TokenKind::Var }
    else if text == "mut"@ { TokenKind::Mut }
    else if text == "if"@ { TokenKind::If }
    else if text == "else"@ { TokenKind::Else }
    else if text == "while"@ { TokenKind::While }
    else if text == "loop"@ { TokenKind::Loop }
    else if text == "for"@ { TokenKind::For }
    else if text == "in"@ { TokenKind::In }
    else if text == "break"@ { TokenKind::Break }
    else if text == "continue"@ { TokenKind::Continue }
    else if text == "struct"@ { TokenKind::Struct }
    else if text == "impl"@ { TokenKind::Impl }
    else if text == "self"@ { TokenKind::SelfKeyword }
    else if text == "i8"@ { TokenKind::I8 }
    else if text == "i16"@ { TokenKind::I16 }
    else if text == "i32"@ { TokenKind::I32 }
    else if text == "i64"@ { TokenKind::I64 }
    else if text == "u8"@ { TokenKind::U8 }
    else if text == "u16"@ { TokenKind::U16 }
    else if text == "u32"@ { TokenKind::U32 }
    else if text == "u64"@ { TokenKind::U64 }
    else if text == "f32"@ { TokenKind::F32 }
    else if text == "f64"@ { TokenKind::F64 }
    else if text == "bool"@ { TokenKind::Bool }
    else if text == "void"@ { TokenKind::Void }
    else if text == "true"@ { TokenKind::True }
    else if text == "false"@ { TokenKind::False }
    else { TokenKind::Identifier(text) }
}

/// A token made of `src[start..end]`, recorded with the line and the column reached after it.
pub open spec fn make_token(src: Seq<char>, start: nat, end: nat, line: nat, col: nat, kind: TokenKind) -> TokenView {
    TokenView { kind, lexeme: src.subrange(start as int, end as int), line, column: col }
}

/// A token of `len` characters at `p`.
pub open spec fn token_of_len(src: Seq<char>, p: ScanPos, len: nat, kind: TokenKind) -> Result<(ScanPos, Option<TokenView>), Seq<char>> {
    Ok((
        ScanPos { cur: p.cur + len, line: p.line, col: p.col + len },
        Some(make_token(src, p.cur, p.cur + len, p.line, p.col + len, kind)),
    ))
}

/// A token of one character, or of two when the second character is `second`.
pub open spec fn one_or_two(src: Seq<char>, p: ScanPos, second: char, two: TokenKind, one: TokenKind) -> Result<(ScanPos, Option<TokenView>), Seq<char>> {
    if next_is(src, p.cur + 1, second) {
        token_of_len(src, p, 2, two)
    } else {
        token_of_len(src, p, 1, one)
    }
}

/// The message for a character that starts no token.
pub open spec fn unexpected_char_message(c: char, line: nat, col: nat) -> Seq<char> {
    "Unexpected character '"@ + seq![c] + "' at line "@ + nat_decimal(line) + " column "@ + nat_decimal(col)
}

/// The message for a lone '|'.
pub open spec fn lone_pipe_message(line: nat) -> Seq<char> {
    "Unexpected character '|' at line "@ + nat_decimal(line)
}

/// A number starting at `p`: digits, and a fraction when a '.' is followed by a digit.
pub open spec fn number_token(src: Seq<char>, p: ScanPos) -> (ScanPos, Option<TokenView>) {
    let e = digits_end(src, p.cur + 1);
    if next_is(src, e, '.') && e + 1 < src.len() && is_digit(src[(e + 1) as int]) {
        let f = digits_end(src, e + 1);
        let len = (f - p.cur) as nat;
        (
            ScanPos { cur: f, line: p.line, col: p.col + len },
            Some(make_token(src, p.cur, f, p.line, p.col + len, TokenKind::FloatLiteral(src.subrange(p.cur as int, f as int)))),
        )
    } else {
        let len = (e - p.cur) as nat;
        (
            ScanPos { cur: e, line: p.line, col: p.col + len },
            Some(make_token(src, p.cur, e, p.line, p.col + len, TokenKind::IntLiteral(src.subrange(p.cur as int, e as int)))),
        )
    }
}

/// A word starting at `p`.
pub open spec fn word_token(src: Seq<char>, p: ScanPos) -> (ScanPos, Option<TokenView>) {
    let e = ident_end(src, p.cur + 1);
    let len = (e - p.cur) as nat;
    (
        ScanPos { cur: e, line: p.line, col: p.col + len },
        Some(make_token(src, p.cur, e, p.line, p.col + len, word_kind(src.subrange(p.cur as int, e as int)))),
    )
}

/// One step of scanning at `p` (which is not at the end): where scanning goes next and
/// the token it produces, if any; or the error that stops it.
pub open spec fn scan_step(src: Seq<char>, p: ScanPos) -> Result<(ScanPos, Option<TokenView>), Seq<char>> {
    let c = src[p.cur as int];
    let skip = ScanPos { cur: p.cur + 1, line: p.line, col: p.col + 1 };
    if c == ' ' || c == '\r' || c == '\t' {
        Ok((skip, None))
    } else if c == '\n' {
        Ok((ScanPos { cur: p.cur + 1, line: p.line + 1, col: 1 }, None))
    } else if c == '(' { token_of_len(src, p, 1, TokenKind::LeftParen) }
    else if c == ')' { token_of_len(src, p, 1, TokenKind::RightParen) }
    else if c == '{' { token_of_len(src, p, 1, TokenKind::LeftBrace) }
    else if c == '}' { token_of_len(src, p, 1, TokenKind::RightBrace) }
    else if c == '[' { token_of_len(src, p, 1, TokenKind::LeftBracket) }
    else if c == ']' { token_of_len(src, p, 1, TokenKind::RightBracket) }
    else if c == ':' { one_or_two(src, p, ':', TokenKind::ColonColon, TokenKind::Colon) }
    else if c == ';' { token_of_len(src, p, 1, TokenKind::Semicolon) }
    else if c == ',' { token_of_len(src, p, 1, TokenKind::Comma) }
    else if c == '+' { token_of_len(src, p, 1, TokenKind::Plus) }
    else if c == '*' { token_of_len(src, p, 1, TokenKind::Star) }
    else if c == '%' { token_of_len(src, p, 1, TokenKind::Percent) }
    else if c == '=' { one_or_two(src, p, '=', TokenKind::EqualEqual, TokenKind::Equal) }
    else if c == '!' { one_or_two(src, p, '=', TokenKind::BangEqual, TokenKind::Bang) }
    else if c == '<' {
        if next_is(src, p.cur + 1, '=') {
            token_of_len(src, p, 2, TokenKind::LessEqual)
        } else {
            one_or_two(src, p, '-', TokenKind::LeftArrow, TokenKind::Less)
        }
    }
    else if c == '>' { one_or_two(src, p, '=', TokenKind::GreaterEqual, TokenKind::Greater) }
    else if c == '&' { one_or_two(src, p, '&', TokenKind::AmpAmp, TokenKind::Amp) }
    else if c == '|' {
        if next_is(src, p.cur + 1, '|') {
            token_of_len(src, p, 2, TokenKind::PipePipe)
        } else {
            Err(lone_pipe_message(p.line))
        }
    }
    else if c == '/' {
        if next_is(src, p.cur + 1, '/') {
            let e = line_end(src, p.cur + 2);
            Ok((ScanPos { cur: e, line: p.line, col: (p.col + (e - p.cur)) as nat }, None))
        } else if next_is(src, p.cur + 1, '*') {
            match block_comment_end(src, p.cur + 2, p.line, p.col + 2) {
                Ok(q) => Ok((q, None)),
                Err(m) => Err(m),
            }
        } else {
            token_of_len(src, p, 1, TokenKind::Slash)
        }
    }
    else if c == '-' { one_or_two(src, p, '>', TokenKind::Arrow, TokenKind::Minus) }
    else if c == '.' { one_or_two(src, p, '.', TokenKind::DotDot, TokenKind::Dot) }
    else if word_start(c) { Ok(word_token(src, p)) }
    else if is_digit(c) { Ok(number_token(src, p)) }
    else { Err(unexpected_char_message(c, p.line, p.col + 1)) }
}

/// The tokens that an optional token adds.
pub open spec fn opt_seq(t: Option<TokenView>) -> Seq<TokenView> {
    match t {
        Some(x) => seq![x],
        None => seq![],
    }
}

/// The end-of-input token at `p`.
pub open spec fn eof_token(p: ScanPos) -> TokenView {
    TokenView { kind: TokenKind::Eof, lexeme: seq![], line: p.line, column: p.col }
}

/// Scans from `p` to the end, after the tokens `acc`: all tokens, ending with the end-of-input
/// token, or the first error.
pub open spec fn scan_from(src: Seq<char>, p: ScanPos, acc: Seq<TokenView>) -> Result<Seq<TokenView>, Seq<char>>
    decreases src.len() - p.cur,
{
    if p.cur >= src.len() {
        Ok(acc.push(eof_token(p)))
    } else {
        match scan_step(src, p) {
            Err(m) => Err(m),
            Ok((q, t)) => {
                proof { lemma_scan_step_advances(src, p); }
                scan_from(src, q, acc + opt_seq(t))
            },
        }
    }
}

/// The tokens of a whole source text, or the message of the first lexical error.
pub open spec fn lex(src: Seq<char>) -> Result<Seq<TokenView>, Seq<char>> {
    scan_from(src, ScanPos { cur: 0, line: 1, col: 1 }, seq![])
}

/// The views of a sequence of tokens.
pub open spec fn token_views(ts: Seq<Token>) -> Seq<TokenView> {
    ts.map_values(|t: Token| t@)
}

/// No word is the end-of-input token.
proof fn lemma_word_kind_not_eof(text: Seq<char>)
    ensures
        !(word_kind(text) is Eof),
{
}

/// A step of scanning never produces the end-of-input token.
proof fn lemma_scan_step_not_eof(src: Seq<char>, p: ScanPos)
    requires
        p.cur < src.len(),
    ensures
        scan_step(src, p) matches Ok((_, Some(t))) ==> !(t.kind is Eof),
{
    lemma_word_kind_not_eof(src.subrange(p.cur as int, ident_end(src, p.cur + 1) as int));
}

/// Scanning from `p`, after tokens none of which ends the input, gives tokens that end with the
/// one end-of-input token.
proof fn lemma_scan_from_eof(src: Seq<char>, p: ScanPos, acc: Seq<TokenView>)
    requires
        forall|j: int| 0 <= j < acc.len() ==> !(#[trigger] acc[j].kind is Eof),
    ensures
        scan_from(src, p, acc) matches Ok(vs) ==> {
            &&& vs.len() >= 1
            &&& vs[vs.len() - 1].kind is Eof
            &&& forall|j: int| 0 <= j < vs.len() - 1 ==> !(#[trigger] vs[j].kind is Eof)
        },
    decreases src.len() - p.cur,
{
    if p.cur < src.len() {
        lemma_scan_step_not_eof(src, p);
        lemma_scan_step_advances(src, p);
        match scan_step(src, p) {
            Ok((q, t)) => {
                let acc2 = acc + opt_seq(t);
                assert forall|j: int| 0 <= j < acc2.len() implies !(#[trigger] acc2[j].kind is Eof) by {
                    if j >= acc.len() {
                        assert(acc2[j] == t->0);
                    }
                }
                lemma_scan_from_eof(src, q, acc2);
            },
            Err(_) => {},
        }
    } else {
        let vs = acc.push(eof_token(p));
        assert forall|j: int| 0 <= j < vs.len() - 1 implies !(#[trigger] vs[j].kind is Eof) by {
            assert(vs[j] == acc[j]);
        }
    }
}

/// The tokens of a source text end with exactly one end-of-input token, the last.
pub proof fn lemma_lex_ends_with_eof(src: Seq<char>)
    ensures
        lex(src) matches Ok(vs) ==> {
            &&& vs.len() >= 1
            &&& vs[vs.len() - 1].kind is Eof
            &&& forall|j: int| 0 <= j < vs.len() - 1 ==> !(#[trigger] vs[j].kind is Eof)
        },
{
    lemma_scan_from_eof(src, ScanPos { cur: 0, line: 1, col: 1 }, seq![]);
}

/// Whether the tokens' line numbers never go back, and every token before the last has text.
pub open spec fn in_source_order(vs: Seq<TokenView>) -> bool {
    &&& forall|i: int, j: int| 0 <= i <= j < vs.len() ==> #[trigger] vs[i].line <= #[trigger] vs[j].line
    &&& forall|i: int| 0 <= i < vs.len() - 1 ==> #[trigger] vs[i].lexeme.len() >= 1
}

/// A step of scanning never goes back a line, and the token it makes, if any, has text and is
/// on the line where the step began.
proof fn lemma_scan_step_lines(src: Seq<char>, p: ScanPos)
    requires
        p.cur < src.len(),
    ensures
        scan_step(src, p) matches Ok((q, t)) ==> q.line >= p.line && (t matches Some(x) ==> x.line == p.line
            && x.lexeme.len() >= 1),
{
    lemma_scan_step_advances(src, p);
    lemma_ident_end(src, p.cur + 1);
    lemma_digits_end(src, p.cur + 1);
    if p.cur + 2 <= src.len() {
        lemma_block_comment_end(src, p.cur + 2, p.line, p.col + 2);
    }
    let e = digits_end(src, p.cur + 1);
    if e + 1 < src.len() {
        lemma_digits_end(src, e + 1);
    }
}

/// Scanning on from `p`, after tokens in order and no later than `p`'s line, keeps them in order.
proof fn lemma_scan_from_order(src: Seq<char>, p: ScanPos, acc: Seq<TokenView>)
    requires
        forall|i: int, j: int| 0 <= i <= j < acc.len() ==> #[trigger] acc[i].line <= #[trigger] acc[j].line,
        forall|i: int| 0 <= i < acc.len() ==> #[trigger] acc[i].lexeme.len() >= 1,
        forall|i: int| 0 <= i < acc.len() ==> #[trigger] acc[i].line <= p.line,
    ensures
        scan_from(src, p, acc) matches Ok(vs) ==> in_source_order(vs),
    decreases src.len() - p.cur,
{
    if p.cur < src.len() {
        lemma_scan_step_lines(src, p);
        lemma_scan_step_advances(src, p);
        if let Ok((q, t)) = scan_step(src, p) {
            let acc2 = acc + opt_seq(t);
            assert forall|i: int| 0 <= i < acc2.len() implies #[trigger] acc2[i].line <= q.line && acc2[i].lexeme.len() >= 1 by {
                if i >= acc.len() {
                    assert(acc2[i] == t->0);
                } else {
                    assert(acc2[i] == acc[i]);
                }
            }
            assert forall|i: int, j: int| 0 <= i <= j < acc2.len() implies #[trigger] acc2[i].line <= #[trigger] acc2[j].line by {
                if j >= acc.len() {
                    assert(acc2[j] == t->0);
                    if i < acc.len() {
                        assert(acc2[i] == acc[i]);
                    }
                } else {
                    assert(acc2[i] == acc[i]);
                    assert(acc2[j] == acc[j]);
                }
            }
            lemma_scan_from_order(src, q, acc2);
        }
    } else {
        let vs = acc.push(eof_token(p));
        assert forall|i: int, j: int| 0 <= i <= j < vs.len() implies #[trigger] vs[i].line <= #[trigger] vs[j].line by {
            if j < acc.len() {
                assert(vs[i] == acc[i]);
                assert(vs[j] == acc[j]);
            } else if i < acc.len() {
                assert(vs[i] == acc[i]);
            }
        }
        assert forall|i: int| 0 <= i < vs.len() - 1 implies #[trigger] vs[i].lexeme.len() >= 1 by {
            assert(vs[i] == acc[i]);
        }
    }
}

/// The tokens of a source text come in the order of the source: their line numbers never go
/// back, and every token but the final end-of-input one has text.
pub proof fn lemma_lex_in_source_order(src: Seq<char>)
    ensures
        lex(src) matches Ok(vs) ==> in_source_order(vs),
{
    lemma_scan_from_order(src, ScanPos { cur: 0, line: 1, col: 1 }, seq![]);
}

/// A word's token is spelled by the word: a keyword or type name has that text, and any other
/// word is an identifier carrying it.
proof fn lemma_word_text(text: Seq<char>, line: nat, column: nat)
    requires
        text.len() > 0,
    ensures
        text_matches(TokenView { kind: word_kind(text), lexeme: text, line, column }),
{
}

/// The token a step of scanning makes has the text its kind says.
proof fn lemma_scan_step_text(src: Seq<char>, p: ScanPos)
    requires
        p.cur < src.len(),
    ensures
        scan_step(src, p) matches Ok((_, Some(t))) ==> text_matches(t),
{
    lemma_scan_step_advances(src, p);
    lemma_ident_end(src, p.cur + 1);
    lemma_digits_end(src, p.cur + 1);
    let e = digits_end(src, p.cur + 1);
    if e + 1 < src.len() {
        lemma_digits_end(src, e + 1);
    }
    let c = src[p.cur as int];
    assert(src.subrange(p.cur as int, p.cur as int + 1) =~= seq![c]);
    if p.cur + 1 < src.len() {
        assert(src.subrange(p.cur as int, p.cur as int + 2) =~= seq![c, src[p.cur as int + 1]]);
    }
    reveal_strlit("+");
    assert(seq!['+'] =~= "+"@);
    reveal_strlit("-");
    assert(seq!['-'] =~= "-"@);
    reveal_strlit("*");
    assert(seq!['*'] =~= "*"@);
    reveal_strlit("/");
    assert(seq!['/'] =~= "/"@);
    reveal_strlit("%");
    assert(seq!['%'] =~= "%"@);
    reveal_strlit("<");
    assert(seq!['<'] =~= "<"@);
    reveal_strlit(">");
    assert(seq!['>'] =~= ">"@);
    reveal_strlit("!");
    assert(seq!['!'] =~= "!"@);
    reveal_strlit("&");
    assert(seq!['&'] =~= "&"@);
    reveal_strlit("=");
    assert(seq!['='] =~= "="@);
    reveal_strlit("(");
    assert(seq!['('] =~= "("@);
    reveal_strlit(")");
    assert(seq![')'] =~= ")"@);
    reveal_strlit("{");
    assert(seq!['{'] =~= "{"@);
    reveal_strlit("}");
    assert(seq!['}'] =~= "}"@);
    reveal_strlit("[");
    assert(seq!['['] =~= "["@);
    reveal_strlit("]");
    assert(seq![']'] =~= "]"@);
    reveal_strlit(".");
    assert(seq!['.'] =~= "."@);
    reveal_strlit(":");
    assert(seq![':'] =~= ":"@);
    reveal_strlit(";");
    assert(seq![';'] =~= ";"@);
    reveal_strlit(",");
    assert(seq![','] =~= ","@);
    reveal_strlit("==");
    assert(seq!['=', '='] =~= "=="@);
    reveal_strlit("!=");
    assert(seq!['!', '='] =~= "!="@);
    reveal_strlit("<=");
    assert(seq!['<', '='] =~= "<="@);
    reveal_strlit(">=");
    assert(seq!['>', '='] =~= ">="@);
    reveal_strlit("&&");
    assert(seq!['&', '&'] =~= "&&"@);
    reveal_strlit("||");
    assert(seq!['|', '|'] =~= "||"@);
    reveal_strlit("->");
    assert(seq!['-', '>'] =~= "->"@);
    reveal_strlit("<-");
    assert(seq!['<', '-'] =~= "<-"@);
    reveal_strlit("..");
    assert(seq!['.', '.'] =~= ".."@);
    reveal_strlit("::");
    assert(seq![':', ':'] =~= "::"@);
    let w = src.subrange(p.cur as int, ident_end(src, p.cur + 1) as int);
    lemma_word_text(w, p.line, p.col + (ident_end(src, p.cur + 1) - p.cur) as nat);
}

/// Scanning on from `p`, after tokens whose text matches their kinds, gives only such tokens.
proof fn lemma_scan_from_text(src: Seq<char>, p: ScanPos, acc: Seq<TokenView>)
    requires
        forall|i: int| 0 <= i < acc.len() ==> #[trigger] text_matches(acc[i]),
    ensures
        scan_from(src, p, acc) matches Ok(vs) ==> forall|i: int| 0 <= i < vs.len() ==> #[trigger] text_matches(vs[i]),
    decreases src.len() - p.cur,
{
    if p.cur < src.len() {
        lemma_scan_step_text(src, p);
        lemma_scan_step_advances(src, p);
        if let Ok((q, t)) = scan_step(src, p) {
            let acc2 = acc + opt_seq(t);
            assert forall|i: int| 0 <= i < acc2.len() implies #[trigger] text_matches(acc2[i]) by {
                if i >= acc.len() {
                    assert(acc2[i] == t->0);
                } else {
                    assert(acc2[i] == acc[i]);
                }
            }
            lemma_scan_from_text(src, q, acc2);
        }
    } else {
        let vs = acc.push(eof_token(p));
        assert forall|i: int| 0 <= i < vs.len() implies #[trigger] text_matches(vs[i]) by {
            if i < acc.len() {
                assert(vs[i] == acc[i]);
            }
        }
    }
}

/// Every token of a source text is what its text says: an operator, a symbol, a keyword or a
/// type name is spelled as its kind (so a token of kind `Slash` is the text "/", and the text
/// "%" gives `Percent`), a name or a number carries its own text, and the end of input has none.
pub proof fn lemma_lex_text_matches(src: Seq<char>)
    ensures
        lex(src) matches Ok(vs) ==> forall|i: int| 0 <= i < vs.len() ==> #[trigger] text_matches(vs[i]),
{
    lemma_scan_from_text(src, ScanPos { cur: 0, line: 1, col: 1 }, seq![]);
}

// ---------------------------------------------------------------------------
// Facts about the grammar functions.
// ---------------------------------------------------------------------------

proof fn lemma_ident_end(src: Seq<char>, i: nat)
    requires
        i <= src.len(),
    ensures
        i <= ident_end(src, i) <= src.len(),
    decreases src.len() - i,
{
    if i < src.len() && ident_char(src[i as int]) {
        lemma_ident_end(src, i + 1);
    }
}

proof fn lemma_digits_end(src: Seq<char>, i: nat)
    requires
        i <= src.len(),
    ensures
        i <= digits_end(src, i) <= src.len(),
    decreases src.len() - i,
{
    if i < src.len() && is_digit(src[i as int]) {
        lemma_digits_end(src, i + 1);
    }
}

proof fn lemma_line_end(src: Seq<char>, i: nat)
    requires
        i <= src.len(),
    ensures
        i <= line_end(src, i) <= src.len(),
    decreases src.len() - i,
{
    if i < src.len() && src[i as int] != '\n' {
        lemma_line_end(src, i + 1);
    }
}

proof fn lemma_block_comment_end(src: Seq<char>, i: nat, line: nat, col: nat)
    requires
        i <= src.len(),
    ensures
        block_comment_end(src, i, line, col) matches Ok(q) ==> i < q.cur <= src.len() && q.line >= line,
    decreases src.len() - i,
{
    if i < src.len() {
        if src[i as int] == '*' {
            if !next_is(src, i + 1, '/') {
                lemma_block_comment_end(src, i + 1, line, col + 1);
            }
        } else if src[i as int] == '\n' {
            lemma_block_comment_end(src, i + 1, line + 1, 1);
        } else {
            lemma_block_comment_end(src, i + 1, line, col + 1);
        }
    }
}

/// Every step of scanning moves forward and stays within the source.
pub proof fn lemma_scan_step_advances(src: Seq<char>, p: ScanPos)
    requires
        p.cur < src.len(),
    ensures
        scan_step(src, p) matches Ok((q, _)) ==> p.cur < q.cur <= src.len(),
{
    lemma_ident_end(src, p.cur + 1);
    lemma_digits_end(src, p.cur + 1);
    if p.cur + 2 <= src.len() {
        lemma_line_end(src, p.cur + 2);
        lemma_block_comment_end(src, p.cur + 2, p.line, p.col + 2);
    }
    let e = digits_end(src, p.cur + 1);
    if e + 1 < src.len() {
        lemma_digits_end(src, e + 1);
    }
}

// ---------------------------------------------------------------------------
// The scanner.
// ---------------------------------------------------------------------------

/// Turns source text into tokens, one character at a time.
pub struct Scanner {
    source: Vec<char>,
    tokens: Vec<Token>,
    start: usize,
    current: usize,
    line: usize,
    column: usize,
}

impl Scanner {
    /// The position the scanner has reached.
    pub closed spec fn pos(&self) -> ScanPos {
        ScanPos { cur: self.current as nat, line: self.line as nat, col: self.column as nat }
    }

    /// The characters being scanned.
    pub closed spec fn text(&self) -> Seq<char> {
        self.source@
    }

    /// The tokens produced so far.
    pub closed spec fn produced(&self) -> Seq<TokenView> {
        token_views(self.tokens@)
    }

    /// The scanner's counters stay within the source, so that no counter can overflow.
    pub closed spec fn wf(&self) -> bool {
        &&& self.source.len() < usize::MAX
        &&& self.start <= self.current <= self.source.len()
        &&& 1 <= self.line <= self.current + 1
        &&& 1 <= self.column <= self.current + 1
    }

    /// A scanner at the start of `source`.
    pub fn new(source: &str) -> (s: Scanner)
        requires
            source@.len() < usize::MAX,
        ensures
            s.wf(),
            s.text() == source@,
            s.pos() == (ScanPos { cur: 0, line: 1, col: 1 }),
            s.produced() == Seq::<TokenView>::empty(),
    {
        let s = Scanner {
            source: chars_of(source),
            tokens: Vec::new(),
            start: 0,
            current: 0,
            line: 1,
            column: 1,
        };
        assert(token_views(s.tokens@) =~= Seq::<TokenView>::empty());
        s
    }

    /// Scans the whole source: its tokens, ending with the end-of-input token, or the first
    /// lexical error.
    pub fn scan_tokens(self) -> (r: Result<Vec<Token>, String>)
        requires
            self.wf(),
            self.pos() == (ScanPos { cur: 0, line: 1, col: 1 }),
            self.produced() == Seq::<TokenView>::empty(),
        ensures
            match (r, lex(self.text())) {
                (Ok(ts), Ok(vs)) => token_views(ts@) == vs,
                (Err(e), Err(m)) => e@ == m,
                _ => false,
            },
    {
        let mut s = self;
        let r = s.scan_to_end();
        match r {
            Err(e) => Err(e),
            Ok(()) => Ok(s.tokens),
        }
    }

    /// Scans from the current position to the end of the source, then adds the end-of-input
    /// token.
    fn scan_to_end(&mut self) -> (r: Result<(), String>)
        requires
            old(self).wf(),
        ensures
            match (r, scan_from(old(self).source@, old(self).pos(), old(self).produced())) {
                (Ok(()), Ok(vs)) => final(self).produced() == vs,
                (Err(e), Err(m)) => e@ == m,
                _ => false,
            },
    {
        let ghost src = self.source@;
        let ghost target = scan_from(src, self.pos(), self.produced());
        while !self.is_at_end()
            invariant
                self.wf(),
                self.source@ == src,
                src == old(self).source@,
                target == scan_from(old(self).source@, old(self).pos(), old(self).produced()),
                scan_from(src, self.pos(), self.produced()) == target,
            decreases src.len() - self.current,
        {
            self.start = self.current;
            let ghost p = self.pos();
            proof { lemma_scan_step_advances(src, p); }
            let r = self.scan_token();
            match r {
                Err(e) => {
                    return Err(e);
                },
                Ok(()) => {},
            }
        }
        let eof = Token::new(TokenType::Eof, String::new(), self.line, self.column);
        let ghost before = self.tokens@;
        self.tokens.push(eof);
        assert(token_views(self.tokens@) =~= token_views(before).push(eof@));
        Ok(())
    }

    /// Scans one token (or skips whitespace or a comment) from `start == current`.
    fn scan_token(&mut self) -> (r: Result<(), String>)
        requires
            old(self).wf(),
            old(self).start == old(self).current,
            old(self).current < old(self).source.len(),
        ensures
            final(self).source@ == old(self).source@,
            match scan_step(old(self).source@, old(self).pos()) {
                Ok((q, t)) => r is Ok && final(self).wf() && final(self).pos() == q
                    && final(self).produced() == old(self).produced() + opt_seq(t),
                Err(m) => r matches Err(e) && e@ == m,
            },
    {
        let ghost src = self.source@;
        let ghost p = self.pos();
        proof { lemma_scan_step_advances(src, p); }
        let c = self.advance();
        if c == ' ' || c == '\r' || c == '\t' {
        } else if c == '\n' {
            self.line += 1;
            self.column = 1;
        } else if c == '(' {
            self.add_token(TokenType::LeftParen);
        } else if c == ')' {
            self.add_token(TokenType::RightParen);
        } else if c == '{' {
            self.add_token(TokenType::LeftBrace);
        } else if c == '}' {
            self.add_token(TokenType::RightBrace);
        } else if c == '[' {
            self.add_token(TokenType::LeftBracket);
        } else if c == ']' {
            self.add_token(TokenType::RightBracket);
        } else if c == ':' {
            if self.match_char(':') {
                self.add_token(TokenType::ColonColon);
            } else {
                self.add_token(TokenType::Colon);
            }
        } else if c == ';' {
            self.add_token(TokenType::Semicolon);
        } else if c == ',' {
            self.add_token(TokenType::Comma);
        } else if c == '+' {
            self.add_token(TokenType::Plus);
        } else if c == '*' {
            self.add_token(TokenType::Star);
        } else if c == '%' {
            self.add_token(TokenType::Percent);
        } else if c == '=' {
            if self.match_char('=') {
                self.add_token(TokenType::EqualEqual);
            } else {
                self.add_token(TokenType::Equal);
            }
        } else if c == '!' {
            if self.match_char('=') {
                self.add_token(TokenType::BangEqual);
            } else {
                self.add_token(TokenType::Bang);
            }
        } else if c == '<' {
            if self.match_char('=') {
                self.add_token(TokenType::LessEqual);
            } else if self.match_char('-') {
                self.add_token(TokenType::LeftArrow);
            } else {
                self.add_token(TokenType::Less);
            }
        } else if c == '>' {
            if self.match_char('=') {
                self.add_token(TokenType::GreaterEqual);
            } else {
                self.add_token(TokenType::Greater);
            }
        } else if c == '&' {
            if self.match_char('&') {
                self.add_token(TokenType::AmpAmp);
            } else {
                self.add_token(TokenType::Amp);
            }
        } else if c == '|' {
            if self.match_char('|') {
                self.add_token(TokenType::PipePipe);
            } else {
                let mut m = string_from("Unexpected character '|' at line ");
                m.append(usize_to_string(self.line).as_str());
                return Err(m);
            }
        } else if c == '/' {
            if self.match_char('/') {
                self.skip_line_comment();
            } else if self.match_char('*') {
                let r = self.skip_block_comment();
                match r {
                    Err(e) => {
                        return Err(e);
                    },
                    Ok(()) => {},
                }
            } else {
                self.add_token(TokenType::Slash);
            }
        } else if c == '-' {
            if self.match_char('>') {
                self.add_token(TokenType::Arrow);
            } else {
                self.add_token(TokenType::Minus);
            }
        } else if c == '.' {
            if self.match_char('.') {
                self.add_token(TokenType::DotDot);
            } else {
                self.add_token(TokenType::Dot);
            }
        } else if char_is_alphabetic(c) || c == '_' {
            self.identifier();
        } else if c >= '0' && c <= '9' {
            self.number();
        } else {
            let mut m = string_from("Unexpected character '");
            push_char(&mut m, c);
            m.append("' at line ");
            m.append(usize_to_string(self.line).as_str());
            m.append(" column ");
            m.append(usize_to_string(self.column).as_str());
            assert(m@ =~= unexpected_char_message(c, p.line, p.col + 1));
            return Err(m);
        }
        assert(self.produced() =~= old(self).produced() + opt_seq(scan_step(src, p)->Ok_0.1));
        Ok(())
    }

    /// Skips the rest of a line comment, up to (not including) the newline.
    fn skip_line_comment(&mut self)
        requires
            old(self).wf(),
        ensures
            final(self).wf(),
            final(self).source@ == old(self).source@,
            final(self).tokens@ == old(self).tokens@,
            final(self).start == old(self).start,
            final(self).line == old(self).line,
            final(self).current == line_end(old(self).source@, old(self).current as nat),
            final(self).column == old(self).column + (final(self).current - old(self).current),
    {
        let ghost src = self.source@;
        let ghost c0 = self.current;
        let ghost col0 = self.column;
        proof { lemma_line_end(src, c0 as nat); }
        while self.peek() != '\n' && !self.is_at_end()
            invariant
                self.wf(),
                self.source@ == src,
                src == old(self).source@,
                c0 == old(self).current,
                col0 == old(self).column,
                self.tokens@ == old(self).tokens@,
                self.start == old(self).start,
                self.line == old(self).line,
                c0 <= self.current,
                line_end(src, self.current as nat) == line_end(src, c0 as nat),
                self.column == col0 + (self.current - c0),
            decreases src.len() - self.current,
        {
            self.advance();
        }
    }

    /// Skips the body of a block comment, through its closing `*/`.
    fn skip_block_comment(&mut self) -> (r: Result<(), String>)
        requires
            old(self).wf(),
        ensures
            final(self).source@ == old(self).source@,
            match block_comment_end(old(self).source@, old(self).current as nat, old(self).line as nat, old(self).column as nat) {
                Ok(q) => r is Ok && final(self).wf() && final(self).pos() == q
                    && final(self).tokens@ == old(self).tokens@ && final(self).start == old(self).start,
                Err(m) => r matches Err(e) && e@ == m,
            },
    {
        let ghost src = self.source@;
        let ghost target = block_comment_end(src, self.current as nat, self.line as nat, self.column as nat);
        while !self.is_at_end()
            invariant
                self.wf(),
                self.source@ == src,
                src == old(self).source@,
                target == block_comment_end(old(self).source@, old(self).current as nat, old(self).line as nat, old(self).column as nat),
                self.tokens@ == old(self).tokens@,
                self.start == old(self).start,
                block_comment_end(src, self.current as nat, self.line as nat, self.column as nat) == target,
            decreases src.len() - self.current,
        {
            if self.peek() == '*' {
                self.advance();
                if self.match_char('/') {
                    return Ok(());
                }
            } else if self.peek() == '\n' {
                self.advance();
                self.line += 1;
                self.column = 1;
            } else {
                self.advance();
            }
        }
        let mut m = string_from("Unterminated block comment at line ");
        m.append(usize_to_string(self.line).as_str());
        Err(m)
    }

    /// Scans the rest of a word whose first character has been consumed.
    fn identifier(&mut self)
        requires
            old(self).wf(),
            old(self).start < old(self).current,
        ensures
            final(self).wf(),
            final(self).source@ == old(self).source@,
            final(self).start == old(self).start,
            final(self).line == old(self).line,
            final(self).current == ident_end(old(self).source@, old(self).current as nat),
            final(self).column == old(self).column + (final(self).current - old(self).current),
            final(self).produced() == old(self).produced().push(make_token(
                old(self).source@, old(self).start as nat, final(self).current as nat,
                old(self).line as nat, final(self).column as nat,
                word_kind(old(self).source@.subrange(old(self).start as int, final(self).current as int)),
            )),
    {
        let ghost src = self.source@;
        let ghost c0 = self.current;
        let ghost col0 = self.column;
        proof { lemma_ident_end(src, c0 as nat); }
        loop
            invariant
                self.wf(),
                self.source@ == src,
                src == old(self).source@,
                c0 == old(self).current,
                col0 == old(self).column,
                self.tokens@ == old(self).tokens@,
                self.start == old(self).start,
                self.line == old(self).line,
                c0 <= self.current,
                ident_end(src, self.current as nat) == ident_end(src, c0 as nat),
                self.column == col0 + (self.current - c0),
            ensures
                self.wf(),
                self.source@ == src,
                self.tokens@ == old(self).tokens@,
                self.start == old(self).start,
                self.line == old(self).line,
                self.current == ident_end(src, c0 as nat),
                self.column == col0 + (self.current - c0),
            decreases src.len() - self.current,
        {
            let c = self.peek();
            if !(char_is_alphanumeric(c) || c == '_') {
                break;
            }
            self.advance();
        }
        let text = string_of_range(&self.source, self.start, self.current);
        let chars = self.source_range(self.start, self.current);
        let kind = word_kind_of(&chars, text);
        self.add_token(kind);
    }

    /// Scans the rest of a number whose first digit has been consumed.
    fn number(&mut self)
        requires
            old(self).wf(),
            old(self).start + 1 == old(self).current,
        ensures
            final(self).wf(),
            final(self).source@ == old(self).source@,
            final(self).start == old(self).start,
            ({
                let (q, t) = number_token(old(self).source@, ScanPos {
                    cur: old(self).start as nat, line: old(self).line as nat, col: (old(self).column - 1) as nat });
                &&& final(self).pos() == q
                &&& final(self).produced() == old(self).produced() + opt_seq(t)
            }),
    {
        let ghost src = self.source@;
        let ghost c0 = self.current;
        let ghost col0 = self.column;
        proof {
            lemma_digits_end(src, c0 as nat);
        }
        while self.peek() >= '0' && self.peek() <= '9'
            invariant
                self.wf(),
                self.source@ == src,
                src == old(self).source@,
                c0 == old(self).current,
                col0 == old(self).column,
                self.tokens@ == old(self).tokens@,
                self.start == old(self).start,
                self.line == old(self).line,
                c0 <= self.current,
                digits_end(src, self.current as nat) == digits_end(src, c0 as nat),
                self.column == col0 + (self.current - c0),
            decreases src.len() - self.current,
        {
            self.advance();
        }
        let n = self.peek_next();
        if self.peek() == '.' && n >= '0' && n <= '9' {
            self.advance();
            let ghost c1 = self.current;
            proof { lemma_digits_end(src, c1 as nat); }
            while self.peek() >= '0' && self.peek() <= '9'
                invariant
                    self.wf(),
                    self.source@ == src,
                    self.tokens@ == old(self).tokens@,
                    self.start == old(self).start,
                    self.line == old(self).line,
                    c1 <= self.current,
                    digits_end(src, self.current as nat) == digits_end(src, c1 as nat),
                    self.column == col0 + (self.current - c0),
                decreases src.len() - self.current,
            {
                self.advance();
            }
            let text = string_of_range(&self.source, self.start, self.current);
            let ghost before = self.produced();
            self.add_token(TokenType::FloatLiteral(text));
            assert(self.produced() =~= before + opt_seq(number_token(src, ScanPos {
                cur: old(self).start as nat, line: old(self).line as nat, col: (old(self).column - 1) as nat }).1));
        } else {
            let text = string_of_range(&self.source, self.start, self.current);
            let ghost before = self.produced();
            self.add_token(TokenType::IntLiteral(text));
            assert(self.produced() =~= before + opt_seq(number_token(src, ScanPos {
                cur: old(self).start as nat, line: old(self).line as nat, col: (old(self).column - 1) as nat }).1));
        }
    }

    /// A copy of the characters `source[from..to]`.
    fn source_range(&self, from: usize, to: usize) -> (v: Vec<char>)
        requires
            from <= to <= self.source.len(),
        ensures
            v@ == self.source@.subrange(from as int, to as int),
    {
        let mut v: Vec<char> = Vec::new();
        let mut i = from;
        while i < to
            invariant
                from <= i <= to <= self.source.len(),
                v@ == self.source@.subrange(from as int, i as int),
            decreases to - i,
        {
            v.push(self.source[i]);
            i += 1;
            assert(v@ =~= self.source@.subrange(from as int, i as int));
        }
        v
    }

    /// The character after the next one, or '\0' past the end.
    fn peek_next(&self) -> (c: char)
        requires
            self.wf(),
        ensures
            c == if self.current + 1 < self.source.len() { self.source@[self.current + 1] } else { '\0' },
    {
        if self.current + 1 >= self.source.len() {
            '\0'
        } else {
            self.source[self.current + 1]
        }
    }

    /// Consumes and returns the next character.
    fn advance(&mut self) -> (c: char)
        requires
            old(self).wf(),
            old(self).current < old(self).source.len(),
        ensures
            final(self).wf(),
            c == old(self).source@[old(self).current as int],
            final(self).current == old(self).current + 1,
            final(self).column == old(self).column + 1,
            final(self).line == old(self).line,
            final(self).start == old(self).start,
            final(self).source@ == old(self).source@,
            final(self).tokens@ == old(self).tokens@,
    {
        let c = self.source[self.current];
        self.current += 1;
        self.column += 1;
        c
    }

    /// The next character, or '\0' at the end.
    fn peek(&self) -> (c: char)
        ensures
            c == if self.current < self.source.len() { self.source@[self.current as int] } else { '\0' },
    {
        if self.is_at_end() {
            '\0'
        } else {
            self.source[self.current]
        }
    }

    /// Consumes the next character when it is `expected`.
    fn match_char(&mut self, expected: char) -> (b: bool)
        requires
            old(self).wf(),
        ensures
            final(self).wf(),
            b == next_is(old(self).source@, old(self).current as nat, expected),
            final(self).current == old(self).current + if b { 1int } else { 0int },
            final(self).column == old(self).column + if b { 1int } else { 0int },
            final(self).line == old(self).line,
            final(self).start == old(self).start,
            final(self).source@ == old(self).source@,
            final(self).tokens@ == old(self).tokens@,
    {
        if self.is_at_end() {
            return false;
        }
        if self.source[self.current] != expected {
            return false;
        }
        self.current += 1;
        self.column += 1;
        true
    }

    /// Records a token of kind `token_type` made of `source[start..current]`.
    fn add_token(&mut self, token_type: TokenType)
        requires
            old(self).wf(),
        ensures
            final(self).wf(),
            final(self).pos() == old(self).pos(),
            final(self).start == old(self).start,
            final(self).source@ == old(self).source@,
            final(self).produced() == old(self).produced().push(make_token(
                old(self).source@, old(self).start as nat, old(self).current as nat,
                old(self).line as nat, old(self).column as nat, token_type@)),
    {
        let text = string_of_range(&self.source, self.start, self.current);
        let t = Token::new(token_type, text, self.line, self.column);
        let ghost before = self.tokens@;
        self.tokens.push(t);
        assert(token_views(self.tokens@) =~= token_views(before).push(t@));
    }

    /// Whether every character has been consumed.
    fn is_at_end(&self) -> (b: bool)
        ensures
            b == (self.current >= self.source.len()),
    {
        self.current >= self.source.len()
    }
}

/// The token kind of a word, given its characters and its text.
fn word_kind_of(chars: &Vec<char>, text: String) -> (k: TokenType)
    requires
        text@ == chars@,
    ensures
        k@ == word_kind(chars@),
{
    if chars_equal_str(chars, "def") { TokenType::Def }
    else if chars_equal_str(chars, "return") { TokenType::Return }
    else if chars_equal_str(chars, "val") { TokenType::Val }
    else if chars_equal_str(chars, "var") { TokenType::Var }
    else if chars_equal_str(chars, "mut") { TokenType::Mut }
    else if chars_equal_str(chars, "if") { TokenType::If }
    else if chars_equal_str(chars, "else") { TokenType::Else }
    else if chars_equal_str(chars, "while") { TokenType::While }
    else if chars_equal_str(chars, "loop") { TokenType::Loop }
    else if chars_equal_str(chars, "for") { TokenType::For }
    else if chars_equal_str(chars, "in") { TokenType::In }
    else if chars_equal_str(chars, "break") { TokenType::Break }
    else if chars_equal_str(chars, "continue") { TokenType::Continue }
    else if chars_equal_str(chars, "struct") { TokenType::Struct }
    else if chars_equal_str(chars, "impl") { TokenType::Impl }
    else if chars_equal_str(chars, "self") { TokenType::SelfKeyword }
    else if chars_equal_str(chars, "i8") { TokenType::I8 }
    else if chars_equal_str(chars, "i16") { TokenType::I16 }
    else if chars_equal_str(chars, "i32") { TokenType::I32 }
    else if chars_equal_str(chars, "i64") { TokenType::I64 }
    else if chars_equal_str(chars, "u8") { TokenType::U8 }
    else if chars_equal_str(chars, "u16") { TokenType::U16 }
    else if chars_equal_str(chars, "u32") { TokenType::U32 }
    else if chars_equal_str(chars, "u64") { TokenType::U64 }
    else if chars_equal_str(chars, "f32") { TokenType::F32 }
    else if chars_equal_str(chars, "f64") { TokenType::F64 }
    else if chars_equal_str(chars, "bool") { TokenType::Bool }
    else if chars_equal_str(chars, "void") { TokenType::Void }
    else if chars_equal_str(chars, "true") { TokenType::True }
    else if chars_equal_str(chars, "false") { TokenType::False }
    else { TokenType::Identifier(text) }
}

} // verus!
