use vstd::prelude::*;
use vstd::string::*;
use vstd::std_specs::iter::IteratorSpec;
use crate::token::{Token, TokenType, TokenView, tokens_view};

verus! {

/// What went wrong while scanning.
#[derive(Debug, Clone, Copy, PartialEq, Eq, Structural)]
pub enum LexErrorKind {
    UnexpectedCharacter,
    UnterminatedString,
}

/// A lexical error and the line it was found on.
#[derive(Debug, Clone, Copy, PartialEq, Eq, Structural)]
pub struct LexError {
    pub ln: usize,
    pub kind: LexErrorKind,
}

impl LexErrorKind {
    pub open spec fn message_text(&self) -> Seq<char> {
        match self {
            LexErrorKind::UnexpectedCharacter => "Unexpected character."@,
            LexErrorKind::UnterminatedString => "Unterminated string."@,
        }
    }

    pub fn message(&self) -> (r: &'static str)
        ensures
            r@ == self.message_text(),
    {
        match self {
            LexErrorKind::UnexpectedCharacter => "Unexpected character.",
            LexErrorKind::UnterminatedString => "Unterminated string.",
        }
    }
}

/// Whether `char::is_alphabetic` holds of a character.
pub uninterp spec fn alphabetic(c: char) -> bool;

/// Whether `char::is_alphanumeric` holds of a character.
pub uninterp spec fn alphanumeric(c: char) -> bool;

/// Relies on char::is_alphabetic, which tests the Unicode Alphabetic property.
#[verifier::external_body]
fn is_alphabetic(c: char) -> (r: bool)
    ensures
        r == alphabetic(c),
{
    c.is_alphabetic()
}

/// Relies on char::is_alphanumeric, which tests the Unicode Alphabetic and
/// Numeric properties.
#[verifier::external_body]
fn is_alphanumeric(c: char) -> (r: bool)
    ensures
        r == alphanumeric(c),
{
    c.is_alphanumeric()
}

pub open spec fn is_digit(c: char) -> bool {
    '0' <= c && c <= '9'
}

/// The kind of a token made of one character that never starts a longer token.
pub open spec fn single_kind(c: char) -> Option<TokenType> {
    if c == '(' {
        Some(TokenType::LeftParen)
    } else if c == ')' {
        Some(TokenType::RightParen)
    } else if c == '{' {
        Some(TokenType::LeftBrace)
    } else if c == '}' {
        Some(TokenType::RightBrace)
    } else if c == ',' {
        Some(TokenType::Comma)
    } else if c == '.' {
        Some(TokenType::Dot)
    } else if c == '-' {
        Some(TokenType::Minus)
    } else if c == '+' {
        Some(TokenType::Plus)
    } else if c == ';' {
        Some(TokenType::Semicolon)
    } else if c == '*' {
        Some(TokenType::Star)
    } else {
        None
    }
}

/// For a character that may be followed by `=`: the kind alone, and the kind
/// of the two-character form.
pub open spec fn pair_kinds(c: char) -> Option<(TokenType, TokenType)> {
    if c == '!' {
        Some((TokenType::Bang, TokenType::BangEqual))
    } else if c == '=' {
        Some((TokenType::Equal, TokenType::EqualEqual))
    } else if c == '<' {
        Some((TokenType::Less, TokenType::LessEqual))
    } else if c == '>' {
        Some((TokenType::Greater, TokenType::GreaterEqual))
    } else {
        None
    }
}

/// The kind of a word: its keyword, or an identifier.
pub open spec fn keyword(w: Seq<char>) -> TokenType {
    if w == "and"@ {
        TokenType::And
    } else if w == "class"@ {
        TokenType::Class
    } else if w == "else"@ {
        TokenType::Else
    } else if w == "false"@ {
        TokenType::False
    } else if w == "for"@ {
        TokenType::For
    } else if w == "fn"@ {
        TokenType::Fn
    } else if w == "if"@ {
        TokenType::If
    } else if w == "nil"@ {
        TokenType::Nil
    } else if w == "or"@ {
        TokenType::Or
    } else if w == "print"@ {
        TokenType::Print
    } else if w == "return"@ {
        TokenType::Return
    } else if w == "super"@ {
        TokenType::Super
    } else if w == "this"@ {
        TokenType::This
    } else if w == "true"@ {
        TokenType::True
    } else if w == "var"@ {
        TokenType::Var
    } else if w == "while"@ {
        TokenType::While
    } else {
        TokenType::Id
    }
}

/// The end of the run of digits that starts at `i`.
pub open spec fn digits_end(s: Seq<char>, i: int) -> int
    decreases s.len() - i,
{
    if 0 <= i < s.len() && is_digit(s[i]) {
        digits_end(s, i + 1)
    } else {
        i
    }
}

/// The end of the run of alphanumeric characters that starts at `i`.
pub open spec fn word_end(s: Seq<char>, i: int) -> int
    decreases s.len() - i,
{
    if 0 <= i < s.len() && alphanumeric(s[i]) {
        word_end(s, i + 1)
    } else {
        i
    }
}

/// The first newline at or after `i`, or the end of the text.
pub open spec fn line_end(s: Seq<char>, i: int) -> int
    decreases s.len() - i,
{
    if 0 <= i < s.len() && s[i] != '\n' {
        line_end(s, i + 1)
    } else {
        i
    }
}

/// The first double quote at or after `i`, or the end of the text.
pub open spec fn quote_end(s: Seq<char>, i: int) -> int
    decreases s.len() - i,
{
    if 0 <= i < s.len() && s[i] != '"' {
        quote_end(s, i + 1)
    } else {
        i
    }
}

/// The number of newlines in `s[a..b]`.
pub open spec fn newlines(s: Seq<char>, a: int, b: int) -> nat
    decreases b - a,
{
    if a < b {
        newlines(s, a, b - 1) + if s[b - 1] == '\n' { 1nat } else { 0nat }
    } else {
        0
    }
}

/// The end of a number literal that starts with the digit at `i`: digits,
/// then a dot and digits only where a digit follows the dot.
pub open spec fn number_end(s: Seq<char>, i: int) -> int {
    let j = digits_end(s, i);
    if j + 1 < s.len() && s[j] == '.' && is_digit(s[j + 1]) {
        digits_end(s, j + 1)
    } else {
        j
    }
}

/// One step of the scanner: where the next lexeme starts, the line there, and
/// the token or error that this one gives.
pub struct ScanStep {
    pub next: int,
    pub ln: nat,
    pub token: Option<TokenView>,
    pub error: Option<LexError>,
}

pub open spec fn tok(ty: TokenType, lexeme: Seq<char>, ln: nat) -> TokenView {
    TokenView { ty, lexeme, ln }
}

pub open spec fn emit(next: int, ln: nat, t: TokenView) -> ScanStep {
    ScanStep { next, ln, token: Some(t), error: None }
}

pub open spec fn skip(next: int, ln: nat) -> ScanStep {
    ScanStep { next, ln, token: None, error: None }
}

/// The step taken at position `i` (a valid index of `s`) on line `ln`.
pub open spec fn step(s: Seq<char>, i: int, ln: nat) -> ScanStep {
    let c = s[i];
    if single_kind(c) is Some {
        emit(i + 1, ln, tok(single_kind(c)->0, s.subrange(i, i + 1), ln))
    } else if pair_kinds(c) is Some {
        let (one, two) = pair_kinds(c)->0;
        if i + 1 < s.len() && s[i + 1] == '=' {
            emit(i + 2, ln, tok(two, s.subrange(i, i + 2), ln))
        } else {
            emit(i + 1, ln, tok(one, s.subrange(i, i + 1), ln))
        }
    } else if c == '/' {
        if i + 1 < s.len() && s[i + 1] == '/' {
            skip(line_end(s, i + 2), ln)
        } else {
            emit(i + 1, ln, tok(TokenType::Slash, s.subrange(i, i + 1), ln))
        }
    } else if c == ' ' || c == '\r' || c == '\t' {
        skip(i + 1, ln)
    } else if c == '\n' {
        skip(i + 1, ln + 1)
    } else if c == '"' {
        let j = quote_end(s, i + 1);
        let l = ln + newlines(s, i + 1, j);
        if j >= s.len() {
            ScanStep {
                next: j,
                ln: l,
                token: None,
                error: Some(LexError { ln: l as usize, kind: LexErrorKind::UnterminatedString }),
            }
        } else {
            emit(j + 1, l, tok(TokenType::String, s.subrange(i + 1, j), l))
        }
    } else if is_digit(c) {
        let k = number_end(s, i);
        emit(k, ln, tok(TokenType::Number, s.subrange(i, k), ln))
    } else if alphabetic(c) {
        let j = word_end(s, i + 1);
        emit(j, ln, tok(keyword(s.subrange(i, j)), s.subrange(i, j), ln))
    } else {
        ScanStep {
            next: i + 1,
            ln,
            token: None,
            error: Some(LexError { ln: ln as usize, kind: LexErrorKind::UnexpectedCharacter }),
        }
    }
}

pub open spec fn opt_seq<T>(o: Option<T>) -> Seq<T> {
    match o {
        Some(x) => seq![x],
        None => seq![],
    }
}

/// The tokens and errors that scanning `s` from position `i` on line `ln`
/// gives: the end-of-input token comes last.
pub open spec fn scan_from(s: Seq<char>, i: int, ln: nat) -> (Seq<TokenView>, Seq<LexError>)
    decreases s.len() - i,
{
    if i < 0 || i >= s.len() {
        (seq![tok(TokenType::Eof, seq![], ln)], seq![])
    } else {
        let st = step(s, i, ln);
        if st.next <= i || st.next > s.len() {
            (seq![], seq![])
        } else {
            let rest = scan_from(s, st.next, st.ln);
            (opt_seq(st.token) + rest.0, opt_seq(st.error) + rest.1)
        }
    }
}

/// The tokens and errors that scanning the whole of `s` gives.
pub open spec fn scan(s: Seq<char>) -> (Seq<TokenView>, Seq<LexError>) {
    scan_from(s, 0, 1)
}

pub open spec fn opt_view(o: Option<Token>) -> Option<TokenView> {
    match o {
        Some(t) => Some(t@),
        None => None,
    }
}

fn single_kind_of(c: char) -> (r: Option<TokenType>)
    ensures
        r == single_kind(c),
{
    if c == '(' {
        Some(TokenType::LeftParen)
    } else if c == ')' {
        Some(TokenType::RightParen)
    } else if c == '{' {
        Some(TokenType::LeftBrace)
    } else if c == '}' {
        Some(TokenType::RightBrace)
    } else if c == ',' {
        Some(TokenType::Comma)
    } else if c == '.' {
        Some(TokenType::Dot)
    } else if c == '-' {
        Some(TokenType::Minus)
    } else if c == '+' {
        Some(TokenType::Plus)
    } else if c == ';' {
        Some(TokenType::Semicolon)
    } else if c == '*' {
        Some(TokenType::Star)
    } else {
        None
    }
}

fn pair_kinds_of(c: char) -> (r: Option<(TokenType, TokenType)>)
    ensures
        r == pair_kinds(c),
{
    if c == '!' {
        Some((TokenType::Bang, TokenType::BangEqual))
    } else if c == '=' {
        Some((TokenType::Equal, TokenType::EqualEqual))
    } else if c == '<' {
        Some((TokenType::Less, TokenType::LessEqual))
    } else if c == '>' {
        Some((TokenType::Greater, TokenType::GreaterEqual))
    } else {
        None
    }
}

fn is_word(w: &String, k: &str) -> (r: bool)
    ensures
        r == (w@ == k@),
{
    *w == String::from_str(k)
}

fn keyword_of(w: &String) -> (r: TokenType)
    ensures
        r == keyword(w@),
{
    if is_word(w, "and") {
        TokenType::And
    } else if is_word(w, "class") {
        TokenType::Class
    } else if is_word(w, "else") {
        TokenType::Else
    } else if is_word(w, "false") {
        TokenType::False
    } else if is_word(w, "for") {
        TokenType::For
    } else if is_word(w, "fn") {
        TokenType::Fn
    } else if is_word(w, "if") {
        TokenType::If
    } else if is_word(w, "nil") {
        TokenType::Nil
    } else if is_word(w, "or") {
        TokenType::Or
    } else if is_word(w, "print") {
        TokenType::Print
    } else if is_word(w, "return") {
        TokenType::Return
    } else if is_word(w, "super") {
        TokenType::Super
    } else if is_word(w, "this") {
        TokenType::This
    } else if is_word(w, "true") {
        TokenType::True
    } else if is_word(w, "var") {
        TokenType::Var
    } else if is_word(w, "while") {
        TokenType::While
    } else {
        TokenType::Id
    }
}

pub open spec fn pair_alone(c: char) -> TokenType {
    let (one, _two) = pair_kinds(c)->0;
    one
}

pub open spec fn pair_with_equal(c: char) -> TokenType {
    let (_one, two) = pair_kinds(c)->0;
    two
}

/// The kind of a fixed operator written out alone: one of the one-character
/// punctuation tokens or operators, or a two-character operator ending in `=`.
pub open spec fn operator_kind(w: Seq<char>) -> Option<TokenType> {
    if w.len() == 1 {
        if single_kind(w[0]) is Some {
            single_kind(w[0])
        } else if pair_kinds(w[0]) is Some {
            Some(pair_alone(w[0]))
        } else if w[0] == '/' {
            Some(TokenType::Slash)
        } else {
            None
        }
    } else if w.len() == 2 && pair_kinds(w[0]) is Some && w[1] == '=' {
        Some(pair_with_equal(w[0]))
    } else {
        None
    }
}

/// Scanning exactly the text of a fixed operator gives one token of that
/// operator's kind, then the end-of-input token, and no error.
pub proof fn lemma_operator_round_trip(w: Seq<char>)
    requires
        operator_kind(w) is Some,
    ensures
        scan(w) == (
            seq![tok(operator_kind(w)->0, w, 1), tok(TokenType::Eof, seq![], 1)],
            Seq::<LexError>::empty(),
        ),
{
    let st = step(w, 0, 1);
    assert(w.subrange(0, w.len() as int) =~= w);
    if w.len() == 2 {
        assert(st.next == 2);
    } else {
        assert(st.next == 1);
    }
    assert(scan_from(w, st.next, 1) == (
        seq![tok(TokenType::Eof, seq![], 1)],
        Seq::<LexError>::empty(),
    ));
    assert(scan(w).0 =~= seq![tok(operator_kind(w)->0, w, 1), tok(TokenType::Eof, seq![], 1)]);
    assert(scan(w).1 =~= Seq::<LexError>::empty());
}

/// A scanner over one unit of source text.
pub struct Scanner {
    src: String,
    chars: Vec<char>,
}

impl Scanner {
    pub closed spec fn source(&self) -> Seq<char> {
        self.src@
    }

    pub closed spec fn wf(&self) -> bool {
        self.chars@ == self.src@
    }

    pub fn new(src: &str) -> (r: Self)
        ensures
            r.wf(),
            r.source() == src@,
    {
        broadcast use vstd::string::axiom_spec_iter, vstd::string::next_postcondition;

        let n = src.unicode_len();
        let mut chars: Vec<char> = Vec::new();
        let mut it = src.chars();
        loop
            invariant
                n == src@.len(),
                it.obeys_prophetic_iter_laws(),
                chars@ + it.remaining() == src@,
            ensures
                chars@ == src@,
            decreases n - chars@.len(),
        {
            match it.next() {
                Some(c) => {
                    chars.push(c);
                    assert(chars@ + it.remaining() =~= src@);
                },
                None => {
                    assert(chars@ =~= src@);
                    break;
                },
            }
        }
        Scanner { src: src.to_owned(), chars }
    }

    fn lexeme(&self, a: usize, b: usize) -> (r: String)
        requires
            self.wf(),
            a <= b <= self.source().len(),
        ensures
            r@ == self.source().subrange(a as int, b as int),
    {
        self.src.as_str().substring_char(a, b).to_owned()
    }

    fn digits_end(&self, i: usize) -> (r: usize)
        requires
            self.wf(),
            i <= self.chars@.len(),
        ensures
            r == digits_end(self.chars@, i as int),
            i <= r <= self.chars@.len(),
    {
        let mut j = i;
        while j < self.chars.len() && '0' <= self.chars[j] && self.chars[j] <= '9'
            invariant
                i <= j <= self.chars@.len(),
                digits_end(self.chars@, j as int) == digits_end(self.chars@, i as int),
            decreases self.chars@.len() - j,
        {
            j = j + 1;
        }
        j
    }

    fn word_end(&self, i: usize) -> (r: usize)
        requires
            self.wf(),
            i <= self.chars@.len(),
        ensures
            r == word_end(self.chars@, i as int),
            i <= r <= self.chars@.len(),
    {
        let mut j = i;
        while j < self.chars.len() && is_alphanumeric(self.chars[j])
            invariant
                i <= j <= self.chars@.len(),
                word_end(self.chars@, j as int) == word_end(self.chars@, i as int),
            decreases self.chars@.len() - j,
        {
            j = j + 1;
        }
        j
    }

    fn line_end(&self, i: usize) -> (r: usize)
        requires
            self.wf(),
            i <= self.chars@.len(),
        ensures
            r == line_end(self.chars@, i as int),
            i <= r <= self.chars@.len(),
    {
        let mut j = i;
        while j < self.chars.len() && self.chars[j] != '\n'
            invariant
                i <= j <= self.chars@.len(),
                line_end(self.chars@, j as int) == line_end(self.chars@, i as int),
            decreases self.chars@.len() - j,
        {
            j = j + 1;
        }
        j
    }

    /// The end of the string literal whose text starts at `i`, and the number
    /// of newlines in that text.
    fn string_end(&self, i: usize) -> (r: (usize, usize))
        requires
            self.wf(),
            i <= self.chars@.len(),
        ensures
            r.0 == quote_end(self.chars@, i as int),
            r.1 == newlines(self.chars@, i as int, r.0 as int),
            r.1 <= r.0 - i,
            i <= r.0 <= self.chars@.len(),
    {
        let mut j = i;
        let mut n: usize = 0;
        while j < self.chars.len() && self.chars[j] != '"'
            invariant
                i <= j <= self.chars@.len(),
                n == newlines(self.chars@, i as int, j as int),
                n <= j - i,
                quote_end(self.chars@, j as int) == quote_end(self.chars@, i as int),
            decreases self.chars@.len() - j,
        {
            if self.chars[j] == '\n' {
                n = n + 1;
            }
            j = j + 1;
        }
        (j, n)
    }
    /// Scans the lexeme that starts at `i` on line `ln`.
    fn scan_token(&self, i: usize, ln: usize) -> (r: (usize, usize, Option<Token>, Option<LexError>))
        requires
            self.wf(),
            i < self.chars@.len(),
            ln + (self.chars@.len() - i) < usize::MAX,
        ensures
            r.0 == step(self.chars@, i as int, ln as nat).next,
            r.1 == step(self.chars@, i as int, ln as nat).ln,
            opt_view(r.2) == step(self.chars@, i as int, ln as nat).token,
            r.3 == step(self.chars@, i as int, ln as nat).error,
            i < r.0 <= self.chars@.len(),
            ln <= r.1 <= ln + (r.0 - i),
            r.2 is Some ==> r.2->0.ty != TokenType::Eof,
    {
        let c = self.chars[i];
        let n = self.chars.len();
        if let Some(k) = single_kind_of(c) {
            return (i + 1, ln, Some(Token::new(k, self.lexeme(i, i + 1), ln)), None);
        }
        if let Some((one, two)) = pair_kinds_of(c) {
            if i + 1 < n && self.chars[i + 1] == '=' {
                return (i + 2, ln, Some(Token::new(two, self.lexeme(i, i + 2), ln)), None);
            }
            return (i + 1, ln, Some(Token::new(one, self.lexeme(i, i + 1), ln)), None);
        }
        if c == '/' {
            if i + 1 < n && self.chars[i + 1] == '/' {
                return (self.line_end(i + 2), ln, None, None);
            }
            return (i + 1, ln, Some(Token::new(TokenType::Slash, self.lexeme(i, i + 1), ln)), None);
        }
        if c == ' ' || c == '\r' || c == '\t' {
            return (i + 1, ln, None, None);
        }
        if c == '\n' {
            return (i + 1, ln + 1, None, None);
        }
        if c == '"' {
            let (j, lines) = self.string_end(i + 1);
            let l = ln + lines;
            if j >= n {
                return (j, l, None, Some(LexError { ln: l, kind: LexErrorKind::UnterminatedString }));
            }
            return (j + 1, l, Some(Token::new(TokenType::String, self.lexeme(i + 1, j), l)), None);
        }
        if '0' <= c && c <= '9' {
            let j = self.digits_end(i + 1);
            let k = if j < n - 1 && self.chars[j] == '.' && '0' <= self.chars[j + 1] && self.chars[j + 1] <= '9' {
                self.digits_end(j + 1)
            } else {
                j
            };
            return (k, ln, Some(Token::new(TokenType::Number, self.lexeme(i, k), ln)), None);
        }
        if is_alphabetic(c) {
            let j = self.word_end(i + 1);
            let w = self.lexeme(i, j);
            let ty = keyword_of(&w);
            return (j, ln, Some(Token::new(ty, w, ln)), None);
        }
        (i + 1, ln, None, Some(LexError { ln, kind: LexErrorKind::UnexpectedCharacter }))
    }

    /// Scans the whole source: the tokens, ending with the end-of-input token,
    /// and the lexical errors, each in source order.
    pub fn scan_tokens(self) -> (r: (Vec<Token>, Vec<LexError>))
        requires
            self.wf(),
            self.source().len() + 2 < usize::MAX,
        ensures
            tokens_view(r.0@) == scan(self.source()).0,
            r.1@ == scan(self.source()).1,
            r.0@.len() > 0,
            r.0@.last().ty == TokenType::Eof,
            forall|j: int| 0 <= j < r.0@.len() - 1 ==> #[trigger] r.0@[j].ty != TokenType::Eof,
    {
        let mut tokens: Vec<Token> = Vec::new();
        let mut errors: Vec<LexError> = Vec::new();
        let n = self.chars.len();
        let mut i: usize = 0;
        let mut ln: usize = 1;
        let ghost s = self.chars@;
        while i < n
            invariant
                self.wf(),
                s == self.chars@,
                n == s.len(),
                n + 2 < usize::MAX,
                i <= n,
                1 <= ln <= 1 + i,
                scan(s).0 == tokens_view(tokens@) + scan_from(s, i as int, ln as nat).0,
                scan(s).1 == errors@ + scan_from(s, i as int, ln as nat).1,
                forall|j: int| 0 <= j < tokens@.len() ==> #[trigger] tokens@[j].ty != TokenType::Eof,
            decreases n - i,
        {
            let (next, l, t, e) = self.scan_token(i, ln);
            let ghost old_tokens = tokens@;
            let ghost old_errors = errors@;
            let ghost rest = scan_from(s, next as int, l as nat);
            assert(scan_from(s, i as int, ln as nat).0 == opt_seq(opt_view(t)) + rest.0);
            assert(scan_from(s, i as int, ln as nat).1 == opt_seq(e) + rest.1);
            match t {
                Some(tk) => {
                    tokens.push(tk);
                },
                None => {},
            }
            match e {
                Some(er) => {
                    errors.push(er);
                },
                None => {},
            }
            assert(tokens_view(tokens@) =~= tokens_view(old_tokens) + opt_seq(opt_view(t)));
            assert(errors@ =~= old_errors + opt_seq(e));
            assert(scan(s).0 =~= tokens_view(tokens@) + rest.0);
            assert(scan(s).1 =~= errors@ + rest.1);
            i = next;
            ln = l;
        }
        let ghost before = tokens@;
        tokens.push(Token::new(TokenType::Eof, String::new(), ln));
        assert(tokens_view(tokens@) =~= tokens_view(before) + seq![tok(TokenType::Eof, seq![], ln as nat)]);
        assert(errors@ =~= errors@ + scan_from(s, i as int, ln as nat).1);
        (tokens, errors)
    }
}

} // verus!
