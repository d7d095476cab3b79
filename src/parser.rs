use vstd::prelude::*;
use crate::ast::{
    Binary, Expr, ExprView, Expression, Grouping, Literal, LiteralView, Print, Statement,
    StatementView, Unary, statements_view,
};
use crate::interpreter::{well_formed, statement_well_formed};
use crate::token::{Token, TokenType, TokenView, tokens_view};

verus! {

/// What the parser expected and did not find.
#[derive(Debug, Clone, Copy, PartialEq, Eq, Structural)]
pub enum ParseErrorKind {
    ExpectExpression,
    ExpectRightParen,
    ExpectSemicolonAfterValue,
    ExpectSemicolonAfterExpression,
}

impl ParseErrorKind {
    pub open spec fn message_text(&self) -> Seq<char> {
        match self {
            ParseErrorKind::ExpectExpression => "Expect expression."@,
            ParseErrorKind::ExpectRightParen => "Expect ')' after expression."@,
            ParseErrorKind::ExpectSemicolonAfterValue => "Expect ';' after value."@,
            ParseErrorKind::ExpectSemicolonAfterExpression => "Expect ';' after expression."@,
        }
    }

    pub fn message(&self) -> (r: &'static str)
        ensures
            r@ == self.message_text(),
    {
        match self {
            ParseErrorKind::ExpectExpression => "Expect expression.",
            ParseErrorKind::ExpectRightParen => "Expect ')' after expression.",
            ParseErrorKind::ExpectSemicolonAfterValue => "Expect ';' after value.",
            ParseErrorKind::ExpectSemicolonAfterExpression => "Expect ';' after expression.",
        }
    }
}

/// A syntax error: the token at which it was found, and what was expected.
#[derive(Debug, Clone)]
pub struct ParseError {
    pub token: Token,
    pub kind: ParseErrorKind,
}

pub struct ParseErrorView {
    pub token: TokenView,
    pub kind: ParseErrorKind,
}

impl View for ParseError {
    type V = ParseErrorView;

    open spec fn view(&self) -> ParseErrorView {
        ParseErrorView { token: self.token@, kind: self.kind }
    }
}

/// The precedence level of equality, the lowest binary level; comparison,
/// term and factor are the levels below it.
pub const EQUALITY: usize = 4;

/// Whether `k` is an operator of the binary precedence level `lv`.
pub open spec fn level_op(lv: nat, k: TokenType) -> bool {
    if lv == 4 {
        k == TokenType::BangEqual || k == TokenType::EqualEqual
    } else if lv == 3 {
        k == TokenType::Greater || k == TokenType::GreaterEqual || k == TokenType::Less || k
            == TokenType::LessEqual
    } else if lv == 2 {
        k == TokenType::Minus || k == TokenType::Plus
    } else if lv == 1 {
        k == TokenType::Slash || k == TokenType::Star
    } else {
        false
    }
}

/// A parsed expression and the position after it, or the position of the
/// token where parsing failed and what was expected there.
pub type Parsed = Result<(ExprView, int), (int, ParseErrorKind)>;

/// `primary → NUMBER | STRING | "true" | "false" | "nil" | "(" expression ")"`
pub open spec fn primary(t: Seq<TokenView>, p: int) -> Parsed
    decreases t.len() - p, 0int,
{
    if p < 0 || p >= t.len() {
        Err((p, ParseErrorKind::ExpectExpression))
    } else {
        let k = t[p].ty;
        if k == TokenType::LeftParen {
            match binary_level(t, p + 1, 4) {
                Ok((e, q)) => if 0 <= q < t.len() && t[q].ty == TokenType::RightParen {
                    Ok((ExprView::Grouping(Box::new(e)), q + 1))
                } else {
                    Err((q, ParseErrorKind::ExpectRightParen))
                },
                Err(x) => Err(x),
            }
        } else if k == TokenType::Nil {
            Ok((ExprView::Literal(LiteralView::Nil), p + 1))
        } else if k == TokenType::True {
            Ok((ExprView::Literal(LiteralView::Bool(true)), p + 1))
        } else if k == TokenType::False {
            Ok((ExprView::Literal(LiteralView::Bool(false)), p + 1))
        } else if k == TokenType::Number {
            Ok((ExprView::Literal(LiteralView::Number(t[p].lexeme)), p + 1))
        } else if k == TokenType::String {
            Ok((ExprView::Literal(LiteralView::String(t[p].lexeme)), p + 1))
        } else {
            Err((p, ParseErrorKind::ExpectExpression))
        }
    }
}

/// `unary → ("!" | "-") unary | primary`
pub open spec fn unary(t: Seq<TokenView>, p: int) -> Parsed
    decreases t.len() - p, 1int,
{
    if p < 0 || p >= t.len() {
        Err((p, ParseErrorKind::ExpectExpression))
    } else if t[p].ty == TokenType::Bang || t[p].ty == TokenType::Minus {
        match unary(t, p + 1) {
            Ok((e, q)) => Ok((ExprView::Unary(t[p], Box::new(e)), q)),
            Err(x) => Err(x),
        }
    } else {
        primary(t, p)
    }
}

/// The binary level `lv` (0 is `unary`): one operand of the level below,
/// then the rest of the level.
pub open spec fn binary_level(t: Seq<TokenView>, p: int, lv: nat) -> Parsed
    decreases t.len() - p, 2 * lv + 2,
{
    if p < 0 || p >= t.len() {
        Err((p, ParseErrorKind::ExpectExpression))
    } else if lv == 0 {
        unary(t, p)
    } else {
        match binary_level(t, p, (lv - 1) as nat) {
            Ok((e, q)) => if q < p || q >= t.len() {
                Err((p, ParseErrorKind::ExpectExpression))
            } else {
                level_rest(t, q, lv, e)
            },
            Err(x) => Err(x),
        }
    }
}

/// While the token at `q` is an operator of level `lv`, folds one more
/// operand into `left`: the level is left-associative.
pub open spec fn level_rest(t: Seq<TokenView>, q: int, lv: nat, left: ExprView) -> Parsed
    decreases t.len() - q, 2 * lv + 1,
{
    if q < 0 || q >= t.len() || lv == 0 || !level_op(lv, t[q].ty) {
        Ok((left, q))
    } else {
        match binary_level(t, q + 1, (lv - 1) as nat) {
            Ok((r, q2)) => if q2 <= q || q2 >= t.len() {
                Err((q, ParseErrorKind::ExpectExpression))
            } else {
                level_rest(t, q2, lv, ExprView::Binary(Box::new(left), t[q], Box::new(r)))
            },
            Err(x) => Err(x),
        }
    }
}

/// `expression → equality`
pub open spec fn expression(t: Seq<TokenView>, p: int) -> Parsed {
    binary_level(t, p, 4)
}

/// `statement → "print" expression ";" | expression ";"`
pub open spec fn statement(t: Seq<TokenView>, p: int) -> Result<(StatementView, int), (int, ParseErrorKind)> {
    if p < 0 || p >= t.len() {
        Err((p, ParseErrorKind::ExpectExpression))
    } else if t[p].ty == TokenType::Print {
        match expression(t, p + 1) {
            Ok((e, q)) => if 0 <= q < t.len() && t[q].ty == TokenType::Semicolon {
                Ok((StatementView::Print(e), q + 1))
            } else {
                Err((q, ParseErrorKind::ExpectSemicolonAfterValue))
            },
            Err(x) => Err(x),
        }
    } else {
        match expression(t, p) {
            Ok((e, q)) => if 0 <= q < t.len() && t[q].ty == TokenType::Semicolon {
                Ok((StatementView::Expression(e), q + 1))
            } else {
                Err((q, ParseErrorKind::ExpectSemicolonAfterExpression))
            },
            Err(x) => Err(x),
        }
    }
}

/// The token kinds that begin a statement.
pub open spec fn starts_statement(k: TokenType) -> bool {
    k == TokenType::Class || k == TokenType::Fn || k == TokenType::Var || k == TokenType::For || k
        == TokenType::If || k == TokenType::While || k == TokenType::Print || k
        == TokenType::Return
}

/// From `p`, discards tokens up to a statement boundary: just after a `;`,
/// or at a token that begins a statement, or at the end of input.
pub open spec fn sync_from(t: Seq<TokenView>, p: int) -> int
    decreases t.len() - p,
{
    if p <= 0 || p >= t.len() || t[p].ty == TokenType::Eof {
        p
    } else if t[p - 1].ty == TokenType::Semicolon || starts_statement(t[p].ty) {
        p
    } else {
        sync_from(t, p + 1)
    }
}

/// Where parsing resumes after an error at `i`: past the offending token,
/// then at the next statement boundary.
pub open spec fn synchronize(t: Seq<TokenView>, i: int) -> int {
    if 0 <= i < t.len() && t[i].ty != TokenType::Eof {
        sync_from(t, i + 1)
    } else {
        i
    }
}

/// The statements parsed from `p` on and the syntax errors met, one for each
/// statement that failed, each in source order.
pub open spec fn parse_from(t: Seq<TokenView>, p: int) -> (Seq<StatementView>, Seq<ParseErrorView>)
    decreases t.len() - p,
{
    if p < 0 || p >= t.len() || t[p].ty == TokenType::Eof {
        (seq![], seq![])
    } else {
        match statement(t, p) {
            Ok((s, q)) => if q <= p || q > t.len() {
                (seq![], seq![])
            } else {
                let r = parse_from(t, q);
                (seq![s] + r.0, r.1)
            },
            Err((i, k)) => {
                let e = ParseErrorView { token: t[i], kind: k };
                let q = synchronize(t, i);
                if q <= p || q > t.len() {
                    (seq![], seq![e])
                } else {
                    let r = parse_from(t, q);
                    (r.0, seq![e] + r.1)
                }
            },
        }
    }
}

/// The statements and syntax errors of a whole token sequence.
pub open spec fn parse(t: Seq<TokenView>) -> (Seq<StatementView>, Seq<ParseErrorView>) {
    parse_from(t, 0)
}

/// What the scanner gives: at least one token, and the last one ends the
/// input.
pub open spec fn valid_tokens(t: Seq<TokenView>) -> bool {
    t.len() > 0 && t.last().ty == TokenType::Eof
}

pub open spec fn parsed_view(r: Result<(Expr, usize), (usize, ParseErrorKind)>) -> Parsed {
    match r {
        Ok((e, q)) => Ok((e@, q as int)),
        Err((i, k)) => Err((i as int, k)),
    }
}

/// On success the expression is well formed and ends after `p`, before the
/// end-of-input token; a failure is at or after `p`.
pub open spec fn parsed_within(r: Result<(Expr, usize), (usize, ParseErrorKind)>, p: int, len: int) -> bool {
    match r {
        Ok((e, q)) => p < q < len && well_formed(e@),
        Err((i, _)) => p <= i < len,
    }
}

pub open spec fn errors_view(s: Seq<ParseError>) -> Seq<ParseErrorView> {
    s.map_values(|e: ParseError| e@)
}

fn level_op_of(lv: usize, k: TokenType) -> (r: bool)
    ensures
        r == level_op(lv as nat, k),
{
    if lv == 4 {
        k == TokenType::BangEqual || k == TokenType::EqualEqual
    } else if lv == 3 {
        k == TokenType::Greater || k == TokenType::GreaterEqual || k == TokenType::Less || k
            == TokenType::LessEqual
    } else if lv == 2 {
        k == TokenType::Minus || k == TokenType::Plus
    } else if lv == 1 {
        k == TokenType::Slash || k == TokenType::Star
    } else {
        false
    }
}

fn starts_statement_of(k: TokenType) -> (r: bool)
    ensures
        r == starts_statement(k),
{
    k == TokenType::Class || k == TokenType::Fn || k == TokenType::Var || k == TokenType::For || k
        == TokenType::If || k == TokenType::While || k == TokenType::Print || k
        == TokenType::Return
}

/// A recursive-descent parser over a token sequence that ends with the
/// end-of-input token.
pub struct Parser<'p> {
    tokens: &'p Vec<Token>,
}

impl<'p> Parser<'p> {
    pub closed spec fn tokens(&self) -> Seq<TokenView> {
        tokens_view(self.tokens@)
    }

    pub fn new(tokens: &'p Vec<Token>) -> (r: Self)
        ensures
            r.tokens() == tokens_view(tokens@),
    {
        Parser { tokens }
    }

    /// Only the last token ends the input: a position before another kind of
    /// token has a successor.
    fn before_end(&self, p: usize)
        requires
            valid_tokens(self.tokens()),
            p < self.tokens().len(),
            self.tokens()[p as int].ty != TokenType::Eof,
        ensures
            p + 1 < self.tokens().len(),
            self.tokens().len() == self.tokens@.len(),
            self.tokens@.len() <= usize::MAX,
    {
        let n = self.tokens.len();
        assert(self.tokens().last() == self.tokens()[self.tokens().len() - 1]);
    }

    fn primary(&self, p: usize) -> (r: Result<(Expr, usize), (usize, ParseErrorKind)>)
        requires
            valid_tokens(self.tokens()),
            p < self.tokens().len(),
        ensures
            parsed_view(r) == primary(self.tokens(), p as int),
            parsed_within(r, p as int, self.tokens().len() as int),
        decreases self.tokens().len() - p, 0int,
    {
        let k = self.tokens[p].ty;
        if k == TokenType::LeftParen {
            self.before_end(p);
            match self.binary_level(p + 1, EQUALITY) {
                Ok((e, q)) => {
                    if self.tokens[q].ty == TokenType::RightParen {
                        self.before_end(q);
                        Ok((Expr::Grouping(Grouping::new(Box::new(e))), q + 1))
                    } else {
                        Err((q, ParseErrorKind::ExpectRightParen))
                    }
                },
                Err(x) => Err(x),
            }
        } else if k == TokenType::Nil || k == TokenType::True || k == TokenType::False || k
            == TokenType::Number || k == TokenType::String {
            self.before_end(p);
            let l = if k == TokenType::Nil {
                Literal::Nil
            } else if k == TokenType::True {
                Literal::Bool(true)
            } else if k == TokenType::False {
                Literal::Bool(false)
            } else if k == TokenType::Number {
                Literal::Number(self.tokens[p].lexeme.clone())
            } else {
                Literal::String(self.tokens[p].lexeme.clone())
            };
            Ok((Expr::Literal(l), p + 1))
        } else {
            Err((p, ParseErrorKind::ExpectExpression))
        }
    }

    fn unary(&self, p: usize) -> (r: Result<(Expr, usize), (usize, ParseErrorKind)>)
        requires
            valid_tokens(self.tokens()),
            p < self.tokens().len(),
        ensures
            parsed_view(r) == unary(self.tokens(), p as int),
            parsed_within(r, p as int, self.tokens().len() as int),
        decreases self.tokens().len() - p, 1int,
    {
        let k = self.tokens[p].ty;
        if k == TokenType::Bang || k == TokenType::Minus {
            self.before_end(p);
            match self.unary(p + 1) {
                Ok((e, q)) => Ok((Expr::Unary(Unary::new(self.tokens[p].duplicate(), Box::new(e))), q)),
                Err(x) => Err(x),
            }
        } else {
            self.primary(p)
        }
    }

    fn binary_level(&self, p: usize, lv: usize) -> (r: Result<(Expr, usize), (usize, ParseErrorKind)>)
        requires
            valid_tokens(self.tokens()),
            p < self.tokens().len(),
            lv <= EQUALITY,
        ensures
            parsed_view(r) == binary_level(self.tokens(), p as int, lv as nat),
            parsed_within(r, p as int, self.tokens().len() as int),
        decreases self.tokens().len() - p, 2 * lv + 2,
    {
        if lv == 0 {
            return self.unary(p);
        }
        match self.binary_level(p, lv - 1) {
            Ok((e, q)) => self.level_rest(q, lv, e),
            Err(x) => Err(x),
        }
    }

    fn level_rest(&self, q: usize, lv: usize, left: Expr) -> (r: Result<(Expr, usize), (usize, ParseErrorKind)>)
        requires
            valid_tokens(self.tokens()),
            q < self.tokens().len(),
            1 <= lv <= EQUALITY,
            well_formed(left@),
        ensures
            parsed_view(r) == level_rest(self.tokens(), q as int, lv as nat, left@),
            parsed_within(r, q as int - 1, self.tokens().len() as int),
        decreases self.tokens().len() - q, 2 * lv + 1,
    {
        let k = self.tokens[q].ty;
        if !level_op_of(lv, k) {
            return Ok((left, q));
        }
        self.before_end(q);
        match self.binary_level(q + 1, lv - 1) {
            Ok((right, q2)) => {
                let e = Expr::Binary(Binary::new(Box::new(left), self.tokens[q].duplicate(), Box::new(right)));
                self.level_rest(q2, lv, e)
            },
            Err(x) => Err(x),
        }
    }

    fn statement(&self, p: usize) -> (r: Result<(Statement, usize), (usize, ParseErrorKind)>)
        requires
            valid_tokens(self.tokens()),
            p < self.tokens().len(),
        ensures
            match r {
                Ok((s, q)) => statement(self.tokens(), p as int) == Ok::<
                    (StatementView, int),
                    (int, ParseErrorKind),
                >((s@, q as int)) && p < q < self.tokens().len() && statement_well_formed(s@),
                Err((i, k)) => statement(self.tokens(), p as int) == Err::<
                    (StatementView, int),
                    (int, ParseErrorKind),
                >((i as int, k)) && p <= i < self.tokens().len(),
            },
    {
        let is_print = self.tokens[p].ty == TokenType::Print;
        let start = if is_print {
            self.before_end(p);
            p + 1
        } else {
            p
        };
        match self.binary_level(start, EQUALITY) {
            Ok((e, q)) => {
                if self.tokens[q].ty == TokenType::Semicolon {
                    self.before_end(q);
                    if is_print {
                        Ok((Statement::Print(Print::new(e)), q + 1))
                    } else {
                        Ok((Statement::Expression(Expression::new(e)), q + 1))
                    }
                } else if is_print {
                    Err((q, ParseErrorKind::ExpectSemicolonAfterValue))
                } else {
                    Err((q, ParseErrorKind::ExpectSemicolonAfterExpression))
                }
            },
            Err(x) => Err(x),
        }
    }

    fn synchronize(&self, i: usize) -> (r: usize)
        requires
            valid_tokens(self.tokens()),
            i < self.tokens().len(),
        ensures
            r == synchronize(self.tokens(), i as int),
            i <= r < self.tokens().len(),
            self.tokens()[i as int].ty != TokenType::Eof ==> i < r,
    {
        if self.tokens[i].ty == TokenType::Eof {
            return i;
        }
        self.before_end(i);
        let mut p = i + 1;
        while self.tokens[p].ty != TokenType::Eof && self.tokens[p - 1].ty != TokenType::Semicolon
            && !starts_statement_of(self.tokens[p].ty)
            invariant
                valid_tokens(self.tokens()),
                i < p < self.tokens().len(),
                sync_from(self.tokens(), p as int) == sync_from(self.tokens(), i + 1),
            decreases self.tokens().len() - p,
        {
            self.before_end(p);
            p = p + 1;
        }
        p
    }

    /// Parses the whole token sequence. A statement that fails gives one
    /// syntax error; parsing then resumes at the next statement boundary.
    pub fn parse(&self) -> (r: (Vec<Statement>, Vec<ParseError>))
        requires
            valid_tokens(self.tokens()),
        ensures
            statements_view(r.0@) == parse(self.tokens()).0,
            errors_view(r.1@) == parse(self.tokens()).1,
            forall|i: int| 0 <= i < r.0@.len() ==> statement_well_formed(#[trigger] r.0@[i]@),
    {
        let mut stmts: Vec<Statement> = Vec::new();
        let mut errors: Vec<ParseError> = Vec::new();
        let mut p: usize = 0;
        let ghost t = self.tokens();
        assert(statements_view(stmts@) + parse_from(t, 0).0 =~= parse(t).0);
        assert(errors_view(errors@) + parse_from(t, 0).1 =~= parse(t).1);
        while self.tokens[p].ty != TokenType::Eof
            invariant
                t == self.tokens(),
                valid_tokens(t),
                p < t.len(),
                parse(t).0 == statements_view(stmts@) + parse_from(t, p as int).0,
                parse(t).1 == errors_view(errors@) + parse_from(t, p as int).1,
                forall|i: int| 0 <= i < stmts@.len() ==> statement_well_formed(#[trigger] stmts@[i]@),
            decreases t.len() - p,
        {
            let ghost before_s = stmts@;
            let ghost before_e = errors@;
            match self.statement(p) {
                Ok((s, q)) => {
                    let ghost sv = s@;
                    stmts.push(s);
                    assert(statements_view(stmts@) =~= statements_view(before_s).push(sv));
                    assert(parse(t).0 =~= statements_view(stmts@) + parse_from(t, q as int).0);
                    p = q;
                },
                Err((i, k)) => {
                    let e = ParseError { token: self.tokens[i].duplicate(), kind: k };
                    let ghost ev = e@;
                    errors.push(e);
                    let q = self.synchronize(i);
                    assert(errors_view(errors@) =~= errors_view(before_e).push(ev));
                    assert(parse(t).1 =~= errors_view(errors@) + parse_from(t, q as int).1);
                    p = q;
                },
            }
        }
        assert(statements_view(stmts@) + parse_from(t, p as int).0 =~= statements_view(stmts@));
        assert(errors_view(errors@) + parse_from(t, p as int).1 =~= errors_view(errors@));
        (stmts, errors)
    }
}

} // verus!
