use vstd::prelude::*;
use crate::interpreter::{
    ArithOp, Interpreter, RuntimeError, RuntimeErrorView, Value, ValueView, arith_by, callable,
    error_view, numbers_by, run, values_view,
};
use crate::parser::{ParseError, ParseErrorView, Parser, errors_view, parse};
use crate::scanner::{LexError, Scanner, scan};
use crate::token::{TokenType, tokens_view};
use vstd::string::*;

verus! {

/// What running one unit of source text gives.
#[derive(Debug)]
pub struct Outcome {
    /// Lexical errors, in source order.
    pub lex_errors: Vec<LexError>,
    /// Syntax errors, one for each statement that failed to parse.
    pub parse_errors: Vec<ParseError>,
    /// The values that `print` statements wrote, in order.
    pub printed: Vec<Value>,
    /// The runtime error that stopped the program, if one did.
    pub runtime_error: Option<RuntimeError>,
}

pub open spec fn digit(d: int) -> char {
    if d == 0 {
        '0'
    } else if d == 1 {
        '1'
    } else if d == 2 {
        '2'
    } else if d == 3 {
        '3'
    } else if d == 4 {
        '4'
    } else if d == 5 {
        '5'
    } else if d == 6 {
        '6'
    } else if d == 7 {
        '7'
    } else if d == 8 {
        '8'
    } else {
        '9'
    }
}

/// The decimal digits of `n`, most significant first, without leading zeros.
pub open spec fn decimal(n: nat) -> Seq<char>
    decreases n,
{
    if n < 10 {
        seq![digit(n as int)]
    } else {
        decimal(n / 10).push(digit((n % 10) as int))
    }
}

/// Relies on the `Display` of `usize`: its decimal digits, with no sign,
/// padding or leading zeros.
#[verifier::external_body]
fn decimal_text(n: usize) -> (r: String)
    ensures
        r@ == decimal(n as nat),
{
    n.to_string()
}

/// The text of an error report: `[line <line>] Error <location>: <message>`.
pub open spec fn report_text(ln: nat, location: Seq<char>, message: Seq<char>) -> Seq<char> {
    "[line "@ + decimal(ln) + "] Error "@ + location + ": "@ + message
}

/// The location of a syntax error: at the end of input, or at a lexeme.
pub open spec fn location_text(e: ParseErrorView) -> Seq<char> {
    if e.token.ty == TokenType::Eof {
        "at end"@
    } else {
        "at '"@ + e.token.lexeme + "'"@
    }
}

/// The whole pipeline: scan, parse, and run the program when neither step
/// found an error.
#[derive(Debug)]
pub struct Lox {}

impl Lox {
    /// Runs one unit of source text. `number` turns a number literal's text
    /// into the bits of a 64-bit float and `arith` does arithmetic on such
    /// bits. Lexical and syntax errors are all reported, and the program
    /// runs only when there are none; its run is the one that `run`
    /// describes, for whatever functions describe `number` and `arith`.
    pub fn run<P: Fn(&str) -> u64, F: Fn(ArithOp, u64, u64) -> u64>(
        src: &str,
        number: &P,
        arith: &F,
    ) -> (r: Outcome)
        requires
            src@.len() + 2 < usize::MAX,
            callable(*number, *arith),
        ensures
            r.lex_errors@ == scan(src@).1,
            errors_view(r.parse_errors@) == parse(scan(src@).0).1,
            (r.lex_errors@.len() == 0 && r.parse_errors@.len() == 0) ==> forall|
                ns: spec_fn(Seq<char>) -> u64,
                ga: spec_fn(ArithOp, u64, u64) -> u64,
            |
                numbers_by(*number, ns) && arith_by(*arith, ga) ==> #[trigger] run(
                    parse(scan(src@).0).0,
                    ns,
                    ga,
                ) == (values_view(r.printed@), error_view(r.runtime_error)),
            (r.lex_errors@.len() > 0 || r.parse_errors@.len() > 0) ==> r.printed@.len() == 0
                && r.runtime_error is None,
    {
        let scanner = Scanner::new(src);
        let (tokens, lex_errors) = scanner.scan_tokens();
        let parser = Parser::new(&tokens);
        let (stmts, parse_errors) = parser.parse();
        if lex_errors.len() > 0 || parse_errors.len() > 0 {
            return Outcome { lex_errors, parse_errors, printed: Vec::new(), runtime_error: None };
        }
        let (printed, runtime_error) = Interpreter::interpret(&stmts, number, arith);
        Outcome { lex_errors, parse_errors, printed, runtime_error }
    }

    /// The report of an error found at a location.
    pub fn report(ln: usize, location: &str, message: &str) -> (r: String)
        ensures
            r@ == report_text(ln as nat, location@, message@),
    {
        let mut r = String::from_str("[line ");
        let digits = decimal_text(ln);
        r.append(digits.as_str());
        r.append("] Error ");
        r.append(location);
        r.append(": ");
        r.append(message);
        r
    }

    /// The report of a lexical error: it has no location.
    pub fn error(ln: usize, message: &str) -> (r: String)
        ensures
            r@ == report_text(ln as nat, ""@, message@),
    {
        Self::report(ln, "", message)
    }

    /// The report of a runtime error: its message and the line of the
    /// operator that failed.
    pub fn runtime_error_report(e: &RuntimeError) -> (r: String)
        ensures
            r@ == e.kind.message_text() + " [line "@ + decimal(e.token.ln as nat) + "]"@,
    {
        let mut r = String::from_str(e.kind.message());
        r.append(" [line ");
        let digits = decimal_text(e.token.ln);
        r.append(digits.as_str());
        r.append("]");
        r
    }

    /// The report of a lexical error.
    pub fn lex_error_report(e: &LexError) -> (r: String)
        ensures
            r@ == report_text(e.ln as nat, ""@, e.kind.message_text()),
    {
        Self::error(e.ln, e.kind.message())
    }

    /// The report of a syntax error, located at the token where it was found.
    pub fn parse_error_report(e: &ParseError) -> (r: String)
        ensures
            r@ == report_text(e.token.ln as nat, location_text(e@), e.kind.message_text()),
    {
        if e.token.ty == TokenType::Eof {
            Self::report(e.token.ln, "at end", e.kind.message())
        } else {
            let mut location = String::from_str("at '");
            location.append(e.token.lexeme.as_str());
            location.append("'");
            Self::report(e.token.ln, location.as_str(), e.kind.message())
        }
    }
}

} // verus!
