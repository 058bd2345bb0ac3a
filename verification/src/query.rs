//! Compiled JMESPath queries and their evaluation against a JSON document.
//! The evaluation result is normalized into [`JsonValue`], the shape the
//! verified extraction pipeline works on.
use vstd::prelude::*;

verus! {

/// A JSON value as the extraction pipeline sees it.  A number carries the
/// IEEE-754 bit pattern of the document's `f64` value; the library hands
/// the bits through untouched and never computes with them.  Object fields
/// are kept in the order the evaluator yields them (sorted by key).
#[derive(Debug, PartialEq)]
pub enum JsonValue {
    Null,
    Bool(bool),
    /// The IEEE-754 bit pattern of the numeric value.
    Number(u64),
    Text(String),
    Array(Vec<JsonValue>),
    Object(Vec<(String, JsonValue)>),
}

/// Why an evaluation produced no result value.
#[derive(Clone, Copy, PartialEq, Eq, Structural, Debug)]
pub enum EvalFault {
    /// The document was not valid JSON.
    Document,
    /// The query failed to evaluate against the parsed document.
    Evaluation,
}

#[verifier::external_type_specification]
#[verifier::external_body]
pub struct ExExpression<'a>(jmespatch::Expression<'a>);

#[verifier::external_type_specification]
#[verifier::external_body]
pub struct ExVariable(jmespatch::Variable);

/// The scanning state used to check an expression's unquoted numeric
/// literals (see [`lexes_cleanly`]).
#[derive(Clone, Copy, PartialEq, Eq, Structural, Debug)]
pub enum LexMode {
    /// Between tokens.
    Out,
    /// Inside an identifier (a letter or underscore, then letters, digits
    /// and underscores), whose digits are not numeric literals.
    Ident,
    /// Inside an unquoted digit run, with the decimal value read so far.
    /// The value is capped at `0x3fff_ffff` (see [`lexes_cleanly`]).
    Digits { value: u64 },
    /// Right after a `-` that opens a negative number token; the lexer
    /// consumes the following character unconditionally.
    Dash,
    /// Inside a quoted region opened by the wrapper character (a quoted
    /// identifier, a raw string, or a backtick literal).
    Quoted { wrapper: char },
    /// Inside a quoted region, right after a backslash: the next
    /// character is escaped.
    QuotedEscape { wrapper: char },
}

/// Orders the modes so that ending a token re-dispatches the same
/// character once.
pub open spec fn mode_rank(mode: LexMode) -> int {
    match mode {
        LexMode::Out => 0,
        _ => 1,
    }
}

pub open spec fn is_ascii_digit(c: char) -> bool {
    '0' <= c && c <= '9'
}

pub open spec fn is_ident_char(c: char) -> bool {
    ('a' <= c && c <= 'z') || ('A' <= c && c <= 'Z') || c == '_' || is_ascii_digit(c)
}

/// Scans `s` from position `i` in the given mode, following the JMESPath
/// lexer's token shapes: every unquoted digit run must keep its decimal
/// value below two to the thirtieth (the lexer reads the run into a
/// 32-bit signed value and aborts beyond its range, and the engine's
/// slice arithmetic steps one full stride past an array end in that same
/// type, so the literals that feed it are kept a factor of two below the
/// range), and the character consumed right after a number-opening `-`
/// must be ASCII (a non-ASCII numeric there aborts the same read).
pub open spec fn scan_ok(s: Seq<char>, i: int, mode: LexMode) -> bool
    decreases s.len() - i, mode_rank(mode),
{
    if i < 0 || i >= s.len() {
        true
    } else {
        let c = s[i];
        match mode {
            LexMode::Out => {
                if is_ascii_digit(c) {
                    scan_ok(s, i + 1, LexMode::Digits { value: (c as u32 - 48) as u64 })
                } else if c == '-' {
                    scan_ok(s, i + 1, LexMode::Dash)
                } else if c == '"' || c == '\'' || c == '`' {
                    scan_ok(s, i + 1, LexMode::Quoted { wrapper: c })
                } else if ('a' <= c && c <= 'z') || ('A' <= c && c <= 'Z') || c == '_' {
                    scan_ok(s, i + 1, LexMode::Ident)
                } else {
                    scan_ok(s, i + 1, LexMode::Out)
                }
            },
            LexMode::Ident => {
                if is_ident_char(c) {
                    scan_ok(s, i + 1, LexMode::Ident)
                } else {
                    scan_ok(s, i, LexMode::Out)
                }
            },
            LexMode::Digits { value } => {
                if is_ascii_digit(c) {
                    if value * 10 + (c as u32 - 48) > 0x3fff_ffff {
                        false
                    } else {
                        scan_ok(
                            s,
                            i + 1,
                            LexMode::Digits { value: (value * 10 + (c as u32 - 48)) as u64 },
                        )
                    }
                } else {
                    scan_ok(s, i, LexMode::Out)
                }
            },
            LexMode::Dash => {
                if '1' <= c && c <= '9' {
                    scan_ok(s, i + 1, LexMode::Digits { value: (c as u32 - 48) as u64 })
                } else if c as u32 >= 128 {
                    false
                } else {
                    scan_ok(s, i + 1, LexMode::Out)
                }
            },
            LexMode::Quoted { wrapper } => {
                if c == '\\' {
                    scan_ok(s, i + 1, LexMode::QuotedEscape { wrapper })
                } else if c == wrapper {
                    scan_ok(s, i + 1, LexMode::Out)
                } else {
                    scan_ok(s, i + 1, LexMode::Quoted { wrapper })
                }
            },
            LexMode::QuotedEscape { wrapper } => scan_ok(s, i + 1, LexMode::Quoted { wrapper }),
        }
    }
}

/// The JMESPath engine reads and uses every unquoted numeric literal
/// without aborting: each unquoted digit run's decimal value is at most
/// `0x3fff_ffff`, and no number-opening `-` is followed by a non-ASCII
/// character.  The cap keeps both the lexer's 32-bit signed read and the
/// engine's slice stepping, which moves one full stride past an array
/// end in that type, within range.  Quoted identifiers, raw strings and
/// backtick literals are exempt: their digits never become numeric
/// tokens.
pub open spec fn lexes_cleanly(expr: Seq<char>) -> bool {
    scan_ok(expr, 0, LexMode::Out)
}

/// Decides [`lexes_cleanly`] for an expression text.
pub fn expression_lexes_cleanly(expression: &str) -> (r: bool)
    ensures
        r == lexes_cleanly(expression@),
{
    let chars = crate::subst::chars_of(expression);
    let n = chars.len();
    let mut i: usize = 0;
    let mut mode = LexMode::Out;
    loop
        invariant
            i <= n,
            n == chars@.len(),
            chars@ == expression@,
            lexes_cleanly(expression@) == scan_ok(chars@, i as int, mode),
            mode matches LexMode::Digits { value } ==> value <= 0x3fff_ffff,
        decreases n - i, mode_rank(mode),
    {
        if i == n {
            return true;
        }
        let c = chars[i];
        match mode {
            LexMode::Out => {
                if '0' <= c && c <= '9' {
                    mode = LexMode::Digits { value: (c as u32 - 48) as u64 };
                } else if c == '-' {
                    mode = LexMode::Dash;
                } else if c == '"' || c == '\'' || c == '`' {
                    mode = LexMode::Quoted { wrapper: c };
                } else if ('a' <= c && c <= 'z') || ('A' <= c && c <= 'Z') || c == '_' {
                    mode = LexMode::Ident;
                } else {
                    mode = LexMode::Out;
                }
                i = i + 1;
            },
            LexMode::Ident => {
                if ('a' <= c && c <= 'z') || ('A' <= c && c <= 'Z') || c == '_' || ('0' <= c && c
                    <= '9') {
                    i = i + 1;
                } else {
                    mode = LexMode::Out;
                }
            },
            LexMode::Digits { value } => {
                if '0' <= c && c <= '9' {
                    let next = value * 10 + (c as u32 - 48) as u64;
                    if next > 0x3fff_ffff {
                        return false;
                    }
                    mode = LexMode::Digits { value: next };
                    i = i + 1;
                } else {
                    mode = LexMode::Out;
                }
            },
            LexMode::Dash => {
                if '1' <= c && c <= '9' {
                    mode = LexMode::Digits { value: (c as u32 - 48) as u64 };
                } else if c as u32 >= 128 {
                    return false;
                } else {
                    mode = LexMode::Out;
                }
                i = i + 1;
            },
            LexMode::Quoted { wrapper } => {
                if c == '\\' {
                    mode = LexMode::QuotedEscape { wrapper };
                } else if c == wrapper {
                    mode = LexMode::Out;
                } else {
                    mode = LexMode::Quoted { wrapper };
                }
                i = i + 1;
            },
            LexMode::QuotedEscape { wrapper } => {
                mode = LexMode::Quoted { wrapper };
                i = i + 1;
            },
        }
    }
}

/// Whether the JMESPath compiler accepts `expr`.
pub uninterp spec fn query_compiles(expr: Seq<char>) -> bool;

/// What evaluating the query `expr` against the document `doc` yields:
/// a function of the two texts alone.
pub uninterp spec fn query_value(expr: Seq<char>, doc: Seq<char>) -> Result<JsonValue, EvalFault>;

/// A query expression compiled once at registration time.
pub struct Query {
    text: String,
    compiled: jmespatch::Expression<'static>,
}

impl View for Query {
    type V = Seq<char>;

    closed spec fn view(&self) -> Seq<char> {
        self.text@
    }
}

impl Query {
    /// Compiles a query expression.
    /// Relies on `jmespatch::compile`: whether the expression compiles
    /// depends on the expression text alone.  Its lexer aborts instead of
    /// returning on an unquoted numeric literal beyond the 32-bit signed
    /// range, and its slice arithmetic aborts near that range, so
    /// expressions whose literals pass `0x3fff_ffff` are excluded here;
    /// decide [`expression_lexes_cleanly`] first, as `Scheduler::submit`
    /// does.
    #[verifier::external_body]
    pub fn compile(expression: &str) -> (r: Option<Query>)
        requires
            lexes_cleanly(expression@),
        ensures
            r is Some <==> query_compiles(expression@),
            r matches Some(q) ==> q@ == expression@,
    {
        match jmespatch::compile(expression) {
            Ok(compiled) => Some(Query { text: expression.to_owned(), compiled }),
            Err(_) => None,
        }
    }

    /// Evaluates the compiled query against a JSON document.
    /// Relies on `jmespatch::Variable::from_json` and
    /// `jmespatch::Expression::search`: parsing and evaluation are
    /// functions of the document and expression texts alone, and object
    /// keys come back in sorted order from the evaluator's map.  Every
    /// compiled expression keeps its unquoted literals at or below
    /// `0x3fff_ffff` (see [`lexes_cleanly`]), which keeps the engine's
    /// 32-bit slice stepping in range however long the document's arrays
    /// are; the error paths of parsing and evaluation return instead of
    /// aborting.
    #[verifier::external_body]
    pub fn eval(&self, json_response: &str) -> (r: Result<JsonValue, EvalFault>)
        ensures
            r == query_value(self@, json_response@),
    {
        let parsed = match jmespatch::Variable::from_json(json_response) {
            Ok(v) => v,
            Err(_) => {
                return Err(EvalFault::Document);
            },
        };
        match self.compiled.search(parsed) {
            Ok(found) => Ok(json_of_variable(&found)),
            Err(_) => Err(EvalFault::Evaluation),
        }
    }
}

/// The conversion behind `Query::eval`.
/// Relies on the variants of `jmespatch::Variable`; each arm moves the
/// corresponding data across, and an expression-reference result (which no
/// JSON document can contain) is carried as null.
#[verifier::external_body]
fn json_of_variable(v: &jmespatch::Variable) -> JsonValue {
    match v {
        jmespatch::Variable::Null => JsonValue::Null,
        jmespatch::Variable::Bool(b) => JsonValue::Bool(*b),
        jmespatch::Variable::Number(n) => match n.as_f64() {
            Some(x) => JsonValue::Number(x.to_bits()),
            None => JsonValue::Null,
        },
        jmespatch::Variable::String(s) => JsonValue::Text(s.clone()),
        jmespatch::Variable::Array(items) => JsonValue::Array(items.iter().map(|i| json_of_variable(i)).collect()),
        jmespatch::Variable::Object(fs) => JsonValue::Object(fs.iter().map(|(k, i)| (k.clone(), json_of_variable(i))).collect()),
        jmespatch::Variable::Expref(_) => JsonValue::Null,
    }
}

} // verus!
