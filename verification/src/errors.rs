//! Diagnostics: where a problem lies, what kind it is, and how it reads.

use crate::text::{decimal, push_decimal, push_spaces, spaces};
use vstd::prelude::*;
use vstd::std_specs::convert::FromSpecImpl;
use vstd::string::StringExecFns;

verus! {

/// What lexing or parsing a line gives: a value, or the diagnostics that
/// explain why there is none.
pub type CompilerResult<T> = Result<T, Vec<Error>>;

/// The severity of a diagnostic. Only `Error` keeps a result from being used.
#[derive(Clone, Copy, PartialEq, Eq, PartialOrd, Ord, Debug, Structural)]
pub enum ErrorType {
    Error,
    Warning,
    Note,
}

impl ErrorType {
    /// The word under which a severity is reported.
    pub open spec fn label(self) -> Seq<char> {
        match self {
            ErrorType::Error => "error"@,
            ErrorType::Warning => "warning"@,
            ErrorType::Note => "note"@,
        }
    }

    /// The word under which this severity is reported.
    pub fn to_string(&self) -> (r: String)
        ensures
            r@ == self.label(),
    {
        match self {
            ErrorType::Error => String::from_str("error"),
            ErrorType::Warning => String::from_str("warning"),
            ErrorType::Note => String::from_str("note"),
        }
    }
}

/// What a [`PartialLocation`] holds.
pub struct PartialLocationView {
    pub filename: Seq<char>,
    pub line: u64,
}

/// What a [`Location`] holds.
pub struct LocationView {
    pub filename: Seq<char>,
    pub line: u64,
    pub char_pos: u32,
}

impl PartialLocationView {
    /// The location at offset `char_pos` of this line.
    pub open spec fn at(self, char_pos: u32) -> LocationView {
        LocationView { filename: self.filename, line: self.line, char_pos }
    }
}

/// The file and the line that are being read, before any character offset
/// is known.
#[derive(PartialEq, Eq, PartialOrd, Ord, Debug)]
pub struct PartialLocation {
    filename: String,
    line: u64,
}

impl View for PartialLocation {
    type V = PartialLocationView;

    closed spec fn view(&self) -> PartialLocationView {
        PartialLocationView { filename: self.filename@, line: self.line }
    }
}

impl Clone for PartialLocation {
    fn clone(&self) -> (r: Self)
        ensures
            r == *self,
    {
        PartialLocation { filename: self.filename.clone(), line: self.line }
    }
}

impl PartialLocation {
    /// The line numbered `line` of the file called `filename`.
    pub fn new(filename: &str, line: u64) -> (r: Self)
        ensures
            r@ == (PartialLocationView { filename: filename@, line }),
    {
        PartialLocation { filename: String::from_str(filename), line }
    }

    /// A line read from standard input.
    pub fn stdin(line: u64) -> (r: Self)
        ensures
            r@ == (PartialLocationView { filename: "stdin"@, line }),
    {
        PartialLocation { filename: String::from_str("stdin"), line }
    }

    /// A line whose origin is unknown.
    pub fn not_specified(line: u64) -> (r: Self)
        ensures
            r@ == (PartialLocationView { filename: "not specified"@, line }),
    {
        PartialLocation { filename: String::from_str("not specified"), line }
    }

    /// A line of a test.
    pub fn testing(line: u64) -> (r: Self)
        ensures
            r@ == (PartialLocationView { filename: "test"@, line }),
    {
        PartialLocation { filename: String::from_str("test"), line }
    }
}

/// The file, the line and the character offset of a problem.
#[derive(PartialEq, Eq, PartialOrd, Ord, Debug)]
pub struct Location {
    filename: String,
    line: u64,
    char_pos: u32,
}

impl View for Location {
    type V = LocationView;

    closed spec fn view(&self) -> LocationView {
        LocationView { filename: self.filename@, line: self.line, char_pos: self.char_pos }
    }
}

impl Clone for Location {
    fn clone(&self) -> (r: Self)
        ensures
            r == *self,
    {
        Location { filename: self.filename.clone(), line: self.line, char_pos: self.char_pos }
    }
}

impl Location {
    /// The location at offset `char` of line `line` of the file `filename`.
    pub fn new(filename: &str, line: u64, char: u32) -> (r: Self)
        ensures
            r@ == (LocationView { filename: filename@, line, char_pos: char }),
    {
        Location { filename: String::from_str(filename), line, char_pos: char }
    }

    /// This location on another line.
    pub fn line(self, line: u64) -> (r: Self)
        ensures
            r@ == (LocationView { line, ..self@ }),
    {
        Location { filename: self.filename, line, char_pos: self.char_pos }
    }

    /// This location at another character offset.
    pub fn char_pos(self, char_pos: u32) -> (r: Self)
        ensures
            r@ == (LocationView { char_pos, ..self@ }),
    {
        Location { filename: self.filename, line: self.line, char_pos }
    }

    /// This location in another file.
    pub fn filename(self, filename: &str) -> (r: Self)
        ensures
            r@ == (LocationView { filename: filename@, ..self@ }),
    {
        Location { filename: String::from_str(filename), line: self.line, char_pos: self.char_pos }
    }
}

impl From<PartialLocation> for Location {
    /// The start of the line: offset 0, to be refined afterwards.
    fn from(value: PartialLocation) -> (r: Self)
        ensures
            r@ == value@.at(0),
    {
        Location { filename: value.filename, line: value.line, char_pos: 0 }
    }
}

impl FromSpecImpl<PartialLocation> for Location {
    open spec fn obeys_from_spec() -> bool {
        true
    }

    closed spec fn from_spec(v: PartialLocation) -> Location {
        Location { filename: v.filename, line: v.line, char_pos: 0 }
    }
}

/// What went wrong.
#[derive(PartialEq, Eq, PartialOrd, Ord, Debug)]
pub enum ErrorKind {
    /// The syntax is wrong in a way that no other kind describes.
    SyntaxError,
    /// A string literal has no closing quote.
    StringClosingError,
    /// A character, given by its code, may not stand where it does.
    IllegalCharacter(u32),
    /// A token of the named class is missing.
    ExpectedToken(String),
    /// A token of the named class may not stand where it does.
    UnexpectedToken(String),
    /// A number has a fractional part.
    FloatingNumber,
    /// An integer literal exceeds 64 bits.
    IntegerOverflow,
    /// The named operator is lexed, but expressions are not built with it.
    UnsupportedOperator(String),
}

/// What an [`ErrorKind`] holds.
pub enum ErrorKindView {
    SyntaxError,
    StringClosingError,
    IllegalCharacter(u32),
    ExpectedToken(Seq<char>),
    UnexpectedToken(Seq<char>),
    FloatingNumber,
    IntegerOverflow,
    UnsupportedOperator(Seq<char>),
}

impl ErrorKindView {
    /// The name under which a kind is reported.
    pub open spec fn name(self) -> Seq<char> {
        match self {
            ErrorKindView::SyntaxError => "SyntaxError"@,
            ErrorKindView::StringClosingError => "StringClosingError"@,
            ErrorKindView::IllegalCharacter(_) => "IllegalCharacter"@,
            ErrorKindView::ExpectedToken(_) => "ExpectedToken"@,
            ErrorKindView::UnexpectedToken(_) => "UnexpectedToken"@,
            ErrorKindView::FloatingNumber => "FloatingNumber"@,
            ErrorKindView::IntegerOverflow => "IntegerOverflow"@,
            ErrorKindView::UnsupportedOperator(_) => "UnsupportedOperator"@,
        }
    }

    /// The sentence that explains a kind.
    pub open spec fn description(self) -> Seq<char> {
        match self {
            ErrorKindView::SyntaxError => "Uncorrect syntax"@,
            ErrorKindView::StringClosingError => "A String litteral was not closed"@,
            ErrorKindView::IllegalCharacter(code) => "An illegal character of code ["@ + decimal(
                code as nat,
            ) + "] was encountred"@,
            ErrorKindView::ExpectedToken(expected) => "Excepted Token ["@ + expected + "]"@,
            ErrorKindView::UnexpectedToken(found) => "Unexpected Token ["@ + found + "]"@,
            ErrorKindView::FloatingNumber => "Floating Number are not supported."@,
            ErrorKindView::IntegerOverflow => "An integer litteral does not fit in 64 bits"@,
            ErrorKindView::UnsupportedOperator(operator) => "Unsupported operator ["@ + operator
                + "]"@,
        }
    }
}

impl View for ErrorKind {
    type V = ErrorKindView;

    open spec fn view(&self) -> ErrorKindView {
        match self {
            ErrorKind::SyntaxError => ErrorKindView::SyntaxError,
            ErrorKind::StringClosingError => ErrorKindView::StringClosingError,
            ErrorKind::IllegalCharacter(code) => ErrorKindView::IllegalCharacter(*code),
            ErrorKind::ExpectedToken(expected) => ErrorKindView::ExpectedToken(expected@),
            ErrorKind::UnexpectedToken(found) => ErrorKindView::UnexpectedToken(found@),
            ErrorKind::FloatingNumber => ErrorKindView::FloatingNumber,
            ErrorKind::IntegerOverflow => ErrorKindView::IntegerOverflow,
            ErrorKind::UnsupportedOperator(operator) => ErrorKindView::UnsupportedOperator(
                operator@,
            ),
        }
    }
}

impl Clone for ErrorKind {
    fn clone(&self) -> (r: Self)
        ensures
            r == *self,
    {
        match self {
            ErrorKind::SyntaxError => ErrorKind::SyntaxError,
            ErrorKind::StringClosingError => ErrorKind::StringClosingError,
            ErrorKind::IllegalCharacter(code) => ErrorKind::IllegalCharacter(*code),
            ErrorKind::ExpectedToken(expected) => ErrorKind::ExpectedToken(expected.clone()),
            ErrorKind::UnexpectedToken(found) => ErrorKind::UnexpectedToken(found.clone()),
            ErrorKind::FloatingNumber => ErrorKind::FloatingNumber,
            ErrorKind::IntegerOverflow => ErrorKind::IntegerOverflow,
            ErrorKind::UnsupportedOperator(operator) => ErrorKind::UnsupportedOperator(
                operator.clone(),
            ),
        }
    }
}

impl ErrorKind {
    /// The name under which this kind is reported.
    pub fn name(&self) -> (r: String)
        ensures
            r@ == self@.name(),
    {
        match self {
            ErrorKind::SyntaxError => String::from_str("SyntaxError"),
            ErrorKind::StringClosingError => String::from_str("StringClosingError"),
            ErrorKind::IllegalCharacter(_) => String::from_str("IllegalCharacter"),
            ErrorKind::ExpectedToken(_) => String::from_str("ExpectedToken"),
            ErrorKind::UnexpectedToken(_) => String::from_str("UnexpectedToken"),
            ErrorKind::FloatingNumber => String::from_str("FloatingNumber"),
            ErrorKind::IntegerOverflow => String::from_str("IntegerOverflow"),
            ErrorKind::UnsupportedOperator(_) => String::from_str("UnsupportedOperator"),
        }
    }

    /// The sentence that explains this kind.
    pub fn description(&self) -> (r: String)
        ensures
            r@ == self@.description(),
    {
        match self {
            ErrorKind::SyntaxError => String::from_str("Uncorrect syntax"),
            ErrorKind::StringClosingError => String::from_str("A String litteral was not closed"),
            ErrorKind::IllegalCharacter(code) => {
                let mut r = String::from_str("An illegal character of code [");
                push_decimal(&mut r, *code as u64);
                r.append("] was encountred");
                r
            },
            ErrorKind::ExpectedToken(expected) => {
                let mut r = String::from_str("Excepted Token [");
                r.append(expected.as_str());
                r.append("]");
                r
            },
            ErrorKind::UnexpectedToken(found) => {
                let mut r = String::from_str("Unexpected Token [");
                r.append(found.as_str());
                r.append("]");
                r
            },
            ErrorKind::FloatingNumber => String::from_str("Floating Number are not supported."),
            ErrorKind::IntegerOverflow => String::from_str(
                "An integer litteral does not fit in 64 bits",
            ),
            ErrorKind::UnsupportedOperator(operator) => {
                let mut r = String::from_str("Unsupported operator [");
                r.append(operator.as_str());
                r.append("]");
                r
            },
        }
    }
}

/// What an [`Error`] holds.
pub struct ErrorView {
    pub err_type: ErrorType,
    pub location: LocationView,
    pub kind: ErrorKindView,
    pub name: Seq<char>,
    pub desc: Seq<char>,
    pub line: Seq<char>,
}

impl ErrorView {
    /// The diagnostic of severity `Error` for a problem of kind `kind` at
    /// `location`, on the source line `line`.
    pub open spec fn of(kind: ErrorKindView, location: LocationView, line: Seq<char>) -> ErrorView {
        ErrorView {
            err_type: ErrorType::Error,
            location,
            kind,
            name: kind.name(),
            desc: kind.description(),
            line,
        }
    }

    /// The block of text that shows a diagnostic to a reader: the severity,
    /// the kind and the place, the source line, a caret under the offending
    /// character, and the description.
    pub open spec fn rendered(self) -> Seq<char> {
        self.err_type.label() + ": "@ + self.name + " in "@ + self.location.filename + " at "@
            + decimal(self.location.line as nat) + ":"@ + decimal(self.location.char_pos as nat)
            + "\n|\t"@ + self.line + "\n|\t"@ + spaces(self.location.char_pos as nat) + "^\n"@
            + self.desc
    }
}

/// A diagnostic: an error, a warning or a note, with the place of the
/// problem, its kind, the kind's name and description, and the source line on
/// which it was found.
#[derive(PartialEq, Eq, PartialOrd, Ord, Debug)]
pub struct Error {
    err_type: ErrorType,
    location: Location,
    kind: ErrorKind,
    name: String,
    desc: String,
    line: String,
}

impl View for Error {
    type V = ErrorView;

    closed spec fn view(&self) -> ErrorView {
        ErrorView {
            err_type: self.err_type,
            location: self.location@,
            kind: self.kind@,
            name: self.name@,
            desc: self.desc@,
            line: self.line@,
        }
    }
}

impl Clone for Error {
    fn clone(&self) -> (r: Self)
        ensures
            r == *self,
    {
        Error {
            err_type: self.err_type,
            location: self.location.clone(),
            kind: self.kind.clone(),
            name: self.name.clone(),
            desc: self.desc.clone(),
            line: self.line.clone(),
        }
    }
}

impl Error {
    /// A diagnostic of the given severity and kind; the kind fixes the name
    /// and the description.
    fn new(err_type: ErrorType, location: Location, kind: ErrorKind, line: &str) -> (r: Self)
        ensures
            r@ == (ErrorView { err_type, ..ErrorView::of(kind@, location@, line@) }),
    {
        let name = kind.name();
        let desc = kind.description();
        Error { err_type, location, kind, name, desc, line: String::from_str(line) }
    }

    /// A syntax error that no other kind describes.
    pub fn syntax_error(location: Location, line: &str) -> (r: Self)
        ensures
            r@ == ErrorView::of(ErrorKindView::SyntaxError, location@, line@),
    {
        Self::new(ErrorType::Error, location, ErrorKind::SyntaxError, line)
    }

    /// A string literal was not closed.
    pub fn string_closing(location: Location, line: &str) -> (r: Self)
        ensures
            r@ == ErrorView::of(ErrorKindView::StringClosingError, location@, line@),
    {
        Self::new(ErrorType::Error, location, ErrorKind::StringClosingError, line)
    }

    /// The character `c` may not stand where it does.
    pub fn illegal_character(location: Location, line: &str, c: char) -> (r: Self)
        ensures
            r@ == ErrorView::of(ErrorKindView::IllegalCharacter(c as u32), location@, line@),
    {
        Self::new(ErrorType::Error, location, ErrorKind::IllegalCharacter(c as u32), line)
    }

    /// A token of the class `excepted` is missing.
    pub fn excepted_token(location: Location, line: &str, excepted: &str) -> (r: Self)
        ensures
            r@ == ErrorView::of(ErrorKindView::ExpectedToken(excepted@), location@, line@),
    {
        Self::new(
            ErrorType::Error,
            location,
            ErrorKind::ExpectedToken(String::from_str(excepted)),
            line,
        )
    }

    /// A token of the class `token` may not stand where it does.
    pub fn unexcepted_token(location: Location, line: &str, token: &str) -> (r: Self)
        ensures
            r@ == ErrorView::of(ErrorKindView::UnexpectedToken(token@), location@, line@),
    {
        Self::new(
            ErrorType::Error,
            location,
            ErrorKind::UnexpectedToken(String::from_str(token)),
            line,
        )
    }

    /// A number with a fractional part: the language has integers only.
    pub fn floating_numer(location: Location, line: &str) -> (r: Self)
        ensures
            r@ == ErrorView::of(ErrorKindView::FloatingNumber, location@, line@),
    {
        Self::new(ErrorType::Error, location, ErrorKind::FloatingNumber, line)
    }

    /// An integer literal exceeds 64 bits.
    pub fn integer_overflow(location: Location, line: &str) -> (r: Self)
        ensures
            r@ == ErrorView::of(ErrorKindView::IntegerOverflow, location@, line@),
    {
        Self::new(ErrorType::Error, location, ErrorKind::IntegerOverflow, line)
    }

    /// Expressions are not built with the operator `operator`.
    pub fn unsupported_operator(location: Location, line: &str, operator: &str) -> (r: Self)
        ensures
            r@ == ErrorView::of(ErrorKindView::UnsupportedOperator(operator@), location@, line@),
    {
        Self::new(
            ErrorType::Error,
            location,
            ErrorKind::UnsupportedOperator(String::from_str(operator)),
            line,
        )
    }

    /// The severity of this diagnostic.
    pub fn err_type(&self) -> (r: ErrorType)
        ensures
            r == self@.err_type,
    {
        self.err_type
    }

    /// The kind of this diagnostic.
    pub fn kind(&self) -> (r: &ErrorKind)
        ensures
            r@ == self@.kind,
    {
        &self.kind
    }

    /// The place of the problem.
    pub fn location(&self) -> (r: &Location)
        ensures
            r@ == self@.location,
    {
        &self.location
    }

    /// The block of text that shows this diagnostic to a reader.
    pub fn to_string(&self) -> (r: String)
        ensures
            r@ == self@.rendered(),
    {
        let mut r = self.err_type.to_string();
        r.append(": ");
        r.append(self.name.as_str());
        r.append(" in ");
        r.append(self.location.filename.as_str());
        r.append(" at ");
        push_decimal(&mut r, self.location.line);
        r.append(":");
        push_decimal(&mut r, self.location.char_pos as u64);
        r.append("\n|\t");
        r.append(self.line.as_str());
        r.append("\n|\t");
        push_spaces(&mut r, self.location.char_pos);
        r.append("^\n");
        r.append(self.desc.as_str());
        r
    }
}

/// The views of a list of diagnostics, in order.
pub open spec fn errors_view(errors: Seq<Error>) -> Seq<ErrorView> {
    errors.map_values(|e: Error| e@)
}

/// Whether every diagnostic of a list is of the severity `Error`, the one
/// that keeps a result from being used.
pub open spec fn all_errors(errors: Seq<ErrorView>) -> bool {
    forall|k: int| 0 <= k < errors.len() ==> (#[trigger] errors[k]).err_type == ErrorType::Error
}

} // verus!
