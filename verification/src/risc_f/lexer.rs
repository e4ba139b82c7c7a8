//! The lexer: a cursor over the text's characters that gives out tokens,
//! and takes tokens back to give them out again.

use vstd::prelude::*;
use vstd::string::StringExecFns;
use crate::decimal::decimal;
use crate::decimal::digits;
use crate::shell::whitespace;

verus! {

/// Whether a character has the Unicode property Alphabetic, which is what
/// `char::is_alphabetic` tests.
pub uninterp spec fn alphabetic(c: char) -> bool;

/// Whether a character is alphabetic or numeric in Unicode's terms, which
/// is what `char::is_alphanumeric` tests.
pub uninterp spec fn alphanumeric(c: char) -> bool;

/// `char::is_alphabetic` tests the Unicode property Alphabetic.
pub assume_specification[ char::is_alphabetic ](c: char) -> (yes: bool)
    ensures
        yes == alphabetic(c),
;

/// `char::is_alphanumeric` tests for a letter or a number in Unicode's
/// terms.
pub assume_specification[ char::is_alphanumeric ](c: char) -> (yes: bool)
    ensures
        yes == alphanumeric(c),
;

/// A place in the text: the row and column of a character, and its index.
#[derive(Clone, Copy, Debug, PartialEq, Eq, Structural)]
pub struct Location {
    pub row: usize,
    pub colum: usize,
    pub index: usize,
}

/// A name of the text, with the place where it starts.
#[derive(Debug)]
pub struct Identifier {
    pub location: Location,
    pub identifier: String,
}

pub enum Token {
    OpenParen,
    ClosedParen,
    Module,
    Function,
    Parameter,
    Local,
    I32,
    LocalGet,
    I32Add,
    Result,
    Identifier(Identifier),
}

/// A token as plain values.
pub enum Lexeme {
    OpenParen,
    ClosedParen,
    Module,
    Function,
    Parameter,
    Local,
    I32,
    LocalGet,
    I32Add,
    Result,
    Identifier { location: Location, identifier: Seq<char> },
}

impl View for Token {
    type V = Lexeme;

    open spec fn view(&self) -> Lexeme {
        match self {
            Token::OpenParen => Lexeme::OpenParen,
            Token::ClosedParen => Lexeme::ClosedParen,
            Token::Module => Lexeme::Module,
            Token::Function => Lexeme::Function,
            Token::Parameter => Lexeme::Parameter,
            Token::Local => Lexeme::Local,
            Token::I32 => Lexeme::I32,
            Token::LocalGet => Lexeme::LocalGet,
            Token::I32Add => Lexeme::I32Add,
            Token::Result => Lexeme::Result,
            Token::Identifier(identifier) => Lexeme::Identifier {
                location: identifier.location,
                identifier: identifier.identifier@,
            },
        }
    }
}

/// Two tokens are the same kind of token, and the same name if they are
/// names. Where a name stands does not count.
pub open spec fn same(left: Lexeme, right: Lexeme) -> bool {
    match (left, right) {
        (
            Lexeme::Identifier { identifier: a, .. },
            Lexeme::Identifier { identifier: b, .. },
        ) => a == b,
        (Lexeme::OpenParen, Lexeme::OpenParen) => true,
        (Lexeme::ClosedParen, Lexeme::ClosedParen) => true,
        (Lexeme::Module, Lexeme::Module) => true,
        (Lexeme::Function, Lexeme::Function) => true,
        (Lexeme::Parameter, Lexeme::Parameter) => true,
        (Lexeme::Local, Lexeme::Local) => true,
        (Lexeme::I32, Lexeme::I32) => true,
        (Lexeme::LocalGet, Lexeme::LocalGet) => true,
        (Lexeme::I32Add, Lexeme::I32Add) => true,
        (Lexeme::Result, Lexeme::Result) => true,
        _ => false,
    }
}

impl Identifier {
    /// Whether two names are spelled alike.
    pub fn same(&self, other: &Identifier) -> (alike: bool)
        ensures
            alike == (self.identifier@ == other.identifier@),
    {
        self.identifier == other.identifier
    }

    /// The name as it is written.
    pub fn text(&self) -> (text: &str)
        ensures
            text@ == self.identifier@,
    {
        self.identifier.as_str()
    }
}

impl Token {
    /// Whether two tokens are the same.
    pub fn same(&self, other: &Token) -> (alike: bool)
        ensures
            alike == same(self@, other@),
    {
        match (self, other) {
            (Token::Identifier(a), Token::Identifier(b)) => a.same(b),
            (Token::OpenParen, Token::OpenParen) => true,
            (Token::ClosedParen, Token::ClosedParen) => true,
            (Token::Module, Token::Module) => true,
            (Token::Function, Token::Function) => true,
            (Token::Parameter, Token::Parameter) => true,
            (Token::Local, Token::Local) => true,
            (Token::I32, Token::I32) => true,
            (Token::LocalGet, Token::LocalGet) => true,
            (Token::I32Add, Token::I32Add) => true,
            (Token::Result, Token::Result) => true,
            _ => false,
        }
    }
}

/// Why the text could not be read on.
pub enum ParseError {
    /// The text ended where more was needed.
    EndOfFile,
    /// Another token stood where `expected` was needed.
    Unexpected { expected: String, got: Token },
    /// A word that is no keyword.
    UnknownWord { word: String },
    /// A character with which no token starts.
    UnknownChar { char: char },
    /// A function that declares a second result.
    SecondResult,
}

/// An error as plain values.
pub enum Failure {
    EndOfFile,
    Unexpected { expected: Seq<char>, got: Lexeme },
    UnknownWord { word: Seq<char> },
    UnknownChar { char: char },
    SecondResult,
}

impl View for ParseError {
    type V = Failure;

    open spec fn view(&self) -> Failure {
        match self {
            ParseError::EndOfFile => Failure::EndOfFile,
            ParseError::Unexpected { expected, got } => Failure::Unexpected {
                expected: expected@,
                got: got@,
            },
            ParseError::UnknownWord { word } => Failure::UnknownWord { word: word@ },
            ParseError::UnknownChar { char } => Failure::UnknownChar { char: *char },
            ParseError::SecondResult => Failure::SecondResult,
        }
    }
}

/// The place after a character at `at`: the next index, and the next column
/// or the start of the next row after a line feed.
pub open spec fn stepped(at: Location, c: char) -> Location {
    if c == '\n' {
        Location { row: (at.row + 1) as usize, colum: 0, index: (at.index + 1) as usize }
    } else {
        Location { row: at.row, colum: (at.colum + 1) as usize, index: (at.index + 1) as usize }
    }
}

/// A place's row and column count no more characters than the text before
/// it has, so neither can run over.
pub open spec fn counted(at: Location) -> bool {
    at.row <= at.index && at.colum <= at.index
}

/// The keyword that a word spells, if it spells one.
pub open spec fn keyword(word: Seq<char>) -> Option<Lexeme> {
    if word == "module"@ {
        Some(Lexeme::Module)
    } else if word == "func"@ {
        Some(Lexeme::Function)
    } else if word == "result"@ {
        Some(Lexeme::Result)
    } else if word == "param"@ {
        Some(Lexeme::Parameter)
    } else if word == "local"@ {
        Some(Lexeme::Local)
    } else if word == "i32"@ {
        Some(Lexeme::I32)
    } else if word == "local.get"@ {
        Some(Lexeme::LocalGet)
    } else if word == "i32.add"@ {
        Some(Lexeme::I32Add)
    } else {
        None
    }
}

/// Whether a character continues a token: letters and numbers continue a
/// name; the same and the dot continue a word.
pub open spec fn continues(c: char, word: bool) -> bool {
    alphanumeric(c) || (word && c == '.')
}

/// What reading on from a place gives: a token or an error, and the place
/// that the lexer is at afterwards.
pub struct Lexed {
    pub outcome: Result<Lexeme, Failure>,
    pub location: Location,
}

/// The rest of a token that has started: the characters from `at` on that
/// continue it, and the place of the first that does not. A token that the
/// end of the text cuts short is an error.
pub open spec fn rest(input: Seq<char>, at: Location, word: bool) -> (Option<Seq<char>>, Location)
    decreases input.len() - at.index,
{
    if at.index >= input.len() || input.len() > usize::MAX {
        (None, at)
    } else if continues(input[at.index as int], word) {
        let more = rest(input, stepped(at, input[at.index as int]), word);
        match more.0 {
            Some(text) => (Some(seq![input[at.index as int]] + text), more.1),
            None => more,
        }
    } else {
        (Some(Seq::empty()), at)
    }
}

/// The next token of the text from `at` on.
pub open spec fn lex(input: Seq<char>, at: Location) -> Lexed
    decreases input.len() - at.index,
{
    if at.index >= input.len() || input.len() > usize::MAX {
        Lexed { outcome: Err(Failure::EndOfFile), location: at }
    } else {
        let c = input[at.index as int];
        let next = stepped(at, c);
        if c == '(' {
            Lexed { outcome: Ok(Lexeme::OpenParen), location: next }
        } else if c == ')' {
            Lexed { outcome: Ok(Lexeme::ClosedParen), location: next }
        } else if c == '$' {
            let name = rest(input, next, false);
            match name.0 {
                Some(text) => Lexed {
                    outcome: Ok(Lexeme::Identifier { location: at, identifier: seq!['$'] + text }),
                    location: name.1,
                },
                None => Lexed { outcome: Err(Failure::EndOfFile), location: name.1 },
            }
        } else if whitespace(c) {
            lex(input, next)
        } else if alphabetic(c) {
            let word = rest(input, next, true);
            match word.0 {
                Some(text) => match keyword(seq![c] + text) {
                    Some(token) => Lexed { outcome: Ok(token), location: word.1 },
                    None => Lexed {
                        outcome: Err(Failure::UnknownWord { word: seq![c] + text }),
                        location: word.1,
                    },
                },
                None => Lexed { outcome: Err(Failure::EndOfFile), location: word.1 },
            }
        } else {
            Lexed { outcome: Err(Failure::UnknownChar { char: c }), location: next }
        }
    }
}

/// A result of the lexer as plain values.
pub open spec fn lexed(result: Result<Token, ParseError>) -> Result<Lexeme, Failure> {
    match result {
        Ok(token) => Ok(token@),
        Err(error) => Err(error@),
    }
}

/// The rest of a token with the characters that were read before it.
pub open spec fn after(read: Seq<char>, more: (Option<Seq<char>>, Location)) -> (
    Option<Seq<char>>,
    Location,
) {
    match more.0 {
        Some(text) => (Some(read + text), more.1),
        None => more,
    }
}

/// A lexer as plain values: the text, the place of the next character, and
/// the tokens that were taken back, the last of which is given out next.
pub struct Cursor {
    pub input: Seq<char>,
    pub place: Location,
    pub returned: Seq<Lexeme>,
}

/// How much a lexer can still give out: the characters that are left, and
/// the tokens that were taken back.
pub open spec fn left(cursor: Cursor) -> int {
    cursor.input.len() - cursor.place.index + cursor.returned.len()
}

/// The lexer's place is in the text or at its end, and the text is no
/// longer than its indices can count.
pub open spec fn sound(cursor: Cursor) -> bool {
    &&& cursor.place.index <= cursor.input.len() <= usize::MAX
    &&& counted(cursor.place)
}

/// The next token and the lexer after giving it out.
pub open spec fn next(cursor: Cursor) -> (Result<Lexeme, Failure>, Cursor) {
    if cursor.returned.len() > 0 {
        (
            Ok(cursor.returned.last()),
            Cursor {
                input: cursor.input,
                place: cursor.place,
                returned: cursor.returned.drop_last(),
            },
        )
    } else {
        let read = lex(cursor.input, cursor.place);
        (
            read.outcome,
            Cursor { input: cursor.input, place: read.location, returned: cursor.returned },
        )
    }
}

/// The lexer after a token was taken back.
pub open spec fn returning(cursor: Cursor, token: Lexeme) -> Cursor {
    Cursor { input: cursor.input, place: cursor.place, returned: cursor.returned.push(token) }
}

/// Whether the next token is `expect`, and the lexer after taking it if it
/// is, or after looking at it if it is not.
pub open spec fn next_if(cursor: Cursor, expect: Lexeme) -> (Result<bool, Failure>, Cursor) {
    let taken = next(cursor);
    match taken.0 {
        Ok(token) => if same(token, expect) {
            (Ok(true), taken.1)
        } else {
            (Ok(false), returning(taken.1, token))
        },
        Err(failure) => (Err(failure), taken.1),
    }
}

/// How a place is written: row and column.
pub open spec fn shown_place(at: Location) -> Seq<char> {
    digits(at.row as nat) + seq![':'] + digits(at.colum as nat)
}

/// How a token is written in a message.
pub open spec fn shown(token: Lexeme) -> Seq<char> {
    match token {
        Lexeme::OpenParen => "("@,
        Lexeme::ClosedParen => ")"@,
        Lexeme::Module => "Module"@,
        Lexeme::Function => "Function"@,
        Lexeme::Local => "Local"@,
        Lexeme::Parameter => "Parameter"@,
        Lexeme::Result => "Result"@,
        Lexeme::I32 => "i32"@,
        Lexeme::LocalGet => "local.get"@,
        Lexeme::I32Add => "i32.add"@,
        Lexeme::Identifier { location, identifier } => "Identifier: "@ + identifier + ", at: "@
            + shown_place(location),
    }
}

/// The next token, which must be `expect`, and the lexer after taking it.
pub open spec fn expected(cursor: Cursor, expect: Lexeme) -> (Result<(), Failure>, Cursor) {
    let taken = next(cursor);
    match taken.0 {
        Ok(token) => if same(token, expect) {
            (Ok(()), taken.1)
        } else {
            (Err(Failure::Unexpected { expected: shown(expect), got: token }), taken.1)
        },
        Err(failure) => (Err(failure), taken.1),
    }
}

/// An error as plain values, whatever the value that came with success.
pub open spec fn failed<T>(result: Result<T, ParseError>) -> Option<Failure> {
    match result {
        Ok(_) => None,
        Err(error) => Some(error@),
    }
}

impl Location {
    /// The place as it is written: row and column.
    pub fn to_string(&self) -> (text: String)
        ensures
            text@ == shown_place(*self),
    {
        let mut text = decimal(self.row as u64);
        let colum = decimal(self.colum as u64);
        text.push(':');
        text.append(colum.as_str());
        text
    }
}

impl Token {
    /// The token as it is written in a message.
    pub fn to_string(&self) -> (text: String)
        ensures
            text@ == shown(self@),
    {
        match self {
            Token::OpenParen => String::from_str("("),
            Token::ClosedParen => String::from_str(")"),
            Token::Module => String::from_str("Module"),
            Token::Function => String::from_str("Function"),
            Token::Local => String::from_str("Local"),
            Token::Parameter => String::from_str("Parameter"),
            Token::Result => String::from_str("Result"),
            Token::I32 => String::from_str("i32"),
            Token::LocalGet => String::from_str("local.get"),
            Token::I32Add => String::from_str("i32.add"),
            Token::Identifier(identifier) => {
                let mut text = String::from_str("Identifier: ");
                text.append(identifier.text());
                text.append(", at: ");
                let place = identifier.location.to_string();
                text.append(place.as_str());
                text
            },
        }
    }
}

/// How an error is written.
pub open spec fn message(failure: Failure) -> Seq<char> {
    match failure {
        Failure::EndOfFile => "Reached end of file"@,
        Failure::Unexpected { expected, got } => "Expected: '"@ + expected + "' but got: '"@
            + shown(got) + "'"@,
        Failure::UnknownWord { word } => "Unexpected token: "@ + word,
        Failure::UnknownChar { char } => "Unexpected character: "@ + seq![char],
        Failure::SecondResult => "A function has one result"@,
    }
}

impl ParseError {
    /// The error as it is written.
    pub fn to_string(&self) -> (text: String)
        ensures
            text@ == message(self@),
    {
        match self {
            ParseError::EndOfFile => String::from_str("Reached end of file"),
            ParseError::Unexpected { expected, got } => {
                let mut text = String::from_str("Expected: '");
                text.append(expected.as_str());
                text.append("' but got: '");
                let shown = got.to_string();
                text.append(shown.as_str());
                text.append("'");
                text
            },
            ParseError::UnknownWord { word } => {
                let mut text = String::from_str("Unexpected token: ");
                text.append(word.as_str());
                text
            },
            ParseError::UnknownChar { char } => {
                let mut text = String::from_str("Unexpected character: ");
                text.push(*char);
                text
            },
            ParseError::SecondResult => String::from_str("A function has one result"),
        }
    }
}

/// The token that a word is, or the error that it is no keyword.
fn word_token(word: String) -> (result: Result<Token, ParseError>)
    ensures
        lexed(result) == match keyword(word@) {
            Some(token) => Ok::<Lexeme, Failure>(token),
            None => Err::<Lexeme, Failure>(Failure::UnknownWord { word: word@ }),
        },
{
    if word == String::from_str("module") {
        Ok(Token::Module)
    } else if word == String::from_str("func") {
        Ok(Token::Function)
    } else if word == String::from_str("result") {
        Ok(Token::Result)
    } else if word == String::from_str("param") {
        Ok(Token::Parameter)
    } else if word == String::from_str("local") {
        Ok(Token::Local)
    } else if word == String::from_str("i32") {
        Ok(Token::I32)
    } else if word == String::from_str("local.get") {
        Ok(Token::LocalGet)
    } else if word == String::from_str("i32.add") {
        Ok(Token::I32Add)
    } else {
        Err(ParseError::UnknownWord { word })
    }
}

/// The tokens as plain values.
pub open spec fn lexemes(tokens: Seq<Token>) -> Seq<Lexeme> {
    Seq::new(tokens.len(), |i: int| tokens[i]@)
}

pub struct Lexer {
    input: Vec<char>,
    location: Location,
    next_tokens: Vec<Token>,
}

impl Lexer {
    /// The lexer as plain values.
    pub closed spec fn cursor(&self) -> Cursor {
        Cursor {
            input: self.input@,
            place: self.location,
            returned: lexemes(self.next_tokens@),
        }
    }

    /// The text.
    pub open spec fn input(&self) -> Seq<char> {
        self.cursor().input
    }

    /// The place of the next character.
    pub open spec fn place(&self) -> Location {
        self.cursor().place
    }

    /// The tokens that were taken back, the last of which is given out
    /// next.
    pub open spec fn returned(&self) -> Seq<Lexeme> {
        self.cursor().returned
    }

    /// The lexer's place is in the text, or at its end.
    pub closed spec fn wf(&self) -> bool {
        sound(self.cursor())
    }

    /// A lexer in order is a sound cursor.
    pub proof fn lemma_wf(&self)
        ensures
            self.wf() == sound(self.cursor()),
    {
    }

    pub fn new(input: &str) -> (lexer: Self)
        ensures
            lexer.wf(),
            lexer.input() == input@,
            lexer.place() == (Location { row: 0, colum: 0, index: 0 }),
            lexer.returned() == Seq::<Lexeme>::empty(),
    {
        let n = input.unicode_len();
        let mut chars: Vec<char> = Vec::new();
        let mut i: usize = 0;
        while i < n
            invariant
                n == input@.len(),
                i <= n,
                chars@ == input@.take(i as int),
            decreases n - i,
        {
            chars.push(input.get_char(i));
            assert(chars@ =~= input@.take(i + 1));
            i += 1;
        }
        assert(input@.take(n as int) =~= input@);
        let size = chars.len();
        let lexer = Lexer {
            input: chars,
            location: Location { row: 0, colum: 0, index: 0 },
            next_tokens: Vec::new(),
        };
        assert(lexer.returned() =~= Seq::<Lexeme>::empty());
        lexer
    }

    /// The place of the next character.
    pub fn location(&self) -> (location: Location)
        ensures
            location == self.place(),
    {
        self.location
    }

    fn step_location(&mut self, char: char)
        requires
            old(self).wf(),
            old(self).place().index < old(self).input().len(),
        ensures
            final(self).wf(),
            final(self).input() == old(self).input(),
            final(self).returned() == old(self).returned(),
            final(self).place() == stepped(old(self).place(), char),
    {
        let size = self.input.len();
        self.location.index += 1;
        if char == '\n' {
            self.location.colum = 0;
            self.location.row += 1;
        } else {
            self.location.colum += 1;
        }
    }

    fn next_char(&mut self) -> (result: Result<char, ParseError>)
        requires
            old(self).wf(),
        ensures
            final(self).wf(),
            final(self).input() == old(self).input(),
            final(self).returned() == old(self).returned(),
            match result {
                Ok(c) => old(self).place().index < old(self).input().len() && c == old(self).input()[old(self).place().index as int] && final(self).place() == stepped(
                    old(self).place(),
                    c,
                ),
                Err(error) => old(self).place().index >= old(self).input().len() && error
                    is EndOfFile && final(self).place() == old(self).place(),
            },
    {
        if self.location.index >= self.input.len() {
            return Err(ParseError::EndOfFile);
        }
        let char = self.input[self.location.index];
        self.step_location(char);
        Ok(char)
    }

    fn next_char_if<F: Fn(char) -> bool>(&mut self, predicate: F) -> (result: Result<
        Option<char>,
        ParseError,
    >)
        requires
            old(self).wf(),
            forall|c: char| call_requires(predicate, (c,)),
        ensures
            final(self).wf(),
            final(self).input() == old(self).input(),
            final(self).returned() == old(self).returned(),
            match result {
                Ok(Some(c)) => old(self).place().index < old(self).input().len() && c == old(self).input()[old(self).place().index as int] && call_ensures(predicate, (c,), true)
                    && final(self).place() == stepped(old(self).place(), c),
                Ok(None) => old(self).place().index < old(self).input().len() && call_ensures(
                    predicate,
                    (old(self).input()[old(self).place().index as int],),
                    false,
                ) && final(self).place() == old(self).place(),
                Err(error) => old(self).place().index >= old(self).input().len() && error
                    is EndOfFile && final(self).place() == old(self).place(),
            },
    {
        if self.location.index >= self.input.len() {
            return Err(ParseError::EndOfFile);
        }
        let char = self.input[self.location.index];
        if predicate(char) {
            self.step_location(char);
            Ok(Some(char))
        } else {
            Ok(None)
        }
    }

    /// Reads the rest of a token that has started into `token`.
    fn read_rest(&mut self, token: &mut String, word: bool) -> (result: Result<(), ParseError>)
        requires
            old(self).wf(),
        ensures
            final(self).wf(),
            final(self).input() == old(self).input(),
            final(self).returned() == old(self).returned(),
            final(self).place() == rest(old(self).input(), old(self).place(), word).1,
            match rest(old(self).input(), old(self).place(), word).0 {
                Some(text) => result is Ok && final(token)@ == old(token)@ + text,
                None => result matches Err(ParseError::EndOfFile),
            },
    {
        let ghost start = self.location;
        let ghost first = token@;
        let ghost read = Seq::<char>::empty();
        assert(first + read =~= first);
        let size = self.input.len();
        loop
            invariant
                self.wf(),
                self.input() == old(self).input(),
                self.returned() == old(self).returned(),
                token@ == first + read,
                first == old(token)@,
                start == old(self).place(),
                size == self.input().len(),
                after(read, rest(self.input(), self.place(), word)) == rest(
                    self.input(),
                    start,
                    word,
                ),
            decreases self.input().len() - self.place().index,
        {
            let ghost at = self.location;
            let continues_token = |c: char| -> (yes: bool)
                ensures
                    yes == continues(c, word),
                { c.is_alphanumeric() || (word && c == '.') };
            match self.next_char_if(continues_token) {
                Ok(Some(next)) => {
                    token.push(next);
                    proof {
                        let more = rest(self.input(), self.place(), word);
                        assert(rest(self.input(), at, word) == after(seq![next], more));
                        match more.0 {
                            Some(text) => {
                                assert(read + (seq![next] + text) =~= read.push(next) + text);
                            },
                            None => {},
                        }
                        read = read.push(next);
                        assert(first + read =~= token@);
                    }
                },
                Ok(None) => {
                    proof {
                        assert(rest(self.input(), at, word) == (Some(Seq::<char>::empty()), at));
                        assert(read + Seq::<char>::empty() =~= read);
                    }
                    return Ok(());
                },
                Err(error) => {
                    return Err(error);
                },
            }
        }
    }

    /// Gives out the next token: the one that was taken back last, if any,
    /// else the next of the text.
    pub fn next_token(&mut self) -> (result: Result<Token, ParseError>)
        requires
            old(self).wf(),
        ensures
            final(self).wf(),
            (lexed(result), final(self).cursor()) == next(old(self).cursor()),
    {
        if self.next_tokens.len() > 0 {
            let token = self.next_tokens.pop().unwrap();
            assert(lexemes(self.next_tokens@) =~= lexemes(old(self).next_tokens@).drop_last());
            return Ok(token);
        }
        assert(self.returned() =~= Seq::<Lexeme>::empty());
        let size = self.input.len();
        loop
            invariant
                self.wf(),
                self.input() == old(self).input(),
                self.returned() == old(self).returned(),
                old(self).returned().len() == 0,
                size == self.input().len(),
                lex(self.input(), self.place()) == lex(old(self).input(), old(self).place()),
            decreases self.input().len() - self.place().index,
        {
            let current_location = self.location;
            let char = match self.next_char() {
                Ok(char) => char,
                Err(error) => {
                    return Err(error);
                },
            };
            if char == '(' {
                return Ok(Token::OpenParen);
            } else if char == ')' {
                return Ok(Token::ClosedParen);
            } else if char == '$' {
                let mut token = String::new();
                token.push('$');
                assert(token@ =~= seq!['$']);
                match self.read_rest(&mut token, false) {
                    Ok(()) => {
                        return Ok(
                            Token::Identifier(
                                Identifier { location: current_location, identifier: token },
                            ),
                        );
                    },
                    Err(error) => {
                        return Err(error);
                    },
                }
            } else if char.is_whitespace() {
            } else if char.is_alphabetic() {
                let mut token = String::new();
                token.push(char);
                assert(token@ =~= seq![char]);
                match self.read_rest(&mut token, true) {
                    Ok(()) => {
                        return word_token(token);
                    },
                    Err(error) => {
                        return Err(error);
                    },
                }
            } else {
                return Err(ParseError::UnknownChar { char });
            }
        }
    }

    /// Takes a token back. It is the next to be given out.
    pub fn return_token(&mut self, token: Token)
        ensures
            final(self).wf() == old(self).wf(),
            final(self).cursor() == returning(old(self).cursor(), token@),
    {
        self.next_tokens.push(token);
        assert(lexemes(self.next_tokens@) =~= lexemes(old(self).next_tokens@).push(token@));
    }

    /// Takes the next token if it is the expected one, and leaves it to be
    /// given out again if it is not. Says which.
    pub fn next_token_if(&mut self, expect: Token) -> (result: Result<bool, ParseError>)
        requires
            old(self).wf(),
        ensures
            final(self).wf(),
            final(self).cursor() == next_if(old(self).cursor(), expect@).1,
            match next_if(old(self).cursor(), expect@).0 {
                Ok(taken) => result == Ok::<bool, ParseError>(taken),
                Err(failure) => failed(result) == Some(failure),
            },
    {
        let token = match self.next_token() {
            Ok(token) => token,
            Err(error) => {
                return Err(error);
            },
        };
        if token.same(&expect) {
            Ok(true)
        } else {
            self.return_token(token);
            Ok(false)
        }
    }

    /// Takes the next token, which must be the expected one.
    pub fn expect_token(&mut self, expect: Token) -> (result: Result<(), ParseError>)
        requires
            old(self).wf(),
        ensures
            final(self).wf(),
            final(self).cursor() == expected(old(self).cursor(), expect@).1,
            match expected(old(self).cursor(), expect@).0 {
                Ok(_) => result is Ok,
                Err(failure) => failed(result) == Some(failure),
            },
    {
        let token = match self.next_token() {
            Ok(token) => token,
            Err(error) => {
                return Err(error);
            },
        };
        if token.same(&expect) {
            Ok(())
        } else {
            Err(ParseError::Unexpected { expected: expect.to_string(), got: token })
        }
    }
}

} // verus!
