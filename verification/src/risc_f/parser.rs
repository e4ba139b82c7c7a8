//! The parser: builds the tree of a module from the lexer's tokens.

use vstd::prelude::*;
use vstd::string::StringExecFns;
use crate::risc_f::lexer::counted;
use crate::risc_f::lexer::expected;
use crate::risc_f::lexer::failed;
use crate::risc_f::lexer::left;
use crate::risc_f::lexer::lex;
use crate::risc_f::lexer::next;
use crate::risc_f::lexer::next_if;
use crate::risc_f::lexer::rest;
use crate::risc_f::lexer::returning;
use crate::risc_f::lexer::same;
use crate::risc_f::lexer::sound;
use crate::risc_f::lexer::stepped;
use crate::risc_f::lexer::Cursor;
use crate::risc_f::lexer::Failure;
use crate::risc_f::lexer::Identifier;
use crate::risc_f::lexer::Lexeme;
use crate::risc_f::lexer::Lexer;
use crate::risc_f::lexer::Location;
use crate::risc_f::lexer::ParseError;
use crate::risc_f::lexer::Token;

verus! {

#[derive(Debug, PartialEq, Eq, Structural)]
pub enum DataType {
    I32,
}

/// A parameter or a local variable of a function.
pub struct FunctionDef {
    pub identifier: Identifier,
    pub data_type: DataType,
}

/// One declaration in a function's head.
pub enum FunctionDefs {
    Parameter(FunctionDef),
    Result(DataType),
    Local(FunctionDef),
}

pub enum Instruction {
    LocalGet(Identifier),
    I32Add,
}

pub enum Node {
    Module(Vec<Node>),
    Function {
        params: Vec<FunctionDef>,
        locals: Vec<FunctionDef>,
        name: Identifier,
        result: Option<DataType>,
        content: Vec<Instruction>,
    },
    Identifier(Identifier),
}

/// A name as plain values.
pub struct Named {
    pub location: Location,
    pub identifier: Seq<char>,
}

/// A parameter or a local variable as plain values.
pub struct Declared {
    pub identifier: Named,
    pub data_type: DataType,
}

/// A declaration as plain values.
pub enum Declaration {
    Parameter(Declared),
    Result(DataType),
    Local(Declared),
}

/// An instruction as plain values.
pub enum Operation {
    LocalGet(Named),
    I32Add,
}

/// A function as plain values.
pub struct Function {
    pub params: Seq<Declared>,
    pub locals: Seq<Declared>,
    pub name: Named,
    pub result: Option<DataType>,
    pub content: Seq<Operation>,
}

impl View for Identifier {
    type V = Named;

    open spec fn view(&self) -> Named {
        Named { location: self.location, identifier: self.identifier@ }
    }
}

impl View for FunctionDef {
    type V = Declared;

    open spec fn view(&self) -> Declared {
        Declared { identifier: self.identifier@, data_type: self.data_type }
    }
}

impl View for FunctionDefs {
    type V = Declaration;

    open spec fn view(&self) -> Declaration {
        match self {
            FunctionDefs::Parameter(def) => Declaration::Parameter(def@),
            FunctionDefs::Result(data_type) => Declaration::Result(*data_type),
            FunctionDefs::Local(def) => Declaration::Local(def@),
        }
    }
}

impl View for Instruction {
    type V = Operation;

    open spec fn view(&self) -> Operation {
        match self {
            Instruction::LocalGet(name) => Operation::LocalGet(name@),
            Instruction::I32Add => Operation::I32Add,
        }
    }
}

/// The declarations as plain values.
pub open spec fn declared(defs: Seq<FunctionDef>) -> Seq<Declared> {
    Seq::new(defs.len(), |i: int| defs[i]@)
}

/// The instructions as plain values.
pub open spec fn operations(instructions: Seq<Instruction>) -> Seq<Operation> {
    Seq::new(instructions.len(), |i: int| instructions[i]@)
}

/// A function node as plain values. Other nodes are no functions.
pub open spec fn function_of(node: Node) -> Option<Function> {
    match node {
        Node::Function { params, locals, name, result, content } => Some(
            Function {
                params: declared(params@),
                locals: declared(locals@),
                name: name@,
                result,
                content: operations(content@),
            },
        ),
        _ => None,
    }
}

/// The function nodes as plain values.
pub open spec fn functions_of(nodes: Seq<Node>) -> Seq<Option<Function>> {
    Seq::new(nodes.len(), |i: int| function_of(nodes[i]))
}

/// The functions as nodes' plain values.
pub open spec fn some_each(functions: Seq<Function>) -> Seq<Option<Function>> {
    Seq::new(functions.len(), |i: int| Some(functions[i]))
}

/// Reading the rest of a token never moves back, and stays in the text.
pub proof fn lemma_rest_moves_on(input: Seq<char>, at: Location, word: bool)
    requires
        at.index <= input.len() <= usize::MAX,
        counted(at),
    ensures
        at.index <= rest(input, at, word).1.index <= input.len(),
        counted(rest(input, at, word).1),
    decreases input.len() - at.index,
{
    if at.index < input.len() && crate::risc_f::lexer::continues(input[at.index as int], word) {
        lemma_rest_moves_on(input, stepped(at, input[at.index as int]), word);
    }
}

/// Reading a token never moves back, stays in the text, and moves on when
/// it gives a token.
pub proof fn lemma_lex_moves_on(input: Seq<char>, at: Location)
    requires
        at.index <= input.len() <= usize::MAX,
        counted(at),
    ensures
        at.index <= lex(input, at).location.index <= input.len(),
        counted(lex(input, at).location),
        lex(input, at).outcome is Ok ==> at.index < lex(input, at).location.index,
    decreases input.len() - at.index,
{
    if at.index < input.len() {
        let c = input[at.index as int];
        let after = stepped(at, c);
        if c == '(' || c == ')' {
        } else if c == '$' {
            lemma_rest_moves_on(input, after, false);
        } else if crate::shell::whitespace(c) {
            lemma_lex_moves_on(input, after);
        } else if crate::risc_f::lexer::alphabetic(c) {
            lemma_rest_moves_on(input, after, true);
        }
    }
}

/// Giving out a token leaves the lexer sound and with no more than it had;
/// with less, when a token was given out.
pub proof fn lemma_next_uses_up(cursor: Cursor)
    requires
        sound(cursor),
    ensures
        sound(next(cursor).1),
        left(next(cursor).1) <= left(cursor),
        next(cursor).0 is Ok ==> left(next(cursor).1) < left(cursor),
{
    if cursor.returned.len() == 0 {
        lemma_lex_moves_on(cursor.input, cursor.place);
    }
}

/// Looking for a token leaves the lexer sound and with no more than it had;
/// with less, when the token was there.
pub proof fn lemma_next_if_uses_up(cursor: Cursor, expect: Lexeme)
    requires
        sound(cursor),
    ensures
        sound(next_if(cursor, expect).1),
        left(next_if(cursor, expect).1) <= left(cursor),
        next_if(cursor, expect).0 == Ok::<bool, Failure>(true) ==> left(next_if(cursor, expect).1)
            < left(cursor),
{
    lemma_next_uses_up(cursor);
}

/// Taking an expected token leaves the lexer sound and with no more than
/// it had.
pub proof fn lemma_expected_uses_up(cursor: Cursor, expect: Lexeme)
    requires
        sound(cursor),
    ensures
        sound(expected(cursor, expect).1),
        left(expected(cursor, expect).1) <= left(cursor),
        expected(cursor, expect).0 is Ok ==> left(expected(cursor, expect).1) < left(cursor),
{
    lemma_next_uses_up(cursor);
}

/// The data type that comes next.
pub open spec fn data_type(cursor: Cursor) -> (Result<DataType, Failure>, Cursor) {
    let taken = next(cursor);
    match taken.0 {
        Ok(Lexeme::I32) => (Ok(DataType::I32), taken.1),
        Ok(token) => (Err(Failure::Unexpected { expected: "datatype"@, got: token }), taken.1),
        Err(failure) => (Err(failure), taken.1),
    }
}

/// The name that comes next.
pub open spec fn name(cursor: Cursor) -> (Result<Named, Failure>, Cursor) {
    let taken = next(cursor);
    match taken.0 {
        Ok(Lexeme::Identifier { location, identifier }) => (
            Ok(Named { location, identifier }),
            taken.1,
        ),
        Ok(token) => (
            Err(Failure::Unexpected { expected: "invalid parameter name"@, got: token }),
            taken.1,
        ),
        Err(failure) => (Err(failure), taken.1),
    }
}

/// A name and its data type.
pub open spec fn named_type(cursor: Cursor) -> (Result<Declared, Failure>, Cursor) {
    let named = name(cursor);
    match named.0 {
        Ok(identifier) => {
            let typed = data_type(named.1);
            match typed.0 {
                Ok(data_type) => (Ok(Declared { identifier, data_type }), typed.1),
                Err(failure) => (Err(failure), typed.1),
            }
        },
        Err(failure) => (Err(failure), named.1),
    }
}

/// What follows the keyword of a declaration.
pub open spec fn declaration_body(cursor: Cursor, keyword: Lexeme) -> (
    Result<Result<Declaration, Failure>, Failure>,
    Cursor,
) {
    match keyword {
        Lexeme::Local => {
            let body = named_type(cursor);
            match body.0 {
                Ok(def) => (Ok(Ok(Declaration::Local(def))), body.1),
                Err(failure) => (Err(failure), body.1),
            }
        },
        Lexeme::Parameter => {
            let body = named_type(cursor);
            match body.0 {
                Ok(def) => (Ok(Ok(Declaration::Parameter(def))), body.1),
                Err(failure) => (Err(failure), body.1),
            }
        },
        Lexeme::Result => {
            let body = data_type(cursor);
            match body.0 {
                Ok(data_type) => (Ok(Ok(Declaration::Result(data_type))), body.1),
                Err(failure) => (Err(failure), body.1),
            }
        },
        _ => (
            Ok(Err(Failure::Unexpected { expected: "function parameter"@, got: keyword })),
            cursor,
        ),
    }
}

/// The declaration that comes next, if one does: a parenthesis, one of the
/// keywords for a parameter, a result or a local, what belongs to it, and
/// the closing parenthesis. Without an opening parenthesis there is none.
pub open spec fn function_def(cursor: Cursor) -> (Result<Option<Declaration>, Failure>, Cursor) {
    let opened = next_if(cursor, Lexeme::OpenParen);
    match opened.0 {
        Err(failure) => (Err(failure), opened.1),
        Ok(false) => (Ok(None), opened.1),
        Ok(true) => {
            let keyword = next(opened.1);
            match keyword.0 {
                Err(failure) => (Err(failure), keyword.1),
                Ok(token) => {
                    let body = declaration_body(keyword.1, token);
                    match body.0 {
                        Err(failure) => (Err(failure), body.1),
                        Ok(def) => {
                            let closed = expected(body.1, Lexeme::ClosedParen);
                            match closed.0 {
                                Err(failure) => (Err(failure), closed.1),
                                Ok(_) => match def {
                                    Ok(declaration) => (Ok(Some(declaration)), closed.1),
                                    Err(failure) => (Err(failure), closed.1),
                                },
                            }
                        },
                    }
                },
            }
        },
    }
}

/// A declaration uses the lexer up: it leaves it sound and with no more
/// than it had, and with less when there was a declaration.
pub proof fn lemma_function_def_uses_up(cursor: Cursor)
    requires
        sound(cursor),
    ensures
        sound(function_def(cursor).1),
        left(function_def(cursor).1) <= left(cursor),
        function_def(cursor).0 matches Ok(Some(_)) ==> left(function_def(cursor).1) < left(cursor),
{
    let opened = next_if(cursor, Lexeme::OpenParen);
    lemma_next_if_uses_up(cursor, Lexeme::OpenParen);
    if opened.0 == Ok::<bool, Failure>(true) {
        let keyword = next(opened.1);
        lemma_next_uses_up(opened.1);
        if let Ok(token) = keyword.0 {
            lemma_body_uses_up(keyword.1, token);
            let body = declaration_body(keyword.1, token);
            if body.0 is Ok {
                lemma_expected_uses_up(body.1, Lexeme::ClosedParen);
            }
        }
    }
}

proof fn lemma_named_type_uses_up(cursor: Cursor)
    requires
        sound(cursor),
    ensures
        sound(named_type(cursor).1),
        left(named_type(cursor).1) <= left(cursor),
{
    lemma_next_uses_up(cursor);
    lemma_next_uses_up(next(cursor).1);
}

proof fn lemma_body_uses_up(cursor: Cursor, keyword: Lexeme)
    requires
        sound(cursor),
    ensures
        sound(declaration_body(cursor, keyword).1),
        left(declaration_body(cursor, keyword).1) <= left(cursor),
{
    lemma_named_type_uses_up(cursor);
    lemma_next_uses_up(cursor);
}

/// The declarations of a function's head: its parameters and its locals in
/// the order in which they stand, and its result.
pub struct Head {
    pub params: Seq<Declared>,
    pub locals: Seq<Declared>,
    pub result: Option<DataType>,
}

/// A head with one more declaration. A second result is an error.
pub open spec fn with_declaration(head: Head, declaration: Declaration) -> Result<Head, Failure> {
    match declaration {
        Declaration::Local(def) => Ok(
            Head { params: head.params, locals: head.locals.push(def), result: head.result },
        ),
        Declaration::Parameter(def) => Ok(
            Head { params: head.params.push(def), locals: head.locals, result: head.result },
        ),
        Declaration::Result(data_type) => if head.result is Some {
            Err(Failure::SecondResult)
        } else {
            Ok(Head { params: head.params, locals: head.locals, result: Some(data_type) })
        },
    }
}

/// The head of a function: the declarations that come next, after those
/// that `so_far` holds.
pub open spec fn head(cursor: Cursor, so_far: Head) -> (Result<Head, Failure>, Cursor)
    decreases left(cursor),
    when sound(cursor)
    via head_decreases
{
    let def = function_def(cursor);
    match def.0 {
        Err(failure) => (Err(failure), def.1),
        Ok(None) => (Ok(so_far), def.1),
        Ok(Some(declaration)) => match with_declaration(so_far, declaration) {
            Ok(more) => head(def.1, more),
            Err(failure) => (Err(failure), def.1),
        },
    }
}

#[via_fn]
proof fn head_decreases(cursor: Cursor, so_far: Head) {
    lemma_function_def_uses_up(cursor);
}

/// The head of a function uses the lexer up.
pub proof fn lemma_head_uses_up(cursor: Cursor, so_far: Head)
    requires
        sound(cursor),
    ensures
        sound(head(cursor, so_far).1),
        left(head(cursor, so_far).1) <= left(cursor),
    decreases left(cursor),
{
    lemma_function_def_uses_up(cursor);
    let def = function_def(cursor);
    if let Ok(Some(declaration)) = def.0 {
        if let Ok(more) = with_declaration(so_far, declaration) {
            lemma_head_uses_up(def.1, more);
        }
    }
}

/// The instruction that comes next, if one does. A token that starts no
/// instruction is left to be given out again.
pub open spec fn instruction(cursor: Cursor) -> (Result<Option<Operation>, Failure>, Cursor) {
    let taken = next(cursor);
    match taken.0 {
        Err(failure) => (Err(failure), taken.1),
        Ok(Lexeme::LocalGet) => {
            let named = name(taken.1);
            match named.0 {
                Ok(identifier) => (Ok(Some(Operation::LocalGet(identifier))), named.1),
                Err(failure) => (Err(failure), named.1),
            }
        },
        Ok(Lexeme::I32Add) => (Ok(Some(Operation::I32Add)), taken.1),
        Ok(token) => (Ok(None), returning(taken.1, token)),
    }
}

/// An instruction uses the lexer up.
pub proof fn lemma_instruction_uses_up(cursor: Cursor)
    requires
        sound(cursor),
    ensures
        sound(instruction(cursor).1),
        left(instruction(cursor).1) <= left(cursor),
        instruction(cursor).0 matches Ok(Some(_)) ==> left(instruction(cursor).1) < left(cursor),
{
    lemma_next_uses_up(cursor);
    lemma_next_uses_up(next(cursor).1);
}

/// The body of a function: the instructions that come next, after those
/// that `so_far` holds.
pub open spec fn instructions(cursor: Cursor, so_far: Seq<Operation>) -> (
    Result<Seq<Operation>, Failure>,
    Cursor,
)
    decreases left(cursor),
    when sound(cursor)
    via instructions_decreases
{
    let one = instruction(cursor);
    match one.0 {
        Err(failure) => (Err(failure), one.1),
        Ok(None) => (Ok(so_far), one.1),
        Ok(Some(operation)) => instructions(one.1, so_far.push(operation)),
    }
}

#[via_fn]
proof fn instructions_decreases(cursor: Cursor, so_far: Seq<Operation>) {
    lemma_instruction_uses_up(cursor);
}

/// The body of a function uses the lexer up.
pub proof fn lemma_instructions_use_up(cursor: Cursor, so_far: Seq<Operation>)
    requires
        sound(cursor),
    ensures
        sound(instructions(cursor, so_far).1),
        left(instructions(cursor, so_far).1) <= left(cursor),
    decreases left(cursor),
{
    lemma_instruction_uses_up(cursor);
    let one = instruction(cursor);
    if let Ok(Some(operation)) = one.0 {
        lemma_instructions_use_up(one.1, so_far.push(operation));
    }
}

/// A head without declarations.
pub open spec fn no_head() -> Head {
    Head { params: Seq::empty(), locals: Seq::empty(), result: None }
}

/// What follows the name of a function: its head, its body and the closing
/// parenthesis.
pub open spec fn function_rest(cursor: Cursor, name: Named) -> (Result<Function, Failure>, Cursor) {
    let declared = head(cursor, no_head());
    match declared.0 {
        Err(failure) => (Err(failure), declared.1),
        Ok(found) => {
            let body = instructions(declared.1, Seq::empty());
            match body.0 {
                Err(failure) => (Err(failure), body.1),
                Ok(content) => {
                    let closed = expected(body.1, Lexeme::ClosedParen);
                    match closed.0 {
                        Err(failure) => (Err(failure), closed.1),
                        Ok(_) => (
                            Ok(
                                Function {
                                    params: found.params,
                                    locals: found.locals,
                                    name,
                                    result: found.result,
                                    content,
                                },
                            ),
                            closed.1,
                        ),
                    }
                },
            }
        },
    }
}

/// The function that comes next, if one does: a parenthesis, the keyword
/// for a function, its name, its head, its body and the closing
/// parenthesis. Without the parenthesis and the keyword there is none, and
/// the lexer gives out again what it gave out.
pub open spec fn function(cursor: Cursor) -> (Result<Option<Function>, Failure>, Cursor) {
    let opened = next_if(cursor, Lexeme::OpenParen);
    match opened.0 {
        Err(failure) => (Err(failure), opened.1),
        Ok(false) => (Ok(None), opened.1),
        Ok(true) => {
            let keyword = next_if(opened.1, Lexeme::Function);
            match keyword.0 {
                Err(failure) => (Err(failure), keyword.1),
                Ok(false) => (Ok(None), returning(keyword.1, Lexeme::OpenParen)),
                Ok(true) => {
                    let named = next(keyword.1);
                    match named.0 {
                        Err(failure) => (Err(failure), named.1),
                        Ok(Lexeme::Identifier { location, identifier }) => {
                            let parsed = function_rest(named.1, Named { location, identifier });
                            match parsed.0 {
                                Ok(found) => (Ok(Some(found)), parsed.1),
                                Err(failure) => (Err(failure), parsed.1),
                            }
                        },
                        Ok(got) => (
                            Err(Failure::Unexpected { expected: "function name"@, got }),
                            named.1,
                        ),
                    }
                },
            }
        },
    }
}

/// A function uses the lexer up: it leaves it sound and with no more than
/// it had, and with less where there was a function.
pub proof fn lemma_function_uses_up(cursor: Cursor)
    requires
        sound(cursor),
    ensures
        sound(function(cursor).1),
        left(function(cursor).1) <= left(cursor),
        function(cursor).0 matches Ok(Some(_)) ==> left(function(cursor).1) < left(cursor),
{
    let opened = next_if(cursor, Lexeme::OpenParen);
    lemma_next_if_uses_up(cursor, Lexeme::OpenParen);
    if opened.0 == Ok::<bool, Failure>(true) {
        let keyword = next_if(opened.1, Lexeme::Function);
        lemma_next_if_uses_up(opened.1, Lexeme::Function);
        if keyword.0 == Ok::<bool, Failure>(true) {
            let named = next(keyword.1);
            lemma_next_uses_up(keyword.1);
            if named.0 is Ok {
                let declared = head(named.1, no_head());
                lemma_head_uses_up(named.1, no_head());
                if declared.0 is Ok {
                    let body = instructions(declared.1, Seq::empty());
                    lemma_instructions_use_up(declared.1, Seq::empty());
                    if body.0 is Ok {
                        lemma_expected_uses_up(body.1, Lexeme::ClosedParen);
                    }
                }
            }
        }
    }
}

/// The functions of a module up to its closing parenthesis, after those
/// that `so_far` holds. Anything else than a function is an error.
pub open spec fn functions(cursor: Cursor, so_far: Seq<Function>) -> (
    Result<Seq<Function>, Failure>,
    Cursor,
)
    decreases left(cursor),
    when sound(cursor)
    via functions_decreases
{
    let closed = next_if(cursor, Lexeme::ClosedParen);
    match closed.0 {
        Err(failure) => (Err(failure), closed.1),
        Ok(true) => (Ok(so_far), closed.1),
        Ok(false) => {
            let one = function(closed.1);
            match one.0 {
                Err(failure) => (Err(failure), one.1),
                Ok(Some(found)) => functions(one.1, so_far.push(found)),
                Ok(None) => {
                    let other = next(one.1);
                    match other.0 {
                        Ok(got) => (
                            Err(Failure::Unexpected { expected: "function or stuff"@, got }),
                            other.1,
                        ),
                        Err(failure) => (Err(failure), other.1),
                    }
                },
            }
        },
    }
}

#[via_fn]
proof fn functions_decreases(cursor: Cursor, so_far: Seq<Function>) {
    lemma_next_if_uses_up(cursor, Lexeme::ClosedParen);
    lemma_function_uses_up(next_if(cursor, Lexeme::ClosedParen).1);
}

/// A module: a parenthesis, the keyword for a module, its functions and
/// the closing parenthesis.
pub open spec fn module(cursor: Cursor) -> (Result<Seq<Function>, Failure>, Cursor) {
    let opened = expected(cursor, Lexeme::OpenParen);
    match opened.0 {
        Err(failure) => (Err(failure), opened.1),
        Ok(_) => {
            let keyword = expected(opened.1, Lexeme::Module);
            match keyword.0 {
                Err(failure) => (Err(failure), keyword.1),
                Ok(_) => functions(keyword.1, Seq::empty()),
            }
        },
    }
}

/// Reads the data type that comes next.
pub fn parse_data_type(lexer: &mut Lexer) -> (result: Result<DataType, ParseError>)
    requires
        old(lexer).wf(),
    ensures
        final(lexer).wf(),
        final(lexer).cursor() == data_type(old(lexer).cursor()).1,
        match data_type(old(lexer).cursor()).0 {
            Ok(found) => result == Ok::<DataType, ParseError>(found),
            Err(failure) => failed(result) == Some(failure),
        },
{
    let token = match lexer.next_token() {
        Ok(token) => token,
        Err(error) => {
            return Err(error);
        },
    };
    match token {
        Token::I32 => Ok(DataType::I32),
        _ => Err(ParseError::Unexpected { expected: String::from_str("datatype"), got: token }),
    }
}

/// Reads the name that comes next.
pub fn parse_name(lexer: &mut Lexer) -> (result: Result<Identifier, ParseError>)
    requires
        old(lexer).wf(),
    ensures
        final(lexer).wf(),
        final(lexer).cursor() == name(old(lexer).cursor()).1,
        match name(old(lexer).cursor()).0 {
            Ok(found) => result matches Ok(identifier) && identifier@ == found,
            Err(failure) => failed(result) == Some(failure),
        },
{
    let token = match lexer.next_token() {
        Ok(token) => token,
        Err(error) => {
            return Err(error);
        },
    };
    match token {
        Token::Identifier(identifier) => Ok(identifier),
        _ => Err(
            ParseError::Unexpected {
                expected: String::from_str("invalid parameter name"),
                got: token,
            },
        ),
    }
}

fn parse_named_type(lexer: &mut Lexer) -> (result: Result<FunctionDef, ParseError>)
    requires
        old(lexer).wf(),
    ensures
        final(lexer).wf(),
        final(lexer).cursor() == named_type(old(lexer).cursor()).1,
        match named_type(old(lexer).cursor()).0 {
            Ok(found) => result matches Ok(def) && def@ == found,
            Err(failure) => failed(result) == Some(failure),
        },
{
    let identifier = match parse_name(lexer) {
        Ok(identifier) => identifier,
        Err(error) => {
            return Err(error);
        },
    };
    let data_type = match parse_data_type(lexer) {
        Ok(data_type) => data_type,
        Err(error) => {
            return Err(error);
        },
    };
    Ok(FunctionDef { identifier, data_type })
}

/// Reads the declaration that comes next, if one does.
pub fn parse_function_def(lexer: &mut Lexer) -> (result: Result<Option<FunctionDefs>, ParseError>)
    requires
        old(lexer).wf(),
    ensures
        final(lexer).wf(),
        final(lexer).cursor() == function_def(old(lexer).cursor()).1,
        match function_def(old(lexer).cursor()).0 {
            Ok(Some(found)) => result matches Ok(Some(def)) && def@ == found,
            Ok(None) => result matches Ok(None),
            Err(failure) => failed(result) == Some(failure),
        },
{
    match lexer.next_token_if(Token::OpenParen) {
        Ok(true) => {},
        Ok(false) => {
            return Ok(None);
        },
        Err(error) => {
            return Err(error);
        },
    }
    let token = match lexer.next_token() {
        Ok(token) => token,
        Err(error) => {
            return Err(error);
        },
    };
    let def = match token {
        Token::Local => match parse_named_type(lexer) {
            Ok(def) => Ok(Some(FunctionDefs::Local(def))),
            Err(error) => {
                return Err(error);
            },
        },
        Token::Result => match parse_data_type(lexer) {
            Ok(data_type) => Ok(Some(FunctionDefs::Result(data_type))),
            Err(error) => {
                return Err(error);
            },
        },
        Token::Parameter => match parse_named_type(lexer) {
            Ok(def) => Ok(Some(FunctionDefs::Parameter(def))),
            Err(error) => {
                return Err(error);
            },
        },
        _ => Err(
            ParseError::Unexpected { expected: String::from_str("function parameter"), got: token },
        ),
    };
    match lexer.expect_token(Token::ClosedParen) {
        Ok(()) => {},
        Err(error) => {
            return Err(error);
        },
    }
    def
}

/// Reads the instruction that comes next, if one does.
pub fn parse_function_instruction(lexer: &mut Lexer) -> (result: Result<
    Option<Instruction>,
    ParseError,
>)
    requires
        old(lexer).wf(),
    ensures
        final(lexer).wf(),
        final(lexer).cursor() == instruction(old(lexer).cursor()).1,
        match instruction(old(lexer).cursor()).0 {
            Ok(Some(found)) => result matches Ok(Some(one)) && one@ == found,
            Ok(None) => result matches Ok(None),
            Err(failure) => failed(result) == Some(failure),
        },
{
    let token = match lexer.next_token() {
        Ok(token) => token,
        Err(error) => {
            return Err(error);
        },
    };
    match token {
        Token::LocalGet => match parse_name(lexer) {
            Ok(name) => Ok(Some(Instruction::LocalGet(name))),
            Err(error) => Err(error),
        },
        Token::I32Add => Ok(Some(Instruction::I32Add)),
        _ => {
            lexer.return_token(token);
            Ok(None)
        },
    }
}

/// The head that the lists of a function under construction hold.
pub open spec fn head_of(
    params: Seq<FunctionDef>,
    locals: Seq<FunctionDef>,
    result: Option<DataType>,
) -> Head {
    Head { params: declared(params), locals: declared(locals), result }
}

/// Reads the function that comes next, if one does.
#[verifier::loop_isolation(false)]
pub fn parse_function(lexer: &mut Lexer) -> (result: Result<Option<Node>, ParseError>)
    requires
        old(lexer).wf(),
    ensures
        final(lexer).wf(),
        final(lexer).cursor() == function(old(lexer).cursor()).1,
        match function(old(lexer).cursor()).0 {
            Ok(Some(found)) => result matches Ok(Some(node)) && function_of(node) == Some(found),
            Ok(None) => result matches Ok(None),
            Err(failure) => failed(result) == Some(failure),
        },
{
    match lexer.next_token_if(Token::OpenParen) {
        Ok(true) => {},
        Ok(false) => {
            return Ok(None);
        },
        Err(error) => {
            return Err(error);
        },
    }
    match lexer.next_token_if(Token::Function) {
        Ok(true) => {},
        Ok(false) => {
            lexer.return_token(Token::OpenParen);
            return Ok(None);
        },
        Err(error) => {
            return Err(error);
        },
    }
    let token = match lexer.next_token() {
        Ok(token) => token,
        Err(error) => {
            return Err(error);
        },
    };
    let name = match token {
        Token::Identifier(name) => name,
        _ => {
            return Err(
                ParseError::Unexpected { expected: String::from_str("function name"), got: token },
            );
        },
    };
    let ghost start = lexer.cursor();
    let ghost goal = head(start, no_head());

    let mut params: Vec<FunctionDef> = Vec::new();
    let mut locals: Vec<FunctionDef> = Vec::new();
    let mut result: Option<DataType> = None;
    assert(head_of(params@, locals@, result) == no_head()) by {
        assert(declared(params@) =~= Seq::<Declared>::empty());
        assert(declared(locals@) =~= Seq::<Declared>::empty());
    }
    proof {
        lexer.lemma_wf();
    }
    let mut done = false;
    while !done
        invariant
            lexer.wf(),
            !done ==> head(lexer.cursor(), head_of(params@, locals@, result)) == goal,
            done ==> goal == (
                Ok::<Head, Failure>(head_of(params@, locals@, result)),
                lexer.cursor(),
            ),
        decreases
                if done {
                    0
                } else {
                    left(lexer.cursor()) + 1
                },
    {
        let ghost before = lexer.cursor();
        let ghost so_far = head_of(params@, locals@, result);
        proof {
            lexer.lemma_wf();
            lemma_function_def_uses_up(before);
        }
        let def = match parse_function_def(lexer) {
            Ok(def) => def,
            Err(error) => {
                return Err(error);
            },
        };
        proof {
            lexer.lemma_wf();
        }
        match def {
            None => {
                done = true;
            },
            Some(FunctionDefs::Local(def)) => {
                locals.push(def);
                assert(declared(locals@) =~= so_far.locals.push(def@));
            },
            Some(FunctionDefs::Parameter(def)) => {
                params.push(def);
                assert(declared(params@) =~= so_far.params.push(def@));
            },
            Some(FunctionDefs::Result(data_type)) => {
                if result.is_some() {
                    return Err(ParseError::SecondResult);
                }
                result = Some(data_type);
            },
        }
    }
    let ghost body_start = lexer.cursor();
    let ghost body_goal = instructions(body_start, Seq::empty());
    let mut content: Vec<Instruction> = Vec::new();
    assert(operations(content@) =~= Seq::<Operation>::empty());
    let mut done = false;
    while !done
        invariant
            lexer.wf(),
            !done ==> instructions(lexer.cursor(), operations(content@)) == body_goal,
            done ==> body_goal == (
                Ok::<Seq<Operation>, Failure>(operations(content@)),
                lexer.cursor(),
            ),
        decreases
                if done {
                    0
                } else {
                    left(lexer.cursor()) + 1
                },
    {
        let ghost before = lexer.cursor();
        let ghost so_far = operations(content@);
        proof {
            lexer.lemma_wf();
            lemma_instruction_uses_up(before);
        }
        let one = match parse_function_instruction(lexer) {
            Ok(one) => one,
            Err(error) => {
                return Err(error);
            },
        };
        proof {
            lexer.lemma_wf();
        }
        match one {
            Some(one) => {
                content.push(one);
                assert(operations(content@) =~= so_far.push(one@));
            },
            None => {
                done = true;
            },
        }
    }
    match lexer.expect_token(Token::ClosedParen) {
        Ok(()) => {},
        Err(error) => {
            return Err(error);
        },
    }
    Ok(Some(Node::Function { params, locals, name, result, content }))
}

/// Reads a module.
#[verifier::loop_isolation(false)]
pub fn parse(lexer: &mut Lexer) -> (result: Result<Node, ParseError>)
    requires
        old(lexer).wf(),
    ensures
        final(lexer).wf(),
        final(lexer).cursor() == module(old(lexer).cursor()).1,
        match module(old(lexer).cursor()).0 {
            Ok(found) => result matches Ok(Node::Module(nodes)) && functions_of(nodes@)
                == some_each(found),
            Err(failure) => failed(result) == Some(failure),
        },
{
    match lexer.expect_token(Token::OpenParen) {
        Ok(()) => {},
        Err(error) => {
            return Err(error);
        },
    }
    match lexer.expect_token(Token::Module) {
        Ok(()) => {},
        Err(error) => {
            return Err(error);
        },
    }
    let ghost start = lexer.cursor();
    let ghost goal = functions(start, Seq::empty());
    let ghost mut found = Seq::<Function>::empty();
    let mut nodes: Vec<Node> = Vec::new();
    assert(functions_of(nodes@) =~= some_each(found));
    let mut done = false;
    while !done
        invariant
            lexer.wf(),
            functions_of(nodes@) == some_each(found),
            !done ==> functions(lexer.cursor(), found) == goal,
            done ==> goal == (Ok::<Seq<Function>, Failure>(found), lexer.cursor()),
        decreases
                if done {
                    0
                } else {
                    left(lexer.cursor()) + 1
                },
    {
        let ghost before = lexer.cursor();
        proof {
            lexer.lemma_wf();
            lemma_next_if_uses_up(before, Lexeme::ClosedParen);
            lemma_function_uses_up(next_if(before, Lexeme::ClosedParen).1);
        }
        let closed = match lexer.next_token_if(Token::ClosedParen) {
            Ok(closed) => closed,
            Err(error) => {
                return Err(error);
            },
        };
        if closed {
            done = true;
        } else {
            let node = match parse_function(lexer) {
                Ok(node) => node,
                Err(error) => {
                    return Err(error);
                },
            };
            proof {
                lexer.lemma_wf();
            }
            match node {
            Some(node) => {
                let ghost old_nodes = nodes@;
                let ghost old_found = found;
                proof {
                    found = found.push(function_of(node)->0);
                }
                nodes.push(node);
                assert forall|i: int| 0 <= i < nodes@.len() implies functions_of(nodes@)[i]
                    == some_each(found)[i] by {
                    if i < old_nodes.len() {
                        assert(functions_of(old_nodes)[i] == some_each(old_found)[i]);
                    }
                }
                assert(functions_of(nodes@) =~= some_each(found));
            },
            None => {
                let got = match lexer.next_token() {
                    Ok(got) => got,
                    Err(error) => {
                        return Err(error);
                    },
                };
                return Err(
                    ParseError::Unexpected {
                        expected: String::from_str("function or stuff"),
                        got,
                    },
                );
            },
            }
        }
    }
    Ok(Node::Module(nodes))
}

} // verus!
