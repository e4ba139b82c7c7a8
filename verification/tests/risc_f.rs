use fos::risc_f::lexer::Lexer;
use fos::risc_f::lexer::Location;
use fos::risc_f::lexer::ParseError;
use fos::risc_f::lexer::Token;
use fos::risc_f::parser::parse;
use fos::risc_f::parser::parse_data_type;
use fos::risc_f::parser::parse_function;
use fos::risc_f::parser::parse_function_def;
use fos::risc_f::parser::parse_function_instruction;
use fos::risc_f::parser::parse_name;
use fos::risc_f::parser::DataType;
use fos::risc_f::parser::FunctionDefs;
use fos::risc_f::parser::Instruction;
use fos::risc_f::parser::Node;

const ADD: &str = "(module
      (func $add (param $lhs i32) (param $rhs i32) (result i32)
        local.get $lhs
        local.get $rhs
        i32.add)
    )";

fn tokens(input: &str) -> (Vec<String>, String) {
    let mut lexer = Lexer::new(input);
    let mut found = vec![];
    loop {
        match lexer.next_token() {
            Ok(token) => found.push(token.to_string()),
            Err(error) => return (found, error.to_string()),
        }
    }
}

fn failure(result: Result<Node, ParseError>) -> String {
    match result {
        Ok(_) => "no error".to_string(),
        Err(error) => error.to_string(),
    }
}

#[test]
fn lexer_cuts_the_text_into_tokens() {
    let (found, end) = tokens("(module (func $add (param $lhs i32) (result i32) local.get i32.add local))");
    assert_eq!(
        found,
        vec![
            "(",
            "Module",
            "(",
            "Function",
            "Identifier: $add, at: 0:14",
            "(",
            "Parameter",
            "Identifier: $lhs, at: 0:26",
            "i32",
            ")",
            "(",
            "Result",
            "i32",
            ")",
            "local.get",
            "i32.add",
            "Local",
            ")",
            ")",
        ]
    );
    assert_eq!(end, "Reached end of file");
}

#[test]
fn lexer_counts_rows_and_columns() {
    let mut lexer = Lexer::new("(\n  $a\n\n $b2 )");
    assert_eq!(lexer.location(), Location { row: 0, colum: 0, index: 0 });

    assert_eq!(lexer.next_token().ok().unwrap().to_string(), "(");
    assert_eq!(lexer.location(), Location { row: 0, colum: 1, index: 1 });
    assert_eq!(lexer.next_token().ok().unwrap().to_string(), "Identifier: $a, at: 1:2");
    assert_eq!(lexer.location(), Location { row: 1, colum: 4, index: 6 });
    assert_eq!(lexer.next_token().ok().unwrap().to_string(), "Identifier: $b2, at: 3:1");
    assert_eq!(lexer.location(), Location { row: 3, colum: 4, index: 12 });
    assert_eq!(Location { row: 7, colum: 12, index: 99 }.to_string(), "7:12");
}

#[test]
fn lexer_stops_at_what_is_no_token() {
    assert_eq!(tokens(""), (vec![], "Reached end of file".to_string()));
    assert_eq!(tokens("  \n"), (vec![], "Reached end of file".to_string()));
    assert_eq!(tokens("( modul )"), (vec!["(".to_string()], "Unexpected token: modul".to_string()));
    assert_eq!(tokens("i32.sub "), (vec![], "Unexpected token: i32.sub".to_string()));
    assert_eq!(tokens("( 32 )"), (vec!["(".to_string()], "Unexpected character: 3".to_string()));
    assert_eq!(tokens("-"), (vec![], "Unexpected character: -".to_string()));
    // a name or a word that the end of the text cuts short is lost
    assert_eq!(tokens("$name"), (vec![], "Reached end of file".to_string()));
    assert_eq!(tokens("( module"), (vec!["(".to_string()], "Reached end of file".to_string()));
    // a name may be the dollar sign alone, and ends before a dot
    assert_eq!(
        tokens("$ $a.b "),
        (
            vec!["Identifier: $, at: 0:0".to_string(), "Identifier: $a, at: 0:2".to_string()],
            "Unexpected character: .".to_string()
        )
    );
}

#[test]
fn tokens_are_the_same_whatever_their_place() {
    let mut lexer = Lexer::new("$a $a $b ( ");
    let first = lexer.next_token().ok().unwrap();
    let second = lexer.next_token().ok().unwrap();
    let third = lexer.next_token().ok().unwrap();
    let paren = lexer.next_token().ok().unwrap();

    assert_eq!(first.same(&second), true);
    assert_eq!(first.same(&third), false);
    assert_eq!(first.same(&paren), false);
    assert_eq!(paren.same(&Token::OpenParen), true);
    assert_eq!(paren.same(&Token::ClosedParen), false);
    assert_eq!(Token::LocalGet.same(&Token::Local), false);
    assert_eq!(Token::I32Add.same(&Token::I32Add), true);
}

#[test]
fn returned_tokens_come_out_last_in_first_out() {
    let mut lexer = Lexer::new("module ");
    lexer.return_token(Token::OpenParen);
    lexer.return_token(Token::I32);

    assert_eq!(lexer.next_token().ok().unwrap().to_string(), "i32");
    assert_eq!(lexer.next_token().ok().unwrap().to_string(), "(");
    assert_eq!(lexer.next_token().ok().unwrap().to_string(), "Module");
    assert_eq!(lexer.location().index, 6);
}

#[test]
fn next_token_if_takes_only_the_expected_token() {
    let mut lexer = Lexer::new("( func ");

    assert!(matches!(lexer.next_token_if(Token::ClosedParen), Ok(false)));
    assert!(matches!(lexer.next_token_if(Token::Module), Ok(false)));
    assert!(matches!(lexer.next_token_if(Token::OpenParen), Ok(true)));
    assert!(matches!(lexer.next_token_if(Token::Function), Ok(true)));
    assert!(matches!(lexer.next_token_if(Token::Function), Err(ParseError::EndOfFile)));
}

#[test]
fn expect_token_says_what_it_got() {
    let mut lexer = Lexer::new("( $x ");

    assert!(lexer.expect_token(Token::OpenParen).is_ok());
    match lexer.expect_token(Token::Module) {
        Err(error) => assert_eq!(
            error.to_string(),
            "Expected: 'Module' but got: 'Identifier: $x, at: 0:2'"
        ),
        Ok(()) => panic!("a name is no keyword"),
    }
    // the unexpected token is used up
    assert!(matches!(lexer.expect_token(Token::Module), Err(ParseError::EndOfFile)));
}

#[test]
fn data_type_and_name() {
    let mut lexer = Lexer::new("i32 $n i32 $m ");

    assert_eq!(parse_data_type(&mut lexer).ok(), Some(DataType::I32));
    assert_eq!(parse_name(&mut lexer).ok().unwrap().text(), "$n");
    match parse_name(&mut lexer) {
        Err(error) => assert_eq!(
            error.to_string(),
            "Expected: 'invalid parameter name' but got: 'i32'"
        ),
        Ok(_) => panic!("a type is no name"),
    }
    match parse_data_type(&mut lexer) {
        Err(error) => assert_eq!(
            error.to_string(),
            "Expected: 'datatype' but got: 'Identifier: $m, at: 0:11'"
        ),
        Ok(_) => panic!("a name is no type"),
    }
}

#[test]
fn function_declarations() {
    let mut lexer = Lexer::new("(param $p i32) (local $l i32) (result i32) i32.add (func) ");

    match parse_function_def(&mut lexer).ok().unwrap() {
        Some(FunctionDefs::Parameter(def)) => {
            assert_eq!(def.identifier.text(), "$p");
            assert_eq!(def.data_type, DataType::I32);
        }
        _ => panic!("a parameter was declared"),
    }
    match parse_function_def(&mut lexer).ok().unwrap() {
        Some(FunctionDefs::Local(def)) => assert_eq!(def.identifier.text(), "$l"),
        _ => panic!("a local was declared"),
    }
    assert!(matches!(
        parse_function_def(&mut lexer),
        Ok(Some(FunctionDefs::Result(DataType::I32)))
    ));
    // what does not start with a parenthesis is no declaration, and stays
    assert!(matches!(parse_function_def(&mut lexer), Ok(None)));
    assert!(matches!(parse_function_instruction(&mut lexer), Ok(Some(Instruction::I32Add))));
    match parse_function_def(&mut lexer) {
        Err(error) => assert_eq!(
            error.to_string(),
            "Expected: 'function parameter' but got: 'Function'"
        ),
        Ok(_) => panic!("a function is no declaration"),
    }
}

#[test]
fn function_instructions() {
    let mut lexer = Lexer::new("local.get $x i32.add ) local.get i32 ");

    match parse_function_instruction(&mut lexer).ok().unwrap() {
        Some(Instruction::LocalGet(name)) => assert_eq!(name.text(), "$x"),
        _ => panic!("a local was read"),
    }
    assert!(matches!(parse_function_instruction(&mut lexer), Ok(Some(Instruction::I32Add))));
    assert!(matches!(parse_function_instruction(&mut lexer), Ok(None)));
    assert!(lexer.expect_token(Token::ClosedParen).is_ok());
    assert!(matches!(
        parse_function_instruction(&mut lexer),
        Err(ParseError::Unexpected { .. })
    ));
}

#[test]
fn parses_the_module_that_adds() {
    let mut lexer = Lexer::new(ADD);

    let nodes = match parse(&mut lexer) {
        Ok(Node::Module(nodes)) => nodes,
        _ => panic!("the text is a module"),
    };
    assert_eq!(nodes.len(), 1);
    match &nodes[0] {
        Node::Function { params, locals, name, result, content } => {
            assert_eq!(name.text(), "$add");
            assert_eq!(name.location, Location { row: 1, colum: 12, index: 20 });
            assert_eq!(params.len(), 2);
            assert_eq!(params[0].identifier.text(), "$lhs");
            assert_eq!(params[1].identifier.text(), "$rhs");
            assert_eq!(params[1].data_type, DataType::I32);
            assert_eq!(locals.len(), 0);
            assert_eq!(*result, Some(DataType::I32));
            assert_eq!(content.len(), 3);
            assert!(matches!(&content[0], Instruction::LocalGet(name) if name.text() == "$lhs"));
            assert!(matches!(&content[1], Instruction::LocalGet(name) if name.text() == "$rhs"));
            assert!(matches!(&content[2], Instruction::I32Add));
        }
        _ => panic!("the module holds a function"),
    }
    assert_eq!(lexer.location().index, ADD.chars().count());
}

#[test]
fn parses_modules_of_any_number_of_functions() {
    let mut empty = Lexer::new("(module)");
    assert!(matches!(parse(&mut empty), Ok(Node::Module(nodes)) if nodes.is_empty()));

    let mut two = Lexer::new("(module (func $a) (func $b (local $x i32) i32.add))");
    match parse(&mut two) {
        Ok(Node::Module(nodes)) => {
            assert_eq!(nodes.len(), 2);
            assert!(matches!(&nodes[1], Node::Function { locals, result, .. }
                if locals.len() == 1 && result.is_none()));
        }
        _ => panic!("the text is a module"),
    }
}

#[test]
fn function_that_is_none_leaves_the_tokens() {
    let mut lexer = Lexer::new("(module ) ");
    assert!(matches!(parse_function(&mut lexer), Ok(None)));
    assert!(lexer.expect_token(Token::OpenParen).is_ok());
    assert!(lexer.expect_token(Token::Module).is_ok());

    let mut other = Lexer::new("i32 ");
    assert!(matches!(parse_function(&mut other), Ok(None)));
    assert!(matches!(parse_data_type(&mut other), Ok(DataType::I32)));
}

#[test]
fn parse_errors() {
    assert_eq!(failure(parse(&mut Lexer::new(""))), "Reached end of file");
    assert_eq!(failure(parse(&mut Lexer::new("module"))), "Reached end of file");
    assert_eq!(
        failure(parse(&mut Lexer::new("module "))),
        "Expected: '(' but got: 'Module'"
    );
    assert_eq!(
        failure(parse(&mut Lexer::new("((module))"))),
        "Expected: 'Module' but got: '('"
    );
    assert_eq!(failure(parse(&mut Lexer::new("(module (func $f)"))), "Reached end of file");
    assert_eq!(
        failure(parse(&mut Lexer::new("(module (func i32))"))),
        "Expected: 'function name' but got: 'i32'"
    );
    assert_eq!(
        failure(parse(&mut Lexer::new("(module (func $f (result i32) (result i32)))"))),
        "A function has one result"
    );
    assert_eq!(
        failure(parse(&mut Lexer::new("(module (func $f (param i32)))"))),
        "Expected: 'invalid parameter name' but got: 'i32'"
    );
    assert_eq!(
        failure(parse(&mut Lexer::new("(module (func $f (param $p i32 i32)))"))),
        "Expected: ')' but got: 'i32'"
    );
    assert_eq!(
        failure(parse(&mut Lexer::new("(module (func $f i32.add (local $x i32)))"))),
        "Expected: ')' but got: '('"
    );
    // what is no function where one must stand
    assert_eq!(
        failure(parse(&mut Lexer::new("(module (param $p i32))"))),
        "Expected: 'function or stuff' but got: '('"
    );
    assert_eq!(
        failure(parse(&mut Lexer::new("(module i32.add)"))),
        "Expected: 'function or stuff' but got: 'i32.add'"
    );
    assert_eq!(
        failure(parse(&mut Lexer::new("(module (func $f) what)"))),
        "Unexpected token: what"
    );
}
