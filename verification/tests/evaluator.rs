use interpreter::evaluator::object::Object;
use interpreter::evaluator::{evaluate, Environment};
use interpreter::lexer::Lexer;
use interpreter::parser::ast::{Expr, Ident, Infix, Literal, Stmt};
use interpreter::parser::Parser;

#[test]
fn test_builtins() {
    let test_case = vec![
        "len(\"\")",
        "len(\"four\")",
        "len(\"hello world\")",
        "len(1)",
        "len(\"one\", \"two\")",
        "len([1,2,3])",
        "first([\"abc\", 1, 2])",
        "last([\"abc\", 1, 2])",
        "push([1,2,3],4)",
    ];

    let expected = vec![
        Object::Integer(0),
        Object::Integer(4),
        Object::Integer(11),
        Object::Error("argument to len not supported".to_string()),
        Object::Error("wrong number of arguments".to_string()),
        Object::Integer(3),
        Object::Str("abc".to_string()),
        Object::Integer(2),
        Object::Array(vec![
            Object::Integer(1),
            Object::Integer(2),
            Object::Integer(3),
            Object::Integer(4),
        ]),
    ];

    for (i, s) in expected.iter().enumerate() {
        let result = test_eval(test_case[i].to_string());
        println!("{:?}", result);
        assert_eq!(*s, result);
    }
}

#[test]
fn test_array_lit() {
    let test_case = vec!["[ 1, 2 * 2, 3 + 3 ]"];

    let expected = vec![Object::Array(vec![
        Object::Integer(1),
        Object::Integer(4),
        Object::Integer(6),
    ])];

    for (i, s) in expected.iter().enumerate() {
        let result = test_eval(test_case[i].to_string());
        println!("{:?}", result);
        assert_eq!(*s, result);
    }
}

#[test]
fn test_hash_lit() {
    let test_case = vec!["{\"one\": 1, \"two\": 2, \"three\": 3}"];

    let h = vec![
        (Object::Str("one".to_string()), Object::Integer(1)),
        (Object::Str("two".to_string()), Object::Integer(2)),
        (Object::Str("three".to_string()), Object::Integer(3)),
    ];

    let expected = vec![Object::Hash(h)];

    for (i, s) in expected.iter().enumerate() {
        let result = test_eval(test_case[i].to_string());
        println!("{:?}", result);
        assert_eq!(*s, result);
    }
}

#[test]
fn test_hash_index() {
    let test_case = vec!["{\"one\": 1, \"two\": 2, \"three\": 3}[\"one\"]"];

    let expected = vec![Object::Integer(1)];

    for (i, s) in expected.iter().enumerate() {
        let result = test_eval(test_case[i].to_string());
        println!("{:?}", result);
        assert_eq!(*s, result);
    }
}

#[test]
fn test_array_index() {
    let test_case = vec![
        "[ 1, 2, 3 ][0]",
        "[ 1, 2, 3 ][1]",
        "[ 1, 2, 3 ][2]",
        "let i = 0; [1][i]",
        "[ 1, 2, 3 ][1 + 1]",
        "let myArray = [1,2,3]; myArray[2];",
        "let myArray = [1,2,3]; myArray[0] + myArray[1] + myArray[2];",
        "let myArray = [1, 2, 3]; let i = myArray[0]; myArray[i]",
        "[1, 2, 3][3]",
        "[1, 2, 3][-1]",
    ];

    let expected = vec![
        Object::Integer(1),
        Object::Integer(2),
        Object::Integer(3),
        Object::Integer(1),
        Object::Integer(3),
        Object::Integer(3),
        Object::Integer(6),
        Object::Integer(2),
        Object::Null,
        Object::Null,
    ];

    for (i, s) in expected.iter().enumerate() {
        let result = test_eval(test_case[i].to_string());
        println!("{:?}", result);
        assert_eq!(*s, result);
    }
}

#[test]
fn test_eval_integer() {
    let test_case = vec![
        "5",
        "10",
        "-5",
        "-10",
        "5 + 5 + 5 + 5 - 10",
        "2 * 2 * 2 * 2 * 2",
        "-50 + 100 + -50",
        "5 * 2 + 10",
        "5 + 2 * 10",
        "20 + 2 * -10",
        "50 / 2 * 2 + 10",
        "2 * (5 + 10)",
        "3 * 3 * 3 + 10",
        "3 * (3 * 3) + 10",
        "(5 + 10 * 2 + 15 / 3) * 2 + -10",
    ];

    let expected = vec![
        Object::Integer(5),
        Object::Integer(10),
        Object::Integer(-5),
        Object::Integer(-10),
        Object::Integer(10),
        Object::Integer(32),
        Object::Integer(0),
        Object::Integer(20),
        Object::Integer(25),
        Object::Integer(0),
        Object::Integer(60),
        Object::Integer(30),
        Object::Integer(37),
        Object::Integer(37),
        Object::Integer(50),
    ];

    for (i, s) in expected.iter().enumerate() {
        let result = test_eval(test_case[i].to_string());
        println!("{:?}", result);
        assert_eq!(*s, result);
    }
}

#[test]
fn test_eval_str() {
    let test_case = vec!["\"Hello World\"", "\"Hello\" + \" \" + \"World\""];

    let expected = vec![
        Object::Str("Hello World".to_string()),
        Object::Str("Hello World".to_string()),
    ];

    for (i, s) in expected.iter().enumerate() {
        let result = test_eval(test_case[i].to_string());
        println!("{:?}", result);
        assert_eq!(*s, result);
    }
}

#[test]
fn test_eval_bool() {
    let test_case = vec![
        "true",
        "false",
        "1 < 2",
        "1 > 2",
        "1 < 1",
        "1 > 1",
        "1 == 1",
        "1 != 1",
        "1 == 2",
        "1 != 2",
        "true == true",
        "false == false",
        "true == false",
        "true != false",
        "false != true",
        "(1 < 2) == true",
        "(1 < 2) == false",
        "(1 > 2) == true",
        "(1 > 2) == false",
    ];

    let expected = vec![
        Object::Boolean(true),
        Object::Boolean(false),
        Object::Boolean(true),
        Object::Boolean(false),
        Object::Boolean(false),
        Object::Boolean(false),
        Object::Boolean(true),
        Object::Boolean(false),
        Object::Boolean(false),
        Object::Boolean(true),
        Object::Boolean(true),
        Object::Boolean(true),
        Object::Boolean(false),
        Object::Boolean(true),
        Object::Boolean(true),
        Object::Boolean(true),
        Object::Boolean(false),
        Object::Boolean(false),
        Object::Boolean(true),
    ];

    for (i, s) in expected.iter().enumerate() {
        assert_eq!(*s, test_eval(test_case[i].to_string()));
    }
}

fn test_eval(input: String) -> Object {
    let l = Lexer::new(input.as_str());
    let mut p = Parser::new(l);

    match p.parse_program() {
        Ok(program) => {
            let mut env = Environment::new();
            evaluate(program, &mut env)
        },
        Err(error) => panic!("Error during parsing {:?}", error),
    }
}

#[test]
fn test_eval_not() {
    let test_case = vec!["!true", "!false", "!!true", "!!false", "!!5"];

    let expected = vec![
        Object::Boolean(false),
        Object::Boolean(true),
        Object::Boolean(true),
        Object::Boolean(false),
        Object::Boolean(true),
    ];

    for (i, s) in expected.iter().enumerate() {
        assert_eq!(*s, test_eval(test_case[i].to_string()));
    }
}

#[test]
fn test_conditional() {
    let test_case = vec![
        "if (true) { 10 }",
        "if (false) { 10 }",
        "if (1) { 10 }",
        "if (1 < 2) { 10 }",
        "if (1 > 2) { 10 }",
        "if (1 > 2) { 10 } else  { 20 }",
        "if (1 < 2) { 10 } else { 20 }",
    ];

    let expected = vec![
        Object::Integer(10),
        Object::Null,
        Object::Integer(10),
        Object::Integer(10),
        Object::Null,
        Object::Integer(20),
        Object::Integer(10),
    ];

    for (i, s) in expected.iter().enumerate() {
        assert_eq!(*s, test_eval(test_case[i].to_string()));
    }
}

#[test]
fn test_return() {
    let test_case = vec![
        "return 10;",
        "return 10; 9;",
        "return 2 * 5; 9;",
        "9; return 2 * 5; 9;",
        "
        if (10 > 1) {
            if (10 > 1) {
                return 10;
            }
            return 1;
        }            
        ",
    ];

    let expected = vec![
        Object::Integer(10),
        Object::Integer(10),
        Object::Integer(10),
        Object::Integer(10),
        Object::Integer(10),
    ];

    for (i, s) in expected.iter().enumerate() {
        println!("{:?}", test_eval(test_case[i].to_string()));
        assert_eq!(*s, test_eval(test_case[i].to_string()));
    }
}

#[test]
fn test_error() {
    let test_case = vec![
        "5 + true;",
        "5 + true; 5;",
        "-true",
        "true + false",
        "5; true + false; 5",
        "if (10 > 1) { true + false }",
        "\"Hello\" - \"World\"",
    ];

    let expected = vec![
        Object::Error("type mismatch".to_string()),
        Object::Error("type mismatch".to_string()),
        Object::Error("unknown operator".to_string()),
        Object::Error("unknown operator".to_string()),
        Object::Error("unknown operator".to_string()),
        Object::Error("unknown operator".to_string()),
        Object::Error("unknown operator".to_string()),
    ];

    for (i, s) in expected.iter().enumerate() {
        println!("{:?}", test_eval(test_case[i].to_string()));
        assert_eq!(*s, test_eval(test_case[i].to_string()));
    }
}

#[test]
fn test_let_statement() {
    let test_case = vec![
        "let a = 5; a;",
        "let a = 5 * 5; a;",
        "let a = 5; let b = a; b;",
        "let a = 5; let b = a; let c = a + b + 5; c;",
    ];

    let expected = vec![
        Object::Integer(5),
        Object::Integer(25),
        Object::Integer(5),
        Object::Integer(15),
    ];

    for (i, s) in expected.iter().enumerate() {
        println!("{:?}", test_eval(test_case[i].to_string()));
        assert_eq!(*s, test_eval(test_case[i].to_string()));
    }
}

#[test]
fn test_function_object() {
    let test_case = vec!["fn(x) { x + 2; };"];

    let expected = vec![Object::Closure(
        vec![Ident("x".to_string())],
        vec![Stmt::ExprStmt(Expr::Infix(
            Box::new(Expr::IdentExpr(Ident("x".to_string()))),
            Infix::Plus,
            Box::new(Expr::LiteralExpr(Literal::Int(2))),
        ))],
        Environment::new(),
    )];

    for (i, s) in expected.iter().enumerate() {
        println!("{:?}", test_eval(test_case[i].to_string()));
        assert_eq!(*s, test_eval(test_case[i].to_string()));
    }
}

#[test]
fn test_function_application() {
    let test_case = vec![
        "let identity = fn(x) { x; }; identity(5);",
        "let identity = fn(x) { return x; }; identity(5);",
        "let double = fn(x) { x * 2; }; double(5);",
        "let add = fn(x, y) { x + y; }; add(5, 5);",
        "let add = fn(x, y) { x + y; }; add(5 + 5, add(5, 5));",
        "fn(x) { x; } (5)",
    ];

    let expected = vec![
        Object::Integer(5),
        Object::Integer(5),
        Object::Integer(10),
        Object::Integer(10),
        Object::Integer(20),
        Object::Integer(5),
    ];

    for (i, s) in expected.iter().enumerate() {
        println!("{:?}", test_eval(test_case[i].to_string()));
        assert_eq!(*s, test_eval(test_case[i].to_string()));
    }
}

#[test]
fn test_call_strips_return() {
    // The call site strips the returning wrapper: the call expression
    // itself evaluates to the returned value, usable in a larger
    // expression.
    assert_eq!(
        test_eval("let f = fn() { return 10; }; f() + 1".to_string()),
        Object::Integer(11)
    );
    assert_eq!(
        test_eval("fn() { return 10; }()".to_string()),
        Object::Integer(10)
    );
    assert_eq!(
        test_eval("let f = fn(x) { if (x > 1) { return x; } return 0; }; f(5) * 2".to_string()),
        Object::Integer(10)
    );
}

#[test]
fn test_closure_snapshot() {
    // A function literal captures the scope at its definition: a later
    // rebinding of a captured name is not observed by the closure.
    let result = test_eval(
        "let n = 1; let f = fn() { n; }; let n = 99; f()".to_string(),
    );
    assert_eq!(result, Object::Integer(1));
}

#[test]
fn test_closure_call_arity() {
    let result = test_eval("let f = fn(x, y) { x + y; }; f(1)".to_string());
    assert_eq!(result, Object::Error("wrong number of arguments".to_string()));
}

#[test]
fn test_missing_hash_key_is_error() {
    let result = test_eval("{\"one\": 1}[\"two\"]".to_string());
    assert_eq!(result, Object::Error("Not found in map".to_string()));
}

#[test]
fn test_unknown_identifier() {
    let result = test_eval("foobar".to_string());
    assert_eq!(
        result,
        Object::Error("unknown identifier: foobar".to_string())
    );
}

#[test]
fn test_division_errors() {
    assert_eq!(
        test_eval("5 / 0".to_string()),
        Object::Error("division by zero".to_string())
    );
    assert_eq!(
        test_eval("9223372036854775807 + 1".to_string()),
        Object::Error("integer overflow".to_string())
    );
}

#[test]
fn test_rest_builtin() {
    assert_eq!(
        test_eval("rest([1,2,3])".to_string()),
        Object::Array(vec![Object::Integer(2), Object::Integer(3)])
    );
    assert_eq!(
        test_eval("first([])".to_string()),
        Object::Error("array is empty".to_string())
    );
}

#[test]
fn test_display_text() {
    let v = test_eval("[1, \"two\", true]".to_string());
    assert_eq!(v.display_text(), "[1, two, true]".to_string());
    assert_eq!(Object::Integer(-42).display_text(), "-42".to_string());
    assert_eq!(Object::Null.display_text(), "null".to_string());
    assert_eq!(
        Object::Error("boom".to_string()).display_text(),
        "ERROR boom".to_string()
    );
}
