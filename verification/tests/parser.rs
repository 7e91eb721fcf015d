use interpreter::evaluator::object::Object;
use interpreter::evaluator::{evaluate, Environment};
use interpreter::compiler::Compiler;
use interpreter::lexer::Lexer;
use interpreter::parser::ast::{Expr, Ident, Infix, Literal, Prefix, Stmt};
use interpreter::parser::Parser;
use interpreter::vm::VM;

#[test]
fn idx_expr() {
    let input = "myArray[1 + 1]";

    let expected = vec![Stmt::ExprStmt(Expr::IndexExpr(
        Box::new(Expr::IdentExpr(Ident("myArray".to_string()))),
        Box::new(Expr::Infix(
            Box::new(Expr::LiteralExpr(Literal::Int(1))),
            Infix::Plus,
            Box::new(Expr::LiteralExpr(Literal::Int(1))),
        )),
    ))];

    let l = Lexer::new(input);
    let mut p = Parser::new(l);

    match p.parse_program() {
        Ok(program) => {
            for (i, s) in expected.iter().enumerate() {
                assert_eq!(*s, program[i]);
            }
        },
        Err(errors) => panic!("Some errors were produced during parsing {:?}", errors),
    }
}

#[test]
fn array_expr() {
    let input = "[1, 2 * 2, 3 + 3];";

    let l = Lexer::new(input);
    let mut p = Parser::new(l);

    let elems: Vec<Expr> = vec![
        Expr::LiteralExpr(Literal::Int(1)),
        Expr::Infix(
            Box::new(Expr::LiteralExpr(Literal::Int(2))),
            Infix::Multiply,
            Box::new(Expr::LiteralExpr(Literal::Int(2))),
        ),
        Expr::Infix(
            Box::new(Expr::LiteralExpr(Literal::Int(3))),
            Infix::Plus,
            Box::new(Expr::LiteralExpr(Literal::Int(3))),
        ),
    ];
    let expected = vec![Stmt::ExprStmt(Expr::Array(elems))];

    match p.parse_program() {
        Ok(program) => {
            for (i, s) in expected.iter().enumerate() {
                assert_eq!(*s, program[i]);
            }
        },
        Err(errors) => panic!("Some errors were produced during parsing {:?}", errors),
    }
}

#[test]
fn let_statement() {
    let input = "
    let x = 5;
    let y = 10;
    let foobar = 838383;
    ";

    let l = Lexer::new(input);
    let mut p = Parser::new(l);

    let expected = vec![
        Stmt::LetStmt(Ident("x".to_string()), Expr::LiteralExpr(Literal::Int(5))),
        Stmt::LetStmt(Ident("y".to_string()), Expr::LiteralExpr(Literal::Int(10))),
        Stmt::LetStmt(
            Ident("foobar".to_string()),
            Expr::LiteralExpr(Literal::Int(838383)),
        ),
    ];

    match p.parse_program() {
        Ok(program) => {
            for (i, s) in expected.iter().enumerate() {
                assert_eq!(*s, program[i]);
            }
        },
        Err(errors) => panic!("Some errors were produced during parsing {:?}", errors),
    }
}

#[test]
fn return_statement() {
    let input = "
    return 5;
    return 10;
    return 993322;
    ";

    let l = Lexer::new(input);
    let mut p = Parser::new(l);

    let expected = vec![
        Stmt::ReturnStmt(Expr::LiteralExpr(Literal::Int(5))),
        Stmt::ReturnStmt(Expr::LiteralExpr(Literal::Int(10))),
        Stmt::ReturnStmt(Expr::LiteralExpr(Literal::Int(993322))),
    ];

    match p.parse_program() {
        Ok(program) => {
            for (i, s) in expected.iter().enumerate() {
                assert_eq!(*s, program[i]);
            }
        },
        Err(errors) => panic!("Some errors were produced during parsing {:?}", errors),
    }
}

#[test]
fn ident_expression() {
    let input = "
        foobar;
    ";

    let l = Lexer::new(input);
    let mut p = Parser::new(l);

    let expected = vec![Stmt::ExprStmt(Expr::IdentExpr(Ident("foobar".to_string())))];

    match p.parse_program() {
        Ok(program) => {
            for (i, s) in expected.iter().enumerate() {
                assert_eq!(*s, program[i]);
            }
        },
        Err(errors) => panic!("Some errors were produced during parsing {:?}", errors),
    }
}

#[test]
fn literal_expression() {
    let input = "
        5;
        true;
        false;
        \"hello world\";
    ";

    let l = Lexer::new(input);
    let mut p = Parser::new(l);

    let expected = vec![
        Stmt::ExprStmt(Expr::LiteralExpr(Literal::Int(5))),
        Stmt::ExprStmt(Expr::LiteralExpr(Literal::Bool(true))),
        Stmt::ExprStmt(Expr::LiteralExpr(Literal::Bool(false))),
        Stmt::ExprStmt(Expr::LiteralExpr(Literal::Str("hello world".to_string()))),
    ];

    match p.parse_program() {
        Ok(program) => {
            for (i, s) in expected.iter().enumerate() {
                assert_eq!(*s, program[i]);
            }
        },
        Err(errors) => panic!("Some errors were produced during parsing {:?}", errors),
    }
}

#[test]
fn prefix_expr() {
    let input = "
        !5;
        -15;
        +7
    ";

    let l = Lexer::new(input);
    let mut p = Parser::new(l);

    let expected = vec![
        Stmt::ExprStmt(Expr::Prefix(
            Prefix::Not,
            Box::new(Expr::LiteralExpr(Literal::Int(5))),
        )),
        Stmt::ExprStmt(Expr::Prefix(
            Prefix::Minus,
            Box::new(Expr::LiteralExpr(Literal::Int(15))),
        )),
        Stmt::ExprStmt(Expr::Prefix(
            Prefix::Plus,
            Box::new(Expr::LiteralExpr(Literal::Int(7))),
        )),
    ];

    match p.parse_program() {
        Ok(program) => {
            for (i, s) in expected.iter().enumerate() {
                assert_eq!(*s, program[i]);
            }
        },
        Err(errors) => panic!("Some errors were produced during parsing {:?}", errors),
    }
}

#[test]
fn infix_expr() {
    let input = "
        5+5;
        5-5;
        5*5;
        5/5;
        5>5;
        5<5;
        5==5;
        5 != 5;
    ";

    let l = Lexer::new(input);
    let mut p = Parser::new(l);

    let ops = vec![
        Infix::Plus,
        Infix::Minus,
        Infix::Multiply,
        Infix::Divide,
        Infix::GT,
        Infix::LT,
        Infix::Equal,
        Infix::NotEqual,
    ];
    let mut expected: Vec<Stmt> = Vec::new();
    for op in ops {
        expected.push(Stmt::ExprStmt(Expr::Infix(
            Box::new(Expr::LiteralExpr(Literal::Int(5))),
            op,
            Box::new(Expr::LiteralExpr(Literal::Int(5))),
        )));
    }

    match p.parse_program() {
        Ok(program) => {
            for (i, s) in expected.iter().enumerate() {
                assert_eq!(*s, program[i]);
            }
        },
        Err(errors) => panic!("Some errors were produced during parsing {:?}", errors),
    }
}

#[test]
fn grouped_expr() {
    let input = "
        2 / (5 + 5);
        -(5 + 5)
    ";

    let l = Lexer::new(input);
    let mut p = Parser::new(l);

    let expected = vec![
        Stmt::ExprStmt(Expr::Infix(
            Box::new(Expr::LiteralExpr(Literal::Int(2))),
            Infix::Divide,
            Box::new(Expr::Infix(
                Box::new(Expr::LiteralExpr(Literal::Int(5))),
                Infix::Plus,
                Box::new(Expr::LiteralExpr(Literal::Int(5))),
            )),
        )),
        Stmt::ExprStmt(Expr::Prefix(
            Prefix::Minus,
            Box::new(Expr::Infix(
                Box::new(Expr::LiteralExpr(Literal::Int(5))),
                Infix::Plus,
                Box::new(Expr::LiteralExpr(Literal::Int(5))),
            )),
        )),
    ];

    match p.parse_program() {
        Ok(program) => {
            for (i, s) in expected.iter().enumerate() {
                assert_eq!(*s, program[i]);
            }
        },
        Err(errors) => panic!("Some errors were produced during parsing {:?}", errors),
    }
}

#[test]
fn if_expr() {
    let input = "
        if (x < y) { x };
        if (x < y) { x } else { y };
    ";

    let l = Lexer::new(input);
    let mut p = Parser::new(l);

    let expected = vec![
        Stmt::ExprStmt(Expr::If(
            Box::new(Expr::Infix(
                Box::new(Expr::IdentExpr(Ident("x".to_string()))),
                Infix::LT,
                Box::new(Expr::IdentExpr(Ident("y".to_string()))),
            )),
            vec![Stmt::ExprStmt(Expr::IdentExpr(Ident("x".to_string())))],
            None,
        )),
        Stmt::ExprStmt(Expr::If(
            Box::new(Expr::Infix(
                Box::new(Expr::IdentExpr(Ident("x".to_string()))),
                Infix::LT,
                Box::new(Expr::IdentExpr(Ident("y".to_string()))),
            )),
            vec![Stmt::ExprStmt(Expr::IdentExpr(Ident("x".to_string())))],
            Some(vec![Stmt::ExprStmt(Expr::IdentExpr(Ident("y".to_string())))]),
        )),
    ];

    match p.parse_program() {
        Ok(program) => {
            for (i, s) in expected.iter().enumerate() {
                assert_eq!(*s, program[i]);
            }
        },
        Err(errors) => panic!("Some errors were produced during parsing {:?}", errors),
    }
}

#[test]
fn fn_expr() {
    let input = "
        fn (x, y) { x + y; }
    ";

    let l = Lexer::new(input);
    let mut p = Parser::new(l);

    let expected = vec![Stmt::ExprStmt(Expr::Fn(
        vec![Ident("x".to_string()), Ident("y".to_string())],
        vec![Stmt::ExprStmt(Expr::Infix(
            Box::new(Expr::IdentExpr(Ident("x".to_string()))),
            Infix::Plus,
            Box::new(Expr::IdentExpr(Ident("y".to_string()))),
        ))],
    ))];

    match p.parse_program() {
        Ok(program) => {
            for (i, s) in expected.iter().enumerate() {
                assert_eq!(*s, program[i]);
            }
        },
        Err(errors) => panic!("Some errors were produced during parsing {:?}", errors),
    }
}

#[test]
fn call_expr() {
    let input = "
        add( a, b);
    ";

    let l = Lexer::new(input);
    let mut p = Parser::new(l);

    let expected = vec![Stmt::ExprStmt(Expr::Call(
        Box::new(Expr::IdentExpr(Ident("add".to_string()))),
        vec![
            Expr::IdentExpr(Ident("a".to_string())),
            Expr::IdentExpr(Ident("b".to_string())),
        ],
    ))];

    match p.parse_program() {
        Ok(program) => {
            for (i, s) in expected.iter().enumerate() {
                assert_eq!(*s, program[i]);
            }
        },
        Err(errors) => panic!("Some errors were produced during parsing {:?}", errors),
    }
}

#[test]
fn parse_twice_same_tree() {
    // Parsing is a function of the token stream alone: the same text parses
    // to structurally identical trees.
    let input = "let x = 5 * (2 + y); if (x > 1) { x } else { [1, x, \"s\"][0] };";
    let p1 = {
        let mut p = Parser::new(Lexer::new(input));
        p.parse_program().expect("first parse")
    };
    let p2 = {
        let mut p = Parser::new(Lexer::new(input));
        p.parse_program().expect("second parse")
    };
    assert_eq!(p1, p2);
}

#[test]
fn precedence_shapes_tree() {
    // `*` binds tighter than `+`.
    let l = Lexer::new("1 + 2 * 3");
    let mut p = Parser::new(l);
    let program = p.parse_program().expect("parse");
    let expected = Stmt::ExprStmt(Expr::Infix(
        Box::new(Expr::LiteralExpr(Literal::Int(1))),
        Infix::Plus,
        Box::new(Expr::Infix(
            Box::new(Expr::LiteralExpr(Literal::Int(2))),
            Infix::Multiply,
            Box::new(Expr::LiteralExpr(Literal::Int(3))),
        )),
    ));
    assert_eq!(program[0], expected);
}

#[test]
fn parse_errors_accumulate() {
    let l = Lexer::new("let = 5; let y 10;");
    let mut p = Parser::new(l);
    match p.parse_program() {
        Ok(program) => panic!("expected errors, got {:?}", program),
        Err(errors) => assert!(errors.len() >= 2),
    }
}

#[test]
fn vm_matches_evaluator_on_arithmetic() {
    // Both back ends agree on the integer arithmetic subset.
    let cases = vec![
        "50 / 2 * 2 + 10 - 5",
        "1 + 2 * 3",
        "(5 + 10 * 2 + 15 / 3) * 2 + 1",
        "7 - 2 - 3",
        "100 / 5 / 2",
    ];
    for input in cases {
        let l = Lexer::new(input);
        let mut p = Parser::new(l);
        let program = p.parse_program().expect("parse");
        let mut compiler = Compiler::new();
        compiler.compile(program).expect("compile");
        let mut vm = VM::new(compiler.bytecode());
        vm.run().expect("run");
        let vm_result = vm.last_popped().expect("result").clone();

        let l2 = Lexer::new(input);
        let mut p2 = Parser::new(l2);
        let program2 = p2.parse_program().expect("parse");
        let mut env = Environment::new();
        let eval_result = evaluate(program2, &mut env);

        assert_eq!(vm_result, eval_result);
        assert!(matches!(vm_result, Object::Integer(_)));
    }
}
