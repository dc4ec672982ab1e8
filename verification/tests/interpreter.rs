use risp::AST;
use risp::Environment;
use risp::Object;
use risp::eval;

#[test]
fn test_eval() {
    let mut empty_env = Environment::new();
    let ast = AST::Num(1);
    assert_eq!(eval(ast, &mut empty_env), Ok(Object::Num(1)));

    // (1 + 2)
    // (+ 1 2)
    let simple_add = AST::Add(Box::new(AST::Num(1)), Box::new(AST::Num(2)));
    assert_eq!(eval(simple_add, &mut empty_env), Ok(Object::Num(3)));

    // ((((1 + 2) + 3) + 4) + 5)
    // (+ (+ (+ (+ 1 2) 3) 4 ) 5)
    let complicated_add = AST::Add(
        Box::new(AST::Add(
            Box::new(AST::Add(
                Box::new(AST::Add(Box::new(AST::Num(1)), Box::new(AST::Num(2)))),
                Box::new(AST::Num(3)),
            )),
            Box::new(AST::Num(4)),
        )),
        Box::new(AST::Num(5)),
    );

    assert_eq!(eval(complicated_add, &mut empty_env), Ok(Object::Num(15)));

    // ((1 + 2) - 2)
    // (- (+ 1 2) 2)
    let minus = AST::Minus(
        Box::new(AST::Add(Box::new(AST::Num(1)), Box::new(AST::Num(2)))),
        Box::new(AST::Num(2)),
    );
    assert_eq!(eval(minus, &mut empty_env), Ok(Object::Num(1)));

    assert_eq!(eval(AST::Bool(true), &mut empty_env), Ok(Object::Bool(true)));
    assert_eq!(eval(AST::Bool(false), &mut empty_env), Ok(Object::Bool(false)));

    // (If true 1 2) and (If false 1 2)
    let if_true = AST::If {
        cond: Box::new(AST::Bool(true)),
        thn: Box::new(AST::Num(1)),
        els: Box::new(AST::Num(2)),
    };
    assert_eq!(eval(if_true, &mut empty_env), Ok(Object::Num(1)));
    let if_false = AST::If {
        cond: Box::new(AST::Bool(false)),
        thn: Box::new(AST::Num(1)),
        els: Box::new(AST::Num(2)),
    };
    assert_eq!(eval(if_false, &mut empty_env), Ok(Object::Num(2)));

    // (If 1 1 2) and (If 0 1 2)
    let if_one = AST::If {
        cond: Box::new(AST::Num(1)),
        thn: Box::new(AST::Num(1)),
        els: Box::new(AST::Num(2)),
    };
    assert_eq!(eval(if_one, &mut empty_env), Ok(Object::Num(1)));
    let if_zero = AST::If {
        cond: Box::new(AST::Num(0)),
        thn: Box::new(AST::Num(1)),
        els: Box::new(AST::Num(2)),
    };
    assert_eq!(eval(if_zero, &mut empty_env), Ok(Object::Num(2)));

    // (== 3 (+ 1 2)) and (== 0 (+ 1 2))
    let eq_true = AST::Equal(
        Box::new(AST::Num(3)),
        Box::new(AST::Add(Box::new(AST::Num(1)), Box::new(AST::Num(2)))),
    );
    assert_eq!(eval(eq_true, &mut empty_env), Ok(Object::Bool(true)));
    let eq_false = AST::Equal(
        Box::new(AST::Num(0)),
        Box::new(AST::Add(Box::new(AST::Num(1)), Box::new(AST::Num(2)))),
    );
    assert_eq!(eval(eq_false, &mut empty_env), Ok(Object::Bool(false)));
}

#[test]
fn test_eval_with_env() {
    let mut env = Environment::new();
    // (Define x 1)
    let define_x = AST::Define { name: "x".to_string(), value: Box::new(AST::Num(1)) };
    let value = eval(define_x, &mut env);

    assert_eq!(value, Ok(Object::Num(1)));
    assert_eq!(env.get(&"x".to_string()), Some(Object::Num(1)));

    assert_eq!(eval(AST::Ident("x".to_string()), &mut env), Ok(Object::Num(1)));
    // (+ 3 x)
    let add_three_x = AST::Add(Box::new(AST::Num(3)), Box::new(AST::Ident("x".to_string())));
    assert_eq!(eval(add_three_x, &mut env), Ok(Object::Num(4)));

    let mut env = Environment::new();
    // (Define plus_two (Func (x) (+ x 2)))
    let plus_two = AST::Define {
        name: "plus_two".to_string(),
        value: Box::new(AST::Function {
            params: vec!["x".to_string()],
            body: Box::new(AST::Add(
                Box::new(AST::Ident("x".to_string())),
                Box::new(AST::Num(2)),
            )),
        }),
    };
    let _ = eval(plus_two, &mut env);

    // (Apply plus_two 3)
    let app = AST::Apply {
        fn_lit: Box::new(AST::Ident("plus_two".to_string())),
        args: vec![AST::Num(3)],
    };
    let obj = eval(app, &mut env);
    assert_eq!(obj, Ok(Object::Num(5)));

    // (Define f (Func (a b) (+ a (+ b 1))))
    let f = AST::Define {
        name: "f".to_string(),
        value: Box::new(AST::Function {
            params: vec!["a".to_string(), "b".to_string()],
            body: Box::new(AST::Add(
                Box::new(AST::Ident("a".to_string())),
                Box::new(AST::Add(
                    Box::new(AST::Ident("b".to_string())),
                    Box::new(AST::Num(1)),
                )),
            )),
        }),
    };
    let _ = eval(f, &mut env);
    // (Apply f 10 20)
    let f_app = AST::Apply {
        fn_lit: Box::new(AST::Ident("f".to_string())),
        args: vec![AST::Num(10), AST::Num(20)],
    };
    assert_eq!(eval(f_app, &mut env), Ok(Object::Num(31)));

    // (Apply (Func (a b) (+ a (+ b 1))) 100 200)
    let f_app = AST::Apply {
        fn_lit: Box::new(AST::Function {
            params: vec!["a".to_string(), "b".to_string()],
            body: Box::new(AST::Add(
                Box::new(AST::Ident("a".to_string())),
                Box::new(AST::Add(
                    Box::new(AST::Ident("b".to_string())),
                    Box::new(AST::Num(1)),
                )),
            )),
        }),
        args: vec![AST::Num(100), AST::Num(200)],
    };
    assert_eq!(eval(f_app, &mut env), Ok(Object::Num(301)));

    // (Define g (Func (y) (If (== y 0) 1000 (Apply f 10 y))))
    let g = AST::Define {
        name: "g".to_string(),
        value: Box::new(AST::Function {
            params: vec!["y".to_string()],
            body: Box::new(AST::If {
                cond: Box::new(AST::Equal(
                    Box::new(AST::Ident("y".to_string())),
                    Box::new(AST::Num(0)),
                )),
                thn: Box::new(AST::Num(1000)),
                els: Box::new(AST::Apply {
                    fn_lit: Box::new(AST::Ident("f".to_string())),
                    args: vec![AST::Num(10), AST::Ident("y".to_string())],
                }),
            }),
        }),
    };
    let _ = eval(g, &mut env);

    // (Apply g 500)
    let g_app = AST::Apply {
        fn_lit: Box::new(AST::Ident("g".to_string())),
        args: vec![AST::Num(500)],
    };
    assert_eq!(eval(g_app, &mut env), Ok(Object::Num(511)));
}

#[test]
fn test_ast_macro() {
    // Each left-hand side below is the tree a builder front end emits for
    // the bracketed form in the comment, with raw literals going through
    // `AST::from`; the right-hand side spells the expected tree out.

    // (+ 1 2)
    assert_eq!(
        AST::Add(Box::new(AST::from(1usize)), Box::new(AST::from(2usize))),
        AST::Add(Box::new(AST::Num(1)), Box::new(AST::Num(2)))
    );

    // (+ (+ (+ (+ 1 2) 3) 4) 5)
    assert_eq!(
        AST::Add(
            Box::new(AST::Add(
                Box::new(AST::Add(
                    Box::new(AST::Add(
                        Box::new(AST::from(1usize)),
                        Box::new(AST::from(2usize)),
                    )),
                    Box::new(AST::from(3usize)),
                )),
                Box::new(AST::from(4usize)),
            )),
            Box::new(AST::from(5usize)),
        ),
        AST::Add(
            Box::new(AST::Add(
                Box::new(AST::Add(
                    Box::new(AST::Add(Box::new(AST::Num(1)), Box::new(AST::Num(2)))),
                    Box::new(AST::Num(3)),
                )),
                Box::new(AST::Num(4)),
            )),
            Box::new(AST::Num(5)),
        )
    );

    // (- 10 5)
    assert_eq!(
        AST::Minus(Box::new(AST::from(10usize)), Box::new(AST::from(5usize))),
        AST::Minus(Box::new(AST::Num(10)), Box::new(AST::Num(5)))
    );

    assert_eq!(AST::from(true), AST::Bool(true));
    assert_eq!(AST::from(false), AST::Bool(false));

    // (If 1 2 3)
    assert_eq!(
        AST::If {
            cond: Box::new(AST::from(1usize)),
            thn: Box::new(AST::from(2usize)),
            els: Box::new(AST::from(3usize)),
        },
        AST::If {
            cond: Box::new(AST::Num(1)),
            thn: Box::new(AST::Num(2)),
            els: Box::new(AST::Num(3))
        }
    );

    // (== 1 2)
    assert_eq!(
        AST::Equal(Box::new(AST::from(1usize)), Box::new(AST::from(2usize))),
        AST::Equal(Box::new(AST::Num(1)), Box::new(AST::Num(2)))
    );

    // (Define x 1)
    assert_eq!(
        AST::Define { name: "x".to_string(), value: Box::new(AST::from(1usize)) },
        AST::Define {
            name: "x".to_string(),
            value: Box::new(AST::Num(1))
        }
    );

    // a bare identifier: x
    assert_eq!(AST::Ident("x".to_string()), AST::Ident("x".to_string()));
    // (+ 1 x)
    assert_eq!(
        AST::Add(
            Box::new(AST::from(1usize)),
            Box::new(AST::Ident("x".to_string())),
        ),
        AST::Add(Box::new(AST::Num(1)), Box::new(AST::Ident("x".to_string())))
    );

    // (Func () 2)
    assert_eq!(
        AST::Function { params: vec![], body: Box::new(AST::from(2usize)) },
        AST::Function {
            params: vec![],
            body: Box::new(AST::Num(2)),
        }
    );

    // (Func (x) (+ x 2))
    assert_eq!(
        AST::Function {
            params: vec!["x".to_string()],
            body: Box::new(AST::Add(
                Box::new(AST::Ident("x".to_string())),
                Box::new(AST::from(2usize)),
            )),
        },
        AST::Function {
            params: vec!["x".to_string()],
            body: Box::new(AST::Add(
                Box::new(AST::Ident("x".to_string())),
                Box::new(AST::Num(2)),
            ))
        }
    );

    // (Define x (Func (x y) (+ y 2)))
    assert_eq!(
        AST::Define {
            name: "x".to_string(),
            value: Box::new(AST::Function {
                params: vec!["x".to_string(), "y".to_string()],
                body: Box::new(AST::Add(
                    Box::new(AST::Ident("y".to_string())),
                    Box::new(AST::from(2usize)),
                )),
            }),
        },
        AST::Define {
            name: "x".to_string(),
            value: Box::new(AST::Function {
                params: vec!["x".to_string(), "y".to_string()],
                body: Box::new(AST::Add(
                    Box::new(AST::Ident("y".to_string())),
                    Box::new(AST::Num(2)),
                ))
            })
        }
    );
}

#[test]
fn test_recursive_sum() {
    // (Define sum (Func (n) (If (== n 1) 1 (+ n (Apply sum (- n 1))))))
    // then (Apply sum 100): the callee sees the caller's binding of its own
    // name, so the recursion reaches the base case and sums 1..=100.
    let mut env = Environment::new();
    let sum = AST::Define {
        name: "sum".to_string(),
        value: Box::new(AST::Function {
            params: vec!["n".to_string()],
            body: Box::new(AST::If {
                cond: Box::new(AST::Equal(
                    Box::new(AST::Ident("n".to_string())),
                    Box::new(AST::Num(1)),
                )),
                thn: Box::new(AST::Num(1)),
                els: Box::new(AST::Add(
                    Box::new(AST::Ident("n".to_string())),
                    Box::new(AST::Apply {
                        fn_lit: Box::new(AST::Ident("sum".to_string())),
                        args: vec![AST::Minus(
                            Box::new(AST::Ident("n".to_string())),
                            Box::new(AST::Num(1)),
                        )],
                    }),
                )),
            }),
        }),
    };
    let _ = eval(sum, &mut env);
    let sum_app = AST::Apply {
        fn_lit: Box::new(AST::Ident("sum".to_string())),
        args: vec![AST::Num(100)],
    };
    assert_eq!(eval(sum_app, &mut env), Ok(Object::Num(5050)));
}
