use super_optimiser::ast::{
    BinaryOperator, BlockItem, Constant, Declaration, DeclaratorKind, Expression, ExternalDeclaration,
    FloatBase, ForInitializer, InitDeclarator, Initializer, IntegerBase, Label, LabeledStatement,
    Statement, TranslationUnit, UnaryOperator, is_supported, is_unit_supported,
};
use super_optimiser::transpile;

fn id(name: &str) -> Expression {
    Expression::Identifier(name.to_string())
}

fn integer(base: IntegerBase, digits: &str) -> Expression {
    Expression::Constant(Constant::Integer { base, number: digits.to_string() })
}

fn num(digits: &str) -> Expression {
    integer(IntegerBase::Decimal, digits)
}

fn bin(operator: BinaryOperator, lhs: Expression, rhs: Expression) -> Expression {
    Expression::BinaryOperator { operator, lhs: Box::new(lhs), rhs: Box::new(rhs) }
}

fn un(operator: UnaryOperator, operand: Expression) -> Expression {
    Expression::UnaryOperator { operator, operand: Box::new(operand) }
}

fn expr(e: Expression) -> Statement {
    Statement::Expression(Some(Box::new(e)))
}

fn ret(e: Expression) -> Statement {
    Statement::Return(Some(Box::new(e)))
}

fn item(s: Statement) -> BlockItem {
    BlockItem::Statement(s)
}

fn declaration(vars: Vec<(&str, Option<Initializer>)>) -> Declaration {
    Declaration {
        declarators: vars
            .into_iter()
            .map(|(n, i)| InitDeclarator { kind: DeclaratorKind::Identifier(n.to_string()), initializer: i })
            .collect(),
    }
}

fn decl(name: &str, init: Option<Expression>) -> BlockItem {
    BlockItem::Declaration(declaration(vec![(name, init.map(|e| Initializer::Expression(Box::new(e))))]))
}

fn block(items: Vec<BlockItem>) -> Statement {
    Statement::Compound(items)
}

fn run(s: &Statement) -> String {
    assert!(is_supported(s));
    transpile::transpile(s)
}

#[test]
fn assignment_is_substituted_into_later_reads() {
    let s = block(vec![
        decl("x", Some(num("1"))),
        item(expr(bin(BinaryOperator::Assign, id("x"), bin(BinaryOperator::Plus, id("x"), num("2"))))),
        item(ret(id("x"))),
    ]);
    assert_eq!(run(&s), "(compound (declaration x 1) (= x (+ 1 2)) (return (+ 1 2)))");
}

#[test]
fn branch_forgets_assigned_variables() {
    let s = block(vec![
        decl("x", Some(num("1"))),
        item(Statement::If {
            condition: Box::new(id("c")),
            then_statement: Box::new(expr(bin(BinaryOperator::Assign, id("x"), num("2")))),
            else_statement: None,
        }),
        item(ret(id("x"))),
    ]);
    assert_eq!(run(&s), "(compound (declaration x 1) (if c (= x 2) (ignore)) (return x))");
}

#[test]
fn if_with_else_branch() {
    let s = Statement::If {
        condition: Box::new(bin(BinaryOperator::Equals, id("a"), num("0"))),
        then_statement: Box::new(Statement::Break),
        else_statement: Some(Box::new(Statement::Continue)),
    };
    assert_eq!(run(&s), "(if (== a 0) (break) (continue))");
}

#[test]
fn less_or_equal_is_a_comparison() {
    let s = block(vec![
        item(expr(bin(BinaryOperator::LessOrEqual, id("a"), id("b")))),
        item(ret(id("a"))),
    ]);
    assert_eq!(run(&s), "(compound (<= a b) (return a))");
    let t = expr(bin(BinaryOperator::GreaterOrEqual, id("a"), id("b")));
    assert_eq!(run(&t), "(>= a b)");
}

#[test]
fn increments_and_decrements() {
    assert_eq!(run(&expr(un(UnaryOperator::PostIncrement, id("i")))), "(= i (+ i 1))");
    assert_eq!(run(&expr(un(UnaryOperator::PreIncrement, id("i")))), "(= i (+ i 1))");
    assert_eq!(run(&expr(un(UnaryOperator::PostDecrement, id("i")))), "(= i (- i 1))");
    let deref = un(UnaryOperator::Indirection, id("p"));
    assert_eq!(run(&expr(un(UnaryOperator::PreDecrement, deref))), "(= (* p) (- (* p) 1))");
}

#[test]
fn plain_unary_operators() {
    assert_eq!(run(&expr(un(UnaryOperator::Minus, id("x")))), "(- x)");
    assert_eq!(run(&expr(un(UnaryOperator::Plus, id("x")))), "(+ x)");
    assert_eq!(run(&expr(un(UnaryOperator::Negate, id("x")))), "(! x)");
    assert_eq!(run(&expr(un(UnaryOperator::Complement, id("x")))), "(~ x)");
    assert_eq!(run(&expr(un(UnaryOperator::Address, id("x")))), "(& x)");
    assert_eq!(run(&expr(un(UnaryOperator::Indirection, id("x")))), "(* x)");
}

#[test]
fn binary_operators() {
    let cases = vec![
        (BinaryOperator::Index, "(index a b)"),
        (BinaryOperator::Multiply, "(* a b)"),
        (BinaryOperator::Divide, "(/ a b)"),
        (BinaryOperator::Modulo, "(% a b)"),
        (BinaryOperator::Plus, "(+ a b)"),
        (BinaryOperator::Minus, "(- a b)"),
        (BinaryOperator::ShiftLeft, "(<< a b)"),
        (BinaryOperator::ShiftRight, "(>> a b)"),
        (BinaryOperator::Less, "(< a b)"),
        (BinaryOperator::Greater, "(> a b)"),
        (BinaryOperator::Equals, "(== a b)"),
        (BinaryOperator::NotEquals, "(!= a b)"),
        (BinaryOperator::BitwiseAnd, "(& a b)"),
        (BinaryOperator::BitwiseXor, "(^ a b)"),
        (BinaryOperator::BitwiseOr, "(| a b)"),
        (BinaryOperator::LogicalAnd, "(&& a b)"),
        (BinaryOperator::LogicalOr, "(|| a b)"),
        (BinaryOperator::Assign, "(= a b)"),
        (BinaryOperator::AssignMultiply, "(= a (* a b))"),
        (BinaryOperator::AssignDivide, "(= a (/ a b))"),
        (BinaryOperator::AssignModulo, "(= a (% a b))"),
        (BinaryOperator::AssignPlus, "(= a (+ a b))"),
        (BinaryOperator::AssignMinus, "(= a (- a b))"),
        (BinaryOperator::AssignShiftLeft, "(= a (<< a b))"),
        (BinaryOperator::AssignShiftRight, "(= a (>> a b))"),
        (BinaryOperator::AssignBitwiseAnd, "(= a (& a b))"),
        (BinaryOperator::AssignBitwiseXor, "(= a (^ a b))"),
        (BinaryOperator::AssignBitwiseOr, "(= a (| a b))"),
    ];
    for (op, expected) in cases {
        assert_eq!(run(&expr(bin(op, id("a"), id("b")))), expected);
    }
}

#[test]
fn compound_assignment_then_read() {
    let s = block(vec![
        item(expr(bin(BinaryOperator::AssignPlus, id("a"), num("3")))),
        item(ret(id("a"))),
    ]);
    assert_eq!(run(&s), "(compound (= a (+ a 3)) (return (+ a 3)))");
}

#[test]
fn goto_forgets_every_binding() {
    let s = block(vec![
        decl("x", Some(num("1"))),
        item(Statement::Goto("end".to_string())),
        item(ret(id("x"))),
    ]);
    assert_eq!(run(&s), "(compound (declaration x 1) (goto end) (return x))");
}

#[test]
fn for_loop_with_declaration_and_step() {
    let s = Statement::For {
        initializer: ForInitializer::Declaration(declaration(vec![(
            "i",
            Some(Initializer::Expression(Box::new(num("0")))),
        )])),
        condition: Some(Box::new(bin(BinaryOperator::Less, id("i"), id("n")))),
        step: Some(Box::new(un(UnaryOperator::PostIncrement, id("i")))),
        statement: Box::new(expr(bin(
            BinaryOperator::Assign,
            id("s"),
            bin(BinaryOperator::Plus, id("s"), id("i")),
        ))),
    };
    assert_eq!(run(&s), "(for (declaration i 0) (< 0 n) (= i (+ 0 1)) (= s (+ s i)))");
}

#[test]
fn for_loop_forgets_what_it_assigns() {
    let s = block(vec![
        decl("s", Some(num("0"))),
        item(Statement::For {
            initializer: ForInitializer::Empty,
            condition: None,
            step: None,
            statement: Box::new(expr(bin(BinaryOperator::Assign, id("s"), num("5")))),
        }),
        item(ret(id("s"))),
    ]);
    assert_eq!(
        run(&s),
        "(compound (declaration s 0) (for (ignore) (ignore) (ignore) (= s 5)) (return s))"
    );
}

#[test]
fn loop_forgets_names_assigned_in_declarations() {
    let body = block(vec![decl("a", Some(un(UnaryOperator::PostIncrement, id("b"))))]);
    let s = block(vec![
        item(Statement::While { expression: Box::new(id("c")), statement: Box::new(body) }),
        item(ret(id("b"))),
    ]);
    assert_eq!(run(&s), "(compound (while c (compound (declaration a (= b (+ b 1))))) (return b))");
}

#[test]
fn declaration_reads_what_its_initializer_assigned() {
    let s = block(vec![
        decl("a", Some(un(UnaryOperator::PreIncrement, id("b")))),
        item(ret(id("b"))),
    ]);
    assert_eq!(run(&s), "(compound (declaration a (= b (+ b 1))) (return (+ b 1)))");
}

#[test]
fn while_and_do_while_loops() {
    let w = Statement::While {
        expression: Box::new(id("c")),
        statement: Box::new(expr(un(UnaryOperator::PostDecrement, id("c")))),
    };
    assert_eq!(run(&w), "(while c (= c (- c 1)))");
    let d = Statement::DoWhile {
        statement: Box::new(expr(un(UnaryOperator::PostDecrement, id("c")))),
        expression: Box::new(id("c")),
    };
    assert_eq!(run(&d), "(do-while c (= c (- c 1)))");
}

#[test]
fn switch_with_case_and_default_labels() {
    let body = block(vec![
        item(Statement::Labeled(LabeledStatement {
            label: Label::Case(Box::new(num("1"))),
            statement: Box::new(expr(bin(BinaryOperator::Assign, id("y"), num("2")))),
        })),
        item(Statement::Break),
        item(Statement::Labeled(LabeledStatement {
            label: Label::Default,
            statement: Box::new(expr(bin(BinaryOperator::Assign, id("y"), num("3")))),
        })),
    ]);
    let s = Statement::Switch { expression: Box::new(id("x")), statement: Box::new(body) };
    assert_eq!(
        run(&s),
        "(switch x (compound (case 1 (= y 2)) (break) (case default (= y 3))))"
    );
}

#[test]
fn case_label_is_read_after_its_statement() {
    let s = Statement::Labeled(LabeledStatement {
        label: Label::Case(Box::new(id("k"))),
        statement: Box::new(expr(bin(BinaryOperator::Assign, id("k"), num("7")))),
    });
    assert_eq!(run(&s), "(case 7 (= k 7))");
}

#[test]
fn goto_labels() {
    let s = Statement::Labeled(LabeledStatement {
        label: Label::Identifier("out".to_string()),
        statement: Box::new(ret(num("0"))),
    });
    assert_eq!(run(&s), "(label out (return 0))");
}

#[test]
fn simple_statements() {
    assert_eq!(run(&block(vec![])), "(ignore)");
    assert_eq!(run(&Statement::Expression(None)), "(ignore)");
    assert_eq!(run(&Statement::Continue), "(continue)");
    assert_eq!(run(&Statement::Break), "(break)");
    assert_eq!(run(&Statement::Return(None)), "(return null)");
    assert_eq!(run(&Statement::Asm), "(asm)");
}

#[test]
fn integer_constants_in_every_base() {
    assert_eq!(run(&ret(integer(IntegerBase::Octal, "17"))), "(return 15)");
    assert_eq!(run(&ret(integer(IntegerBase::Hexadecimal, "ff"))), "(return 255)");
    assert_eq!(run(&ret(integer(IntegerBase::Hexadecimal, "FF"))), "(return 255)");
    assert_eq!(run(&ret(integer(IntegerBase::Binary, "101"))), "(return 5)");
    assert_eq!(run(&ret(integer(IntegerBase::Decimal, "0042"))), "(return 0042)");
    assert_eq!(
        run(&ret(integer(IntegerBase::Hexadecimal, "7fffffffffffffff"))),
        "(return 9223372036854775807)"
    );
}

#[test]
fn unreadable_integer_constants_become_zero() {
    assert_eq!(run(&ret(integer(IntegerBase::Octal, "9"))), "(return 0)");
    assert_eq!(run(&ret(integer(IntegerBase::Hexadecimal, "ffffffffffffffff"))), "(return 0)");
    assert_eq!(run(&ret(integer(IntegerBase::Binary, ""))), "(return 0)");
    assert_eq!(run(&ret(integer(IntegerBase::Octal, "-10"))), "(return -8)");
}

#[test]
fn other_constants_and_literals() {
    let f = Expression::Constant(Constant::Float { base: FloatBase::Decimal, number: "1.5".to_string() });
    assert_eq!(run(&ret(f)), "(return 1.5)");
    let c = Expression::Constant(Constant::Character("'a'".to_string()));
    assert_eq!(run(&ret(c)), "(return ''a'')");
    let s = Expression::StringLiteral(vec!["\"ab\"".to_string(), "\"cd\"".to_string()]);
    assert_eq!(run(&ret(s)), "(return (string \"ab\" \"cd\"))");
}

#[test]
fn members_casts_calls_and_sizes() {
    let m = Expression::Member { expression: Box::new(id("s")), identifier: "f".to_string() };
    assert_eq!(run(&expr(m)), "(member s f)");
    let c = Expression::Cast { expression: Box::new(id("x")) };
    assert_eq!(run(&expr(c)), "(cast temp x)");
    assert_eq!(run(&expr(Expression::Call)), "(call)");
    assert_eq!(run(&expr(Expression::SizeOfTy)), "(sizeoftype)");
    assert_eq!(run(&expr(Expression::SizeOfVal)), "(sizeofexpr)");
}

#[test]
fn conditional_expression_forgets_assignments() {
    let cond = Expression::Conditional {
        condition: Box::new(id("c")),
        then_expression: Box::new(bin(BinaryOperator::Assign, id("x"), num("1"))),
        else_expression: Box::new(num("2")),
    };
    let s = block(vec![decl("x", Some(num("0"))), item(expr(cond)), item(ret(id("x")))]);
    assert_eq!(run(&s), "(compound (declaration x 0) (if c (= x 1) 2) (return x))");
}

#[test]
fn comma_expressions() {
    let comma = Expression::Comma(vec![bin(BinaryOperator::Assign, id("a"), num("1")), id("a")]);
    assert_eq!(run(&expr(comma)), "(compound (= a 1) 1)");
    assert_eq!(run(&expr(Expression::Comma(vec![]))), "(ignore)");
}

#[test]
fn statement_expressions() {
    let inner = block(vec![item(expr(id("a")))]);
    assert_eq!(run(&expr(Expression::Statement(Box::new(inner)))), "(compound a)");
}

#[test]
fn declarations_and_initializer_lists() {
    let list = Initializer::List(vec![
        Initializer::Expression(Box::new(num("1"))),
        Initializer::Expression(Box::new(num("2"))),
    ]);
    let d = BlockItem::Declaration(declaration(vec![("arr", Some(list)), ("b", None)]));
    let s = block(vec![d, item(ret(id("arr"))), item(ret(id("b")))]);
    assert_eq!(
        run(&s),
        "(compound (declaration arr (list 1 2)) (declaration b null) (return (list 1 2)) (return null))"
    );
    let empty = BlockItem::Declaration(declaration(vec![("e", Some(Initializer::List(vec![])))]));
    assert_eq!(run(&block(vec![empty])), "(compound (declaration e (list )))");
}

#[test]
fn unsupported_constructs_are_detected() {
    assert!(!is_supported(&expr(Expression::GenericSelection)));
    assert!(!is_supported(&expr(Expression::CompoundLiteral)));
    assert!(!is_supported(&expr(Expression::AlignOf)));
    assert!(!is_supported(&expr(Expression::OffsetOf)));
    assert!(!is_supported(&expr(Expression::VaArg)));
    let hex = Expression::Constant(Constant::Float { base: FloatBase::Hexadecimal, number: "1p3".to_string() });
    assert!(!is_supported(&ret(hex)));
    let range = Statement::Labeled(LabeledStatement { label: Label::CaseRange, statement: Box::new(Statement::Break) });
    assert!(!is_supported(&range));
    assert!(!is_supported(&block(vec![item(Statement::Break), BlockItem::StaticAssert])));
    let abstract_decl = BlockItem::Declaration(Declaration {
        declarators: vec![InitDeclarator { kind: DeclaratorKind::Abstract, initializer: None }],
    });
    assert!(!is_supported(&block(vec![abstract_decl])));
    let nested = Statement::For {
        initializer: ForInitializer::StaticAssert,
        condition: None,
        step: None,
        statement: Box::new(Statement::Break),
    };
    assert!(!is_supported(&nested));
    assert!(is_supported(&expr(Expression::Call)));
}

#[test]
fn a_file_yields_one_term_per_function() {
    let unit = TranslationUnit(vec![
        ExternalDeclaration::Declaration,
        ExternalDeclaration::FunctionDefinition(ret(num("1"))),
        ExternalDeclaration::StaticAssert,
        ExternalDeclaration::FunctionDefinition(block(vec![])),
    ]);
    assert!(is_unit_supported(&unit));
    assert_eq!(transpile(unit), vec!["(return 1)".to_string(), "(ignore)".to_string()]);
}

#[test]
fn each_function_starts_with_no_binding() {
    let unit = TranslationUnit(vec![
        ExternalDeclaration::FunctionDefinition(block(vec![decl("x", Some(num("1")))])),
        ExternalDeclaration::FunctionDefinition(ret(id("x"))),
    ]);
    assert_eq!(
        transpile(unit),
        vec!["(compound (declaration x 1))".to_string(), "(return x)".to_string()]
    );
}

#[test]
fn a_file_with_an_unsupported_function_is_detected() {
    let unit = TranslationUnit(vec![
        ExternalDeclaration::FunctionDefinition(ret(num("1"))),
        ExternalDeclaration::FunctionDefinition(expr(Expression::VaArg)),
    ]);
    assert!(!is_unit_supported(&unit));
}
