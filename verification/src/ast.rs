//! The part of a C syntax tree that the transpiler reads.
//!
//! Each node keeps exactly the values that the transpilation depends on.
//! Nodes whose contents are never looked at (a call, `sizeof`, inline
//! assembly) carry no children; nodes that the transpiler cannot handle are
//! kept as bare variants so that `*_supported` can rule them out.
use vstd::prelude::*;

verus! {

/// Base of an integer literal; the digits are kept without their prefix.
#[derive(Debug, Clone, Copy, PartialEq, Eq, Structural)]
pub enum IntegerBase {
    Decimal,
    Octal,
    Hexadecimal,
    Binary,
}

/// Base of a floating point literal; the digits are kept as written.
#[derive(Debug, Clone, Copy, PartialEq, Eq, Structural)]
pub enum FloatBase {
    Decimal,
    Hexadecimal,
}

/// Numeric and character constants.
#[derive(Debug, Clone)]
pub enum Constant {
    Integer { base: IntegerBase, number: String },
    Float { base: FloatBase, number: String },
    /// The character literal as written, quotes included.
    Character(String),
}

/// Operators with one operand.
#[derive(Debug, Clone, Copy, PartialEq, Eq, Structural)]
pub enum UnaryOperator {
    PostIncrement,
    PostDecrement,
    PreIncrement,
    PreDecrement,
    Address,
    Indirection,
    Plus,
    Minus,
    Complement,
    Negate,
}

/// Operators with two operands.
#[derive(Debug, Clone, Copy, PartialEq, Eq, Structural)]
pub enum BinaryOperator {
    Index,
    Multiply,
    Divide,
    Modulo,
    Plus,
    Minus,
    ShiftLeft,
    ShiftRight,
    Less,
    Greater,
    LessOrEqual,
    GreaterOrEqual,
    Equals,
    NotEquals,
    BitwiseAnd,
    BitwiseXor,
    BitwiseOr,
    LogicalAnd,
    LogicalOr,
    Assign,
    AssignMultiply,
    AssignDivide,
    AssignModulo,
    AssignPlus,
    AssignMinus,
    AssignShiftLeft,
    AssignShiftRight,
    AssignBitwiseAnd,
    AssignBitwiseXor,
    AssignBitwiseOr,
}

/// C expressions.
#[derive(Debug)]
pub enum Expression {
    Identifier(String),
    Constant(Constant),
    /// The pieces of a (possibly concatenated) string literal, quotes included.
    StringLiteral(Vec<String>),
    GenericSelection,
    Member { expression: Box<Expression>, identifier: String },
    Call,
    CompoundLiteral,
    SizeOfTy,
    SizeOfVal,
    AlignOf,
    UnaryOperator { operator: UnaryOperator, operand: Box<Expression> },
    Cast { expression: Box<Expression> },
    BinaryOperator { operator: BinaryOperator, lhs: Box<Expression>, rhs: Box<Expression> },
    Conditional {
        condition: Box<Expression>,
        then_expression: Box<Expression>,
        else_expression: Box<Expression>,
    },
    Comma(Vec<Expression>),
    OffsetOf,
    VaArg,
    Statement(Box<Statement>),
}

/// Name of a declarator.
#[derive(Debug)]
pub enum DeclaratorKind {
    Abstract,
    Identifier(String),
    /// A parenthesised (nested) declarator.
    Declarator,
}

/// Value assigned in a declaration.
#[derive(Debug)]
pub enum Initializer {
    Expression(Box<Expression>),
    /// The initializers of the items of a braced list, in order.
    List(Vec<Initializer>),
}

/// One name of a declaration with its optional initializer.
#[derive(Debug)]
pub struct InitDeclarator {
    pub kind: DeclaratorKind,
    pub initializer: Option<Initializer>,
}

/// A declaration: its declarators in order.
#[derive(Debug)]
pub struct Declaration {
    pub declarators: Vec<InitDeclarator>,
}

/// Statement labels for `goto` and `switch`.
#[derive(Debug)]
pub enum Label {
    Identifier(String),
    Case(Box<Expression>),
    CaseRange,
    Default,
}

/// A labeled statement.
#[derive(Debug)]
pub struct LabeledStatement {
    pub label: Label,
    pub statement: Box<Statement>,
}

/// First element of a `for` statement.
#[derive(Debug)]
pub enum ForInitializer {
    Empty,
    Expression(Box<Expression>),
    Declaration(Declaration),
    StaticAssert,
}

/// Element of a compound statement.
#[derive(Debug)]
pub enum BlockItem {
    Declaration(Declaration),
    StaticAssert,
    Statement(Statement),
}

/// C statements.
#[derive(Debug)]
pub enum Statement {
    Labeled(LabeledStatement),
    Compound(Vec<BlockItem>),
    Expression(Option<Box<Expression>>),
    If {
        condition: Box<Expression>,
        then_statement: Box<Statement>,
        else_statement: Option<Box<Statement>>,
    },
    Switch { expression: Box<Expression>, statement: Box<Statement> },
    While { expression: Box<Expression>, statement: Box<Statement> },
    DoWhile { statement: Box<Statement>, expression: Box<Expression> },
    For {
        initializer: ForInitializer,
        condition: Option<Box<Expression>>,
        step: Option<Box<Expression>>,
        statement: Box<Statement>,
    },
    Goto(String),
    Continue,
    Break,
    Return(Option<Box<Expression>>),
    Asm,
}

/// Top-level elements of a C file; of a function only its body is read.
#[derive(Debug)]
pub enum ExternalDeclaration {
    Declaration,
    StaticAssert,
    FunctionDefinition(Statement),
}

/// A whole C file after preprocessing.
#[derive(Debug)]
pub struct TranslationUnit(pub Vec<ExternalDeclaration>);

// ---------------------------------------------------------------------------
// Which trees the transpiler handles
// ---------------------------------------------------------------------------

pub open spec fn constant_supported(c: Constant) -> bool {
    match c {
        Constant::Float { base, .. } => base == FloatBase::Decimal,
        _ => true,
    }
}

/// Whether the transpiler handles every node of `e` that it visits.
pub open spec fn expr_supported(e: Expression) -> bool
    decreases e,
{
    match e {
        Expression::Identifier(_) => true,
        Expression::Constant(c) => constant_supported(c),
        Expression::StringLiteral(_) => true,
        Expression::GenericSelection => false,
        Expression::Member { expression, .. } => expr_supported(*expression),
        Expression::Call => true,
        Expression::CompoundLiteral => false,
        Expression::SizeOfTy => true,
        Expression::SizeOfVal => true,
        Expression::AlignOf => false,
        Expression::UnaryOperator { operand, .. } => expr_supported(*operand),
        Expression::Cast { expression } => expr_supported(*expression),
        Expression::BinaryOperator { lhs, rhs, .. } => expr_supported(*lhs) && expr_supported(*rhs),
        Expression::Conditional { condition, then_expression, else_expression } => {
            expr_supported(*condition) && expr_supported(*then_expression) && expr_supported(
                *else_expression,
            )
        },
        Expression::Comma(v) => exprs_supported(v@),
        Expression::OffsetOf => false,
        Expression::VaArg => false,
        Expression::Statement(s) => stmt_supported(*s),
    }
}

pub open spec fn exprs_supported(s: Seq<Expression>) -> bool
    decreases s,
{
    if s.len() == 0 {
        true
    } else {
        exprs_supported(s.drop_last()) && expr_supported(s.last())
    }
}

pub open spec fn opt_expr_supported(e: Option<Box<Expression>>) -> bool
    decreases e,
{
    match e {
        Some(b) => expr_supported(*b),
        None => true,
    }
}

pub open spec fn init_supported(i: Initializer) -> bool
    decreases i,
{
    match i {
        Initializer::Expression(e) => expr_supported(*e),
        Initializer::List(v) => inits_supported(v@),
    }
}

pub open spec fn inits_supported(s: Seq<Initializer>) -> bool
    decreases s,
{
    if s.len() == 0 {
        true
    } else {
        inits_supported(s.drop_last()) && init_supported(s.last())
    }
}

pub open spec fn declarator_supported(d: InitDeclarator) -> bool
    decreases d,
{
    &&& d.kind is Identifier
    &&& match d.initializer {
        Some(i) => init_supported(i),
        None => true,
    }
}

pub open spec fn declarators_supported(s: Seq<InitDeclarator>) -> bool
    decreases s,
{
    if s.len() == 0 {
        true
    } else {
        declarators_supported(s.drop_last()) && declarator_supported(s.last())
    }
}

pub open spec fn decl_supported(d: Declaration) -> bool
    decreases d,
{
    declarators_supported(d.declarators@)
}

pub open spec fn label_supported(l: LabeledStatement) -> bool
    decreases l,
{
    &&& match l.label {
        Label::Case(e) => expr_supported(*e),
        Label::CaseRange => false,
        _ => true,
    }
    &&& stmt_supported(*l.statement)
}

pub open spec fn item_supported(b: BlockItem) -> bool
    decreases b,
{
    match b {
        BlockItem::Declaration(d) => decl_supported(d),
        BlockItem::StaticAssert => false,
        BlockItem::Statement(s) => stmt_supported(s),
    }
}

pub open spec fn items_supported(s: Seq<BlockItem>) -> bool
    decreases s,
{
    if s.len() == 0 {
        true
    } else {
        items_supported(s.drop_last()) && item_supported(s.last())
    }
}

pub open spec fn for_init_supported(f: ForInitializer) -> bool
    decreases f,
{
    match f {
        ForInitializer::Empty => true,
        ForInitializer::Expression(e) => expr_supported(*e),
        ForInitializer::Declaration(d) => decl_supported(d),
        ForInitializer::StaticAssert => false,
    }
}

/// Whether the transpiler handles every node of `s` that it visits.
pub open spec fn stmt_supported(s: Statement) -> bool
    decreases s,
{
    match s {
        Statement::Labeled(l) => label_supported(l),
        Statement::Compound(v) => items_supported(v@),
        Statement::Expression(e) => opt_expr_supported(e),
        Statement::If { condition, then_statement, else_statement } => {
            &&& expr_supported(*condition)
            &&& stmt_supported(*then_statement)
            &&& match else_statement {
                Some(b) => stmt_supported(*b),
                None => true,
            }
        },
        Statement::Switch { expression, statement } => expr_supported(*expression)
            && stmt_supported(*statement),
        Statement::While { expression, statement } => expr_supported(*expression)
            && stmt_supported(*statement),
        Statement::DoWhile { statement, expression } => expr_supported(*expression)
            && stmt_supported(*statement),
        Statement::For { initializer, condition, step, statement } => {
            &&& for_init_supported(initializer)
            &&& opt_expr_supported(condition)
            &&& opt_expr_supported(step)
            &&& stmt_supported(*statement)
        },
        Statement::Goto(_) => true,
        Statement::Continue => true,
        Statement::Break => true,
        Statement::Return(e) => opt_expr_supported(e),
        Statement::Asm => true,
    }
}

/// The bodies of the function definitions of `decls`, in order.
pub open spec fn function_bodies(decls: Seq<ExternalDeclaration>) -> Seq<Statement>
    decreases decls.len(),
{
    if decls.len() == 0 {
        Seq::empty()
    } else {
        let rest = function_bodies(decls.drop_last());
        match decls.last() {
            ExternalDeclaration::FunctionDefinition(s) => rest.push(s),
            _ => rest,
        }
    }
}

/// Whether the transpiler handles every function body of `unit`.
pub open spec fn unit_supported(unit: TranslationUnit) -> bool {
    forall|i: int|
        0 <= i < function_bodies(unit.0@).len() ==> #[trigger] stmt_supported(
            function_bodies(unit.0@)[i],
        )
}

// ---------------------------------------------------------------------------
// A supported list has supported elements
// ---------------------------------------------------------------------------

pub proof fn lemma_exprs_supported_at(s: Seq<Expression>, i: int)
    requires
        exprs_supported(s),
        0 <= i < s.len(),
    ensures
        expr_supported(s[i]),
    decreases s.len(),
{
    if i < s.len() - 1 {
        lemma_exprs_supported_at(s.drop_last(), i);
    }
}

pub proof fn lemma_items_supported_at(s: Seq<BlockItem>, i: int)
    requires
        items_supported(s),
        0 <= i < s.len(),
    ensures
        item_supported(s[i]),
    decreases s.len(),
{
    if i < s.len() - 1 {
        lemma_items_supported_at(s.drop_last(), i);
    }
}

pub proof fn lemma_inits_supported_at(s: Seq<Initializer>, i: int)
    requires
        inits_supported(s),
        0 <= i < s.len(),
    ensures
        init_supported(s[i]),
    decreases s.len(),
{
    if i < s.len() - 1 {
        lemma_inits_supported_at(s.drop_last(), i);
    }
}

pub proof fn lemma_declarators_supported_at(s: Seq<InitDeclarator>, i: int)
    requires
        declarators_supported(s),
        0 <= i < s.len(),
    ensures
        declarator_supported(s[i]),
    decreases s.len(),
{
    if i < s.len() - 1 {
        lemma_declarators_supported_at(s.drop_last(), i);
    }
}

// ---------------------------------------------------------------------------
// Checking support before transpiling
// ---------------------------------------------------------------------------

fn check_constant(c: &Constant) -> (b: bool)
    ensures
        b == constant_supported(*c),
{
    match c {
        Constant::Float { base, .. } => *base == FloatBase::Decimal,
        _ => true,
    }
}

fn check_opt_expr(e: &Option<Box<Expression>>) -> (b: bool)
    ensures
        b == opt_expr_supported(*e),
    decreases e, 1int,
{
    match e {
        Some(x) => check_expr(x),
        None => true,
    }
}

fn check_expr(e: &Expression) -> (b: bool)
    ensures
        b == expr_supported(*e),
    decreases e, 1int,
{
    match e {
        Expression::Identifier(_) => true,
        Expression::Constant(c) => check_constant(c),
        Expression::StringLiteral(_) => true,
        Expression::GenericSelection => false,
        Expression::Member { expression, .. } => check_expr(expression),
        Expression::Call => true,
        Expression::CompoundLiteral => false,
        Expression::SizeOfTy => true,
        Expression::SizeOfVal => true,
        Expression::AlignOf => false,
        Expression::UnaryOperator { operand, .. } => check_expr(operand),
        Expression::Cast { expression } => check_expr(expression),
        Expression::BinaryOperator { lhs, rhs, .. } => check_expr(lhs) && check_expr(rhs),
        Expression::Conditional { condition, then_expression, else_expression } => {
            check_expr(condition) && check_expr(then_expression) && check_expr(else_expression)
        },
        Expression::Comma(_) => check_comma(e),
        Expression::OffsetOf => false,
        Expression::VaArg => false,
        Expression::Statement(s) => is_supported(s),
    }
}

fn check_comma(e: &Expression) -> (b: bool)
    requires
        e is Comma,
    ensures
        b == expr_supported(*e),
    decreases e, 0int,
{
    match e {
        Expression::Comma(v) => {
            let mut i: usize = 0;
            while i < v.len()
                invariant
                    *e == Expression::Comma(*v),
                    i <= v@.len(),
                    exprs_supported(v@.take(i as int)),
                decreases v@.len() - i,
            {
                assert(v@.take(i + 1).drop_last() =~= v@.take(i as int));
                assert(decreases_to!(*e => (*e)->Comma_0));
                assert(decreases_to!(*v => v@));
                assert(decreases_to!(v@ => v@[i as int]));
                if !check_expr(&v[i]) {
                    proof {
                        lemma_exprs_supported_prefix(v@, i as int + 1);
                    }
                    return false;
                }
                i = i + 1;
            }
            assert(v@.take(v@.len() as int) =~= v@);
            true
        },
        _ => false,
    }
}

fn check_init(x: &Initializer) -> (b: bool)
    ensures
        b == init_supported(*x),
    decreases x, 1int,
{
    match x {
        Initializer::Expression(e) => check_expr(e),
        Initializer::List(v) => {
            let mut i: usize = 0;
            while i < v.len()
                invariant
                    *x == Initializer::List(*v),
                    i <= v@.len(),
                    inits_supported(v@.take(i as int)),
                decreases v@.len() - i,
            {
                assert(v@.take(i + 1).drop_last() =~= v@.take(i as int));
                assert(decreases_to!(*x => (*x)->List_0));
                assert(decreases_to!(*v => v@));
                assert(decreases_to!(v@ => v@[i as int]));
                if !check_init(&v[i]) {
                    proof {
                        lemma_inits_supported_prefix(v@, i as int + 1);
                    }
                    return false;
                }
                i = i + 1;
            }
            assert(v@.take(v@.len() as int) =~= v@);
            true
        },
    }
}

fn check_decl(d: &Declaration) -> (b: bool)
    ensures
        b == decl_supported(*d),
    decreases d, 1int,
{
    let mut i: usize = 0;
    while i < d.declarators.len()
        invariant
            i <= d.declarators@.len(),
            declarators_supported(d.declarators@.take(i as int)),
        decreases d.declarators@.len() - i,
    {
        assert(d.declarators@.take(i + 1).drop_last() =~= d.declarators@.take(i as int));
        let x = &d.declarators[i];
        let ok = match &x.kind {
            DeclaratorKind::Identifier(_) => match &x.initializer {
                Some(init) => check_init(init),
                None => true,
            },
            _ => false,
        };
        assert(ok == declarator_supported(*x));
        if !ok {
            proof {
                lemma_declarators_supported_prefix(d.declarators@, i as int + 1);
            }
            return false;
        }
        i = i + 1;
    }
    assert(d.declarators@.take(d.declarators@.len() as int) =~= d.declarators@);
    true
}

fn check_item(x: &BlockItem) -> (b: bool)
    ensures
        b == item_supported(*x),
    decreases x, 1int,
{
    match x {
        BlockItem::Declaration(d) => check_decl(d),
        BlockItem::StaticAssert => false,
        BlockItem::Statement(s) => is_supported(s),
    }
}

fn check_compound(s: &Statement) -> (b: bool)
    requires
        s is Compound,
    ensures
        b == stmt_supported(*s),
    decreases s, 0int,
{
    match s {
        Statement::Compound(v) => {
            let mut i: usize = 0;
            while i < v.len()
                invariant
                    *s == Statement::Compound(*v),
                    i <= v@.len(),
                    items_supported(v@.take(i as int)),
                decreases v@.len() - i,
            {
                assert(v@.take(i + 1).drop_last() =~= v@.take(i as int));
                assert(decreases_to!(*s => (*s)->Compound_0));
                assert(decreases_to!(*v => v@));
                assert(decreases_to!(v@ => v@[i as int]));
                if !check_item(&v[i]) {
                    proof {
                        lemma_items_supported_prefix(v@, i as int + 1);
                    }
                    return false;
                }
                i = i + 1;
            }
            assert(v@.take(v@.len() as int) =~= v@);
            true
        },
        _ => false,
    }
}

fn check_for_init(f: &ForInitializer) -> (b: bool)
    ensures
        b == for_init_supported(*f),
    decreases f, 1int,
{
    match f {
        ForInitializer::Empty => true,
        ForInitializer::Expression(e) => check_expr(e),
        ForInitializer::Declaration(d) => check_decl(d),
        ForInitializer::StaticAssert => false,
    }
}

/// Whether the transpiler handles every node of `s` that it visits.
pub fn is_supported(s: &Statement) -> (b: bool)
    ensures
        b == stmt_supported(*s),
    decreases s, 1int,
{
    match s {
        Statement::Labeled(l) => {
            let label_ok = match &l.label {
                Label::Case(e) => check_expr(e),
                Label::CaseRange => false,
                _ => true,
            };
            let r = label_ok && is_supported(&l.statement);
            assert(r == label_supported(*l));
            r
        },
        Statement::Compound(_) => check_compound(s),
        Statement::Expression(e) => check_opt_expr(e),
        Statement::If { condition, then_statement, else_statement } => {
            let else_ok = match else_statement {
                Some(b) => is_supported(b),
                None => true,
            };
            check_expr(condition) && is_supported(then_statement) && else_ok
        },
        Statement::Switch { expression, statement } => check_expr(expression) && is_supported(
            statement,
        ),
        Statement::While { expression, statement } => check_expr(expression) && is_supported(
            statement,
        ),
        Statement::DoWhile { statement, expression } => check_expr(expression) && is_supported(
            statement,
        ),
        Statement::For { initializer, condition, step, statement } => {
            check_for_init(initializer) && check_opt_expr(condition) && check_opt_expr(step)
                && is_supported(statement)
        },
        Statement::Goto(_) => true,
        Statement::Continue => true,
        Statement::Break => true,
        Statement::Return(e) => check_opt_expr(e),
        Statement::Asm => true,
    }
}

/// Whether the transpiler handles every function body of `unit`.
pub fn is_unit_supported(unit: &TranslationUnit) -> (b: bool)
    ensures
        b == unit_supported(*unit),
{
    let decls = &unit.0;
    let mut i: usize = 0;
    while i < decls.len()
        invariant
            i <= decls@.len(),
            *decls == unit.0,
            forall|j: int|
                0 <= j < function_bodies(decls@.take(i as int)).len() ==> #[trigger] stmt_supported(
                    function_bodies(decls@.take(i as int))[j],
                ),
        decreases decls@.len() - i,
    {
        assert(decls@.take(i + 1).drop_last() =~= decls@.take(i as int));
        match &decls[i] {
            ExternalDeclaration::FunctionDefinition(body) => {
                if !is_supported(body) {
                    proof {
                        lemma_function_bodies_prefix(decls@, i as int + 1);
                        let k = function_bodies(decls@.take(i as int)).len() as int;
                        assert(function_bodies(decls@.take(i + 1))[k] == *body);
                        assert(function_bodies(decls@)[k] == *body);
                    }
                    return false;
                }
            },
            _ => {},
        }
        i = i + 1;
    }
    assert(decls@.take(decls@.len() as int) =~= decls@);
    true
}

/// The bodies of a prefix of the declarations start the bodies of all of them.
pub proof fn lemma_function_bodies_prefix(s: Seq<ExternalDeclaration>, k: int)
    requires
        0 <= k <= s.len(),
    ensures
        function_bodies(s.take(k)).len() <= function_bodies(s).len(),
        forall|j: int|
            0 <= j < function_bodies(s.take(k)).len() ==> #[trigger] function_bodies(s.take(k))[j]
                == function_bodies(s)[j],
    decreases s.len(),
{
    if k < s.len() {
        assert(s.drop_last().take(k) =~= s.take(k));
        lemma_function_bodies_prefix(s.drop_last(), k);
    } else {
        assert(s.take(k) =~= s);
    }
}

proof fn lemma_exprs_supported_prefix(s: Seq<Expression>, k: int)
    requires
        0 < k <= s.len(),
        !expr_supported(s[k - 1]),
    ensures
        !exprs_supported(s),
    decreases s.len(),
{
    if k < s.len() {
        assert(s.drop_last()[k - 1] == s[k - 1]);
        lemma_exprs_supported_prefix(s.drop_last(), k);
    }
}

proof fn lemma_items_supported_prefix(s: Seq<BlockItem>, k: int)
    requires
        0 < k <= s.len(),
        !item_supported(s[k - 1]),
    ensures
        !items_supported(s),
    decreases s.len(),
{
    if k < s.len() {
        assert(s.drop_last()[k - 1] == s[k - 1]);
        lemma_items_supported_prefix(s.drop_last(), k);
    }
}

proof fn lemma_inits_supported_prefix(s: Seq<Initializer>, k: int)
    requires
        0 < k <= s.len(),
        !init_supported(s[k - 1]),
    ensures
        !inits_supported(s),
    decreases s.len(),
{
    if k < s.len() {
        assert(s.drop_last()[k - 1] == s[k - 1]);
        lemma_inits_supported_prefix(s.drop_last(), k);
    }
}

proof fn lemma_declarators_supported_prefix(s: Seq<InitDeclarator>, k: int)
    requires
        0 < k <= s.len(),
        !declarator_supported(s[k - 1]),
    ensures
        !declarators_supported(s),
    decreases s.len(),
{
    if k < s.len() {
        assert(s.drop_last()[k - 1] == s[k - 1]);
        lemma_declarators_supported_prefix(s.drop_last(), k);
    }
}

} // verus!
