//! The syntax tree: expressions, statements and top-level items, each with
//! its mathematical value.

use vstd::prelude::*;

verus! {

/// A declared type.
#[derive(Debug, Clone, Copy, PartialEq, Eq)]
pub enum DataType {
    Int,
    Float,
    Double,
    Txt,
    Bool,
    Auto,
}

impl DataType {
    /// The name of the type in emitted code. `Auto` is written as the integer
    /// type.
    pub open spec fn rust_name(self) -> Seq<char> {
        match self {
            DataType::Int => "i32"@,
            DataType::Float => "f32"@,
            DataType::Double => "f64"@,
            DataType::Txt => "String"@,
            DataType::Bool => "bool"@,
            DataType::Auto => "i32"@,
        }
    }

    /// The name of the type in emitted code.
    pub fn to_rust(&self) -> (r: &'static str)
        ensures
            r@ == self.rust_name(),
    {
        match self {
            DataType::Int => "i32",
            DataType::Float => "f32",
            DataType::Double => "f64",
            DataType::Txt => "String",
            DataType::Bool => "bool",
            DataType::Auto => "i32",
        }
    }
}

/// An expression. A string literal is held with its double quotes, a numeric
/// literal as written.
#[derive(Debug)]
pub enum Expr {
    Literal(String),
    Identifier(String),
    BinaryOp { left: Box<Expr>, op: String, right: Box<Expr> },
    FunctionCall { name: String, args: Vec<Expr> },
}

/// A statement.
#[derive(Debug)]
pub enum Statement {
    VarDecl { name: String, var_type: DataType, value: Option<Expr>, is_public: bool },
    Return(Option<Expr>),
    If { condition: Expr, body: Vec<Statement>, else_body: Option<Vec<Statement>> },
    While { condition: Expr, body: Vec<Statement> },
    For { var: String, start: Expr, end: Expr, body: Vec<Statement> },
    ExprStmt(Expr),
    Try { body: Vec<Statement>, catch_body: Vec<Statement> },
}

/// A function declaration.
#[derive(Debug, Clone)]
pub struct FunctionDef {
    pub name: String,
    pub params: Vec<(String, DataType)>,
    pub return_type: DataType,
    pub body: Vec<Statement>,
    pub is_public: bool,
}

/// A route declaration: a path, an HTTP method and the handler's body.
#[derive(Debug, Clone)]
pub struct RouteDef {
    pub path: String,
    pub method: String,
    pub body: Vec<Statement>,
}

/// A top-level item of a program.
#[derive(Debug, Clone)]
pub enum TopLevel {
    Function(FunctionDef),
    Route(RouteDef),
    Statement(Statement),
    Import { module: String, from: String },
}

/// The mathematical value of an [`Expr`].
pub enum ExprModel {
    Literal(Seq<char>),
    Identifier(Seq<char>),
    BinaryOp { left: Box<ExprModel>, op: Seq<char>, right: Box<ExprModel> },
    FunctionCall { name: Seq<char>, args: Seq<ExprModel> },
}

/// The mathematical value of a [`Statement`].
pub enum StatementModel {
    VarDecl { name: Seq<char>, var_type: DataType, value: Option<ExprModel>, is_public: bool },
    Return(Option<ExprModel>),
    If { condition: ExprModel, body: Seq<StatementModel>, else_body: Option<Seq<StatementModel>> },
    While { condition: ExprModel, body: Seq<StatementModel> },
    For { var: Seq<char>, start: ExprModel, end: ExprModel, body: Seq<StatementModel> },
    ExprStmt(ExprModel),
    Try { body: Seq<StatementModel>, catch_body: Seq<StatementModel> },
}

/// The mathematical value of a [`FunctionDef`].
pub struct FunctionModel {
    pub name: Seq<char>,
    pub params: Seq<(Seq<char>, DataType)>,
    pub return_type: DataType,
    pub body: Seq<StatementModel>,
    pub is_public: bool,
}

/// The mathematical value of a [`RouteDef`].
pub struct RouteModel {
    pub path: Seq<char>,
    pub method: Seq<char>,
    pub body: Seq<StatementModel>,
}

/// The mathematical value of a [`TopLevel`].
pub enum TopLevelModel {
    Function(FunctionModel),
    Route(RouteModel),
    Statement(StatementModel),
    Import { module: Seq<char>, from: Seq<char> },
}

/// The values of a sequence, element by element.
pub open spec fn models<T: View>(s: Seq<T>) -> Seq<T::V> {
    s.map_values(|x: T| x@)
}

/// The values of a parameter list.
pub open spec fn param_models(s: Seq<(String, DataType)>) -> Seq<(Seq<char>, DataType)> {
    s.map_values(|p: (String, DataType)| (p.0@, p.1))
}

/// The value of an expression.
pub open spec fn expr_model(e: Expr) -> ExprModel
    decreases e,
{
    match e {
        Expr::Literal(s) => ExprModel::Literal(s@),
        Expr::Identifier(s) => ExprModel::Identifier(s@),
        Expr::BinaryOp { left, op, right } => ExprModel::BinaryOp {
            left: Box::new(expr_model(*left)),
            op: op@,
            right: Box::new(expr_model(*right)),
        },
        Expr::FunctionCall { name, args } => ExprModel::FunctionCall {
            name: name@,
            args: Seq::new(
                args@.len(),
                |i: int|
                    if 0 <= i < args@.len() {
                        expr_model(args@[i])
                    } else {
                        arbitrary()
                    },
            ),
        },
    }
}

/// The value of an optional expression.
pub open spec fn optional_expr_model(e: Option<Expr>) -> Option<ExprModel> {
    match e {
        Some(e) => Some(expr_model(e)),
        None => None,
    }
}

/// The value of a statement.
pub open spec fn statement_model(s: Statement) -> StatementModel
    decreases s,
{
    match s {
        Statement::VarDecl { name, var_type, value, is_public } => StatementModel::VarDecl {
            name: name@,
            var_type,
            value: optional_expr_model(value),
            is_public,
        },
        Statement::Return(value) => StatementModel::Return(optional_expr_model(value)),
        Statement::If { condition, body, else_body } => StatementModel::If {
            condition: expr_model(condition),
            body: Seq::new(
                body@.len(),
                |i: int|
                    if 0 <= i < body@.len() {
                        statement_model(body@[i])
                    } else {
                        arbitrary()
                    },
            ),
            else_body: match else_body {
                Some(other) => Some(
                    Seq::new(
                        other@.len(),
                        |i: int|
                            if 0 <= i < other@.len() {
                                statement_model(other@[i])
                            } else {
                                arbitrary()
                            },
                    ),
                ),
                None => None,
            },
        },
        Statement::While { condition, body } => StatementModel::While {
            condition: expr_model(condition),
            body: Seq::new(
                body@.len(),
                |i: int|
                    if 0 <= i < body@.len() {
                        statement_model(body@[i])
                    } else {
                        arbitrary()
                    },
            ),
        },
        Statement::For { var, start, end, body } => StatementModel::For {
            var: var@,
            start: expr_model(start),
            end: expr_model(end),
            body: Seq::new(
                body@.len(),
                |i: int|
                    if 0 <= i < body@.len() {
                        statement_model(body@[i])
                    } else {
                        arbitrary()
                    },
            ),
        },
        Statement::ExprStmt(e) => StatementModel::ExprStmt(expr_model(e)),
        Statement::Try { body, catch_body } => StatementModel::Try {
            body: Seq::new(
                body@.len(),
                |i: int|
                    if 0 <= i < body@.len() {
                        statement_model(body@[i])
                    } else {
                        arbitrary()
                    },
            ),
            catch_body: Seq::new(
                catch_body@.len(),
                |i: int|
                    if 0 <= i < catch_body@.len() {
                        statement_model(catch_body@[i])
                    } else {
                        arbitrary()
                    },
            ),
        },
    }
}

impl View for Expr {
    type V = ExprModel;

    open spec fn view(&self) -> ExprModel {
        expr_model(*self)
    }
}

impl View for Statement {
    type V = StatementModel;

    open spec fn view(&self) -> StatementModel {
        statement_model(*self)
    }
}

impl View for FunctionDef {
    type V = FunctionModel;

    open spec fn view(&self) -> FunctionModel {
        FunctionModel {
            name: self.name@,
            params: param_models(self.params@),
            return_type: self.return_type,
            body: models(self.body@),
            is_public: self.is_public,
        }
    }
}

impl View for RouteDef {
    type V = RouteModel;

    open spec fn view(&self) -> RouteModel {
        RouteModel { path: self.path@, method: self.method@, body: models(self.body@) }
    }
}

impl View for TopLevel {
    type V = TopLevelModel;

    open spec fn view(&self) -> TopLevelModel {
        match self {
            TopLevel::Function(f) => TopLevelModel::Function(f@),
            TopLevel::Route(r) => TopLevelModel::Route(r@),
            TopLevel::Statement(s) => TopLevelModel::Statement(s@),
            TopLevel::Import { module, from } => TopLevelModel::Import {
                module: module@,
                from: from@,
            },
        }
    }
}

impl Clone for Expr {
    fn clone(&self) -> (r: Expr)
        ensures
            r@ == self@,
        decreases self,
    {
        match self {
            Expr::Literal(s) => Expr::Literal(s.clone()),
            Expr::Identifier(s) => Expr::Identifier(s.clone()),
            Expr::BinaryOp { left, op, right } => Expr::BinaryOp {
                left: Box::new((**left).clone()),
                op: op.clone(),
                right: Box::new((**right).clone()),
            },
            Expr::FunctionCall { name, args } => {
                let copy = clone_arguments(args);
                proof {
                    lemma_call_model(*name, *args);
                    lemma_call_model(*name, copy);
                }
                Expr::FunctionCall { name: name.clone(), args: copy }
            },
        }
    }
}

/// A copy of an argument list, expression by expression.
fn clone_arguments(args: &Vec<Expr>) -> (copy: Vec<Expr>)
    ensures
        models(copy@) == models(args@),
    decreases args,
{
    let mut copy: Vec<Expr> = Vec::new();
    let mut i: usize = 0;
    while i < args.len()
        invariant
            i <= args.len(),
            models(copy@) == models(args@.take(i as int)),
        decreases args.len() - i,
    {
        let ghost before = copy@;
        copy.push(args[i].clone());
        proof {
            assert(args@.take(i as int + 1) =~= args@.take(i as int).push(args@[i as int]));
            assert(models(copy@) =~= models(before).push(args@[i as int]@));
            assert(models(copy@) =~= models(args@.take(i as int + 1)));
        }
        i += 1;
    }
    proof {
        assert(args@.take(i as int) =~= args@);
    }
    copy
}

/// A copy of a block, statement by statement.
fn clone_block(block: &Vec<Statement>) -> (copy: Vec<Statement>)
    ensures
        models(copy@) == models(block@),
    decreases block,
{
    let mut copy: Vec<Statement> = Vec::new();
    let mut i: usize = 0;
    while i < block.len()
        invariant
            i <= block.len(),
            models(copy@) == models(block@.take(i as int)),
        decreases block.len() - i,
    {
        let ghost before = copy@;
        copy.push(block[i].clone());
        proof {
            assert(block@.take(i as int + 1) =~= block@.take(i as int).push(block@[i as int]));
            assert(models(copy@) =~= models(before).push(block@[i as int]@));
            assert(models(copy@) =~= models(block@.take(i as int + 1)));
        }
        i += 1;
    }
    proof {
        assert(block@.take(i as int) =~= block@);
    }
    copy
}

/// A copy of an optional expression.
fn clone_optional(value: &Option<Expr>) -> (copy: Option<Expr>)
    ensures
        optional_expr_model(copy) == optional_expr_model(*value),
{
    match value {
        Some(e) => Some(e.clone()),
        None => None,
    }
}

impl Clone for Statement {
    fn clone(&self) -> (r: Statement)
        ensures
            r@ == self@,
        decreases self,
    {
        let r = match self {
            Statement::VarDecl { name, var_type, value, is_public } => Statement::VarDecl {
                name: name.clone(),
                var_type: *var_type,
                value: clone_optional(value),
                is_public: *is_public,
            },
            Statement::Return(value) => Statement::Return(clone_optional(value)),
            Statement::If { condition, body, else_body } => Statement::If {
                condition: condition.clone(),
                body: clone_block(body),
                else_body: match else_body {
                    Some(other) => Some(clone_block(other)),
                    None => None,
                },
            },
            Statement::While { condition, body } => Statement::While {
                condition: condition.clone(),
                body: clone_block(body),
            },
            Statement::For { var, start, end, body } => Statement::For {
                var: var.clone(),
                start: start.clone(),
                end: end.clone(),
                body: clone_block(body),
            },
            Statement::ExprStmt(e) => Statement::ExprStmt(e.clone()),
            Statement::Try { body, catch_body } => Statement::Try {
                body: clone_block(body),
                catch_body: clone_block(catch_body),
            },
        };
        proof {
            lemma_statement_model(*self);
            lemma_statement_model(r);
        }
        r
    }
}

/// The value of a call is the callee's name with the values of the arguments.
pub proof fn lemma_call_model(name: String, args: Vec<Expr>)
    ensures
        (Expr::FunctionCall { name, args })@ == (ExprModel::FunctionCall {
            name: name@,
            args: models(args@),
        }),
{
    let e = Expr::FunctionCall { name, args };
    assert(e@->args =~= models(args@));
}

/// The value of a statement that holds blocks is built from the values of the
/// statements in them.
pub proof fn lemma_statement_model(s: Statement)
    ensures
        s matches Statement::If { condition, body, else_body } ==> s@ == (StatementModel::If {
            condition: condition@,
            body: models(body@),
            else_body: match else_body {
                Some(other) => Some(models(other@)),
                None => None,
            },
        }),
        s matches Statement::While { condition, body } ==> s@ == (StatementModel::While {
            condition: condition@,
            body: models(body@),
        }),
        s matches Statement::For { var, start, end, body } ==> s@ == (StatementModel::For {
            var: var@,
            start: start@,
            end: end@,
            body: models(body@),
        }),
        s matches Statement::Try { body, catch_body } ==> s@ == (StatementModel::Try {
            body: models(body@),
            catch_body: models(catch_body@),
        }),
{
    match s {
        Statement::If { condition, body, else_body } => {
            assert(s@->If_body =~= models(body@));
            match else_body {
                Some(other) => {
                    assert(s@->If_else_body->0 =~= models(other@));
                },
                None => {},
            }
        },
        Statement::While { condition, body } => {
            assert(s@->While_body =~= models(body@));
        },
        Statement::For { var, start, end, body } => {
            assert(s@->For_body =~= models(body@));
        },
        Statement::Try { body, catch_body } => {
            assert(s@->Try_body =~= models(body@));
            assert(s@->catch_body =~= models(catch_body@));
        },
        _ => {},
    }
}

} // verus!
