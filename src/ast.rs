//! The syntax tree that the checker reads and rewrites.
use vstd::prelude::*;

verus! {

/// Start and end byte offsets of a node in its source text.
#[derive(Clone, Copy, Debug, PartialEq, Eq, Structural)]
pub struct Pos {
    pub start: usize,
    pub end: usize,
}

/// Expressions whose qualifier is that of their single inner expression.
#[derive(Clone, Copy, Debug, PartialEq, Eq, Structural)]
pub enum WrapKind {
    /// A calling-convention marker such as pass-by-reference.
    Callconv,
    /// A type assertion `e as T`.
    As,
    /// A typed placeholder around an expression.
    Hole,
    Await,
}

/// Collection literals.
#[derive(Clone, Copy, Debug, PartialEq, Eq, Structural)]
pub enum AggKind {
    Darray,
    Varray,
    Shape,
    ValCollection,
    KeyValCollection,
    Collection,
    Record,
    Tuple,
}

/// Expressions that always evaluate `Mutable` and may hold sub-expressions.
#[derive(Clone, Copy, Debug, PartialEq, Eq, Structural)]
pub enum OtherKind {
    New,
    Cast,
    Is,
    Clone,
    Unop,
    /// Any binary operator other than plain assignment.
    Binop,
    Yield,
    Pipe,
    String2,
    PrefixedString,
    Xml,
    ExpressionTree,
    ETSplice,
    Import,
    MethodId,
    MethodCaller,
    SmethodId,
    FunctionPointer,
    ClassGet,
    ClassConst,
}

/// Expressions without sub-expressions that always evaluate `Mutable`.
#[derive(Clone, Copy, Debug, PartialEq, Eq, Structural)]
pub enum LeafKind {
    Null,
    True,
    False,
    Omitted,
    Int,
    Float,
    String,
    Id,
    Dollardollar,
    Lplaceholder,
    EnumClassLabel,
    FunId,
}

/// Anonymous function forms.
#[derive(Clone, Copy, Debug, PartialEq, Eq, Structural)]
pub enum LambdaKind {
    Efun,
    Lfun,
}

/// An expression with its position.
#[derive(Debug)]
pub struct Expr {
    pub pos: Pos,
    pub kind: ExprKind,
}

/// One element of a collection literal; `key` is absent for plain values.
#[derive(Debug)]
pub struct Field {
    pub key: Option<Expr>,
    pub value: Expr,
}

#[derive(Debug)]
pub enum ExprKind {
    /// An explicit readonly marker around an expression.
    ReadonlyExpr(Box<Expr>),
    /// A local variable, named with its leading `$`.
    Lvar(String),
    This,
    /// Property access: receiver and member.
    ObjGet(Box<Expr>, Box<Expr>),
    /// Array-element access: base and optional index.
    ArrayGet(Box<Expr>, Option<Box<Expr>>),
    Wrap(WrapKind, Box<Expr>),
    Aggregate(AggKind, Vec<Field>),
    /// Conditional: condition, optional then-branch (absent in `a ?: b`), else-branch.
    Eif(Box<Expr>, Option<Box<Expr>>, Box<Expr>),
    Pair(Box<Expr>, Box<Expr>),
    /// A list-destructuring pattern.
    List(Vec<Expr>),
    /// A call: callee and arguments.
    Call(Box<Expr>, Vec<Expr>),
    /// Plain assignment `lhs = rhs`.
    Assign(Box<Expr>, Box<Expr>),
    Lambda(LambdaKind, Box<Fun>),
    Other(OtherKind, Vec<Expr>),
    /// A literal or a bare name, with its text.
    Leaf(LeafKind, String),
}

/// A statement with its position.
#[derive(Debug)]
pub struct Stmt {
    pub pos: Pos,
    pub kind: StmtKind,
}

#[derive(Debug)]
pub struct Catch {
    pub class: String,
    pub var: String,
    pub body: Vec<Stmt>,
}

#[derive(Debug)]
pub enum Case {
    Case(Expr, Vec<Stmt>),
    Default(Vec<Stmt>),
}

#[derive(Debug)]
pub enum StmtKind {
    Expr(Expr),
    Return(Option<Expr>),
    Throw(Expr),
    /// Condition, then-block, else-block.
    If(Expr, Vec<Stmt>, Vec<Stmt>),
    /// Try block, catch clauses, finally block.
    Try(Vec<Stmt>, Vec<Catch>, Vec<Stmt>),
    Switch(Expr, Vec<Case>),
    While(Expr, Vec<Stmt>),
    DoWhile(Vec<Stmt>, Expr),
    /// Initialisers, conditions, increments, body.
    For(Vec<Expr>, Vec<Expr>, Vec<Expr>, Vec<Stmt>),
    /// Collection, binding pattern, body.
    Foreach(Expr, Expr, Vec<Stmt>),
    Block(Vec<Stmt>),
    Break,
    Continue,
    Noop,
}

#[derive(Clone, Debug)]
pub struct Param {
    pub name: String,
    pub readonly: bool,
}

/// A function, method or anonymous function.
#[derive(Debug)]
pub struct Fun {
    pub name: String,
    pub params: Vec<Param>,
    /// Declared to return readonly.
    pub readonly_ret: bool,
    /// Declared with a readonly `$this`.
    pub readonly_this: bool,
    pub body: Vec<Stmt>,
}

#[derive(Debug)]
pub struct Class {
    pub name: String,
    pub methods: Vec<Fun>,
}

/// A top-level item of a program.
#[derive(Debug)]
pub enum Def {
    Fun(Fun),
    Class(Class),
    Stmt(Stmt),
}

/// What a diagnostic reports.
#[derive(Clone, Copy, Debug, PartialEq, Eq, Structural)]
pub enum DiagKind {
    /// A member written through a readonly receiver.
    AssignmentToReadonly,
    /// A readonly value stored into a mutable container.
    AssignReadonlyToMutableCollection,
    /// A readonly value returned where a mutable one is declared.
    InvalidReadonly,
}

/// A diagnostic at a span of the source.
#[derive(Clone, Copy, Debug, PartialEq, Eq, Structural)]
pub struct Diag {
    pub start: usize,
    pub end: usize,
    pub kind: DiagKind,
}

impl DiagKind {
    /// The free-text reason carried by a return-qualifier mismatch.
    pub fn reason(&self) -> (r: Option<&'static str>)
        ensures
            r is Some <==> *self == DiagKind::InvalidReadonly,
            r is Some ==> r->Some_0@
                == "this function does not return readonly. Please mark it to return readonly if needed."@,
    {
        proof {
            reveal_strlit(
                "this function does not return readonly. Please mark it to return readonly if needed.",
            );
        }
        match self {
            DiagKind::InvalidReadonly => Some(
                "this function does not return readonly. Please mark it to return readonly if needed.",
            ),
            _ => None,
        }
    }
}

} // verus!
