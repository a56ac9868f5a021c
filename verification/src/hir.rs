//! The high-level intermediate representation (HIR) that the passes of this
//! crate read and rewrite.
//!
//! Every type here is plain data. Its mathematical counterpart, over which all
//! contracts are stated, is in [`crate::model`]; `view` maps one to the other.

use vstd::prelude::*;

verus! {

/// Identifies a local variable. Local ids are unique across a module.
pub type LocalId = u32;

/// Identifies a function of a module.
pub type FuncId = u32;

/// Identifies a module-level variable.
pub type GlobalId = u32;

/// A double-precision number: its IEEE 754 bit pattern, and the decimal text
/// that displays it when it is not a small whole number.
#[derive(Debug)]
pub struct Num {
    pub bits: u64,
    pub text: String,
}

/// A static type. Only class types matter to the passes.
#[derive(Debug)]
pub enum Type {
    Any,
    /// A class or interface, by name.
    Named(String),
    /// Any other type, as written.
    Other(String),
}

#[derive(Clone, Copy, PartialEq, Eq, Structural, Debug)]
pub enum BinaryOp {
    Add,
    Sub,
    Mul,
    Div,
    Mod,
    Pow,
    BitAnd,
    BitOr,
    BitXor,
    Shl,
    Shr,
    UShr,
}

#[derive(Clone, Copy, PartialEq, Eq, Structural, Debug)]
pub enum LogicalOp {
    And,
    Or,
    Coalesce,
}

#[derive(Clone, Copy, PartialEq, Eq, Structural, Debug)]
pub enum CompareOp {
    Eq,
    Ne,
    LooseEq,
    LooseNe,
    Lt,
    Le,
    Gt,
    Ge,
}

#[derive(Clone, Copy, PartialEq, Eq, Structural, Debug)]
pub enum UnaryOp {
    Neg,
    Pos,
    Not,
    BitNot,
}

#[derive(Clone, Copy, PartialEq, Eq, Structural, Debug)]
pub enum UpdateOp {
    Increment,
    Decrement,
}

/// Operations on a collection held in a local variable. The operands are the
/// remaining sub-expressions in source order.
#[derive(Clone, Copy, PartialEq, Eq, Structural, Debug)]
pub enum LocalOp {
    ArrayPush,
    ArrayPushSpread,
    ArrayPop,
    ArrayShift,
    ArrayUnshift,
    ArraySplice,
    ArrayCopyWithin,
    SetAdd,
}

/// Built-in operations whose operands are ordinary sub-expressions, in source
/// order; an omitted optional operand is absent from the list.
#[derive(Clone, Copy, PartialEq, Eq, Structural, Debug)]
pub enum IntrinsicOp {
    TypeOf,
    Void,
    Yield,
    Await,
    MathFloor,
    MathCeil,
    MathRound,
    MathAbs,
    MathSqrt,
    MathLog,
    MathLog2,
    MathLog10,
    MathPow,
    MathImul,
    MathMin,
    MathMax,
    MathMinSpread,
    MathMaxSpread,
    ArrayIndexOf,
    ArrayIncludes,
    ArrayFilter,
    ArrayForEach,
    ArrayFind,
    ArrayFindIndex,
    ArraySort,
    ArrayReduce,
    ArrayReduceRight,
    ArraySlice,
    ArrayJoin,
    ArrayFlat,
    ArrayFrom,
    ArrayFromMapped,
    ArrayToReversed,
    ArrayEntries,
    ArrayKeys,
    ArrayValues,
    ArrayToSorted,
    ArrayToSpliced,
    ArrayWith,
    StringSplit,
    Uint8ArrayGet,
    Uint8ArraySet,
    Uint8ArrayLength,
    Uint8ArrayNew,
    /// An operation that no pass singles out, by its code.
    Other(u32),
}

/// An element of an array literal or of an argument list with spreads.
#[derive(Debug)]
pub enum ArrayElement {
    Expr(Expr),
    Spread(Expr),
}

/// An argument of a call with spreads.
pub type CallArg = ArrayElement;

/// A formal parameter.
#[derive(Debug)]
pub struct Param {
    pub id: LocalId,
    pub name: String,
    pub ty: Type,
    pub default: Option<Expr>,
    pub is_rest: bool,
}

#[allow(inconsistent_fields)]
#[derive(Debug)]
pub enum Expr {
    Number(Num),
    Integer(i64),
    Bool(bool),
    String(String),
    /// A string that is not valid Unicode, as its encoded bytes.
    WtfString(Vec<u8>),
    Null,
    Undefined,
    This,
    LocalGet(LocalId),
    LocalSet(LocalId, Box<Expr>),
    GlobalGet(GlobalId),
    GlobalSet(GlobalId, Box<Expr>),
    FuncRef(FuncId),
    ExternFuncRef { name: String },
    Update { id: LocalId, op: UpdateOp, prefix: bool },
    Binary { op: BinaryOp, left: Box<Expr>, right: Box<Expr> },
    Logical { op: LogicalOp, left: Box<Expr>, right: Box<Expr> },
    Compare { op: CompareOp, left: Box<Expr>, right: Box<Expr> },
    Unary { op: UnaryOp, operand: Box<Expr> },
    Conditional { condition: Box<Expr>, then_expr: Box<Expr>, else_expr: Box<Expr> },
    Call { callee: Box<Expr>, args: Vec<Expr>, type_args: Vec<Type> },
    CallSpread { callee: Box<Expr>, args: Vec<CallArg> },
    NativeMethodCall {
        module: String,
        class_name: Option<String>,
        object: Option<Box<Expr>>,
        method: String,
        args: Vec<Expr>,
    },
    New { class_name: String, args: Vec<Expr> },
    NewDynamic { callee: Box<Expr>, args: Vec<Expr> },
    SuperCall(Vec<Expr>),
    SuperMethodCall { method: String, args: Vec<Expr> },
    PropertyGet { object: Box<Expr>, property: String },
    PropertySet { object: Box<Expr>, property: String, value: Box<Expr> },
    IndexGet { object: Box<Expr>, index: Box<Expr> },
    IndexSet { object: Box<Expr>, index: Box<Expr>, value: Box<Expr> },
    Array(Vec<Expr>),
    ArraySpread(Vec<ArrayElement>),
    Object(Vec<(String, Expr)>),
    /// Named parts are properties; an unnamed part is spread.
    ObjectSpread { parts: Vec<(Option<String>, Expr)> },
    ArrayMap { array: Box<Expr>, callback: Box<Expr> },
    Closure {
        func_id: FuncId,
        params: Vec<Param>,
        return_type: Type,
        body: Vec<Stmt>,
        captures: Vec<LocalId>,
        mutable_captures: Vec<LocalId>,
        captures_this: bool,
        enclosing_class: Option<String>,
        is_async: bool,
    },
    LocalCall { op: LocalOp, id: LocalId, args: Vec<Expr> },
    Intrinsic { op: IntrinsicOp, args: Vec<Expr> },
}

#[derive(Debug)]
pub struct CatchClause {
    pub param: Option<(LocalId, String)>,
    pub body: Vec<Stmt>,
}

#[derive(Debug)]
pub struct SwitchCase {
    pub test: Option<Expr>,
    pub body: Vec<Stmt>,
}

#[allow(inconsistent_fields)]
#[derive(Debug)]
pub enum Stmt {
    Let { id: LocalId, name: String, ty: Type, mutable: bool, init: Option<Expr> },
    Expr(Expr),
    Return(Option<Expr>),
    Throw(Expr),
    If { condition: Expr, then_branch: Vec<Stmt>, else_branch: Option<Vec<Stmt>> },
    While { condition: Expr, body: Vec<Stmt> },
    DoWhile { body: Vec<Stmt>, condition: Expr },
    For {
        init: Option<Box<Stmt>>,
        condition: Option<Expr>,
        update: Option<Expr>,
        body: Vec<Stmt>,
    },
    Labeled { label: String, body: Box<Stmt> },
    Try { body: Vec<Stmt>, catch: Option<CatchClause>, finally: Option<Vec<Stmt>> },
    Switch { discriminant: Expr, cases: Vec<SwitchCase> },
    Break,
    Continue,
    LabeledBreak(String),
    LabeledContinue(String),
}

#[derive(Debug)]
pub struct Function {
    pub id: FuncId,
    pub name: String,
    pub params: Vec<Param>,
    pub return_type: Type,
    pub body: Vec<Stmt>,
    pub is_async: bool,
    pub is_generator: bool,
    pub captures: Vec<LocalId>,
}

#[derive(Debug)]
pub struct ClassField {
    pub name: String,
    pub init: Option<Expr>,
}

#[derive(Debug)]
pub struct Class {
    pub name: String,
    /// The built-in class that this class extends, if any.
    pub native_extends: Option<String>,
    pub fields: Vec<ClassField>,
    pub constructor: Option<Function>,
    pub methods: Vec<Function>,
    pub getters: Vec<(String, Function)>,
    pub setters: Vec<(String, Function)>,
    pub static_methods: Vec<Function>,
}

#[derive(Debug)]
pub struct Module {
    pub name: String,
    pub classes: Vec<Class>,
    pub functions: Vec<Function>,
    pub init: Vec<Stmt>,
}

} // verus!
