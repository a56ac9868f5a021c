//! The mathematical model of the HIR: the same trees over `Seq`, so that two
//! trees with equal contents are equal, and the views that lead to it.

use crate::hir::{
    ArrayElement, BinaryOp, CatchClause, Class, ClassField, CompareOp, Expr, FuncId, Function,
    GlobalId, IntrinsicOp, LocalId, LocalOp, LogicalOp, Module, Num, Param, Stmt, SwitchCase, Type,
    UnaryOp, UpdateOp,
};
use vstd::prelude::*;

verus! {

pub struct NumView {
    pub bits: u64,
    pub text: Seq<char>,
}

#[allow(inconsistent_fields)]
pub enum TypeView {
    Any,
    Named(Seq<char>),
    Other(Seq<char>),
}

pub enum ElementView {
    Expr(ExprView),
    Spread(ExprView),
}

pub struct ParamView {
    pub id: LocalId,
    pub name: Seq<char>,
    pub ty: TypeView,
    pub default: Option<ExprView>,
    pub is_rest: bool,
}

#[allow(inconsistent_fields)]
pub enum ExprView {
    Number(NumView),
    Integer(i64),
    Bool(bool),
    String(Seq<char>),
    WtfString(Seq<u8>),
    Null,
    Undefined,
    This,
    LocalGet(LocalId),
    LocalSet(LocalId, Box<ExprView>),
    GlobalGet(GlobalId),
    GlobalSet(GlobalId, Box<ExprView>),
    FuncRef(FuncId),
    ExternFuncRef { name: Seq<char> },
    Update { id: LocalId, op: UpdateOp, prefix: bool },
    Binary { op: BinaryOp, left: Box<ExprView>, right: Box<ExprView> },
    Logical { op: LogicalOp, left: Box<ExprView>, right: Box<ExprView> },
    Compare { op: CompareOp, left: Box<ExprView>, right: Box<ExprView> },
    Unary { op: UnaryOp, operand: Box<ExprView> },
    Conditional { condition: Box<ExprView>, then_expr: Box<ExprView>, else_expr: Box<ExprView> },
    Call { callee: Box<ExprView>, args: Seq<ExprView>, type_args: Seq<TypeView> },
    CallSpread { callee: Box<ExprView>, args: Seq<ElementView> },
    NativeMethodCall {
        module: Seq<char>,
        class_name: Option<Seq<char>>,
        object: Option<Box<ExprView>>,
        method: Seq<char>,
        args: Seq<ExprView>,
    },
    New { class_name: Seq<char>, args: Seq<ExprView> },
    NewDynamic { callee: Box<ExprView>, args: Seq<ExprView> },
    SuperCall(Seq<ExprView>),
    SuperMethodCall { method: Seq<char>, args: Seq<ExprView> },
    PropertyGet { object: Box<ExprView>, property: Seq<char> },
    PropertySet { object: Box<ExprView>, property: Seq<char>, value: Box<ExprView> },
    IndexGet { object: Box<ExprView>, index: Box<ExprView> },
    IndexSet { object: Box<ExprView>, index: Box<ExprView>, value: Box<ExprView> },
    Array(Seq<ExprView>),
    ArraySpread(Seq<ElementView>),
    Object(Seq<(Seq<char>, ExprView)>),
    ObjectSpread { parts: Seq<(Option<Seq<char>>, ExprView)> },
    ArrayMap { array: Box<ExprView>, callback: Box<ExprView> },
    Closure {
        func_id: FuncId,
        params: Seq<ParamView>,
        return_type: TypeView,
        body: Seq<StmtView>,
        captures: Seq<LocalId>,
        mutable_captures: Seq<LocalId>,
        captures_this: bool,
        enclosing_class: Option<Seq<char>>,
        is_async: bool,
    },
    LocalCall { op: LocalOp, id: LocalId, args: Seq<ExprView> },
    Intrinsic { op: IntrinsicOp, args: Seq<ExprView> },
}

pub struct CatchView {
    pub param: Option<(LocalId, Seq<char>)>,
    pub body: Seq<StmtView>,
}

pub struct CaseView {
    pub test: Option<ExprView>,
    pub body: Seq<StmtView>,
}

#[allow(inconsistent_fields)]
pub enum StmtView {
    Let { id: LocalId, name: Seq<char>, ty: TypeView, mutable: bool, init: Option<ExprView> },
    Expr(ExprView),
    Return(Option<ExprView>),
    Throw(ExprView),
    If { condition: ExprView, then_branch: Seq<StmtView>, else_branch: Option<Seq<StmtView>> },
    While { condition: ExprView, body: Seq<StmtView> },
    DoWhile { body: Seq<StmtView>, condition: ExprView },
    For {
        init: Option<Box<StmtView>>,
        condition: Option<ExprView>,
        update: Option<ExprView>,
        body: Seq<StmtView>,
    },
    Labeled { label: Seq<char>, body: Box<StmtView> },
    Try { body: Seq<StmtView>, catch: Option<CatchView>, finally: Option<Seq<StmtView>> },
    Switch { discriminant: ExprView, cases: Seq<CaseView> },
    Break,
    Continue,
    LabeledBreak(Seq<char>),
    LabeledContinue(Seq<char>),
}

pub struct FunctionView {
    pub id: FuncId,
    pub name: Seq<char>,
    pub params: Seq<ParamView>,
    pub return_type: TypeView,
    pub body: Seq<StmtView>,
    pub is_async: bool,
    pub is_generator: bool,
    pub captures: Seq<LocalId>,
}

pub struct FieldView {
    pub name: Seq<char>,
    pub init: Option<ExprView>,
}

pub struct ClassView {
    pub name: Seq<char>,
    pub native_extends: Option<Seq<char>>,
    pub fields: Seq<FieldView>,
    pub constructor: Option<FunctionView>,
    pub methods: Seq<FunctionView>,
    pub getters: Seq<(Seq<char>, FunctionView)>,
    pub setters: Seq<(Seq<char>, FunctionView)>,
    pub static_methods: Seq<FunctionView>,
}

pub struct ModuleView {
    pub name: Seq<char>,
    pub classes: Seq<ClassView>,
    pub functions: Seq<FunctionView>,
    pub init: Seq<StmtView>,
}

// ---------------------------------------------------------------------------
// Views
// ---------------------------------------------------------------------------

/// The text of an optional string.
pub open spec fn opt_str(o: Option<String>) -> Option<Seq<char>> {
    match o {
        Some(s) => Some(s@),
        None => None,
    }
}

impl Num {
    pub open spec fn view(self) -> NumView {
        NumView { bits: self.bits, text: self.text@ }
    }
}

impl Type {
    pub open spec fn view(self) -> TypeView {
        match self {
            Type::Any => TypeView::Any,
            Type::Named(s) => TypeView::Named(s@),
            Type::Other(s) => TypeView::Other(s@),
        }
    }
}

pub open spec fn types_view(v: Seq<Type>) -> Seq<TypeView> {
    Seq::new(v.len(), |i: int| v[i].view())
}

pub open spec fn exprs_view(v: Seq<Expr>) -> Seq<ExprView>
    decreases v,
{
    Seq::new(v.len(), |i: int| if 0 <= i < v.len() { v[i].view() } else { arbitrary() })
}

pub open spec fn elements_view(v: Seq<ArrayElement>) -> Seq<ElementView>
    decreases v,
{
    Seq::new(v.len(), |i: int| if 0 <= i < v.len() { v[i].view() } else { arbitrary() })
}

pub open spec fn fields_view(v: Seq<(String, Expr)>) -> Seq<(Seq<char>, ExprView)>
    decreases v,
{
    Seq::new(
        v.len(),
        |i: int| if 0 <= i < v.len() { (v[i].0@, v[i].1.view()) } else { arbitrary() },
    )
}

pub open spec fn parts_view(v: Seq<(Option<String>, Expr)>) -> Seq<(Option<Seq<char>>, ExprView)>
    decreases v,
{
    Seq::new(
        v.len(),
        |i: int| if 0 <= i < v.len() { (opt_str(v[i].0), v[i].1.view()) } else { arbitrary() },
    )
}

pub open spec fn params_view(v: Seq<Param>) -> Seq<ParamView>
    decreases v,
{
    Seq::new(v.len(), |i: int| if 0 <= i < v.len() { v[i].view() } else { arbitrary() })
}

pub open spec fn stmts_view(v: Seq<Stmt>) -> Seq<StmtView>
    decreases v,
{
    Seq::new(v.len(), |i: int| if 0 <= i < v.len() { v[i].view() } else { arbitrary() })
}

pub open spec fn cases_view(v: Seq<SwitchCase>) -> Seq<CaseView>
    decreases v,
{
    Seq::new(v.len(), |i: int| if 0 <= i < v.len() { v[i].view() } else { arbitrary() })
}

pub open spec fn opt_expr_view(o: Option<Expr>) -> Option<ExprView>
{
    match o {
        Some(e) => Some(e.view()),
        None => None,
    }
}

pub open spec fn opt_stmts_view(o: Option<Vec<Stmt>>) -> Option<Seq<StmtView>>
{
    match o {
        Some(b) => Some(stmts_view(b@)),
        None => None,
    }
}

impl ArrayElement {
    pub open spec fn view(self) -> ElementView
        decreases self,
    {
        match self {
            ArrayElement::Expr(e) => ElementView::Expr(e.view()),
            ArrayElement::Spread(e) => ElementView::Spread(e.view()),
        }
    }
}

impl Param {
    pub open spec fn view(self) -> ParamView
        decreases self,
    {
        ParamView {
            id: self.id,
            name: self.name@,
            ty: self.ty.view(),
            default: match self.default {
                    Some(e) => Some(e.view()),
                    None => None,
                },
            is_rest: self.is_rest,
        }
    }
}

impl Expr {
    pub open spec fn view(self) -> ExprView
        decreases self,
    {
        match self {
            Expr::Number(n) => ExprView::Number(n.view()),
            Expr::Integer(n) => ExprView::Integer(n),
            Expr::Bool(b) => ExprView::Bool(b),
            Expr::String(s) => ExprView::String(s@),
            Expr::WtfString(b) => ExprView::WtfString(b@),
            Expr::Null => ExprView::Null,
            Expr::Undefined => ExprView::Undefined,
            Expr::This => ExprView::This,
            Expr::LocalGet(id) => ExprView::LocalGet(id),
            Expr::LocalSet(id, v) => ExprView::LocalSet(id, Box::new(v.view())),
            Expr::GlobalGet(id) => ExprView::GlobalGet(id),
            Expr::GlobalSet(id, v) => ExprView::GlobalSet(id, Box::new(v.view())),
            Expr::FuncRef(id) => ExprView::FuncRef(id),
            Expr::ExternFuncRef { name } => ExprView::ExternFuncRef { name: name@ },
            Expr::Update { id, op, prefix } => ExprView::Update { id, op, prefix },
            Expr::Binary { op, left, right } => ExprView::Binary {
                op,
                left: Box::new(left.view()),
                right: Box::new(right.view()),
            },
            Expr::Logical { op, left, right } => ExprView::Logical {
                op,
                left: Box::new(left.view()),
                right: Box::new(right.view()),
            },
            Expr::Compare { op, left, right } => ExprView::Compare {
                op,
                left: Box::new(left.view()),
                right: Box::new(right.view()),
            },
            Expr::Unary { op, operand } => ExprView::Unary { op, operand: Box::new(operand.view()) },
            Expr::Conditional { condition, then_expr, else_expr } => ExprView::Conditional {
                condition: Box::new(condition.view()),
                then_expr: Box::new(then_expr.view()),
                else_expr: Box::new(else_expr.view()),
            },
            Expr::Call { callee, args, type_args } => ExprView::Call {
                callee: Box::new(callee.view()),
                args: exprs_view(args@),
                type_args: types_view(type_args@),
            },
            Expr::CallSpread { callee, args } => ExprView::CallSpread {
                callee: Box::new(callee.view()),
                args: elements_view(args@),
            },
            Expr::NativeMethodCall { module, class_name, object, method, args } =>
                ExprView::NativeMethodCall {
                module: module@,
                class_name: opt_str(class_name),
                object: match object {
                    Some(e) => Some(Box::new(e.view())),
                    None => None,
                },
                method: method@,
                args: exprs_view(args@),
            },
            Expr::New { class_name, args } => ExprView::New {
                class_name: class_name@,
                args: exprs_view(args@),
            },
            Expr::NewDynamic { callee, args } => ExprView::NewDynamic {
                callee: Box::new(callee.view()),
                args: exprs_view(args@),
            },
            Expr::SuperCall(args) => ExprView::SuperCall(exprs_view(args@)),
            Expr::SuperMethodCall { method, args } => ExprView::SuperMethodCall {
                method: method@,
                args: exprs_view(args@),
            },
            Expr::PropertyGet { object, property } => ExprView::PropertyGet {
                object: Box::new(object.view()),
                property: property@,
            },
            Expr::PropertySet { object, property, value } => ExprView::PropertySet {
                object: Box::new(object.view()),
                property: property@,
                value: Box::new(value.view()),
            },
            Expr::IndexGet { object, index } => ExprView::IndexGet {
                object: Box::new(object.view()),
                index: Box::new(index.view()),
            },
            Expr::IndexSet { object, index, value } => ExprView::IndexSet {
                object: Box::new(object.view()),
                index: Box::new(index.view()),
                value: Box::new(value.view()),
            },
            Expr::Array(items) => ExprView::Array(exprs_view(items@)),
            Expr::ArraySpread(items) => ExprView::ArraySpread(elements_view(items@)),
            Expr::Object(props) => ExprView::Object(fields_view(props@)),
            Expr::ObjectSpread { parts } => ExprView::ObjectSpread { parts: parts_view(parts@) },
            Expr::ArrayMap { array, callback } => ExprView::ArrayMap {
                array: Box::new(array.view()),
                callback: Box::new(callback.view()),
            },
            Expr::Closure {
                func_id,
                params,
                return_type,
                body,
                captures,
                mutable_captures,
                captures_this,
                enclosing_class,
                is_async,
            } => ExprView::Closure {
                func_id,
                params: params_view(params@),
                return_type: return_type.view(),
                body: stmts_view(body@),
                captures: captures@,
                mutable_captures: mutable_captures@,
                captures_this,
                enclosing_class: opt_str(enclosing_class),
                is_async,
            },
            Expr::LocalCall { op, id, args } => ExprView::LocalCall {
                op,
                id,
                args: exprs_view(args@),
            },
            Expr::Intrinsic { op, args } => ExprView::Intrinsic { op, args: exprs_view(args@) },
        }
    }
}

impl CatchClause {
    pub open spec fn view(self) -> CatchView
        decreases self,
    {
        CatchView {
            param: match self.param {
                Some(p) => Some((p.0, p.1@)),
                None => None,
            },
            body: stmts_view(self.body@),
        }
    }
}

impl SwitchCase {
    pub open spec fn view(self) -> CaseView
        decreases self,
    {
        CaseView { test: match self.test {
                    Some(e) => Some(e.view()),
                    None => None,
                }, body: stmts_view(self.body@) }
    }
}

impl Stmt {
    pub open spec fn view(self) -> StmtView
        decreases self,
    {
        match self {
            Stmt::Let { id, name, ty, mutable, init } => StmtView::Let {
                id,
                name: name@,
                ty: ty.view(),
                mutable,
                init: match init {
                    Some(e) => Some(e.view()),
                    None => None,
                },
            },
            Stmt::Expr(e) => StmtView::Expr(e.view()),
            Stmt::Return(o) => StmtView::Return(match o {
                    Some(e) => Some(e.view()),
                    None => None,
                }),
            Stmt::Throw(e) => StmtView::Throw(e.view()),
            Stmt::If { condition, then_branch, else_branch } => StmtView::If {
                condition: condition.view(),
                then_branch: stmts_view(then_branch@),
                else_branch: match else_branch {
                    Some(b) => Some(stmts_view(b@)),
                    None => None,
                },
            },
            Stmt::While { condition, body } => StmtView::While {
                condition: condition.view(),
                body: stmts_view(body@),
            },
            Stmt::DoWhile { body, condition } => StmtView::DoWhile {
                body: stmts_view(body@),
                condition: condition.view(),
            },
            Stmt::For { init, condition, update, body } => StmtView::For {
                init: match init {
                    Some(s) => Some(Box::new(s.view())),
                    None => None,
                },
                condition: match condition {
                    Some(e) => Some(e.view()),
                    None => None,
                },
                update: match update {
                    Some(e) => Some(e.view()),
                    None => None,
                },
                body: stmts_view(body@),
            },
            Stmt::Labeled { label, body } => StmtView::Labeled {
                label: label@,
                body: Box::new(body.view()),
            },
            Stmt::Try { body, catch, finally } => StmtView::Try {
                body: stmts_view(body@),
                catch: match catch {
                    Some(c) => Some(c.view()),
                    None => None,
                },
                finally: match finally {
                    Some(b) => Some(stmts_view(b@)),
                    None => None,
                },
            },
            Stmt::Switch { discriminant, cases } => StmtView::Switch {
                discriminant: discriminant.view(),
                cases: cases_view(cases@),
            },
            Stmt::Break => StmtView::Break,
            Stmt::Continue => StmtView::Continue,
            Stmt::LabeledBreak(l) => StmtView::LabeledBreak(l@),
            Stmt::LabeledContinue(l) => StmtView::LabeledContinue(l@),
        }
    }
}

impl Function {
    pub open spec fn view(self) -> FunctionView {
        FunctionView {
            id: self.id,
            name: self.name@,
            params: params_view(self.params@),
            return_type: self.return_type.view(),
            body: stmts_view(self.body@),
            is_async: self.is_async,
            is_generator: self.is_generator,
            captures: self.captures@,
        }
    }
}

impl ClassField {
    pub open spec fn view(self) -> FieldView {
        FieldView { name: self.name@, init: opt_expr_view(self.init) }
    }
}

pub open spec fn class_fields_view(v: Seq<ClassField>) -> Seq<FieldView> {
    Seq::new(v.len(), |i: int| v[i].view())
}

pub open spec fn functions_view(v: Seq<Function>) -> Seq<FunctionView> {
    Seq::new(v.len(), |i: int| v[i].view())
}

pub open spec fn accessors_view(v: Seq<(String, Function)>) -> Seq<(Seq<char>, FunctionView)> {
    Seq::new(v.len(), |i: int| (v[i].0@, v[i].1.view()))
}

pub open spec fn opt_function_view(o: Option<Function>) -> Option<FunctionView> {
    match o {
        Some(f) => Some(f.view()),
        None => None,
    }
}

impl Class {
    pub open spec fn view(self) -> ClassView {
        ClassView {
            name: self.name@,
            native_extends: opt_str(self.native_extends),
            fields: class_fields_view(self.fields@),
            constructor: opt_function_view(self.constructor),
            methods: functions_view(self.methods@),
            getters: accessors_view(self.getters@),
            setters: accessors_view(self.setters@),
            static_methods: functions_view(self.static_methods@),
        }
    }
}

pub open spec fn classes_view(v: Seq<Class>) -> Seq<ClassView> {
    Seq::new(v.len(), |i: int| v[i].view())
}

impl Module {
    pub open spec fn view(self) -> ModuleView {
        ModuleView {
            name: self.name@,
            classes: classes_view(self.classes@),
            functions: functions_view(self.functions@),
            init: stmts_view(self.init@),
        }
    }
}

} // verus!
