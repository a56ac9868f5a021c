//! Deep copies of HIR trees. A copy has the same view as its source.

use crate::hir::{
    ArrayElement, CatchClause, ClassField, Expr, Function, Num, Param, Stmt, SwitchCase, Type,
};
use crate::model::{
    accessors_view, cases_view, class_fields_view, elements_view, exprs_view, fields_view,
    functions_view, opt_expr_view, opt_function_view, opt_str, params_view, parts_view, stmts_view,
    types_view,
};
use vstd::prelude::*;

verus! {

/// A copy of an optional string.
pub fn copy_opt_str(o: &Option<String>) -> (r: Option<String>)
    ensures
        opt_str(r) == opt_str(*o),
{
    match o {
        Some(s) => Some(s.clone()),
        None => None,
    }
}

/// A copy of a list of ids.
pub fn copy_ids(v: &Vec<u32>) -> (r: Vec<u32>)
    ensures
        r@ == v@,
{
    let mut out: Vec<u32> = Vec::new();
    let mut i: usize = 0;
    while i < v.len()
        invariant
            i <= v@.len(),
            out@ == v@.take(i as int),
        decreases v@.len() - i,
    {
        out.push(v[i]);
        i += 1;
        assert(v@.take(i as int) =~= v@.take(i - 1).push(v@[i - 1]));
    }
    assert(v@.take(i as int) =~= v@);
    out
}

/// A copy of a byte string.
pub fn copy_bytes(v: &Vec<u8>) -> (r: Vec<u8>)
    ensures
        r@ == v@,
{
    let mut out: Vec<u8> = Vec::new();
    let mut i: usize = 0;
    while i < v.len()
        invariant
            i <= v@.len(),
            out@ == v@.take(i as int),
        decreases v@.len() - i,
    {
        out.push(v[i]);
        i += 1;
        assert(v@.take(i as int) =~= v@.take(i - 1).push(v@[i - 1]));
    }
    assert(v@.take(i as int) =~= v@);
    out
}

impl Clone for Num {
    fn clone(&self) -> (r: Num)
        ensures
            r@ == self@,
    {
        Num { bits: self.bits, text: self.text.clone() }
    }
}

impl Clone for Type {
    fn clone(&self) -> (r: Type)
        ensures
            r@ == self@,
    {
        match self {
            Type::Any => Type::Any,
            Type::Named(s) => Type::Named(s.clone()),
            Type::Other(s) => Type::Other(s.clone()),
        }
    }
}

/// A copy of a list of types.
pub fn copy_types(v: &Vec<Type>) -> (r: Vec<Type>)
    ensures
        types_view(r@) == types_view(v@),
{
    let mut out: Vec<Type> = Vec::new();
    let mut i: usize = 0;
    while i < v.len()
        invariant
            i <= v@.len(),
            out@.len() == i,
            forall|j: int| 0 <= j < i ==> (#[trigger] out@[j]).view() == v@[j].view(),
        decreases v@.len() - i,
    {
        out.push(v[i].clone());
        i += 1;
    }
    assert(types_view(out@) =~= types_view(v@));
    out
}

/// A copy of a list of expressions.
pub fn copy_exprs(v: &Vec<Expr>) -> (r: Vec<Expr>)
    ensures
        exprs_view(r@) == exprs_view(v@),
    decreases v,
{
    let mut out: Vec<Expr> = Vec::new();
    let mut i: usize = 0;
    while i < v.len()
        invariant
            i <= v@.len(),
            out@.len() == i,
            forall|j: int| 0 <= j < i ==> (#[trigger] out@[j]).view() == v@[j].view(),
        decreases v@.len() - i,
    {
        out.push(v[i].clone());
        i += 1;
    }
    assert(exprs_view(out@) =~= exprs_view(v@));
    out
}

/// A copy of a list with spreads.
pub fn copy_elements(v: &Vec<ArrayElement>) -> (r: Vec<ArrayElement>)
    ensures
        elements_view(r@) == elements_view(v@),
    decreases v,
{
    let mut out: Vec<ArrayElement> = Vec::new();
    let mut i: usize = 0;
    while i < v.len()
        invariant
            i <= v@.len(),
            out@.len() == i,
            forall|j: int| 0 <= j < i ==> (#[trigger] out@[j]).view() == v@[j].view(),
        decreases v@.len() - i,
    {
        let item: ArrayElement = match &v[i] {
            ArrayElement::Expr(e) => ArrayElement::Expr(e.clone()),
            ArrayElement::Spread(e) => ArrayElement::Spread(e.clone()),
        };
        out.push(item);
        i += 1;
    }
    assert(elements_view(out@) =~= elements_view(v@));
    out
}

/// A copy of a list of properties.
pub fn copy_fields(v: &Vec<(String, Expr)>) -> (r: Vec<(String, Expr)>)
    ensures
        fields_view(r@) == fields_view(v@),
    decreases v,
{
    let mut out: Vec<(String, Expr)> = Vec::new();
    let mut i: usize = 0;
    while i < v.len()
        invariant
            i <= v@.len(),
            out@.len() == i,
            forall|j: int| 0 <= j < i ==> (#[trigger] out@[j]).1.view() == v@[j].1.view() && out@[j].0@ == v@[j].0@,
        decreases v@.len() - i,
    {
        out.push((v[i].0.clone(), v[i].1.clone()));
        i += 1;
    }
    assert(fields_view(out@) =~= fields_view(v@));
    out
}

/// A copy of the parts of an object with spreads.
pub fn copy_parts(v: &Vec<(Option<String>, Expr)>) -> (r: Vec<(Option<String>, Expr)>)
    ensures
        parts_view(r@) == parts_view(v@),
    decreases v,
{
    let mut out: Vec<(Option<String>, Expr)> = Vec::new();
    let mut i: usize = 0;
    while i < v.len()
        invariant
            i <= v@.len(),
            out@.len() == i,
            forall|j: int| 0 <= j < i ==> (#[trigger] out@[j]).1.view() == v@[j].1.view() && opt_str(out@[j].0) == opt_str(v@[j].0),
        decreases v@.len() - i,
    {
        out.push((copy_opt_str(&v[i].0), v[i].1.clone()));
        i += 1;
    }
    assert(parts_view(out@) =~= parts_view(v@));
    out
}

/// A copy of a list of parameters.
pub fn copy_params(v: &Vec<Param>) -> (r: Vec<Param>)
    ensures
        params_view(r@) == params_view(v@),
    decreases v,
{
    let mut out: Vec<Param> = Vec::new();
    let mut i: usize = 0;
    while i < v.len()
        invariant
            i <= v@.len(),
            out@.len() == i,
            forall|j: int| 0 <= j < i ==> (#[trigger] out@[j]).view() == v@[j].view(),
        decreases v@.len() - i,
    {
        let p: &Param = &v[i];
        let default: Option<Expr> = match &p.default {
            Some(e) => Some(e.clone()),
            None => None,
        };
        out.push(
            Param { id: p.id, name: p.name.clone(), ty: p.ty.clone(), default, is_rest: p.is_rest },
        );
        i += 1;
    }
    assert(params_view(out@) =~= params_view(v@));
    out
}

/// A copy of a list of statements.
pub fn copy_stmts(v: &Vec<Stmt>) -> (r: Vec<Stmt>)
    ensures
        stmts_view(r@) == stmts_view(v@),
    decreases v,
{
    let mut out: Vec<Stmt> = Vec::new();
    let mut i: usize = 0;
    while i < v.len()
        invariant
            i <= v@.len(),
            out@.len() == i,
            forall|j: int| 0 <= j < i ==> (#[trigger] out@[j]).view() == v@[j].view(),
        decreases v@.len() - i,
    {
        out.push(v[i].clone());
        i += 1;
    }
    assert(stmts_view(out@) =~= stmts_view(v@));
    out
}

/// A copy of the cases of a switch.
pub fn copy_cases(v: &Vec<SwitchCase>) -> (r: Vec<SwitchCase>)
    ensures
        cases_view(r@) == cases_view(v@),
    decreases v,
{
    let mut out: Vec<SwitchCase> = Vec::new();
    let mut i: usize = 0;
    while i < v.len()
        invariant
            i <= v@.len(),
            out@.len() == i,
            forall|j: int| 0 <= j < i ==> (#[trigger] out@[j]).view() == v@[j].view(),
        decreases v@.len() - i,
    {
        let c: &SwitchCase = &v[i];
        let test: Option<Expr> = match &c.test {
            Some(e) => Some(e.clone()),
            None => None,
        };
        out.push(SwitchCase { test, body: copy_stmts(&c.body) });
        i += 1;
    }
    assert(cases_view(out@) =~= cases_view(v@));
    out
}

impl Clone for Expr {
    fn clone(&self) -> (r: Expr)
        ensures
            r@ == self@,
        decreases self,
    {
        match self {
            Expr::Number(n) => Expr::Number(n.clone()),
            Expr::Integer(n) => Expr::Integer(*n),
            Expr::Bool(b) => Expr::Bool(*b),
            Expr::String(s) => Expr::String(s.clone()),
            Expr::WtfString(b) => Expr::WtfString(copy_bytes(b)),
            Expr::Null => Expr::Null,
            Expr::Undefined => Expr::Undefined,
            Expr::This => Expr::This,
            Expr::LocalGet(id) => Expr::LocalGet(*id),
            Expr::LocalSet(id, v) => Expr::LocalSet(*id, Box::new((**v).clone())),
            Expr::GlobalGet(id) => Expr::GlobalGet(*id),
            Expr::GlobalSet(id, v) => Expr::GlobalSet(*id, Box::new((**v).clone())),
            Expr::FuncRef(id) => Expr::FuncRef(*id),
            Expr::ExternFuncRef { name } => Expr::ExternFuncRef { name: name.clone() },
            Expr::Update { id, op, prefix } => Expr::Update { id: *id, op: *op, prefix: *prefix },
            Expr::Binary { op, left, right } => Expr::Binary {
                op: *op,
                left: Box::new((**left).clone()),
                right: Box::new((**right).clone()),
            },
            Expr::Logical { op, left, right } => Expr::Logical {
                op: *op,
                left: Box::new((**left).clone()),
                right: Box::new((**right).clone()),
            },
            Expr::Compare { op, left, right } => Expr::Compare {
                op: *op,
                left: Box::new((**left).clone()),
                right: Box::new((**right).clone()),
            },
            Expr::Unary { op, operand } => Expr::Unary {
                op: *op,
                operand: Box::new((**operand).clone()),
            },
            Expr::Conditional { condition, then_expr, else_expr } => Expr::Conditional {
                condition: Box::new((**condition).clone()),
                then_expr: Box::new((**then_expr).clone()),
                else_expr: Box::new((**else_expr).clone()),
            },
            Expr::Call { callee, args, type_args } => Expr::Call {
                callee: Box::new((**callee).clone()),
                args: copy_exprs(args),
                type_args: copy_types(type_args),
            },
            Expr::CallSpread { callee, args } => Expr::CallSpread {
                callee: Box::new((**callee).clone()),
                args: copy_elements(args),
            },
            Expr::NativeMethodCall { module, class_name, object, method, args } => {
                let object: Option<Box<Expr>> = match object {
                    Some(o) => Some(Box::new((**o).clone())),
                    None => None,
                };
                Expr::NativeMethodCall {
                    module: module.clone(),
                    class_name: copy_opt_str(class_name),
                    object,
                    method: method.clone(),
                    args: copy_exprs(args),
                }
            },
            Expr::New { class_name, args } => Expr::New {
                class_name: class_name.clone(),
                args: copy_exprs(args),
            },
            Expr::NewDynamic { callee, args } => Expr::NewDynamic {
                callee: Box::new((**callee).clone()),
                args: copy_exprs(args),
            },
            Expr::SuperCall(args) => Expr::SuperCall(copy_exprs(args)),
            Expr::SuperMethodCall { method, args } => Expr::SuperMethodCall {
                method: method.clone(),
                args: copy_exprs(args),
            },
            Expr::PropertyGet { object, property } => Expr::PropertyGet {
                object: Box::new((**object).clone()),
                property: property.clone(),
            },
            Expr::PropertySet { object, property, value } => Expr::PropertySet {
                object: Box::new((**object).clone()),
                property: property.clone(),
                value: Box::new((**value).clone()),
            },
            Expr::IndexGet { object, index } => Expr::IndexGet {
                object: Box::new((**object).clone()),
                index: Box::new((**index).clone()),
            },
            Expr::IndexSet { object, index, value } => Expr::IndexSet {
                object: Box::new((**object).clone()),
                index: Box::new((**index).clone()),
                value: Box::new((**value).clone()),
            },
            Expr::Array(items) => Expr::Array(copy_exprs(items)),
            Expr::ArraySpread(items) => Expr::ArraySpread(copy_elements(items)),
            Expr::Object(props) => Expr::Object(copy_fields(props)),
            Expr::ObjectSpread { parts } => Expr::ObjectSpread { parts: copy_parts(parts) },
            Expr::ArrayMap { array, callback } => Expr::ArrayMap {
                array: Box::new((**array).clone()),
                callback: Box::new((**callback).clone()),
            },
            Expr::Closure {
                func_id,
                params,
                return_type,
                body,
                captures,
                mutable_captures,
                captures_this,
                enclosing_class,
                is_async,
            } => Expr::Closure {
                func_id: *func_id,
                params: copy_params(params),
                return_type: return_type.clone(),
                body: copy_stmts(body),
                captures: copy_ids(captures),
                mutable_captures: copy_ids(mutable_captures),
                captures_this: *captures_this,
                enclosing_class: copy_opt_str(enclosing_class),
                is_async: *is_async,
            },
            Expr::LocalCall { op, id, args } => Expr::LocalCall {
                op: *op,
                id: *id,
                args: copy_exprs(args),
            },
            Expr::Intrinsic { op, args } => Expr::Intrinsic { op: *op, args: copy_exprs(args) },
        }
    }
}

impl Clone for Stmt {
    fn clone(&self) -> (r: Stmt)
        ensures
            r@ == self@,
        decreases self,
    {
        match self {
            Stmt::Let { id, name, ty, mutable, init } => {
                let init: Option<Expr> = match init {
                    Some(e) => Some(e.clone()),
                    None => None,
                };
                Stmt::Let { id: *id, name: name.clone(), ty: ty.clone(), mutable: *mutable, init }
            },
            Stmt::Expr(e) => Stmt::Expr(e.clone()),
            Stmt::Return(Some(e)) => Stmt::Return(Some(e.clone())),
            Stmt::Return(None) => Stmt::Return(None),
            Stmt::Throw(e) => Stmt::Throw(e.clone()),
            Stmt::If { condition, then_branch, else_branch } => {
                let else_branch: Option<Vec<Stmt>> = match else_branch {
                    Some(b) => Some(copy_stmts(b)),
                    None => None,
                };
                Stmt::If {
                    condition: condition.clone(),
                    then_branch: copy_stmts(then_branch),
                    else_branch,
                }
            },
            Stmt::While { condition, body } => Stmt::While {
                condition: condition.clone(),
                body: copy_stmts(body),
            },
            Stmt::DoWhile { body, condition } => Stmt::DoWhile {
                body: copy_stmts(body),
                condition: condition.clone(),
            },
            Stmt::For { init, condition, update, body } => {
                let init: Option<Box<Stmt>> = match init {
                    Some(s) => Some(Box::new((**s).clone())),
                    None => None,
                };
                let condition: Option<Expr> = match condition {
                    Some(e) => Some(e.clone()),
                    None => None,
                };
                let update: Option<Expr> = match update {
                    Some(e) => Some(e.clone()),
                    None => None,
                };
                Stmt::For { init, condition, update, body: copy_stmts(body) }
            },
            Stmt::Labeled { label, body } => Stmt::Labeled {
                label: label.clone(),
                body: Box::new((**body).clone()),
            },
            Stmt::Try { body, catch, finally } => {
                let catch: Option<CatchClause> = match catch {
                    Some(c) => Some(c.clone()),
                    None => None,
                };
                let finally: Option<Vec<Stmt>> = match finally {
                    Some(b) => Some(copy_stmts(b)),
                    None => None,
                };
                Stmt::Try { body: copy_stmts(body), catch, finally }
            },
            Stmt::Switch { discriminant, cases } => Stmt::Switch {
                discriminant: discriminant.clone(),
                cases: copy_cases(cases),
            },
            Stmt::Break => Stmt::Break,
            Stmt::Continue => Stmt::Continue,
            Stmt::LabeledBreak(l) => Stmt::LabeledBreak(l.clone()),
            Stmt::LabeledContinue(l) => Stmt::LabeledContinue(l.clone()),
        }
    }
}

impl Clone for CatchClause {
    fn clone(&self) -> (r: CatchClause)
        ensures
            r@ == self@,
        decreases self,
    {
        let param: Option<(u32, String)> = match &self.param {
            Some(p) => Some((p.0, p.1.clone())),
            None => None,
        };
        CatchClause { param, body: copy_stmts(&self.body) }
    }
}

impl Clone for Function {
    fn clone(&self) -> (r: Function)
        ensures
            r@ == self@,
    {
        Function {
            id: self.id,
            name: self.name.clone(),
            params: copy_params(&self.params),
            return_type: self.return_type.clone(),
            body: copy_stmts(&self.body),
            is_async: self.is_async,
            is_generator: self.is_generator,
            captures: copy_ids(&self.captures),
        }
    }
}

/// A copy of a list of functions.
pub fn copy_functions(v: &Vec<Function>) -> (r: Vec<Function>)
    ensures
        functions_view(r@) == functions_view(v@),
{
    let mut out: Vec<Function> = Vec::new();
    let mut i: usize = 0;
    while i < v.len()
        invariant
            i <= v@.len(),
            out@.len() == i,
            forall|j: int| 0 <= j < i ==> (#[trigger] out@[j]).view() == v@[j].view(),
        decreases v@.len() - i,
    {
        out.push(v[i].clone());
        i += 1;
    }
    assert(functions_view(out@) =~= functions_view(v@));
    out
}

/// A copy of a list of getters or setters.
pub fn copy_accessors(v: &Vec<(String, Function)>) -> (r: Vec<(String, Function)>)
    ensures
        accessors_view(r@) == accessors_view(v@),
{
    let mut out: Vec<(String, Function)> = Vec::new();
    let mut i: usize = 0;
    while i < v.len()
        invariant
            i <= v@.len(),
            out@.len() == i,
            forall|j: int|
                0 <= j < i ==> (#[trigger] out@[j]).0@ == v@[j].0@ && out@[j].1.view()
                    == v@[j].1.view(),
        decreases v@.len() - i,
    {
        out.push((v[i].0.clone(), v[i].1.clone()));
        i += 1;
    }
    assert(accessors_view(out@) =~= accessors_view(v@));
    out
}

/// A copy of an optional expression.
pub fn copy_opt_expr(o: &Option<Expr>) -> (r: Option<Expr>)
    ensures
        opt_expr_view(r) == opt_expr_view(*o),
{
    match o {
        Some(e) => Some(e.clone()),
        None => None,
    }
}

/// A copy of a list of fields.
pub fn copy_class_fields(v: &Vec<ClassField>) -> (r: Vec<ClassField>)
    ensures
        class_fields_view(r@) == class_fields_view(v@),
{
    let mut out: Vec<ClassField> = Vec::new();
    let mut i: usize = 0;
    while i < v.len()
        invariant
            i <= v@.len(),
            out@.len() == i,
            forall|j: int| 0 <= j < i ==> (#[trigger] out@[j]).view() == v@[j].view(),
        decreases v@.len() - i,
    {
        out.push(ClassField { name: v[i].name.clone(), init: copy_opt_expr(&v[i].init) });
        i += 1;
    }
    assert(class_fields_view(out@) =~= class_fields_view(v@));
    out
}

/// A copy of an optional function.
pub fn copy_opt_function(o: &Option<Function>) -> (r: Option<Function>)
    ensures
        opt_function_view(r) == opt_function_view(*o),
{
    match o {
        Some(f) => Some(f.clone()),
        None => None,
    }
}

} // verus!
