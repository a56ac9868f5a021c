//! Harvesting the user interface of a module: the `App` call becomes a page, and
//! leaves the module.

use crate::arkts::leaf::{Emit, EmitView};
use crate::arkts::page::{lazies_view, page, slots_view, wrap_index_page};
use crate::arkts::state::{collect_state_bindings, names_of, state_registry, StateView};
use crate::arkts::value::{object_prop, opt_ref_view, prop_in};
use crate::arkts::widget::{emit_widget, widget, Env, EnvView, Place, PlaceView, WidgetRun};
use crate::hir::{Class, Expr, LocalId, Module, Num, Stmt};
use crate::model::{
    classes_view, exprs_view, stmts_view, ClassView, ExprView, ModuleView, NumView, StmtView,
};
use crate::rewrite::{exprs_map, rewrite_stmts, Pass, Rewrite};
use crate::rewrite_module::{rewrite_module, rewritten_module};
use crate::text::str_eq;
use std::collections::HashMap;
use vstd::prelude::*;

verus! {

broadcast use vstd::std_specs::hash::group_hash_axioms;

/// The page source, and the closures that its handlers call: the handler of slot
/// `i` calls `callbacks[i]`.
pub struct HarvestResult {
    pub ets_source: String,
    pub callbacks: Vec<Expr>,
}

/// Why there is no page.
#[derive(Clone, Copy, PartialEq, Eq, Structural, Debug)]
pub enum EmitError {
    /// The widgets have no finite tree: a variable is reached from its own binding.
    /// The same holds of a tree that is deeper than levels can be counted.
    EndlessTree,
}

// ---------------------------------------------------------------------------
// Model
// ---------------------------------------------------------------------------

/// The body of `App({ body: .. })`, if the expression is that call.
pub open spec fn app_call(e: ExprView, classes: Seq<ClassView>) -> Option<ExprView> {
    match e {
        ExprView::NativeMethodCall { module, object, method, args, .. } => if module
            == "perry/ui"@ && method == "App"@ && object is None && args.len() == 1 {
            prop_in(args[0], classes, "body"@)
        } else {
            None
        },
        _ => None,
    }
}

/// The body of `App({ body: .. })`, if the statement is that call.
pub open spec fn app_body(s: StmtView, classes: Seq<ClassView>) -> Option<ExprView> {
    match s {
        StmtView::Expr(e) => app_call(e, classes),
        _ => None,
    }
}

/// The position of the first `App` call; the number of statements if there is none.
pub open spec fn app_index(v: Seq<StmtView>, classes: Seq<ClassView>) -> nat
    decreases v.len(),
{
    if v.len() == 0 || app_body(v[0], classes) is Some {
        0
    } else {
        1 + app_index(v.skip(1), classes)
    }
}

/// The first `App` call is one, and none comes before it.
pub proof fn lemma_app_found(v: Seq<StmtView>, classes: Seq<ClassView>)
    ensures
        app_index(v, classes) <= v.len(),
        app_index(v, classes) < v.len() ==> app_body(
            v[app_index(v, classes) as int],
            classes,
        ) is Some,
        forall|j: int|
            0 <= j < app_index(v, classes) ==> app_body(#[trigger] v[j], classes) is None,
    decreases v.len(),
{
    if v.len() > 0 && app_body(v[0], classes) is None {
        let rest = v.skip(1);
        lemma_app_found(rest, classes);
        assert forall|j: int| 0 <= j < app_index(v, classes) implies app_body(
            #[trigger] v[j],
            classes,
        ) is None by {
            if j > 0 {
                assert(v[j] == rest[j - 1]);
            }
        }
    }
}

/// The statement that takes the place of the `App` call: it does nothing.
pub open spec fn noop() -> StmtView {
    StmtView::Expr(ExprView::Number(NumView { bits: 0, text: "0"@ }))
}

/// The variables that are bound once, at the top, with their values.
pub open spec fn const_bindings(v: Seq<StmtView>) -> Map<LocalId, ExprView>
    decreases v.len(),
{
    if v.len() == 0 {
        Map::empty()
    } else {
        let front = const_bindings(v.drop_last());
        match v.last() {
            StmtView::Let { id, mutable, init: Some(e), .. } => if mutable {
                front
            } else {
                front.insert(id, e)
            },
            _ => front,
        }
    }
}

/// What comes of a module.
#[allow(inconsistent_fields)]
pub enum HarvestView {
    /// It has no `App` call.
    NoApp,
    /// Its widgets have no finite tree.
    Endless,
    /// The page, the callbacks, and the module without the call.
    Page { source: Seq<char>, callbacks: Seq<ExprView>, module: ModuleView },
}

/// The init statements with the calls of state variables rewritten.
pub open spec fn with_states(init: Seq<StmtView>) -> Seq<StmtView> {
    rewrite_stmts(init, Rewrite::State(names_of(state_registry(init).0)))
}

/// The module with the calls of its state variables rewritten, in everything that it
/// holds.
pub open spec fn module_with_states(m: ModuleView) -> ModuleView {
    rewrite_module(m, Rewrite::State(names_of(state_registry(m.init).0)))
}

/// The widget tree of the page, for the `App` call at a position.
pub open spec fn app_widget(
    init: Seq<StmtView>,
    i: int,
    classes: Seq<ClassView>,
    states: Map<LocalId, StateView>,
) -> Option<WidgetRun> {
    widget(
        app_body(init[i], classes)->0,
        EnvView { bindings: const_bindings(init), classes, states },
        PlaceView { depth: 0, locals: Seq::empty() },
        EmitView { callbacks: Seq::empty(), slots: Seq::empty(), lazies: Seq::empty() },
        init.len(),
    )
}

/// What comes of a module: the calls of state variables are rewritten in the entire
/// module, the body of the first `App` call is emitted, and the call makes way for
/// nothing.
pub open spec fn harvest(m: ModuleView) -> HarvestView {
    let init = with_states(m.init);
    let i = app_index(init, m.classes);
    if i >= init.len() {
        HarvestView::NoApp
    } else {
        match app_widget(init, i as int, m.classes, state_registry(m.init).0) {
            Some(run) => HarvestView::Page {
                source: page(run.text, run.emit.slots, run.emit.lazies),
                callbacks: run.emit.callbacks,
                module: ModuleView {
                    init: init.update(i as int, noop()),
                    ..module_with_states(m)
                },
            },
            None => HarvestView::Endless,
        }
    }
}

// ---------------------------------------------------------------------------
// Execution
// ---------------------------------------------------------------------------

/// Pulls the body out of an `App` call.
fn extract_body_field<'a>(e: &'a Expr, classes: &Vec<Class>) -> (r: Option<&'a Expr>)
    ensures
        opt_ref_view(r) == app_call(e@, classes_view(classes@)),
{
    match e {
        Expr::NativeMethodCall { module, object, method, args, .. } => {
            let ghost all = exprs_view(args@);
            assert(all.len() == args@.len());
            if str_eq(module, "perry/ui") && str_eq(method, "App") && object.is_none()
                && args.len() == 1 {
                assert(all[0] == args@[0].view());
                object_prop(&args[0], classes, "body")
            } else {
                None
            }
        },
        _ => None,
    }
}

fn body_of_app<'a>(s: &'a Stmt, classes: &Vec<Class>) -> (r: Option<&'a Expr>)
    ensures
        opt_ref_view(r) == app_body(s@, classes_view(classes@)),
{
    match s {
        Stmt::Expr(e) => extract_body_field(e, classes),
        _ => None,
    }
}

/// Finds the first `App` call: its position, and a copy of its body.
fn find_app(v: &Vec<Stmt>, classes: &Vec<Class>) -> (r: Option<(usize, Expr)>)
    ensures
        ({
            let i = app_index(stmts_view(v@), classes_view(classes@));
            match r {
                Some((k, body)) => {
                    &&& k == i
                    &&& k < v@.len()
                    &&& app_body(stmts_view(v@)[k as int], classes_view(classes@)) == Some(body@)
                },
                None => i >= stmts_view(v@).len(),
            }
        }),
{
    let ghost all = stmts_view(v@);
    let ghost cs = classes_view(classes@);
    let mut i: usize = 0;
    assert(all.skip(0) =~= all);
    while i < v.len()
        invariant
            i <= v@.len(),
            all == stmts_view(v@),
            all.len() == v@.len(),
            cs == classes_view(classes@),
            app_index(all, cs) == i + app_index(all.skip(i as int), cs),
        decreases v@.len() - i,
    {
        assert(all.skip(i as int)[0] == v@[i as int].view());
        assert(all.skip(i as int).skip(1) =~= all.skip(i + 1));
        match body_of_app(&v[i], classes) {
            Some(body) => {
                return Some((i, body.clone()));
            },
            None => {},
        }
        i += 1;
    }
    None
}

/// Collects the variables that are bound once, at the top.
pub fn collect_const_bindings(v: &Vec<Stmt>) -> (r: HashMap<LocalId, Expr>)
    ensures
        exprs_map(r@) == const_bindings(stmts_view(v@)),
{
    let ghost all = stmts_view(v@);
    let mut m: HashMap<LocalId, Expr> = HashMap::new();
    assert(exprs_map(m@) =~= Map::empty());
    let mut i: usize = 0;
    while i < v.len()
        invariant
            i <= v@.len(),
            all == stmts_view(v@),
            all.len() == v@.len(),
            exprs_map(m@) == const_bindings(all.take(i as int)),
        decreases v@.len() - i,
    {
        let s: &Stmt = &v[i];
        assert(all.take(i + 1).drop_last() =~= all.take(i as int));
        assert(all.take(i + 1).last() == s@);
        match s {
            Stmt::Let { id, mutable, init: Some(e), .. } => {
                if !*mutable {
                    let ghost before = m@;
                    let copy: Expr = e.clone();
                    m.insert(*id, copy);
                    assert(exprs_map(m@) =~= exprs_map(before).insert(*id, e@));
                }
            },
            _ => {},
        }
        i += 1;
    }
    assert(all.take(i as int) =~= all);
    m
}

fn nothing() -> (r: Stmt)
    ensures
        r@ == noop(),
{
    let zero = Expr::Number(Num { bits: 0, text: "0".to_string() });
    assert(zero@ == ExprView::Number(NumView { bits: 0, text: "0"@ }));
    Stmt::Expr(zero)
}

/// Harvests the first `App({ body: .. })` call at the top of the module: emits the
/// page for its body, collects the closures that the page calls, takes the call out of
/// the module, and rewrites the calls of state variables in all of it. Without such a call there is no page, and the module stays as
/// it is; so it does where the widgets have no finite tree.
pub fn emit_index_ets(module: &mut Module) -> (r: Result<Option<HarvestResult>, EmitError>)
    ensures
        match harvest(old(module)@) {
            HarvestView::NoApp => r matches Ok(None) && *final(module) == *old(module),
            HarvestView::Endless => r matches Err(EmitError::EndlessTree) && *final(module)
                == *old(module),
            HarvestView::Page { source, callbacks, module: stripped } => {
                &&& r matches Ok(Some(h))
                &&& h.ets_source@ == source
                &&& exprs_view(h.callbacks@) == callbacks
                &&& final(module)@ == stripped
            },
        },
{
    let states = collect_state_bindings(&module.init);
    let Module { name, classes, functions, mut init } = rewritten_module(
        module,
        Pass::State(&states),
    );
    let ghost all = stmts_view(init@);
    assert(all == with_states(module@.init));
    assert(all.len() == init@.len());
    let bindings = collect_const_bindings(&init);
    let (i, body) = match find_app(&init, &module.classes) {
        Some(found) => found,
        None => {
            return Ok(None);
        },
    };
    let env = Env { bindings: &bindings, classes: &module.classes, states: &states };
    let place = Place { depth: 0, locals: Vec::new() };
    let mut emit = Emit {
        callbacks: Vec::new(),
        text_slots: Vec::new(),
        lazy_sources: Vec::new(),
    };
    proof {
        assert(exprs_view(emit.callbacks@) =~= Seq::empty());
        assert(slots_view(emit.text_slots@) =~= Seq::empty());
        assert(lazies_view(emit.lazy_sources@) =~= Seq::empty());
        assert(place@.locals =~= Seq::empty());
    }
    let text: String = match emit_widget(&body, &env, &place, &mut emit, init.len()) {
        Some(t) => t,
        None => {
            return Err(EmitError::EndlessTree);
        },
    };
    let ets_source = wrap_index_page(&text, &emit.text_slots, &emit.lazy_sources);
    init.set(i, nothing());
    assert(stmts_view(init@) =~= all.update(i as int, noop()));
    *module = Module { name, classes, functions, init };
    Ok(Some(HarvestResult { ets_source, callbacks: emit.callbacks }))
}

} // verus!
