//! O0 lowering: every source operation stays visible in the IR. Locals live
//! in entry-block stack slots; named constants keep their expressions.
use vstd::prelude::*;
use crate::ir::builder::{FunctionBuilder, ModuleBuilder, appended, builder_wf, current_open, same_frame, settled, terminated_with};
use crate::ir::census::{Census, census, plus3};
use crate::ir::const_expr::{
    ConstBinaryOp, ConstBinding, ConstCompareOp, ConstExpr, ConstExprKind, ConstRef, ExprKindModel,
    ExprModel, eval_spec, lookup_spec, references_spec,
};
use crate::ir::constant::valid_constant;
use crate::ir::layout::{allocation_align, allocation_align_spec};
use crate::ir::lower_ast::check::{
    Fault, Name, block_check, block_cost, const_check, const_tree, expr_check, expr_cost, lit_check,
    function_check, function_fits, lemma_params_error_persists, lemma_params_len, lemma_params_ok,
    lemma_slots_error_persists, lookup_global, functions_check, globals_check, program_check,
    lemma_functions_error_persists, lemma_globals_error_persists, lookup_name, param_slots, params_check, stmt_check,
    stmt_cost,
};
use crate::ir::lower_ast::error::LowerError;
use crate::ir::lower_ast::frontend;
use crate::ir::lower_ast::support::{
    float_type, int_type, map_binop, map_binop_spec, map_compare, map_compare_spec, type_ref_to_type,
};
use crate::ir::lower_ast::check::type_check;
use crate::ir::module::{Instruction, Module};
use crate::ir::types::{BlockId, ConstValue, GlobalId, Type, TypeModel, ValueId, types_equal};
use crate::ir::validity::constants::{has_id, lemma_lookup_concat, lemma_lookup_none};
use crate::target::{DataLayout, Target, TargetError};

verus! {

broadcast use vstd::std_specs::vec::axiom_vec_index_decreases;

/// An error that lowering a body, a type or a constant expression can report:
/// none of the target and name checks that run first.
pub open spec fn body_error(e: LowerError) -> bool {
    !(e is Target || e is DuplicateFunction || e is DuplicateParameter || e is DuplicateGlobal)
}

/// What a source name stands for in a function.
pub enum Binding {
    /// A stack slot holding a value of `ty`.
    Addr { ptr: ValueId, ty: Type },
    /// A named compile-time constant.
    Const { id: ValueId, ty: Type, value: ConstValue },
}

impl View for Binding {
    type V = Name;

    open spec fn view(&self) -> Name {
        match self {
            Binding::Addr { ty, .. } => Name::Slot(ty@),
            Binding::Const { ty, value, .. } => Name::Constant(ty@, *value),
        }
    }
}

/// The identity of a named constant.
pub open spec fn const_id(b: Binding) -> Option<u32> {
    match b {
        Binding::Const { id, .. } => Some(id.0),
        Binding::Addr { .. } => None,
    }
}

impl Binding {
    fn duplicate(&self) -> (r: Binding)
        ensures
            r@ == self@,
            const_id(r) == const_id(*self),
    {
        match self {
            Binding::Addr { ptr, ty } => Binding::Addr { ptr: *ptr, ty: ty.clone() },
            Binding::Const { id, ty, value } => Binding::Const { id: *id, ty: ty.clone(), value: *value },
        }
    }
}

/// A module-level constant visible to expressions.
pub struct GlobalInfo {
    pub name: String,
    pub id: GlobalId,
    pub ty: Type,
    pub value: ConstValue,
}

impl View for GlobalInfo {
    type V = (Seq<char>, TypeModel, ConstValue);

    open spec fn view(&self) -> (Seq<char>, TypeModel, ConstValue) {
        (self.name@, self.ty@, self.value)
    }
}

pub open spec fn infos(g: Seq<GlobalInfo>) -> Seq<(Seq<char>, TypeModel, ConstValue)> {
    g.map_values(|x: GlobalInfo| x@)
}

/// Module constants are numbered in order.
pub open spec fn globals_ok(g: Seq<GlobalInfo>) -> bool {
    &&& g.len() < u32::MAX
    &&& forall|i: int| 0 <= i < g.len() ==> (#[trigger] g[i]).id == GlobalId(i as u32)
}

/// Source names in scope, latest last; a later binding hides an earlier one.
pub struct Scope {
    pub entries: Vec<(String, Binding)>,
}

impl View for Scope {
    type V = Seq<(Seq<char>, Name)>;

    open spec fn view(&self) -> Seq<(Seq<char>, Name)> {
        self.entries@.map_values(|e: (String, Binding)| (e.0@, e.1@))
    }
}

/// Named constants carry increasing identities, all below `bound`.
pub open spec fn ids_ordered(es: Seq<(String, Binding)>, bound: u32) -> bool {
    &&& forall|i: int|
        0 <= i < es.len() && (#[trigger] const_id(es[i].1)) is Some ==> const_id(es[i].1).unwrap() < bound
    &&& forall|i: int, j: int|
        0 <= i < j < es.len() && (#[trigger] const_id(es[i].1)) is Some && (#[trigger] const_id(
            es[j].1,
        )) is Some ==> const_id(es[i].1).unwrap() < const_id(es[j].1).unwrap()
}

pub proof fn lemma_lookup_name_at(s: Seq<(Seq<char>, Name)>, n: Seq<char>, i: int)
    requires
        0 <= i < s.len(),
        s[i].0 == n,
        forall|j: int| i < j < s.len() ==> (#[trigger] s[j]).0 != n,
    ensures
        lookup_name(s, n) == Some(s[i].1),
    decreases s.len(),
{
    if i < s.len() - 1 {
        assert(s.last() == s[s.len() - 1]);
        lemma_lookup_name_at(s.drop_last(), n, i);
    }
}

pub proof fn lemma_lookup_name_none(s: Seq<(Seq<char>, Name)>, n: Seq<char>)
    requires
        forall|j: int| 0 <= j < s.len() ==> (#[trigger] s[j]).0 != n,
    ensures
        lookup_name(s, n) is None,
    decreases s.len(),
{
    if s.len() > 0 {
        assert(s.last() == s[s.len() - 1]);
        lemma_lookup_name_none(s.drop_last(), n);
    }
}

pub proof fn lemma_lookup_global_at(g: Seq<(Seq<char>, TypeModel, ConstValue)>, n: Seq<char>, i: int)
    requires
        0 <= i < g.len(),
        g[i].0 == n,
        forall|j: int| 0 <= j < i ==> (#[trigger] g[j]).0 != n,
    ensures
        lookup_global(g, n) == Some((g[i].1, g[i].2)),
    decreases g.len(),
{
    if i > 0 {
        assert(g[0].0 != n);
        lemma_lookup_global_at(g.drop_first(), n, i - 1);
    }
}

pub proof fn lemma_lookup_global_none(g: Seq<(Seq<char>, TypeModel, ConstValue)>, n: Seq<char>)
    requires
        forall|j: int| 0 <= j < g.len() ==> (#[trigger] g[j]).0 != n,
    ensures
        lookup_global(g, n) is None,
    decreases g.len(),
{
    if g.len() > 0 {
        assert(g[0].0 != n);
        lemma_lookup_global_none(g.drop_first(), n);
    }
}

impl Scope {
    fn new() -> (r: Scope)
        ensures
            r@ == Seq::<(Seq<char>, Name)>::empty(),
            r.entries@.len() == 0,
    {
        let r = Scope { entries: Vec::new() };
        assert(r@ =~= Seq::<(Seq<char>, Name)>::empty());
        r
    }

    fn insert(&mut self, name: &String, binding: Binding)
        ensures
            final(self)@ == old(self)@.push((name@, binding@)),
            final(self).entries@.len() == old(self).entries@.len() + 1,
            forall|i: int|
                0 <= i < old(self).entries@.len() ==> const_id(#[trigger] final(self).entries@[i].1)
                    == const_id(old(self).entries@[i].1),
            const_id(final(self).entries@.last().1) == const_id(binding),
    {
        let ghost b = binding;
        self.entries.push((name.clone(), binding));
        assert(self@ =~= old(self)@.push((name@, b@)));
    }

    fn get(&self, name: &String) -> (r: Option<&Binding>)
        ensures
            match lookup_name(self@, name@) {
                None => r is None,
                Some(nm) => r matches Some(b) && b@ == nm && exists|i: int|
                    0 <= i < self.entries@.len() && self.entries@[i].1 == *b && last_named(
                        self.entries@,
                        name@,
                        i,
                    ),
            },
            r is None ==> forall|i: int| 0 <= i < self.entries@.len() ==> (#[trigger] self.entries@[i]).0@ != name@,
    {
        let mut i = self.entries.len();
        while i > 0
            invariant
                0 <= i <= self.entries.len(),
                forall|j: int| i <= j < self.entries@.len() ==> (#[trigger] self.entries@[j]).0@ != name@,
            decreases i,
        {
            i -= 1;
            if self.entries[i].0 == *name {
                proof {
                    assert forall|j: int| i < j < self@.len() implies (#[trigger] self@[j]).0 != name@ by {
                        assert(self@[j].0 == self.entries@[j].0@);
                    }
                    lemma_lookup_name_at(self@, name@, i as int);
                    assert(last_named(self.entries@, name@, i as int));
                }
                return Some(&self.entries[i].1);
            }
        }
        proof {
            assert forall|j: int| 0 <= j < self@.len() implies (#[trigger] self@[j]).0 != name@ by {
                assert(self@[j].0 == self.entries@[j].0@);
            }
            lemma_lookup_name_none(self@, name@);
        }
        None
    }

    fn duplicate(&self) -> (r: Scope)
        ensures
            r@ == self@,
            r.entries@.len() == self.entries@.len(),
            forall|i: int|
                0 <= i < self.entries@.len() ==> const_id(#[trigger] r.entries@[i].1) == const_id(
                    self.entries@[i].1,
                ),
    {
        let mut entries: Vec<(String, Binding)> = Vec::new();
        let mut i: usize = 0;
        while i < self.entries.len()
            invariant
                0 <= i <= self.entries.len(),
                entries@.len() == i,
                forall|j: int|
                    0 <= j < i ==> (#[trigger] entries@[j]).0@ == self.entries@[j].0@ && entries@[j].1@
                        == self.entries@[j].1@ && const_id(entries@[j].1) == const_id(
                        self.entries@[j].1,
                    ),
            decreases self.entries.len() - i,
        {
            entries.push((self.entries[i].0.clone(), self.entries[i].1.duplicate()));
            i += 1;
        }
        let r = Scope { entries };
        assert(r@ =~= self@);
        r
    }
}

/// The position of the first global named `name`.
fn find_global_index(globals: &Vec<GlobalInfo>, name: &String) -> (r: Option<usize>)
    ensures
        r matches Some(i) ==> forall|j: int| 0 <= j < i ==> #[trigger] globals@[j].name@ != name@,
        r matches Some(i) ==> i < globals@.len() && globals@[i as int].name@ == name@ && lookup_global(
            infos(globals@),
            name@,
        ) == Some((globals@[i as int].ty@, globals@[i as int].value)),
        r is None ==> forall|i: int| 0 <= i < globals@.len() ==> #[trigger] globals@[i].name@ != name@,
        r is None ==> lookup_global(infos(globals@), name@) is None,
{
    let mut i: usize = 0;
    while i < globals.len()
        invariant
            0 <= i <= globals@.len(),
            forall|j: int| 0 <= j < i ==> #[trigger] globals@[j].name@ != name@,
        decreases globals.len() - i,
    {
        if globals[i].name == *name {
            proof {
                let g = infos(globals@);
                assert forall|j: int| 0 <= j < i implies (#[trigger] g[j]).0 != name@ by {
                    assert(g[j].0 == globals@[j].name@);
                }
                lemma_lookup_global_at(g, name@, i as int);
            }
            return Some(i);
        }
        i += 1;
    }
    proof {
        let g = infos(globals@);
        assert forall|j: int| 0 <= j < g.len() implies (#[trigger] g[j]).0 != name@ by {
            assert(g[j].0 == globals@[j].name@);
        }
        lemma_lookup_global_none(g, name@);
    }
    None
}

#[derive(Clone, Copy)]
struct LoopCtx {
    cond_bb: BlockId,
    exit_bb: BlockId,
}

/// A literal as a typed constant; integers must fit their declared width.
pub fn lit_to_const(l: &frontend::Lit) -> (r: Result<(Type, ConstValue), LowerError>)
    ensures
        r matches Err(e) ==> body_error(e),
        match lit_check(*l) {
            Ok((t, v)) => r matches Ok(p) && p.0@ == t && p.1 == v,
            Err(f) => r matches Err(e) && e@ == f,
        },
{
    match l {
        frontend::Lit::Bool(b) => Ok((Type::Bool, ConstValue::Bool(*b))),
        frontend::Lit::Int { bits, signed, value } => {
            let ty = int_type(*bits, *signed)?;
            let payload = if *signed {
                ConstValue::I(*value)
            } else {
                if *value < 0 {
                    return Err(LowerError::InvalidLiteral { ty, value: ConstValue::I(*value) });
                }
                ConstValue::U(*value as u128)
            };
            if !valid_constant(&ty, &payload) {
                return Err(LowerError::InvalidLiteral { ty, value: payload });
            }
            Ok((ty, payload))
        },
        frontend::Lit::Float { bits, value } => {
            let ty = float_type(*bits)?;
            Ok((ty, ConstValue::F(*value)))
        },
    }
}

/// The names of a scope, if any, as entries.
pub open spec fn scope_entries(locals: Option<&Scope>) -> Option<Seq<(String, Binding)>> {
    match locals {
        Some(sc) => Some(sc.entries@),
        None => None,
    }
}

/// The names of the module constants.
pub open spec fn global_names(g: Seq<GlobalInfo>) -> Seq<Seq<char>> {
    g.map_values(|x: GlobalInfo| x.name@)
}

/// The names of the first `k` constants of a program.
pub open spec fn earlier_names(gs: Seq<frontend::GlobalConst>, k: int) -> Seq<Seq<char>> {
    gs.take(k).map_values(|x: frontend::GlobalConst| x.name@)
}

/// Entry `i` of `es` is the last one called `n`.
pub open spec fn last_named(es: Seq<(String, Binding)>, n: Seq<char>, i: int) -> bool {
    &&& 0 <= i < es.len()
    &&& es[i].0@ == n
    &&& forall|j: int| i < j < es.len() ==> (#[trigger] es[j]).0@ != n
}

/// Each name of `e` stays a reference in `p`: to the identity of the last
/// named constant of `es` with that name, or else to the first module
/// constant with that name; literals stay literals, operations stay
/// operations.
pub open spec fn names_kept(p: ExprModel, e: frontend::Expr, es: Option<Seq<(String, Binding)>>, g: Seq<Seq<char>>) -> bool
    decreases e,
{
    match e {
        frontend::Expr::Lit(_) => p.kind is Literal,
        frontend::Expr::Var(n) => match p.kind {
            ExprKindModel::Reference(ConstRef::Local(vid)) => es matches Some(s) && exists|k: int|
                #[trigger] last_named(s, n@, k) && const_id(s[k].1) == Some(vid.0),
            ExprKindModel::Reference(ConstRef::Global(gid)) => {
                &&& 0 <= gid.0 < g.len()
                &&& g[gid.0 as int] == n@
                &&& forall|j: int| 0 <= j < gid.0 ==> #[trigger] g[j] != n@
                &&& es matches Some(s) ==> forall|k: int| 0 <= k < s.len() ==> (#[trigger] s[k]).0@ != n@
            },
            _ => false,
        },
        frontend::Expr::Binary { left, right, .. } => p.kind matches ExprKindModel::Binary { left: l, right: r, .. }
            && names_kept(*l, *left, es, g) && names_kept(*r, *right, es, g),
        frontend::Expr::Cmp { left, right, .. } => p.kind matches ExprKindModel::Compare { left: l, right: r, .. }
            && names_kept(*l, *left, es, g) && names_kept(*r, *right, es, g),
    }
}

pub open spec fn scope_view(locals: Option<&Scope>) -> Option<Seq<(Seq<char>, Name)>> {
    match locals {
        Some(sc) => Some(sc@),
        None => None,
    }
}

/// `p` is the tree `t` with each value that a name stands for written as a
/// reference to that name's constant: a module constant of `g`, or a named
/// constant among the entries `es`.
pub open spec fn resolves_with(
    p: ExprModel,
    t: ExprModel,
    es: Option<Seq<(String, Binding)>>,
    g: Seq<GlobalInfo>,
) -> bool
    decreases p,
{
    &&& p.ty == t.ty
    &&& match p.kind {
        ExprKindModel::Literal(a) => t.kind == ExprKindModel::Literal(a),
        ExprKindModel::Reference(ConstRef::Global(gid)) => {
            &&& gid.0 < g.len()
            &&& g[gid.0 as int].ty@ == t.ty
            &&& t.kind == ExprKindModel::Literal(g[gid.0 as int].value)
        },
        ExprKindModel::Reference(ConstRef::Local(vid)) => local_resolves(vid, t, es),
        ExprKindModel::Binary { op, left, right } => t.kind matches ExprKindModel::Binary {
            op: o2,
            left: l2,
            right: r2,
        } && op == o2 && resolves_with(*left, *l2, es, g) && resolves_with(*right, *r2, es, g),
        ExprKindModel::Compare { op, left, right } => t.kind matches ExprKindModel::Compare {
            op: o2,
            left: l2,
            right: r2,
        } && op == o2 && resolves_with(*left, *l2, es, g) && resolves_with(*right, *r2, es, g),
    }
}

/// Some named constant of `es` has identity `vid` and the type and value of the literal `t`.
pub open spec fn local_resolves(vid: ValueId, t: ExprModel, es: Option<Seq<(String, Binding)>>) -> bool {
    es matches Some(s) && exists|k: int|
        0 <= k < s.len() && #[trigger] s[k].1 == (Binding::Const { id: vid, ty: const_ty(s[k].1), value: const_value(s[k].1) })
            && const_ty(s[k].1)@ == t.ty && t.kind == ExprKindModel::Literal(const_value(s[k].1))
}

pub open spec fn const_ty(b: Binding) -> Type {
    match b {
        Binding::Const { ty, .. } => ty,
        Binding::Addr { ty, .. } => ty,
    }
}

pub open spec fn const_value(b: Binding) -> ConstValue {
    match b {
        Binding::Const { value, .. } => value,
        Binding::Addr { .. } => ConstValue::Bool(false),
    }
}

pub open spec fn binds_to<'a>(o: Option<ConstBinding<'a>>, ty: TypeModel, v: ConstValue) -> bool {
    o matches Some(b) && b.ty@ == ty && b.value == v
}

pub open spec fn local_at_most(id: ConstRef, hi: int) -> bool {
    id matches ConstRef::Local(v) && v.0 <= hi
}

/// `env` binds every module constant and every named constant of `es` to its type and value.
pub open spec fn env_binds<'a>(env: Seq<ConstBinding<'a>>, es: Option<Seq<(String, Binding)>>, g: Seq<GlobalInfo>) -> bool {
    &&& forall|i: int|
        0 <= i < g.len() ==> binds_to(#[trigger] lookup_spec(env, ConstRef::Global(g[i].id)), g[i].ty@, g[i].value)
    &&& es matches Some(s) ==> forall|k: int|
        0 <= k < s.len() && (#[trigger] s[k].1) is Const ==> binds_to(lookup_spec(env, ConstRef::Local(ValueId(const_id(s[k].1).unwrap()))), const_ty(s[k].1)@, const_value(s[k].1))
}

/// Evaluating references through an environment that binds them gives the
/// value of the tree with the bound values written in.
pub proof fn lemma_resolved_eval<'a>(
    p: ExprModel,
    t: ExprModel,
    es: Option<Seq<(String, Binding)>>,
    g: Seq<GlobalInfo>,
    env: Seq<ConstBinding<'a>>,
)
    requires
        resolves_with(p, t, es, g),
        env_binds(env, es, g),
        globals_ok(g),
    ensures
        eval_spec(p, env) == eval_spec(t, Seq::<ConstBinding<'a>>::empty()),
    decreases p,
{
    match p.kind {
        ExprKindModel::Reference(ConstRef::Global(gid)) => {
            let i = gid.0 as int;
            assert(g[i].id == gid);
            assert(binds_to(lookup_spec(env, ConstRef::Global(g[i].id)), g[i].ty@, g[i].value));
        },
        ExprKindModel::Reference(ConstRef::Local(vid)) => {
            let s = es.unwrap();
            let k = choose|k: int|
                0 <= k < s.len() && #[trigger] s[k].1 == (Binding::Const {
                    id: vid,
                    ty: const_ty(s[k].1),
                    value: const_value(s[k].1),
                }) && const_ty(s[k].1)@ == t.ty && t.kind == ExprKindModel::Literal(const_value(s[k].1));
            assert(ValueId(const_id(s[k].1).unwrap()) == vid);
            assert(binds_to(lookup_spec(env, ConstRef::Local(vid)), const_ty(s[k].1)@, const_value(s[k].1)));
        },
        ExprKindModel::Binary { left, right, .. } => {
            if let ExprKindModel::Binary { left: l2, right: r2, .. } = t.kind {
                lemma_resolved_eval(*left, *l2, es, g, env);
                lemma_resolved_eval(*right, *r2, es, g, env);
                assert(left.ty == l2.ty && right.ty == r2.ty) by {
                    reveal_with_fuel(resolves_with, 2);
                }
                lemma_compound_eval(p, t, env);
            }
        },
        ExprKindModel::Compare { left, right, .. } => {
            if let ExprKindModel::Compare { left: l2, right: r2, .. } = t.kind {
                lemma_resolved_eval(*left, *l2, es, g, env);
                lemma_resolved_eval(*right, *r2, es, g, env);
                assert(left.ty == l2.ty && right.ty == r2.ty) by {
                    reveal_with_fuel(resolves_with, 2);
                }
                lemma_compound_eval(p, t, env);
            }
        },
        ExprKindModel::Literal(_) => {},
    }
}

/// Two operator nodes with operands of equal types and values evaluate alike.
proof fn lemma_compound_eval<'a>(p: ExprModel, t: ExprModel, env: Seq<ConstBinding<'a>>)
    requires
        p.ty == t.ty,
        match (p.kind, t.kind) {
            (
                ExprKindModel::Binary { op, left, right },
                ExprKindModel::Binary { op: o2, left: l2, right: r2 },
            ) => op == o2 && left.ty == l2.ty && right.ty == r2.ty && eval_spec(*left, env)
                == eval_spec(*l2, Seq::<ConstBinding<'a>>::empty()) && eval_spec(*right, env)
                == eval_spec(*r2, Seq::<ConstBinding<'a>>::empty()),
            (
                ExprKindModel::Compare { op, left, right },
                ExprKindModel::Compare { op: o2, left: l2, right: r2 },
            ) => op == o2 && left.ty == l2.ty && right.ty == r2.ty && eval_spec(*left, env)
                == eval_spec(*l2, Seq::<ConstBinding<'a>>::empty()) && eval_spec(*right, env)
                == eval_spec(*r2, Seq::<ConstBinding<'a>>::empty()),
            _ => false,
        },
    ensures
        eval_spec(p, env) == eval_spec(t, Seq::<ConstBinding<'a>>::empty()),
{
}

/// The preserved tree of a compile-time expression, with names resolved to identities.
fn preserve_const_expr(
    expr: &frontend::Expr,
    locals: Option<&Scope>,
    globals: &Vec<GlobalInfo>,
) -> (r: Result<ConstExpr, LowerError>)
    requires
        globals_ok(globals@),
    ensures
        r matches Err(e) ==> body_error(e),
        match const_tree(scope_view(locals), infos(globals@), *expr) {
            Err(f) => r matches Err(e) && e@ == f,
            Ok(t) => r matches Ok(p) && resolves_with(p@, t, scope_entries(locals), globals@) && names_kept(
                p@,
                *expr,
                scope_entries(locals),
                global_names(globals@),
            ),
        },
    decreases expr,
{
    match expr {
        frontend::Expr::Lit(literal) => {
            let (ty, value) = lit_to_const(literal)?;
            Ok(ConstExpr::literal(ty, value))
        },
        frontend::Expr::Var(name) => {
            if let Some(scope) = locals {
                if let Some(binding) = scope.get(name) {
                    return match binding {
                        Binding::Const { id, ty, .. } => {
                            let r = ConstExpr {
                                ty: ty.clone(),
                                kind: ConstExprKind::Reference(ConstRef::Local(*id)),
                            };
                            proof {
                                let s = scope.entries@;
                                let i = choose|i: int| 0 <= i < s.len() && s[i].1 == *binding;
                                assert(s[i].1 == (Binding::Const {
                                    id: *id,
                                    ty: const_ty(s[i].1),
                                    value: const_value(s[i].1),
                                }));
                            }
                            Ok(r)
                        },
                        Binding::Addr { .. } => Err(LowerError::NonConstExpr),
                    };
                }
            }
            match find_global_index(globals, name) {
                Some(i) => {
                    let g = &globals[i];
                    proof {
                        assert(g.id == GlobalId(i as u32));
                    }
                    Ok(ConstExpr { ty: g.ty.clone(), kind: ConstExprKind::Reference(ConstRef::Global(g.id)) })
                },
                None => Err(LowerError::UnknownVariable(name.clone())),
            }
        },
        frontend::Expr::Binary { left, op, right } => {
            let left = preserve_const_expr(left, locals, globals)?;
            let right = preserve_const_expr(right, locals, globals)?;
            if !types_equal(&left.ty, &right.ty) {
                return Err(LowerError::TypeMismatch { expected: left.ty, got: right.ty });
            }
            let op = match op {
                frontend::BinOpRef::Add => ConstBinaryOp::Add,
                frontend::BinOpRef::Sub => ConstBinaryOp::Sub,
                frontend::BinOpRef::Mul => ConstBinaryOp::Mul,
            };
            let ty = left.ty.clone();
            Ok(ConstExpr { ty, kind: ConstExprKind::Binary { op, left: Box::new(left), right: Box::new(right) } })
        },
        frontend::Expr::Cmp { left, op, right } => {
            let left = preserve_const_expr(left, locals, globals)?;
            let right = preserve_const_expr(right, locals, globals)?;
            if !types_equal(&left.ty, &right.ty) {
                return Err(LowerError::TypeMismatch { expected: left.ty, got: right.ty });
            }
            let op = match op {
                frontend::CmpOpRef::Eq => ConstCompareOp::Eq,
                frontend::CmpOpRef::Ne => ConstCompareOp::Ne,
                frontend::CmpOpRef::Lt => ConstCompareOp::Lt,
                frontend::CmpOpRef::Le => ConstCompareOp::Le,
                frontend::CmpOpRef::Gt => ConstCompareOp::Gt,
                frontend::CmpOpRef::Ge => ConstCompareOp::Ge,
            };
            Ok(
                ConstExpr {
                    ty: Type::Bool,
                    kind: ConstExprKind::Compare { op, left: Box::new(left), right: Box::new(right) },
                },
            )
        },
    }
}

/// The constants an expression may reference: the globals, then the named
/// constants of the enclosing scope.
fn const_env<'a>(locals: Option<&'a Scope>, globals: &'a Vec<GlobalInfo>) -> (r: Vec<ConstBinding<'a>>)
    requires
        globals_ok(globals@),
        locals matches Some(sc) ==> ids_ordered(sc.entries@, u32::MAX),
    ensures
        env_binds(r@, scope_entries(locals), globals@),
{
    let mut env: Vec<ConstBinding<'a>> = Vec::new();
    let mut i: usize = 0;
    while i < globals.len()
        invariant
            0 <= i <= globals.len(),
            globals_ok(globals@),
            env@.len() == i,
            forall|p: int| 0 <= p < i ==> (#[trigger] env@[p]).id == ConstRef::Global(GlobalId(p as u32)),
            forall|q: int|
                0 <= q < i ==> binds_to(#[trigger] lookup_spec(env@, ConstRef::Global(globals@[q].id)), globals@[q].ty@, globals@[q].value),
        decreases globals.len() - i,
    {
        let g = &globals[i];
        let ghost before = env@;
        let b = ConstBinding { id: ConstRef::Global(g.id), ty: &g.ty, value: g.value };
        env.push(b);
        proof {
            assert(g.id == GlobalId(i as u32));
            assert(!has_id(before, ConstRef::Global(g.id))) by {
                if has_id(before, ConstRef::Global(g.id)) {
                    let p = choose|p: int| 0 <= p < before.len() && #[trigger] before[p].id == ConstRef::Global(g.id);
                    assert(before[p].id == ConstRef::Global(GlobalId(p as u32)));
                }
            }
            assert(env@ == before + seq![b]);
            lemma_lookup_concat(before, seq![b], ConstRef::Global(g.id));
            assert forall|q: int| 0 <= q < i + 1 implies binds_to(#[trigger] lookup_spec(env@, ConstRef::Global(globals@[q].id)), globals@[q].ty@, globals@[q].value) by {
                if q < i {
                    let id = ConstRef::Global(globals@[q].id);
                    lemma_lookup_concat(before, seq![b], id);
                    lemma_lookup_none(before, id);
                }
            }
        }
        i += 1;
    }
    if let Some(scope) = locals {
        let ghost es = scope.entries@;
        let ghost mut hi: int = -1;
        let mut k: usize = 0;
        while k < scope.entries.len()
            invariant
                0 <= k <= scope.entries.len(),
                es == scope.entries@,
                ids_ordered(es, u32::MAX),
                env@.len() >= globals@.len(),
                forall|p: int| 0 <= p < globals@.len() ==> (#[trigger] env@[p]).id == ConstRef::Global(GlobalId(p as u32)),
                forall|p: int|
                    globals@.len() <= p < env@.len() ==> local_at_most((#[trigger] env@[p]).id, hi),
                forall|j: int| k <= j < es.len() && (#[trigger] const_id(es[j].1)) is Some ==> const_id(es[j].1).unwrap() > hi,
                forall|q: int|
                    0 <= q < globals@.len() ==> binds_to(#[trigger] lookup_spec(env@, ConstRef::Global(globals@[q].id)), globals@[q].ty@, globals@[q].value),
                forall|q: int|
                    0 <= q < k && (#[trigger] es[q].1) is Const ==> binds_to(lookup_spec(env@, ConstRef::Local(ValueId(const_id(es[q].1).unwrap()))), const_ty(es[q].1)@, const_value(es[q].1)),
            decreases scope.entries.len() - k,
        {
            match &scope.entries[k].1 {
                Binding::Const { id, ty, value } => {
                    let ghost before = env@;
                    let b = ConstBinding { id: ConstRef::Local(*id), ty, value: *value };
                    env.push(b);
                    proof {
                        let nid = ConstRef::Local(*id);
                        assert(const_id(es[k as int].1) == Some(id.0));
                        assert(!has_id(before, nid)) by {
                            if has_id(before, nid) {
                                let p = choose|p: int| 0 <= p < before.len() && #[trigger] before[p].id == nid;
                                if p < globals@.len() {
                                    assert(before[p].id == ConstRef::Global(GlobalId(p as u32)));
                                } else {
                                    assert(local_at_most(before[p].id, hi));
                                }
                            }
                        }
                        assert(env@ == before + seq![b]);
                        lemma_lookup_concat(before, seq![b], nid);
                        assert forall|q: int|
                            0 <= q < globals@.len() implies binds_to(#[trigger] lookup_spec(env@, ConstRef::Global(globals@[q].id)), globals@[q].ty@, globals@[q].value) by {
                            let gid = ConstRef::Global(globals@[q].id);
                            lemma_lookup_concat(before, seq![b], gid);
                            lemma_lookup_none(before, gid);
                        }
                        assert forall|q: int|
                            0 <= q < k + 1 && (#[trigger] es[q].1) is Const implies binds_to(lookup_spec(env@, ConstRef::Local(ValueId(const_id(es[q].1).unwrap()))), const_ty(es[q].1)@, const_value(es[q].1)) by {
                            if q < k {
                                let lid = ConstRef::Local(ValueId(const_id(es[q].1).unwrap()));
                                lemma_lookup_concat(before, seq![b], lid);
                                lemma_lookup_none(before, lid);
                            }
                        }
                        hi = id.0 as int;
                        assert forall|j: int| k + 1 <= j < es.len() && (#[trigger] const_id(es[j].1)) is Some implies const_id(
                            es[j].1,
                        ).unwrap() > hi by {
                            assert(const_id(es[k as int].1) is Some);
                        }
                    }
                },
                Binding::Addr { .. } => {},
            }
            k += 1;
        }
    }
    env
}

/// Preserve and evaluate a compile-time expression. An expression that does
/// not evaluate (an unsupported operation, a wrong type) is unsupported.
fn eval_const_expr(
    expr: &frontend::Expr,
    locals: Option<&Scope>,
    globals: &Vec<GlobalInfo>,
) -> (r: Result<(ConstExpr, ConstValue), LowerError>)
    requires
        globals_ok(globals@),
        locals matches Some(sc) ==> ids_ordered(sc.entries@, u32::MAX),
    ensures
        r matches Err(e) ==> body_error(e),
        match const_check(scope_view(locals), infos(globals@), *expr) {
            Err(f) => r matches Err(e) && e@ == f,
            Ok((t, v)) => r matches Ok(p) && p.0.ty@ == t && p.1 == v,
        },
        r matches Ok(p) ==> names_kept(p.0@, *expr, scope_entries(locals), global_names(globals@)),
        r matches Ok(p) ==> resolves_with(
            p.0@,
            const_tree(scope_view(locals), infos(globals@), *expr)->Ok_0,
            scope_entries(locals),
            globals@,
        ),
{
    let expression = preserve_const_expr(expr, locals, globals)?;
    let value = {
        let env = const_env(locals, globals);
        let ev = expression.evaluate(&env);
        proof {
            let t = const_tree(scope_view(locals), infos(globals@), *expr)->Ok_0;
            lemma_resolved_eval(expression@, t, scope_entries(locals), globals@, env@);
        }
        match ev {
            Ok(v) => v,
            Err(_) => return Err(LowerError::UnsupportedExpr),
        }
    };
    Ok((expression, value))
}

fn emit_const_value(fb: &mut FunctionBuilder<'_>, ty: &Type, v: &ConstValue) -> (r: ValueId)
    requires
        builder_wf(*old(fb)),
    ensures
        builder_wf(*final(fb)),
        census(final(fb).func.blocks@) == census(old(fb).func.blocks@),
        same_frame(*old(fb), *final(fb)),
        settled(*old(fb), *final(fb)),
        current_open(*old(fb)) ==> final(fb).current == old(fb).current && final(fb).next_block == old(fb).next_block
            && current_open(*final(fb)),
        final(fb).next_value == old(fb).next_value.wrapping_add(1),
        r == ValueId(old(fb).next_value),
{
    match v {
        ConstValue::Bool(b) => fb.const_bool(*b),
        ConstValue::I(i) => fb.const_int(ty.clone(), *i),
        ConstValue::U(u) => fb.const_uint(ty.clone(), *u),
        ConstValue::F(x) => fb.const_float(ty.clone(), *x),
    }
}

fn lower_lit_o0(fb: &mut FunctionBuilder<'_>, lit: &frontend::Lit) -> (r: Result<(ValueId, Type), LowerError>)
    requires
        builder_wf(*old(fb)),
        old(fb).next_value < u32::MAX,
    ensures
        r matches Err(e) ==> body_error(e),
        census(final(fb).func.blocks@) == census(old(fb).func.blocks@),
        match lit_check(*lit) {
            Ok((t, _)) => r matches Ok(p) && p.1@ == t,
            Err(f) => r matches Err(e) && e@ == f,
        },
        builder_wf(*final(fb)),
        same_frame(*old(fb), *final(fb)),
        settled(*old(fb), *final(fb)),
        current_open(*old(fb)) ==> final(fb).current == old(fb).current && final(fb).next_block == old(fb).next_block
            && current_open(*final(fb)),
        old(fb).next_value <= final(fb).next_value <= old(fb).next_value + 1,
        r matches Ok(p) ==> p.0 == ValueId(old(fb).next_value) && final(fb).next_value == old(fb).next_value + 1,
{
    let (ty, value) = lit_to_const(lit)?;
    let id = emit_const_value(fb, &ty, &value);
    Ok((id, ty))
}

/// The identity of the value that lowering `e` yields when the next fresh
/// identity is `n`, and the next fresh identity after it: a named constant
/// yields its own identity; a slot, a module constant, a literal and an
/// operation each yield a fresh one, operands first, left before right.
pub open spec fn expr_value(es: Seq<(String, Binding)>, e: frontend::Expr, n: int) -> (int, int)
    decreases e,
{
    match e {
        frontend::Expr::Var(name) => {
            let k = choose|k: int| last_named(es, name@, k);
            if (exists|k: int| last_named(es, name@, k)) && es[k].1 is Const {
                (const_id(es[k].1).unwrap() as int, n)
            } else {
                (n, n + 1)
            }
        },
        frontend::Expr::Lit(_) => (n, n + 1),
        frontend::Expr::Binary { left, right, .. } | frontend::Expr::Cmp { left, right, .. } => {
            let l = expr_value(es, *left, n);
            let r = expr_value(es, *right, l.1);
            (r.1, r.1 + 1)
        },
    }
}

/// Some block of `b` ends with `t`.
pub open spec fn has_terminator(b: FunctionBuilder, t: crate::ir::module::Terminator) -> bool {
    exists|j: int| 0 <= j < b.func.blocks@.len() && #[trigger] b.func.blocks@[j].terminator == Some(t)
}

/// After lowering the `if` statement `st` from `a` to `b`, some block ends
/// with a branch on the condition's value to the first of two consecutive
/// new blocks when it holds, and to the second otherwise.
pub open spec fn if_branched(st: frontend::Stmt, es: Seq<(String, Binding)>, a: FunctionBuilder, b: FunctionBuilder) -> bool {
    match st {
        frontend::Stmt::If { cond, .. } => exists|x: u32|
            #[trigger] has_terminator(
                b,
                crate::ir::module::Terminator::CBr {
                    cond: ValueId(expr_value(es, cond, fresh_from(a)).0 as u32),
                    then_bb: BlockId(x),
                    else_bb: BlockId(x.wrapping_add(1)),
                },
            ),
        _ => true,
    }
}

pub proof fn lemma_settled_keeps(a: FunctionBuilder, b: FunctionBuilder, t: crate::ir::module::Terminator)
    requires
        settled(a, b),
        has_terminator(a, t),
    ensures
        has_terminator(b, t),
{
    let j = choose|j: int| 0 <= j < a.func.blocks@.len() && #[trigger] a.func.blocks@[j].terminator == Some(t);
    assert(b.func.blocks@[j].terminator == Some(t));
}

/// The statement neither branches nor returns: it only adds to the current block.
pub open spec fn straight_line(st: frontend::Stmt) -> bool {
    st is ConstDecl || st is VarDecl || st is Assign || st is ExprStmt
}

/// Lowering went on in the block it started in, which is still open.
pub open spec fn stays_open(a: FunctionBuilder, b: FunctionBuilder) -> bool {
    current_open(a) ==> b.current == a.current && current_open(b)
}

/// No statement of the body branches or returns.
pub open spec fn straight_body(f: frontend::Function) -> bool {
    forall|j: int| 0 <= j < f.body@.len() ==> straight_line(#[trigger] f.body@[j])
}

/// A straight-line body runs in the entry block, which is closed as a body
/// that falls off its end is.
pub open spec fn closed_if_straight(lowered: crate::ir::module::Function, f: frontend::Function) -> bool {
    straight_body(f) ==> falls_off(lowered, lowered.blocks@[0].terminator)
}

/// How a body that falls off its end is closed: a function without a result
/// returns nothing, any other traps with "missing return".
pub open spec fn falls_off(f: crate::ir::module::Function, t: Option<crate::ir::module::Terminator>) -> bool {
    if f.ret_ty@ is Void {
        t matches Some(crate::ir::module::Terminator::Ret { ty, value }) && value is None
    } else {
        t matches Some(crate::ir::module::Terminator::Trap { reason }) && reason@ == "missing return"@
    }
}

/// After lowering `st` from `a` to `b`: an `if` ends the block of its
/// condition with a branch on the condition's value, to the first of two
/// consecutive new blocks when it holds and to the second otherwise; `break`
/// and `continue` end the current block with a jump to the innermost loop's
/// exit or condition block. After a terminated block, lowering continues in
/// a fresh block added at the end.
spec fn control_lowered(
    st: frontend::Stmt,
    es: Seq<(String, Binding)>,
    loops: Seq<LoopCtx>,
    a: FunctionBuilder,
    b: FunctionBuilder,
) -> bool {
    &&& !current_open(a) ==> b.func.blocks@.len() > a.func.blocks@.len() && b.func.blocks@[a.func.blocks@.len() as int].id
        == BlockId(a.next_block)
    &&& match st {
        frontend::Stmt::If { .. } => if_branched(st, es, a, b),
        frontend::Stmt::Break => b.func.blocks@[b.current as int].terminator == Some(
            crate::ir::module::Terminator::Br { target: loops.last().exit_bb },
        ),
        frontend::Stmt::Continue => b.func.blocks@[b.current as int].terminator == Some(
            crate::ir::module::Terminator::Br { target: loops.last().cond_bb },
        ),
        _ => true,
    }
}

/// The next fresh value identity of a builder.
pub open spec fn fresh_from(fb: FunctionBuilder) -> int {
    fb.next_value as int
}

/// An operation of `e` is the last instruction of the current block of `b`:
/// it defines `v` and reads the values of the left and the right operand,
/// in that order; a read of a variable is the last instruction, a load of
/// `v` from the variable's slot.
pub open spec fn operation_last(b: FunctionBuilder, es: Seq<(String, Binding)>, e: frontend::Expr, n: int, v: ValueId) -> bool {
    let ins = b.func.blocks@[b.current as int].instructions@.last();
    match e {
        frontend::Expr::Binary { left, right, .. } => ins matches Instruction::Bin { dst, lhs, rhs, .. } && dst == v
            && lhs.0 == expr_value(es, *left, n).0 && rhs.0 == expr_value(es, *right, expr_value(es, *left, n).1).0,
        frontend::Expr::Cmp { left, right, .. } => ins matches Instruction::Cmp { dst, lhs, rhs, .. } && dst == v
            && lhs.0 == expr_value(es, *left, n).0 && rhs.0 == expr_value(es, *right, expr_value(es, *left, n).1).0,
        frontend::Expr::Var(name) => {
            let k = choose|k: int| last_named(es, name@, k);
            (exists|k: int| last_named(es, name@, k)) && es[k].1 is Addr ==> loads_from(ins, v, slot_of(es[k].1))
        },
        _ => true,
    }
}

/// The operation of a binary or comparison expression is the one its source
/// operator names at the left operand's type, and carries that type.
pub open spec fn operator_lowered(
    b: FunctionBuilder,
    s: Seq<(Seq<char>, Name)>,
    g: Seq<(Seq<char>, TypeModel, ConstValue)>,
    e: frontend::Expr,
) -> bool {
    let ins = b.func.blocks@[b.current as int].instructions@.last();
    match e {
        frontend::Expr::Binary { left, op, .. } => expr_check(s, g, *left) matches Ok(t) && ins matches Instruction::Bin {
            op: o,
            ty,
            ..
        } && map_binop_spec(op, t) == Some(o) && ty@ == t,
        frontend::Expr::Cmp { left, op, .. } => expr_check(s, g, *left) matches Ok(t) && ins matches Instruction::Cmp {
            op: c,
            ty,
            ..
        } && map_compare_spec(op, t) == Some(c) && ty@ == t,
        _ => true,
    }
}

/// The stack slot of a variable binding.
pub open spec fn slot_of(b: Binding) -> ValueId {
    match b {
        Binding::Addr { ptr, .. } => ptr,
        Binding::Const { id, .. } => id,
    }
}

/// `ins` loads the value `v` from the slot `ptr`.
pub open spec fn loads_from(ins: Instruction, v: ValueId, ptr: ValueId) -> bool {
    ins matches Instruction::Load { dst, ptr: p, .. } && dst == v && p == ptr
}

proof fn lemma_last_named_unique(es: Seq<(String, Binding)>, n: Seq<char>, i: int, k: int)
    requires
        last_named(es, n, i),
        last_named(es, n, k),
    ensures
        i == k,
{
    if i < k {
        assert(es[k].0@ == n);
    } else if k < i {
        assert(es[i].0@ == n);
    }
}

/// Lower an expression to the value it computes and that value's type.
#[verifier::spinoff_prover]
#[verifier::rlimit(40)]
fn lower_expr_o0(
    fb: &mut FunctionBuilder<'_>,
    env: &Scope,
    globals: &Vec<GlobalInfo>,
    expr: &frontend::Expr,
    target: Target,
) -> (r: Result<(ValueId, Type), LowerError>)
    requires
        builder_wf(*old(fb)),
        old(fb).next_value + expr_cost(*expr) <= u32::MAX,
    ensures
        r matches Err(e) ==> body_error(e),
        r is Ok ==> census(final(fb).func.blocks@) == plus3(census(old(fb).func.blocks@), expr_census(*expr)),
        r matches Ok(p) ==> p.0.0 == expr_value(env.entries@, *expr, fresh_from(*old(fb))).0
            && final(fb).next_value == expr_value(env.entries@, *expr, fresh_from(*old(fb))).1
            && operation_last(*final(fb), env.entries@, *expr, fresh_from(*old(fb)), p.0),
        r is Ok ==> operator_lowered(*final(fb), env@, infos(globals@), *expr),
        match expr_check(env@, infos(globals@), *expr) {
            Ok(t) => r matches Ok(p) && p.1@ == t,
            Err(f) => r matches Err(e) && e@ == f,
        },
        builder_wf(*final(fb)),
        same_frame(*old(fb), *final(fb)),
        settled(*old(fb), *final(fb)),
        current_open(*old(fb)) ==> final(fb).current == old(fb).current && final(fb).next_block == old(fb).next_block
            && current_open(*final(fb)),
        old(fb).next_value <= final(fb).next_value <= old(fb).next_value + expr_cost(*expr),
    decreases expr,
{
    match expr {
        frontend::Expr::Var(name) => {
            if let Some(b) = env.get(name) {
                proof {
                    let es = env.entries@;
                    let i = choose|i: int| 0 <= i < es.len() && es[i].1 == *b && last_named(es, name@, i);
                    let k = choose|k: int| last_named(es, name@, k);
                    lemma_last_named_unique(es, name@, i, k);
                }
                return match b {
                    Binding::Addr { ptr, ty } => {
                        let align = match allocation_align(ty, target) {
                            Ok(a) => a,
                            Err(e) => return Err(LowerError::Layout(e)),
                        };
                        let v = fb.load(ty.clone(), *ptr, align);
                        Ok((v, ty.clone()))
                    },
                    Binding::Const { id, ty, .. } => Ok((*id, ty.clone())),
                };
            }
            proof {
                if exists|k: int| last_named(env.entries@, name@, k) {
                    let k = choose|k: int| last_named(env.entries@, name@, k);
                    assert(env.entries@[k].0@ == name@);
                }
            }
            match find_global_index(globals, name) {
                Some(i) => {
                    let g = &globals[i];
                    let v = emit_const_value(fb, &g.ty, &g.value);
                    Ok((v, g.ty.clone()))
                },
                None => Err(LowerError::UnknownVariable(name.clone())),
            }
        },
        frontend::Expr::Lit(lit) => lower_lit_o0(fb, lit),
        frontend::Expr::Binary { left, op, right } => {
            let (lv, lty) = lower_expr_o0(fb, env, globals, left, target)?;
            let (rv, rty) = lower_expr_o0(fb, env, globals, right, target)?;
            if !types_equal(&lty, &rty) {
                return Err(LowerError::TypeMismatch { expected: lty, got: rty });
            }
            let binop = map_binop(*op, &lty)?;
            let out = fb.bin(binop, lty.clone(), lv, rv);
            Ok((out, lty))
        },
        frontend::Expr::Cmp { left, op, right } => {
            let (lv, lty) = lower_expr_o0(fb, env, globals, left, target)?;
            let (rv, rty) = lower_expr_o0(fb, env, globals, right, target)?;
            if !types_equal(&lty, &rty) {
                return Err(LowerError::TypeMismatch { expected: lty, got: rty });
            }
            let compare = map_compare(*op, &lty)?;
            let out = fb.cmp(compare, lty, lv, rv);
            Ok((out, Type::Bool))
        },
    }
}

fn slot_align(ty: &Type, target: Target) -> (r: Result<u32, LowerError>)
    ensures
        r matches Err(e) ==> body_error(e),
        match allocation_align_spec(ty@) {
            Ok(a) => r == Ok::<u32, LowerError>(a),
            Err(le) => r matches Err(e) && e@ == Fault::Layout(le),
        },
{
    match allocation_align(ty, target) {
        Ok(a) => Ok(a),
        Err(e) => Err(LowerError::Layout(e)),
    }
}

/// A check result that leaves the scope as `after`, or reports the same error.
pub open spec fn scope_agrees(
    r: Result<(), LowerError>,
    after: Seq<(Seq<char>, Name)>,
    c: Result<Seq<(Seq<char>, Name)>, Fault>,
) -> bool {
    match c {
        Ok(s) => r is Ok && after == s,
        Err(f) => r matches Err(e) && e@ == f,
    }
}

/// Lowering may start: the builder is consistent, the scope's constants are
/// ordered below the next value identity, and `cost` more identities fit.
pub open spec fn ready(fb: FunctionBuilder, env: Scope, globals: Seq<GlobalInfo>, cost: nat) -> bool {
    &&& builder_wf(fb)
    &&& globals_ok(globals)
    &&& ids_ordered(env.entries@, fb.next_value)
    &&& fb.next_value + cost <= u32::MAX
}

/// Lowering used at most `cost` value identities, kept the function's frame,
/// and left the scope's constants ordered below the next identity.
pub open spec fn stepped(a: FunctionBuilder, b: FunctionBuilder, env: Scope, cost: nat) -> bool {
    &&& builder_wf(b)
    &&& settled(a, b)
    &&& same_frame(a, b)
    &&& a.next_value <= b.next_value <= a.next_value + cost
    &&& ids_ordered(env.entries@, b.next_value)
}

proof fn lemma_ids_raise(es: Seq<(String, Binding)>, a: u32, b: u32)
    requires
        ids_ordered(es, a),
        a <= b,
    ensures
        ids_ordered(es, b),
{
}

pub proof fn lemma_block_cost_prefix(body: Vec<frontend::Stmt>, k: nat, n: nat)
    requires
        k <= n <= body.len(),
    ensures
        block_cost(body, k) <= block_cost(body, n),
    decreases n,
{
    if k < n {
        lemma_block_cost_prefix(body, k, (n - 1) as nat);
    }
}

pub proof fn lemma_block_error_persists(
    s: Seq<(Seq<char>, Name)>,
    g: Seq<(Seq<char>, TypeModel, ConstValue)>,
    depth: nat,
    body: Vec<frontend::Stmt>,
    k: nat,
    n: nat,
    ret: TypeModel,
)
    requires
        k <= n <= body.len(),
        block_check(s, g, depth, body, k, ret) is Err,
    ensures
        block_check(s, g, depth, body, n, ret) == block_check(s, g, depth, body, k, ret),
    decreases n,
{
    if k < n {
        lemma_block_error_persists(s, g, depth, body, k, (n - 1) as nat, ret);
    }
}

/// Lower the statements of `body`, a part of `parent`, in order.
fn lower_block(
    fb: &mut FunctionBuilder<'_>,
    env: &mut Scope,
    globals: &Vec<GlobalInfo>,
    loops: &mut Vec<LoopCtx>,
    parent: &frontend::Stmt,
    body: &Vec<frontend::Stmt>,
    ret_ty: &Type,
    target: Target,
) -> (r: Result<(), LowerError>)
    requires
        ready(*old(fb), *old(env), globals@, block_cost(*body, body.len() as nat)),
        match *parent {
            frontend::Stmt::If { then_body, else_body, .. } => *body == then_body || *body == else_body,
            frontend::Stmt::While { body: b, .. } => *body == b,
            _ => false,
        },
    ensures
        r matches Err(e) ==> body_error(e),
        r is Ok ==> census(final(fb).func.blocks@) == plus3(census(old(fb).func.blocks@), block_census(*body, body.len() as nat)),
        scope_agrees(
            r,
            final(env)@,
            block_check(old(env)@, infos(globals@), old(loops)@.len() as nat, *body, body.len() as nat, ret_ty@),
        ),
        r is Ok ==> final(loops)@ == old(loops)@,
        stepped(*old(fb), *final(fb), *final(env), block_cost(*body, body.len() as nat)),
    decreases parent, 0nat,
{
    let ghost env0 = env@;
    let ghost loops0 = loops@;
    let ghost start = *fb;
    let ghost gv = infos(globals@);
    let ghost depth = loops@.len() as nat;
    let ghost total = block_cost(*body, body.len() as nat);
    let mut i: usize = 0;
    while i < body.len()
        invariant
            0 <= i <= body.len(),
            globals_ok(globals@),
            gv == infos(globals@),
            loops@ == loops0,
            loops0 == old(loops)@,
            env0 == old(env)@,
            start == *old(fb),
            depth == loops0.len(),
            total == block_cost(*body, body.len() as nat),
            start.next_value + total <= u32::MAX,
            block_check(env0, gv, depth, *body, i as nat, ret_ty@) == Ok::<Seq<(Seq<char>, Name)>, Fault>(env@),
            stepped(start, *fb, *env, block_cost(*body, i as nat)),
            census(fb.func.blocks@) == plus3(census(start.func.blocks@), block_census(*body, i as nat)),
            match *parent {
                frontend::Stmt::If { then_body, else_body, .. } => *body == then_body || *body == else_body,
                frontend::Stmt::While { body: b, .. } => *body == b,
                _ => false,
            },
        decreases body.len() - i,
    {
        proof {
            match parent {
                frontend::Stmt::If { then_body, else_body, .. } => {
                    if *body == *then_body {
                        assert(decreases_to!(*parent => *then_body));
                    } else {
                        assert(decreases_to!(*parent => *else_body));
                    }
                },
                frontend::Stmt::While { body: b, .. } => {
                    assert(decreases_to!(*parent => *b));
                },
                _ => {},
            }
            assert(decreases_to!(*body => body[i as int]));
            lemma_block_cost_prefix(*body, (i + 1) as nat, body.len() as nat);
        }
        let ghost env_before = env@;
        let step = lower_stmt_o0(fb, env, globals, loops, &body[i], ret_ty, target);
        proof {
            assert(block_check(env0, gv, depth, *body, (i + 1) as nat, ret_ty@) == stmt_check(
                env_before,
                gv,
                depth,
                body@[i as int],
                ret_ty@,
            ));
        }
        proof {
            assert(block_census(*body, (i + 1) as nat) == plus3(
                block_census(*body, i as nat),
                stmt_census(body@[i as int]),
            ));
        }
        if let Err(e) = step {
            proof {
                assert(block_check(env0, gv, depth, *body, (i + 1) as nat, ret_ty@) is Err);
                lemma_block_error_persists(env0, gv, depth, *body, (i + 1) as nat, body.len() as nat, ret_ty@);
                assert(e@ == block_check(env0, gv, depth, *body, body.len() as nat, ret_ty@)->Err_0);
            }
            return Err(e);
        }
        i += 1;
    }
    Ok(())
}

fn lower_return(
    fb: &mut FunctionBuilder<'_>,
    env: &Scope,
    globals: &Vec<GlobalInfo>,
    stmt: &frontend::Stmt,
    ret_ty: &Type,
    target: Target,
    Ghost(depth): Ghost<nat>,
) -> (r: Result<(), LowerError>)
    requires
        stmt is Return,
        ready(*old(fb), *env, globals@, stmt_cost(*stmt)),
    ensures
        r matches Err(e) ==> body_error(e),
        r is Ok ==> census(final(fb).func.blocks@) == plus3(census(old(fb).func.blocks@), stmt_census(*stmt)),
        scope_agrees(r, env@, stmt_check(env@, infos(globals@), depth, *stmt, ret_ty@)),
        stepped(*old(fb), *final(fb), *env, stmt_cost(*stmt)),
{
    proof {
        crate::ir::types::lemma_model_shape(*ret_ty);
    }
    let opt = match stmt {
        frontend::Stmt::Return(opt) => opt,
        _ => return Ok(()),
    };
    if matches!(ret_ty, Type::Void) {
        if opt.is_some() {
            return Err(LowerError::ValueReturnedFromVoid);
        }
        fb.ret(None);
        return Ok(());
    }
    let e = match opt {
        Some(e) => e,
        None => return Err(LowerError::UnsupportedStmt),
    };
    let (v, ty) = lower_expr_o0(fb, env, globals, e, target)?;
    if !types_equal(&ty, ret_ty) {
        return Err(LowerError::TypeMismatch { expected: ret_ty.clone(), got: ty });
    }
    fb.ret(Some(v));
    Ok(())
}

fn lower_const_decl(
    fb: &mut FunctionBuilder<'_>,
    env: &mut Scope,
    globals: &Vec<GlobalInfo>,
    stmt: &frontend::Stmt,
    ret_ty: &Type,
    Ghost(depth): Ghost<nat>,
) -> (r: Result<(), LowerError>)
    requires
        stmt is ConstDecl,
        ready(*old(fb), *old(env), globals@, stmt_cost(*stmt)),
    ensures
        r is Ok ==> stays_open(*old(fb), *final(fb)),
        r matches Err(e) ==> body_error(e),
        r is Ok ==> census(final(fb).func.blocks@) == plus3(census(old(fb).func.blocks@), stmt_census(*stmt)),
        scope_agrees(r, final(env)@, stmt_check(old(env)@, infos(globals@), depth, *stmt, ret_ty@)),
        stepped(*old(fb), *final(fb), *final(env), stmt_cost(*stmt)),
{
    let (name, ty, init) = match stmt {
        frontend::Stmt::ConstDecl { name, ty, init } => (name, ty, init),
        _ => return Ok(()),
    };
    proof {
        lemma_ids_raise(env.entries@, fb.next_value, u32::MAX);
    }
    let decl_ty = type_ref_to_type(ty)?;
    let (expression, cv) = eval_const_expr(init, Some(&*env), globals)?;
    if !types_equal(&expression.ty, &decl_ty) {
        return Err(LowerError::TypeMismatch { expected: decl_ty, got: expression.ty });
    }
    let cty = expression.ty.clone();
    let ghost before = *fb;
    let id = fb.const_decl(name.as_str(), expression, cv);
    let ghost es0 = env.entries@;
    env.insert(name, Binding::Const { id, ty: cty, value: cv });
    proof {
        assert(id.0 == before.next_value);
        let es = env.entries@;
        assert forall|i: int|
            0 <= i < es.len() && (#[trigger] const_id(es[i].1)) is Some implies const_id(es[i].1).unwrap()
                < fb.next_value by {
            if i < es0.len() {
                assert(const_id(es[i].1) == const_id(es0[i].1));
            }
        }
        assert forall|i: int, j: int|
            0 <= i < j < es.len() && (#[trigger] const_id(es[i].1)) is Some && (#[trigger] const_id(
                es[j].1,
            )) is Some implies const_id(es[i].1).unwrap() < const_id(es[j].1).unwrap() by {
            assert(const_id(es[i].1) == const_id(es0[i].1));
            if j < es0.len() {
                assert(const_id(es[j].1) == const_id(es0[j].1));
            }
        }
    }
    Ok(())
}

fn lower_var_decl(
    fb: &mut FunctionBuilder<'_>,
    env: &mut Scope,
    globals: &Vec<GlobalInfo>,
    stmt: &frontend::Stmt,
    ret_ty: &Type,
    target: Target,
    Ghost(depth): Ghost<nat>,
) -> (r: Result<(), LowerError>)
    requires
        stmt is VarDecl,
        ready(*old(fb), *old(env), globals@, stmt_cost(*stmt)),
    ensures
        r is Ok ==> stays_open(*old(fb), *final(fb)),
        r matches Err(e) ==> body_error(e),
        r is Ok ==> census(final(fb).func.blocks@) == plus3(census(old(fb).func.blocks@), stmt_census(*stmt)),
        scope_agrees(r, final(env)@, stmt_check(old(env)@, infos(globals@), depth, *stmt, ret_ty@)),
        stepped(*old(fb), *final(fb), *final(env), stmt_cost(*stmt)),
{
    let (name, ty, init) = match stmt {
        frontend::Stmt::VarDecl { name, ty, init } => (name, ty, init),
        _ => return Ok(()),
    };
    let decl_ty = type_ref_to_type(ty)?;
    let align = slot_align(&decl_ty, target)?;
    let (v, vty) = match init {
        Some(init_expr) => lower_expr_o0(fb, env, globals, init_expr, target)?,
        None => {
            let v = fb.undef(decl_ty.clone());
            (v, decl_ty.clone())
        },
    };
    if !types_equal(&vty, &decl_ty) {
        return Err(LowerError::TypeMismatch { expected: decl_ty, got: vty });
    }
    let slot = fb.alloca_in_entry(decl_ty.clone(), align);
    fb.store(decl_ty.clone(), v, slot, align);
    let ghost es0 = env.entries@;
    env.insert(name, Binding::Addr { ptr: slot, ty: decl_ty });
    proof {
        let es = env.entries@;
        assert forall|i: int|
            0 <= i < es.len() && (#[trigger] const_id(es[i].1)) is Some implies const_id(es[i].1).unwrap()
                < fb.next_value by {
            if i < es0.len() {
                assert(const_id(es[i].1) == const_id(es0[i].1));
            }
        }
        assert forall|i: int, j: int|
            0 <= i < j < es.len() && (#[trigger] const_id(es[i].1)) is Some && (#[trigger] const_id(
                es[j].1,
            )) is Some implies const_id(es[i].1).unwrap() < const_id(es[j].1).unwrap() by {
            assert(const_id(es[i].1) == const_id(es0[i].1));
            if j < es0.len() {
                assert(const_id(es[j].1) == const_id(es0[j].1));
            }
        }
    }
    Ok(())
}

fn lower_assign(
    fb: &mut FunctionBuilder<'_>,
    env: &Scope,
    globals: &Vec<GlobalInfo>,
    stmt: &frontend::Stmt,
    ret_ty: &Type,
    target: Target,
    Ghost(depth): Ghost<nat>,
) -> (r: Result<(), LowerError>)
    requires
        stmt is Assign,
        ready(*old(fb), *env, globals@, stmt_cost(*stmt)),
    ensures
        r is Ok ==> stays_open(*old(fb), *final(fb)),
        r matches Err(e) ==> body_error(e),
        r is Ok ==> census(final(fb).func.blocks@) == plus3(census(old(fb).func.blocks@), stmt_census(*stmt)),
        scope_agrees(r, env@, stmt_check(env@, infos(globals@), depth, *stmt, ret_ty@)),
        stepped(*old(fb), *final(fb), *env, stmt_cost(*stmt)),
{
    let (name, value) = match stmt {
        frontend::Stmt::Assign { name, value } => (name, value),
        _ => return Ok(()),
    };
    let (v, vty) = lower_expr_o0(fb, env, globals, value, target)?;
    let (ptr, ty) = match env.get(name) {
        None => return Err(LowerError::UnknownVariable(name.clone())),
        Some(Binding::Const { .. }) => return Err(LowerError::AssignToConst(name.clone())),
        Some(Binding::Addr { ptr, ty }) => (*ptr, ty.clone()),
    };
    if !types_equal(&vty, &ty) {
        return Err(LowerError::TypeMismatch { expected: ty, got: vty });
    }
    let align = slot_align(&ty, target)?;
    fb.store(ty, v, ptr, align);
    Ok(())
}

/// `if`: the condition ends its block with a branch to a fresh then-block
/// when it holds and to a fresh else-block otherwise; both continue in a
/// fresh block after them.
#[verifier::spinoff_prover]
#[verifier::rlimit(60)]
fn lower_if(
    fb: &mut FunctionBuilder<'_>,
    env: &Scope,
    globals: &Vec<GlobalInfo>,
    loops: &mut Vec<LoopCtx>,
    stmt: &frontend::Stmt,
    ret_ty: &Type,
    target: Target,
    Ghost(depth): Ghost<nat>,
) -> (r: Result<(), LowerError>)
    requires
        stmt is If,
        depth == old(loops)@.len(),
        ready(*old(fb), *env, globals@, stmt_cost(*stmt)),
    ensures
        r matches Err(e) ==> body_error(e),
        r is Ok ==> census(final(fb).func.blocks@) == plus3(census(old(fb).func.blocks@), stmt_census(*stmt)),
        r is Ok ==> if_branched(*stmt, env.entries@, *old(fb), *final(fb)),
        scope_agrees(r, env@, stmt_check(env@, infos(globals@), depth, *stmt, ret_ty@)),
        r is Ok ==> final(loops)@ == old(loops)@,
        stepped(*old(fb), *final(fb), *env, stmt_cost(*stmt)),
    decreases stmt, 1nat,
{
    let (cond, then_body, else_body) = match stmt {
        frontend::Stmt::If { cond, then_body, else_body } => (cond, then_body, else_body),
        _ => return Ok(()),
    };
    let (cv, cty) = lower_expr_o0(fb, env, globals, cond, target)?;
    proof {
        crate::ir::types::lemma_model_shape(cty);
    }
    if !matches!(cty, Type::Bool) {
        return Err(LowerError::TypeMismatch { expected: Type::Bool, got: cty });
    }
    let then_bb = fb.create_block("if.then");
    let else_bb = fb.create_block("if.else");
    let cont_bb = fb.create_block("if.cont");
    fb.cbr(cv, then_bb, else_bb);
    let ghost branched = *fb;
    let ghost branch = crate::ir::module::Terminator::CBr { cond: cv, then_bb, else_bb };
    assert(branched.func.blocks@[branched.current as int].terminator == Some(branch));
    fb.set_insert_point(then_bb);
    let mut then_env = env.duplicate();
    proof {
        assert(ids_ordered(then_env.entries@, fb.next_value)) by {
            assert forall|i: int| 0 <= i < then_env.entries@.len() implies #[trigger] const_id(
                then_env.entries@[i].1,
            ) == const_id(env.entries@[i].1) by {}
        }
    }
    let ghost mid = *fb;
    lower_block(fb, &mut then_env, globals, loops, stmt, then_body, ret_ty, target)?;
    if !fb.is_current_block_terminated() {
        fb.br(cont_bb);
    }
    fb.set_insert_point(else_bb);
    let mut else_env = env.duplicate();
    proof {
        assert(ids_ordered(else_env.entries@, fb.next_value)) by {
            assert forall|i: int| 0 <= i < else_env.entries@.len() implies #[trigger] const_id(
                else_env.entries@[i].1,
            ) == const_id(env.entries@[i].1) by {}
        }
    }
    lower_block(fb, &mut else_env, globals, loops, stmt, else_body, ret_ty, target)?;
    if !fb.is_current_block_terminated() {
        fb.br(cont_bb);
    }
    fb.set_insert_point(cont_bb);
    proof {
        assert(has_terminator(branched, branch));
        lemma_settled_keeps(branched, *fb, branch);
        assert(has_terminator(*fb, crate::ir::module::Terminator::CBr {
            cond: ValueId(expr_value(env.entries@, *cond, fresh_from(*old(fb))).0 as u32),
            then_bb: BlockId(then_bb.0),
            else_bb: BlockId(then_bb.0.wrapping_add(1)),
        }));
    }
    Ok(())
    
}

/// Lower one statement. Statements after a return, break or continue land in
/// a fresh block without incoming edges, so they stay visible at O0.
#[verifier::spinoff_prover]
#[verifier::rlimit(80)]
fn lower_stmt_o0(
    fb: &mut FunctionBuilder<'_>,
    env: &mut Scope,
    globals: &Vec<GlobalInfo>,
    loops: &mut Vec<LoopCtx>,
    stmt: &frontend::Stmt,
    ret_ty: &Type,
    target: Target,
) -> (r: Result<(), LowerError>)
    requires
        ready(*old(fb), *old(env), globals@, stmt_cost(*stmt)),
    ensures
        r is Ok && straight_line(*stmt) ==> stays_open(*old(fb), *final(fb)),
        r matches Err(e) ==> body_error(e),
        r is Ok ==> census(final(fb).func.blocks@) == plus3(census(old(fb).func.blocks@), stmt_census(*stmt)),
        r is Ok ==> control_lowered(*stmt, old(env).entries@, old(loops)@, *old(fb), *final(fb)),
        scope_agrees(
            r,
            final(env)@,
            stmt_check(old(env)@, infos(globals@), old(loops)@.len() as nat, *stmt, ret_ty@),
        ),
        r is Ok ==> final(loops)@ == old(loops)@,
        stepped(*old(fb), *final(fb), *final(env), stmt_cost(*stmt)),
    decreases stmt, 2nat,
{
    let ghost entry = *fb;
    if fb.is_current_block_terminated() {
        let dead = fb.create_block("unreachable.cont");
        fb.set_insert_point(dead);
        assert(fb.func.blocks@[entry.func.blocks@.len() as int].id == BlockId(entry.next_block));
    }
    let ghost depth = loops@.len() as nat;
    let ghost start = *fb;
    let ghost loops_before = loops@;
    let result = match stmt {
        frontend::Stmt::Return(_) => lower_return(fb, env, globals, stmt, ret_ty, target, Ghost(depth)),
        frontend::Stmt::ConstDecl { .. } => lower_const_decl(fb, env, globals, stmt, ret_ty, Ghost(depth)),
        frontend::Stmt::VarDecl { .. } => lower_var_decl(fb, env, globals, stmt, ret_ty, target, Ghost(depth)),
        frontend::Stmt::Assign { .. } => lower_assign(fb, env, globals, stmt, ret_ty, target, Ghost(depth)),
        frontend::Stmt::ExprStmt(e) => {
            let _ = lower_expr_o0(fb, env, globals, e, target)?;
            Ok(())
        },
        frontend::Stmt::If { .. } => lower_if(fb, env, globals, loops, stmt, ret_ty, target, Ghost(depth)),
        frontend::Stmt::While { cond, body } => {
            let cond_bb = fb.create_block("while.cond");
            let body_bb = fb.create_block("while.body");
            let exit_bb = fb.create_block("while.exit");
            fb.br(cond_bb);
            fb.set_insert_point(cond_bb);
            let (cv, cty) = lower_expr_o0(fb, env, globals, cond, target)?;
            proof {
                crate::ir::types::lemma_model_shape(cty);
            }
            if !matches!(cty, Type::Bool) {
                return Err(LowerError::TypeMismatch { expected: Type::Bool, got: cty });
            }
            fb.cbr(cv, body_bb, exit_bb);
            fb.set_insert_point(body_bb);
            loops.push(LoopCtx { cond_bb, exit_bb });
            let mut body_env = env.duplicate();
            proof {
                assert(ids_ordered(body_env.entries@, fb.next_value)) by {
                    assert forall|i: int| 0 <= i < body_env.entries@.len() implies #[trigger] const_id(
                        body_env.entries@[i].1,
                    ) == const_id(env.entries@[i].1) by {}
                }
            }
            lower_block(fb, &mut body_env, globals, loops, stmt, body, ret_ty, target)?;
            if !fb.is_current_block_terminated() {
                fb.br(cond_bb);
            }
            loops.pop();
            fb.set_insert_point(exit_bb);
            Ok(())
        },
        frontend::Stmt::Break => {
            if loops.len() == 0 {
                return Err(LowerError::BreakOutsideLoop);
            }
            let ctx = loops[loops.len() - 1];
            fb.br(ctx.exit_bb);
            Ok(())
        },
        frontend::Stmt::Continue => {
            if loops.len() == 0 {
                return Err(LowerError::ContinueOutsideLoop);
            }
            let ctx = loops[loops.len() - 1];
            fb.br(ctx.cond_bb);
            Ok(())
        },
    };
    proof {
        if result is Ok {
            assert(settled(start, *fb));
            if !current_open(entry) {
                assert(start.func.blocks@[entry.func.blocks@.len() as int].id == BlockId(entry.next_block));
            }
            assert(fresh_from(start) == fresh_from(entry));
            assert(loops_before == old(loops)@);
        }
    }
    result
}

/// The operations that a source expression performs at run time, in the
/// order of a census: binary operations, comparisons, and no declarations.
pub open spec fn expr_census(e: frontend::Expr) -> Census
    decreases e,
{
    match e {
        frontend::Expr::Var(_) | frontend::Expr::Lit(_) => (0, 0, 0),
        frontend::Expr::Binary { left, right, .. } => plus3(
            plus3(expr_census(*left), expr_census(*right)),
            (1, 0, 0),
        ),
        frontend::Expr::Cmp { left, right, .. } => plus3(
            plus3(expr_census(*left), expr_census(*right)),
            (0, 1, 0),
        ),
    }
}

/// What a statement contributes: the operations of its run-time expressions,
/// and one declaration for a constant declaration, whose initializer is
/// evaluated at compile time and contributes no operation.
pub open spec fn stmt_census(st: frontend::Stmt) -> Census
    decreases st, 0nat,
{
    match st {
        frontend::Stmt::Return(opt) => match opt {
            Some(e) => expr_census(e),
            None => (0, 0, 0),
        },
        frontend::Stmt::ConstDecl { .. } => (0, 0, 1),
        frontend::Stmt::VarDecl { init, .. } => match init {
            Some(e) => expr_census(e),
            None => (0, 0, 0),
        },
        frontend::Stmt::Assign { value, .. } => expr_census(value),
        frontend::Stmt::ExprStmt(e) => expr_census(e),
        frontend::Stmt::If { cond, then_body, else_body } => plus3(
            plus3(expr_census(cond), block_census(then_body, then_body.len() as nat)),
            block_census(else_body, else_body.len() as nat),
        ),
        frontend::Stmt::While { cond, body } => plus3(
            expr_census(cond),
            block_census(body, body.len() as nat),
        ),
        frontend::Stmt::Break | frontend::Stmt::Continue => (0, 0, 0),
    }
}

/// What the first `n` statements of `body` contribute, reachable or not.
pub open spec fn block_census(body: Vec<frontend::Stmt>, n: nat) -> Census
    decreases body, n,
{
    if n == 0 || n > body.len() {
        (0, 0, 0)
    } else {
        plus3(block_census(body, (n - 1) as nat), stmt_census(body@[n - 1]))
    }
}

/// Position `2 i` of `ins` gives parameter `i` a stack slot of its type,
/// with the identity `np + i`, and position `2 i + 1` stores the parameter
/// into that slot.
pub open spec fn param_slot_at(ins: Seq<Instruction>, i: int, np: int, p: crate::ir::module::Param) -> bool {
    &&& match ins[2 * i] {
        Instruction::Alloca { dst, ty, .. } => dst.0 == np + i && ty@ == p.ty@,
        _ => false,
    }
    &&& match ins[2 * i + 1] {
        Instruction::Store { ptr, value, ty, .. } => ptr.0 == np + i && value == p.id && ty@ == p.ty@,
        _ => false,
    }
}

/// The entry block starts by giving each of the first `n` parameters a stack
/// slot and storing the parameter into it, parameter by parameter.
pub open spec fn params_spilled(ins: Seq<Instruction>, params: Seq<crate::ir::module::Param>, n: int) -> bool {
    &&& ins.len() >= 2 * n
    &&& forall|i: int| 0 <= i < n ==> #[trigger] param_slot_at(ins, i, params.len() as int, params[i])
}

proof fn lemma_spilled_prefix(a: Seq<Instruction>, b: Seq<Instruction>, params: Seq<crate::ir::module::Param>, n: int)
    requires
        params_spilled(a, params, n),
        a.is_prefix_of(b),
    ensures
        params_spilled(b, params, n),
{
    assert forall|i: int| 0 <= i < n implies #[trigger] param_slot_at(b, i, params.len() as int, params[i]) by {
        assert(param_slot_at(a, i, params.len() as int, params[i]));
        assert(b[2 * i] == a[2 * i] && b[2 * i + 1] == a[2 * i + 1]);
    }
}

/// The lowered function has the source function's name, result type and
/// parameters, in order, with parameter `i` as value `i`.
pub open spec fn signature_lowered(lf: crate::ir::module::Function, f: frontend::Function) -> bool {
    &&& lf.name@ == f.name@
    &&& type_check(f.return_type) == Ok::<TypeModel, Fault>(lf.ret_ty@)
    &&& lf.params@.len() == f.parameters@.len()
    &&& forall|i: int|
        0 <= i < lf.params@.len() ==> {
            &&& (#[trigger] lf.params@[i]).name@ == f.parameters@[i].name@
            &&& type_check(f.parameters@[i].ty) == Ok::<TypeModel, Fault>(lf.params@[i].ty@)
            &&& lf.params@[i].id == ValueId(i as u32)
        }
}

/// Lower one function: parameters are stored to entry-block slots, then the
/// body; a body that falls off its end returns (void) or traps.
#[verifier::spinoff_prover]
#[verifier::rlimit(40)]
fn lower_function_o0(
    mb: &mut ModuleBuilder,
    f: &frontend::Function,
    globals: &Vec<GlobalInfo>,
    target: Target,
) -> (r: Result<(), LowerError>)
    requires
        function_fits(*f),
        globals_ok(globals@),
    ensures
        r matches Err(e) ==> body_error(e),
        match function_check(infos(globals@), *f) {
            Ok(_) => r is Ok,
            Err(fl) => r matches Err(e) && e@ == fl,
        },
        r is Ok ==> final(mb).module.functions@.len() == old(mb).module.functions@.len() + 1
            && signature_lowered(final(mb).module.functions@.last(), *f)
            && final(mb).module.functions@.drop_last() == old(mb).module.functions@,
        r is Ok ==> census(final(mb).module.functions@.last().blocks@) == block_census(
            f.body,
            f.body.len() as nat,
        ),
        r is Ok ==> params_spilled(
            final(mb).module.functions@.last().blocks@[0].instructions@,
            final(mb).module.functions@.last().params@,
            final(mb).module.functions@.last().params@.len() as int,
        ),
        r is Ok ==> closed_if_straight(final(mb).module.functions@.last(), *f),
        r is Ok ==> crate::ir::validity::facts::params_not_void(final(mb).module.functions@.last())
            && crate::ir::validity::facts::has_block(
            final(mb).module.functions@.last(),
            final(mb).module.functions@.last().entry,
        ),
        r is Ok ==> final(mb).module.globals == old(mb).module.globals && final(mb).module.target
            == old(mb).module.target && final(mb).module.datalayout == old(mb).module.datalayout
            && final(mb).next_global == old(mb).next_global,
{
    let ghost ps = f.parameters@;
    let ghost gv = infos(globals@);
    let ret_ty = type_ref_to_type(&f.return_type)?;
    let mut params: Vec<(String, Type)> = Vec::new();
    assert(params@.map_values(|p: (String, Type)| p.1@) =~= Seq::<TypeModel>::empty());
    let mut i: usize = 0;
    while i < f.parameters.len()
        invariant
            0 <= i <= f.parameters.len(),
            ps == f.parameters@,
            gv == infos(globals@),
            type_check(f.return_type) == Ok::<TypeModel, Fault>(ret_ty@),
            params.len() == i,
            params_check(ps, i as nat) == Ok::<Seq<TypeModel>, Fault>(
                params@.map_values(|p: (String, Type)| p.1@),
            ),
            forall|j: int| 0 <= j < i ==> (#[trigger] params@[j]).0@ == ps[j].name@,
        decreases f.parameters.len() - i,
    {
        let ty = match type_ref_to_type(&f.parameters[i].ty) {
            Ok(t) => t,
            Err(e) => {
                proof {
                    lemma_params_error_persists(ps, (i + 1) as nat, ps.len());
                }
                return Err(e);
            },
        };
        let ghost before = params@;
        params.push((f.parameters[i].name.clone(), ty));
        proof {
            assert(params@.map_values(|p: (String, Type)| p.1@) =~= before.map_values(
                |p: (String, Type)| p.1@,
            ).push(ty@));
        }
        i += 1;
    }
    let ghost ts = params_check(ps, ps.len())->Ok_0;
    proof {
        lemma_params_len(ps, ps.len());
    }
    let ghost param_list = params@;
    let mut fb = mb.begin_function(f.name.as_str(), params, ret_ty.clone());
    let ghost start = fb;
    proof {
        assert forall|x: int| 0 <= x < fb.func.params@.len() implies (#[trigger] fb.func.params@[x]).ty@ == ts[x]
            && fb.func.params@[x].name@ == ps[x].name@ by {
            assert(param_list.map_values(|p: (String, Type)| p.1@)[x] == param_list[x].1@);
        }
    }
    let mut env = Scope::new();
    let mut loops: Vec<LoopCtx> = Vec::new();
    let mut i: usize = 0;
    while i < f.parameters.len()
        invariant
            0 <= i <= f.parameters.len(),
            ps == f.parameters@,
            ts == params_check(ps, ps.len())->Ok_0,
            params_check(ps, ps.len()) is Ok,
            gv == infos(globals@),
            type_check(f.return_type) == Ok::<TypeModel, Fault>(ret_ty@),
            ts.len() == ps.len(),
            function_fits(*f),
            fb.func.params.len() == f.parameters.len(),
            builder_wf(fb),
            same_frame(start, fb),
            fb.next_value == ps.len() + i,
            census(fb.func.blocks@) == (0nat, 0nat, 0nat),
            fb.current == 0,
            fb.func.blocks@[0].terminator is None,
            fb.func.blocks@[0].instructions@.len() == 2 * i,
            params_spilled(fb.func.blocks@[0].instructions@, fb.func.params@, i as int),
            forall|x: int| 0 <= x < fb.func.params@.len() ==> (#[trigger] fb.func.params@[x]).ty@ == ts[x],
            param_slots(ps, ts, i as nat) == Ok::<Seq<(Seq<char>, Name)>, Fault>(env@),
            forall|k: int| 0 <= k < env.entries@.len() ==> const_id(#[trigger] env.entries@[k].1) is None,
            forall|x: int| 0 <= x < i ==> !((#[trigger] fb.func.params@[x]).ty@ is Void),
        decreases f.parameters.len() - i,
    {
        let param_val = fb.param_value(i);
        proof {
            lemma_params_ok(ps, ps.len(), i as int);
            lemma_block_cost_prefix(f.body, 0, f.body.len() as nat);
        }
        let ty = type_ref_to_type(&f.parameters[i].ty)?;
        let align = match slot_align(&ty, target) {
            Ok(a) => a,
            Err(e) => {
                proof {
                    lemma_slots_error_persists(ps, ts, (i + 1) as nat, ps.len());
                }
                return Err(e);
            },
        };
        let ghost before = fb.func.blocks@[0].instructions@;
        let slot = fb.alloca_in_entry(ty.clone(), align);
        let ghost mid = fb.func.blocks@[0].instructions@;
        let sty = ty.clone();
        fb.store(sty, param_val, slot, align);
        proof {
            let ins = fb.func.blocks@[0].instructions@;
            assert(mid == before.push(mid.last()));
            assert(ins == mid.push(ins.last()));
            assert(ins[2 * i] == mid.last());
            assert(ins[2 * i + 1] == ins.last());
            assert(fb.func.params@[i as int].ty@ == ts[i as int]);
            assert(param_slot_at(ins, i as int, fb.func.params@.len() as int, fb.func.params@[i as int]));
            assert(ins.len() == 2 * i + 2);
            assert forall|x: int| 0 <= x < i + 1 implies #[trigger] param_slot_at(
                ins,
                x,
                fb.func.params@.len() as int,
                fb.func.params@[x],
            ) by {
                if x < i {
                    assert(param_slot_at(before, x, fb.func.params@.len() as int, fb.func.params@[x]));
                    assert(ins[2 * x] == before[2 * x] && ins[2 * x + 1] == before[2 * x + 1]);
                }
            }
        }
        let ghost es0 = env.entries@;
        env.insert(&f.parameters[i].name, Binding::Addr { ptr: slot, ty });
        proof {
            assert forall|k: int| 0 <= k < env.entries@.len() implies const_id(
                #[trigger] env.entries@[k].1,
            ) is None by {
                if k < es0.len() {
                    assert(const_id(env.entries@[k].1) == const_id(es0[k].1));
                }
            }
        }
        i += 1;
    }
    let ghost scope0 = env@;
    let ghost body_start = fb.next_value;
    let ghost spilled = fb;
    let mut k: usize = 0;
    while k < f.body.len()
        invariant
            0 <= k <= f.body.len(),
            gv == infos(globals@),
            globals_ok(globals@),
            function_fits(*f),
            ps == f.parameters@,
            ts == params_check(ps, ps.len())->Ok_0,
            params_check(ps, ps.len()) is Ok,
            param_slots(ps, ts, ps.len()) == Ok::<Seq<(Seq<char>, Name)>, Fault>(scope0),
            type_check(f.return_type) == Ok::<TypeModel, Fault>(ret_ty@),
            body_start == 2 * ps.len(),
            loops@.len() == 0,
            builder_wf(fb),
            same_frame(start, fb),
            body_start <= fb.next_value <= body_start + block_cost(f.body, k as nat),
            ids_ordered(env.entries@, fb.next_value),
            block_check(scope0, gv, 0, f.body, k as nat, ret_ty@) == Ok::<Seq<(Seq<char>, Name)>, Fault>(env@),
            census(fb.func.blocks@) == block_census(f.body, k as nat),
            fb.func.params == spilled.func.params,
            params_spilled(fb.func.blocks@[0].instructions@, fb.func.params@, fb.func.params@.len() as int),
            crate::ir::validity::facts::params_not_void(fb.func),
            straight_body(*f) ==> fb.current == 0
                && current_open(fb),
        decreases f.body.len() - k,
    {
        proof {
            lemma_block_cost_prefix(f.body, (k + 1) as nat, f.body.len() as nat);
        }
        let ghost pre = fb.func.blocks@[0].instructions@;
        let step = lower_stmt_o0(&mut fb, &mut env, globals, &mut loops, &f.body[k], &ret_ty, target);
        proof {
            if step is Ok {
                lemma_spilled_prefix(pre, fb.func.blocks@[0].instructions@, fb.func.params@, fb.func.params@.len() as int);
            }
        }
        proof {
            assert(block_census(f.body, (k + 1) as nat) == plus3(
                block_census(f.body, k as nat),
                stmt_census(f.body@[k as int]),
            ));
        }
        if let Err(e) = step {
            proof {
                lemma_block_error_persists(scope0, gv, 0, f.body, (k + 1) as nat, f.body.len() as nat, ret_ty@);
            }
            return Err(e);
        }
        k += 1;
    }
    let ghost pre = fb.func.blocks@[0].instructions@;
    proof {
        crate::ir::types::lemma_model_shape(ret_ty);
    }
    if !fb.is_current_block_terminated() {
        if matches!(ret_ty, Type::Void) {
            fb.ret(None);
        } else {
            fb.trap("missing return");
        }
    }
    proof {
        lemma_spilled_prefix(pre, fb.func.blocks@[0].instructions@, fb.func.params@, fb.func.params@.len() as int);
        assert(*fb.builder == *old(mb));
        assert(fb.func.name@ == f.name@);
        assert forall|x: int| 0 <= x < fb.func.params@.len() implies {
            &&& (#[trigger] fb.func.params@[x]).name@ == f.parameters@[x].name@
            &&& type_check(f.parameters@[x].ty) == Ok::<TypeModel, Fault>(fb.func.params@[x].ty@)
            &&& fb.func.params@[x].id == ValueId(x as u32)
        } by {
            lemma_params_ok(ps, ps.len(), x);
        }
    }
    fb.finish();
    Ok(())
}

/// A count of value identities, capped just above what 32 bits can number.
pub open spec fn capped(n: nat) -> nat {
    if n > 0x1_0000_0000 {
        0x1_0000_0000
    } else {
        n
    }
}

fn expr_cost_capped(e: &frontend::Expr) -> (r: u64)
    ensures
        r == capped(expr_cost(*e)),
    decreases e,
{
    match e {
        frontend::Expr::Var(_) | frontend::Expr::Lit(_) => 1,
        frontend::Expr::Binary { left, right, .. } | frontend::Expr::Cmp { left, right, .. } => {
            let a = expr_cost_capped(left);
            let b = expr_cost_capped(right);
            let sum = a + b + 1;
            if sum > 0x1_0000_0000 {
                0x1_0000_0000
            } else {
                sum
            }
        },
    }
}

fn stmt_cost_capped(st: &frontend::Stmt) -> (r: u64)
    ensures
        r == capped(stmt_cost(*st)),
    decreases st, 1nat,
{
    let sum: u64 = match st {
        frontend::Stmt::Return(opt) => match opt {
            Some(e) => expr_cost_capped(e),
            None => 0,
        },
        frontend::Stmt::ConstDecl { .. } => 1,
        frontend::Stmt::VarDecl { init, .. } => match init {
            Some(e) => expr_cost_capped(e) + 1,
            None => 2,
        },
        frontend::Stmt::Assign { value, .. } => expr_cost_capped(value),
        frontend::Stmt::ExprStmt(e) => expr_cost_capped(e),
        frontend::Stmt::If { cond, then_body, else_body } => {
            proof {
                assert(decreases_to!(*st => *then_body));
                assert(decreases_to!(*st => *else_body));
            }
            expr_cost_capped(cond) + block_cost_capped(then_body) + block_cost_capped(else_body)
        },
        frontend::Stmt::While { cond, body } => {
            proof {
                assert(decreases_to!(*st => *body));
            }
            expr_cost_capped(cond) + block_cost_capped(body)
        },
        frontend::Stmt::Break | frontend::Stmt::Continue => 0,
    };
    if sum > 0x1_0000_0000 {
        0x1_0000_0000
    } else {
        sum
    }
}

fn block_cost_capped(body: &Vec<frontend::Stmt>) -> (r: u64)
    ensures
        r == capped(block_cost(*body, body.len() as nat)),
    decreases body, 0nat,
{
    let mut acc: u64 = 0;
    let mut i: usize = 0;
    while i < body.len()
        invariant
            0 <= i <= body.len(),
            acc == capped(block_cost(*body, i as nat)),
        decreases body.len() - i,
    {
        proof {
            assert(decreases_to!(*body => body[i as int]));
        }
        let c = stmt_cost_capped(&body[i]);
        let sum = acc + c;
        acc = if sum > 0x1_0000_0000 {
            0x1_0000_0000
        } else {
            sum
        };
        i += 1;
    }
    acc
}

/// Whether a program's constants and functions can be numbered with 32-bit
/// identities, as lowering needs.
pub fn fits_identities(program: &frontend::Program) -> (r: bool)
    ensures
        r == program_fits(*program),
{
    if program.globals.len() >= 0xffff_ffff {
        return false;
    }
    let mut i: usize = 0;
    while i < program.functions.len()
        invariant
            0 <= i <= program.functions@.len(),
            forall|j: int| 0 <= j < i ==> function_fits(#[trigger] program.functions@[j]),
        decreases program.functions.len() - i,
    {
        let f = &program.functions[i];
        let c = block_cost_capped(&f.body);
        let n = f.parameters.len();
        if n > 0xffff_ffff || c > 0xffff_ffff || 2 * (n as u64) + c > 0xffff_ffff {
            return false;
        }
        i += 1;
    }
    true
}

/// Every module constant and every function of the program has a 32-bit identity.
pub open spec fn program_fits(program: frontend::Program) -> bool {
    &&& program.globals@.len() < u32::MAX
    &&& forall|i: int| 0 <= i < program.functions@.len() ==> function_fits(#[trigger] program.functions@[i])
}

/// The target and layout are the supported pair.
pub open spec fn lowering_target_ok(target: Seq<char>, layout: DataLayout) -> bool {
    target == crate::target::target_name(Target::X86_64WhaleLinux) && layout == crate::target::target_layout(
        Target::X86_64WhaleLinux,
    )
}

proof fn lemma_slot_align_power(ty: TypeModel)
    requires
        allocation_align_spec(ty) is Ok,
    ensures
        crate::ir::validity::operands::is_power_of_two(allocation_align_spec(ty)->Ok_0),
{
    crate::ir::layout::lemma_layout_align(ty, crate::ir::layout::default_depth());
    let a = allocation_align_spec(ty)->Ok_0;
    assert(crate::ir::layout::valid_align(a));
    assert((1u32 << 0u32) == 1u32 && (1u32 << 1u32) == 2u32 && (1u32 << 2u32) == 4u32 && (1u32 << 3u32) == 8u32
        && (1u32 << 4u32) == 16u32) by (bit_vector);
    if a == 1 {
        assert(a == (1u32 << 0u32));
    } else if a == 2 {
        assert(a == (1u32 << 1u32));
    } else if a == 4 {
        assert(a == (1u32 << 2u32));
    } else if a == 8 {
        assert(a == (1u32 << 3u32));
    } else {
        assert(a == (1u32 << 4u32));
    }
}

/// `r` names one of the first `n` module constants.
pub open spec fn earlier_global(r: ConstRef, n: int) -> bool {
    r matches ConstRef::Global(gid) && gid.0 < n
}

/// A module constant's expression whose references resolve among the
/// constants `g` and whose resolved tree evaluates to `v`.
pub open spec fn resolves_to(p: ExprModel, g: Seq<GlobalInfo>, v: ConstValue) -> bool {
    exists|t: ExprModel|
        #[trigger] resolves_with(p, t, None, g) && eval_spec(t, Seq::<ConstBinding>::empty()) == Ok::<
            ConstValue,
            crate::ir::const_expr::ConstEvalError,
        >(v)
}

proof fn lemma_global_refs(p: ExprModel, t: ExprModel, g: Seq<GlobalInfo>)
    requires
        resolves_with(p, t, None, g),
    ensures
        forall|k: int|
            0 <= k < references_spec(p).len() ==> earlier_global(#[trigger] references_spec(p)[k], g.len() as int),
    decreases p,
{
    match p.kind {
        ExprKindModel::Binary { left, right, .. } => {
            match t.kind {
                ExprKindModel::Binary { left: l2, right: r2, .. } => {
                    lemma_global_refs(*left, *l2, g);
                    lemma_global_refs(*right, *r2, g);
                    let a = references_spec(*left);
                    let b = references_spec(*right);
                    assert(references_spec(p) == a + b);
                    assert forall|k: int| 0 <= k < references_spec(p).len() implies earlier_global(
                        #[trigger] references_spec(p)[k],
                        g.len() as int,
                    ) by {
                        if k < a.len() {
                            assert(references_spec(p)[k] == a[k]);
                        } else {
                            assert(references_spec(p)[k] == b[k - a.len()]);
                        }
                    }
                },
                _ => {},
            }
        },
        ExprKindModel::Compare { left, right, .. } => {
            match t.kind {
                ExprKindModel::Compare { left: l2, right: r2, .. } => {
                    lemma_global_refs(*left, *l2, g);
                    lemma_global_refs(*right, *r2, g);
                    let a = references_spec(*left);
                    let b = references_spec(*right);
                    assert(references_spec(p) == a + b);
                    assert forall|k: int| 0 <= k < references_spec(p).len() implies earlier_global(
                        #[trigger] references_spec(p)[k],
                        g.len() as int,
                    ) by {
                        if k < a.len() {
                            assert(references_spec(p)[k] == a[k]);
                        } else {
                            assert(references_spec(p)[k] == b[k - a.len()]);
                        }
                    }
                },
                _ => {},
            }
        },
        _ => {},
    }
}

/// The constants of a lowered module, identified by position, carrying the
/// types and values that lowering computed, are consistent.
proof fn lemma_lowered_globals_consistent<'a>(gl: Seq<crate::ir::module::Global>, gi: Seq<GlobalInfo>)
    requires
        gl.len() == gi.len(),
        globals_ok(gi),
        forall|x: int|
            0 <= x < gl.len() ==> {
                &&& (#[trigger] gl[x]).id == GlobalId(x as u32)
                &&& gl[x].ty@ == gi[x].ty@
                &&& gl[x].init == gi[x].value
                &&& gl[x].ty@ == gl[x].init_expr.ty@
                &&& resolves_to(gl[x].init_expr@, gi.take(x), gl[x].init)
            },
    ensures
        crate::ir::validity::constants::consts_ok(Seq::<ConstBinding<'a>>::empty(), crate::ir::validity::constants::global_defs::<'a>(gl)),
{
    let defs = crate::ir::validity::constants::global_defs::<'a>(gl);
    let base = Seq::<ConstBinding<'a>>::empty();
    let full = crate::ir::validity::constants::full_env(base, defs);
    assert forall|i: int| 0 <= i < defs.len() implies #[trigger] defs[i].id == ConstRef::Global(GlobalId(i as u32)) by {
        assert(gl[i].id == GlobalId(i as u32));
    }
    assert forall|i: int, j: int| 0 <= i < defs.len() && 0 <= j < defs.len() && i != j implies #[trigger] defs[i].id
        != #[trigger] defs[j].id by {
        assert(defs[i].id == ConstRef::Global(GlobalId(i as u32)));
        assert(defs[j].id == ConstRef::Global(GlobalId(j as u32)));
    }
    assert forall|i: int, k: int|
        0 <= i < defs.len() && 0 <= k < references_spec(defs[i].expression@).len() implies {
            let r = #[trigger] references_spec(defs[i].expression@)[k];
            &&& earlier_global(r, i)
            &&& defs[r->Global_0.0 as int].id == r
        } by {
        assert(gl[i].ty@ == gl[i].init_expr.ty@);
        assert(resolves_to(gl[i].init_expr@, gi.take(i), gl[i].init));
        let t = choose|t: ExprModel|
            #[trigger] resolves_with(gl[i].init_expr@, t, None, gi.take(i)) && eval_spec(t, Seq::<ConstBinding>::empty())
                == Ok::<ConstValue, crate::ir::const_expr::ConstEvalError>(gl[i].init);
        lemma_global_refs(gl[i].init_expr@, t, gi.take(i));
        let r = references_spec(defs[i].expression@)[k];
        let gid = r->Global_0;
        assert(defs[gid.0 as int].id == ConstRef::Global(GlobalId(gid.0 as u32)));
    }
    assert(crate::ir::validity::constants::defs_distinct(base, defs));
    assert(crate::ir::validity::constants::refs_known(base, defs)) by {
        assert forall|i: int, k: int|
            0 <= i < defs.len() && 0 <= k < references_spec(defs[i].expression@).len() implies {
                let r = #[trigger] references_spec(defs[i].expression@)[k];
                crate::ir::validity::constants::has_id(base, r) || crate::ir::validity::constants::is_def_id(defs, r)
            } by {
            let r = references_spec(defs[i].expression@)[k];
            let gid = r->Global_0;
            assert(defs[gid.0 as int].id == r);
        }
    }
    let rank = Seq::new(defs.len(), |i: int| i as nat);
    assert(crate::ir::validity::constants::is_ranking(defs, rank)) by {
        assert forall|i: int, j: int|
            0 <= i < defs.len() && 0 <= j < defs.len() && #[trigger] crate::ir::validity::constants::depends(defs, i, j)
            implies rank[j] < rank[i] by {
            let refs = references_spec(defs[i].expression@);
            let k = choose|k: int| 0 <= k < refs.len() && refs[k] == defs[j].id;
            assert(refs[k] == references_spec(defs[i].expression@)[k]);
            let gid = refs[k]->Global_0;
            assert(defs[gid.0 as int].id == refs[k]);
            assert(gid.0 as int == j);
        }
    }
    assert(crate::ir::validity::constants::evaluations_match(base, defs)) by {
        assert forall|i: int| 0 <= i < defs.len() implies eval_spec((#[trigger] defs[i]).expression@, full)
            == Ok::<ConstValue, crate::ir::const_expr::ConstEvalError>(defs[i].result) by {
            let g = gi.take(i);
            let t = choose|t: ExprModel|
                #[trigger] resolves_with(gl[i].init_expr@, t, None, g) && eval_spec(t, Seq::<ConstBinding>::empty())
                    == Ok::<ConstValue, crate::ir::const_expr::ConstEvalError>(gl[i].init);
            assert(resolves_to(gl[i].init_expr@, gi.take(i), gl[i].init));
            assert forall|q: int| 0 <= q < g.len() implies binds_to(
                #[trigger] lookup_spec(full, ConstRef::Global(g[q].id)),
                g[q].ty@,
                g[q].value,
            ) by {
                assert(g[q] == gi[q]);
                assert(gi[q].id == GlobalId(q as u32));
                assert(full[q] == crate::ir::validity::constants::def_binding(defs[q]));
                assert forall|j: int| 0 <= j < full.len() && j != q implies #[trigger] full[j].id != ConstRef::Global(g[q].id) by {
                    assert(full[j] == crate::ir::validity::constants::def_binding(defs[j]));
                    assert(defs[j].id == ConstRef::Global(GlobalId(j as u32)));
                }
                crate::ir::validity::constants::lemma_lookup_unique(full, ConstRef::Global(g[q].id), q);
            }
            assert(env_binds(full, None, g));
            assert(globals_ok(g));
            lemma_resolved_eval(gl[i].init_expr@, t, None, g, full);
        }
    }
}

/// Two functions share a name, or one function has two parameters with one name.
pub open spec fn has_duplicate_names(program: frontend::Program) -> bool {
    ||| exists|i: int, j: int|
        0 <= i < j < program.functions@.len() && #[trigger] program.functions@[i].name@
            == #[trigger] program.functions@[j].name@
    ||| exists|i: int, a: int, b: int|
        0 <= i < program.functions@.len() && 0 <= a < b < program.functions@[i].parameters@.len()
            && #[trigger] program.functions@[i].parameters@[a].name@
            == #[trigger] program.functions@[i].parameters@[b].name@
}

/// Lower a program for `target` with `datalayout`: target, then function and
/// parameter names, then globals in order, then each function. Globals and
/// functions are separate namespaces.
///
/// Nothing is simplified away: each lowered function holds one arithmetic
/// instruction per binary operation and one comparison per comparison of its
/// body's run-time expressions, and one constant declaration per local
/// constant declaration, unused or unreachable ones included. A constant's
/// initializer is evaluated at compile time and adds no instruction.
#[verifier::spinoff_prover]
#[verifier::rlimit(40)]
pub fn lower_o0(program: &frontend::Program, target: &str, datalayout: DataLayout) -> (r: Result<
    Module,
    LowerError,
>)
    requires
        program_fits(*program),
    ensures
        (r matches Err(LowerError::Target(_))) <==> !lowering_target_ok(target@, datalayout),
        target@ != crate::target::target_name(Target::X86_64WhaleLinux) ==> (r matches Err(
            LowerError::Target(TargetError::UnsupportedTarget(n)),
        ) && n@ == target@),
        target@ == crate::target::target_name(Target::X86_64WhaleLinux) && datalayout
            != crate::target::target_layout(Target::X86_64WhaleLinux) ==> (r matches Err(
            LowerError::Target(TargetError::LayoutMismatch { target: t, actual }),
        ) && t == Target::X86_64WhaleLinux && actual == datalayout),
        lowering_target_ok(target@, datalayout) && has_duplicate_names(*program) ==> (r matches Err(
            LowerError::DuplicateFunction(_),
        ) || r matches Err(LowerError::DuplicateParameter { .. })),
        r matches Err(LowerError::DuplicateFunction(n)) ==> exists|i: int, j: int|
            0 <= i < j < program.functions@.len() && #[trigger] program.functions@[i].name@
                == #[trigger] program.functions@[j].name@ && program.functions@[j].name@ == n@,
        r matches Err(LowerError::DuplicateParameter { func, param }) ==> exists|i: int, a: int, b: int|
            0 <= i < program.functions@.len() && 0 <= a < b < program.functions@[i].parameters@.len()
                && #[trigger] program.functions@[i].parameters@[a].name@
                == #[trigger] program.functions@[i].parameters@[b].name@
                && program.functions@[i].parameters@[b].name@ == param@
                && program.functions@[i].name@ == func@,
        r matches Err(LowerError::DuplicateGlobal(n)) ==> exists|i: int, j: int|
            0 <= i < j < program.globals@.len() && #[trigger] program.globals@[i].name@
                == #[trigger] program.globals@[j].name@ && program.globals@[j].name@ == n@,
        lowering_target_ok(target@, datalayout) && !has_duplicate_names(*program) ==> match program_check(
            program.globals@,
            program.functions@,
        ) {
            Err(f) => r matches Err(e) && e@ == f,
            Ok(gm) => r is Ok,
        },
        r matches Ok(m) ==> crate::ir::validity::target_ok(m) && crate::ir::validity::globals_ok(m)
            && crate::ir::validity::constants::globals_consts_ok(m) && crate::ir::validity::function_names_distinct(m),
        r matches Ok(m) ==> (program.functions@.len() == 0 ==> crate::ir::validity::module_valid(m)),
        r matches Ok(m) ==> {
            &&& m.target@ == target@
            &&& m.datalayout == datalayout
            &&& program_check(program.globals@, program.functions@) is Ok
            &&& m.globals@.len() == program.globals@.len()
            &&& forall|i: int|
                0 <= i < m.globals@.len() ==> {
                    &&& (#[trigger] m.globals@[i]).name@ == program.globals@[i].name@
                    &&& m.globals@[i].ty@ == program_check(program.globals@, program.functions@)->Ok_0[i].1
                    &&& m.globals@[i].init == program_check(program.globals@, program.functions@)->Ok_0[i].2
                    &&& names_kept(m.globals@[i].init_expr@, program.globals@[i].init, None, earlier_names(program.globals@, i))
                }
            &&& m.functions@.len() == program.functions@.len()
            &&& forall|i: int|
                0 <= i < m.functions@.len() ==> signature_lowered(#[trigger] m.functions@[i], program.functions@[i])
            &&& forall|i: int|
                0 <= i < m.functions@.len() ==> census((#[trigger] m.functions@[i]).blocks@) == block_census(
                    program.functions@[i].body,
                    program.functions@[i].body.len() as nat,
                )
            &&& forall|i: int|
                0 <= i < m.functions@.len() ==> params_spilled(
                    (#[trigger] m.functions@[i]).blocks@[0].instructions@,
                    m.functions@[i].params@,
                    m.functions@[i].params@.len() as int,
                )
            &&& forall|i: int|
                0 <= i < m.functions@.len() ==> closed_if_straight(#[trigger] m.functions@[i], program.functions@[i])
            &&& forall|i: int|
                0 <= i < m.functions@.len() ==> crate::ir::validity::facts::params_not_void(#[trigger] m.functions@[i])
                    && crate::ir::validity::facts::has_block(m.functions@[i], m.functions@[i].entry)
        },
{
    let t = match Target::lookup(target) {
        Ok(t) => t,
        Err(e) => return Err(LowerError::Target(e)),
    };
    if let Err(e) = t.validate_layout(datalayout) {
        return Err(LowerError::Target(e));
    }
    assert(lowering_target_ok(target@, datalayout));
    let functions = &program.functions;
    let mut i: usize = 0;
    while i < functions.len()
        invariant
            0 <= i <= functions@.len(),
            lowering_target_ok(target@, datalayout),
            *functions == program.functions,
            forall|a: int, b: int|
                0 <= a < b < i ==> #[trigger] functions@[a].name@ != #[trigger] functions@[b].name@,
            forall|x: int, a: int, b: int|
                0 <= x < i && 0 <= a < b < functions@[x].parameters@.len()
                    ==> #[trigger] functions@[x].parameters@[a].name@
                    != #[trigger] functions@[x].parameters@[b].name@,
        decreases functions.len() - i,
    {
        let mut j: usize = 0;
        while j < i
            invariant
                0 <= j <= i < functions@.len(),
                lowering_target_ok(target@, datalayout),
                *functions == program.functions,
                forall|a: int| 0 <= a < j ==> #[trigger] functions@[a].name@ != functions@[i as int].name@,
            decreases i - j,
        {
            if functions[j].name == functions[i].name {
                assert(functions@[j as int].name@ == functions@[i as int].name@);
                return Err(LowerError::DuplicateFunction(functions[i].name.clone()));
            }
            j += 1;
        }
        let ps = &functions[i].parameters;
        let mut a: usize = 0;
        while a < ps.len()
            invariant
                0 <= a <= ps@.len(),
                0 <= i < functions@.len(),
                lowering_target_ok(target@, datalayout),
                *functions == program.functions,
                *ps == functions@[i as int].parameters,
                forall|x: int, y: int| 0 <= x < y < a ==> #[trigger] ps@[x].name@ != #[trigger] ps@[y].name@,
            decreases ps.len() - a,
        {
            let mut b: usize = 0;
            while b < a
                invariant
                    0 <= b <= a < ps@.len(),
                    0 <= i < functions@.len(),
                    lowering_target_ok(target@, datalayout),
                    *functions == program.functions,
                    *ps == functions@[i as int].parameters,
                    forall|x: int| 0 <= x < b ==> #[trigger] ps@[x].name@ != ps@[a as int].name@,
                decreases a - b,
            {
                if ps[b].name == ps[a].name {
                    assert(ps@[b as int].name@ == ps@[a as int].name@);
                    return Err(
                        LowerError::DuplicateParameter {
                            func: functions[i].name.clone(),
                            param: ps[a].name.clone(),
                        },
                    );
                }
                b += 1;
            }
            a += 1;
        }
        i += 1;
    }
    assert(!has_duplicate_names(*program));
    let mut mb = ModuleBuilder::new(target, datalayout);
    let mut gconsts: Vec<GlobalInfo> = Vec::new();
    let ghost gs = program.globals@;
    let ghost fs = program.functions@;
    proof {
        assert(infos(gconsts@) =~= Seq::<(Seq<char>, TypeModel, ConstValue)>::empty());
    }
    let mut g: usize = 0;
    while g < program.globals.len()
        invariant
            0 <= g <= program.globals@.len(),
            gs == program.globals@,
            fs == program.functions@,
            program_fits(*program),
            lowering_target_ok(target@, datalayout),
            !has_duplicate_names(*program),
            gconsts@.len() == g,
            forall|k: int| 0 <= k < g ==> #[trigger] gconsts@[k].name@ == program.globals@[k].name@,
            forall|a: int, b: int|
                0 <= a < b < g ==> #[trigger] program.globals@[a].name@ != #[trigger] program.globals@[b].name@,
            globals_check(gs, g as nat) == Ok::<Seq<(Seq<char>, TypeModel, ConstValue)>, Fault>(infos(gconsts@)),
            globals_ok(gconsts@),
            mb.next_global == g,
            mb.module.target@ == target@,
            mb.module.datalayout == datalayout,
            mb.module.functions@.len() == 0,
            mb.module.globals@.len() == g,
            forall|k: int|
                0 <= k < g ==> {
                    &&& (#[trigger] mb.module.globals@[k]).name@ == program.globals@[k].name@
                    &&& mb.module.globals@[k].ty@ == gconsts@[k].ty@
                    &&& mb.module.globals@[k].init == gconsts@[k].value
                    &&& names_kept(mb.module.globals@[k].init_expr@, program.globals@[k].init, None, earlier_names(program.globals@, k))
                },
            forall|k: int|
                0 <= k < g ==> crate::ir::constant::valid_constant_spec(
                    (#[trigger] mb.module.globals@[k]).ty@,
                    mb.module.globals@[k].init,
                ) && crate::ir::validity::operands::is_power_of_two(mb.module.globals@[k].align),
            forall|k: int|
                0 <= k < g ==> {
                    &&& (#[trigger] mb.module.globals@[k]).id == GlobalId(k as u32)
                    &&& mb.module.globals@[k].ty@ == mb.module.globals@[k].init_expr.ty@
                    &&& resolves_to(mb.module.globals@[k].init_expr@, gconsts@.take(k), mb.module.globals@[k].init)
                },
        decreases program.globals.len() - g,
    {
        let global = &program.globals[g];
        let ghost old_globals = mb.module.globals@;
        let ghost old_infos = gconsts@;
        if let Some(k) = find_global_index(&gconsts, &global.name) {
            assert(program.globals@[k as int].name@ == program.globals@[g as int].name@);
            proof {
                lemma_globals_error_persists(gs, (g + 1) as nat, gs.len());
            }
            return Err(LowerError::DuplicateGlobal(global.name.clone()));
        }
        let decl_ty = match type_ref_to_type(&global.ty) {
            Ok(t) => t,
            Err(e) => {
                proof {
                    lemma_globals_error_persists(gs, (g + 1) as nat, gs.len());
                }
                return Err(e);
            },
        };
        proof {
            assert(global_names(gconsts@) =~= earlier_names(program.globals@, g as int));
        }
        let (expression, v) = match eval_const_expr(&global.init, None, &gconsts) {
            Ok(p) => p,
            Err(e) => {
                proof {
                    lemma_globals_error_persists(gs, (g + 1) as nat, gs.len());
                }
                return Err(e);
            },
        };
        if !types_equal(&expression.ty, &decl_ty) {
            proof {
                lemma_globals_error_persists(gs, (g + 1) as nat, gs.len());
            }
            return Err(LowerError::TypeMismatch { expected: decl_ty, got: expression.ty });
        }
        let vty = expression.ty.clone();
        let align = match slot_align(&vty, t) {
            Ok(a) => a,
            Err(e) => {
                proof {
                    lemma_globals_error_persists(gs, (g + 1) as nat, gs.len());
                }
                return Err(e);
            },
        };
        proof {
            lemma_slot_align_power(vty@);
            let t = const_tree(None, infos(gconsts@), global.init)->Ok_0;
            assert(eval_spec(t, Seq::<ConstBinding>::empty()) == Ok::<ConstValue, crate::ir::const_expr::ConstEvalError>(v));
            assert(crate::ir::constant::valid_constant_spec(vty@, v));
        }
        let ghost before_add = mb.module.globals@;
        let ghost expr_model = expression@;
        let id = mb.add_global_const(global.name.as_str(), expression, v, align);
        proof {
            assert forall|x: int| 0 <= x < g + 1 implies crate::ir::constant::valid_constant_spec(
                (#[trigger] mb.module.globals@[x]).ty@,
                mb.module.globals@[x].init,
            ) && crate::ir::validity::operands::is_power_of_two(mb.module.globals@[x].align) by {
                if x < g {
                    assert(mb.module.globals@[x] == before_add[x]);
                }
            }
        }
        let info = GlobalInfo { name: global.name.clone(), id, ty: vty, value: v };
        gconsts.push(info);
        proof {
            let tree = const_tree(None, infos(old_infos), global.init)->Ok_0;
            assert(gconsts@.take(g as int) =~= old_infos);
            assert(resolves_with(expr_model, tree, None, old_infos));
            assert(resolves_to(mb.module.globals@[g as int].init_expr@, gconsts@.take(g as int), mb.module.globals@[g as int].init));
            assert forall|x: int| 0 <= x < g + 1 implies {
                &&& (#[trigger] mb.module.globals@[x]).id == GlobalId(x as u32)
                &&& mb.module.globals@[x].ty@ == mb.module.globals@[x].init_expr.ty@
                &&& resolves_to(mb.module.globals@[x].init_expr@, gconsts@.take(x), mb.module.globals@[x].init)
            } by {
                if x < g {
                    assert(mb.module.globals@[x] == before_add[x]);
                    assert(gconsts@.take(x) =~= old_infos.take(x));
                }
            }
        }
        proof {
            assert(infos(gconsts@) =~= infos(old_infos).push(info@));
            assert forall|x: int| 0 <= x < g + 1 implies {
                &&& (#[trigger] mb.module.globals@[x]).name@ == program.globals@[x].name@
                &&& mb.module.globals@[x].ty@ == gconsts@[x].ty@
                &&& mb.module.globals@[x].init == gconsts@[x].value
                &&& names_kept(mb.module.globals@[x].init_expr@, program.globals@[x].init, None, earlier_names(program.globals@, x))
            } by {
                if x < g {
                    assert(mb.module.globals@[x] == mb.module.globals@.drop_last()[x]);
                    assert(gconsts@[x] == old_infos[x]);
                }
            }
            assert forall|x: int| 0 <= x < g + 1 implies #[trigger] gconsts@[x].name@
                == program.globals@[x].name@ by {
                if x < g {
                    assert(gconsts@[x] == old_infos[x]);
                }
            }
            assert forall|x: int| 0 <= x < gconsts@.len() implies (#[trigger] gconsts@[x]).id == GlobalId(
                x as u32,
            ) by {
                if x < g {
                    assert(gconsts@[x] == old_infos[x]);
                }
            }
            assert forall|a: int, b: int|
                0 <= a < b < g + 1 implies #[trigger] program.globals@[a].name@
                != #[trigger] program.globals@[b].name@ by {
                if b == g {
                    assert(old_infos[a].name@ == program.globals@[a].name@);
                }
            }
        }
        g += 1;
    }
    let ghost gm = infos(gconsts@);
    proof {
        assert(functions_check(gm, fs, 0) == Ok::<(), Fault>(()));
        lemma_lowered_globals_consistent(mb.module.globals@, gconsts@);
        assert(crate::ir::validity::globals_ok(mb.module)) by {
            assert forall|a: int, b: int| 0 <= a < b < mb.module.globals@.len() implies #[trigger] mb.module.globals@[a].name@
                != #[trigger] mb.module.globals@[b].name@ by {
                assert(program.globals@[a].name@ != program.globals@[b].name@);
            }
        }
    }
    let mut k: usize = 0;
    while k < program.functions.len()
        invariant
            0 <= k <= program.functions@.len(),
            gs == program.globals@,
            fs == program.functions@,
            program_fits(*program),
            lowering_target_ok(target@, datalayout),
            !has_duplicate_names(*program),
            globals_check(gs, gs.len()) == Ok::<Seq<(Seq<char>, TypeModel, ConstValue)>, Fault>(gm),
            gm == infos(gconsts@),
            globals_ok(gconsts@),
            crate::ir::validity::globals_ok(mb.module),
            crate::ir::validity::constants::globals_consts_ok(mb.module),
            functions_check(gm, fs, k as nat) == Ok::<(), Fault>(()),
            mb.module.target@ == target@,
            mb.module.datalayout == datalayout,
            mb.module.globals@.len() == program.globals@.len(),
            gconsts@.len() == program.globals@.len(),
            forall|x: int|
                0 <= x < program.globals@.len() ==> {
                    &&& (#[trigger] mb.module.globals@[x]).name@ == program.globals@[x].name@
                    &&& mb.module.globals@[x].ty@ == gconsts@[x].ty@
                    &&& mb.module.globals@[x].init == gconsts@[x].value
                    &&& names_kept(mb.module.globals@[x].init_expr@, program.globals@[x].init, None, earlier_names(program.globals@, x))
                },
            mb.module.functions@.len() == k,
            forall|x: int|
                0 <= x < k ==> signature_lowered(#[trigger] mb.module.functions@[x], program.functions@[x]),
            forall|x: int|
                0 <= x < k ==> census((#[trigger] mb.module.functions@[x]).blocks@) == block_census(
                    program.functions@[x].body,
                    program.functions@[x].body.len() as nat,
                ),
            forall|x: int|
                0 <= x < k ==> params_spilled(
                    (#[trigger] mb.module.functions@[x]).blocks@[0].instructions@,
                    mb.module.functions@[x].params@,
                    mb.module.functions@[x].params@.len() as int,
                ),
            forall|x: int|
                0 <= x < k ==> closed_if_straight(#[trigger] mb.module.functions@[x], program.functions@[x]),
            forall|x: int|
                0 <= x < k ==> crate::ir::validity::facts::params_not_void(#[trigger] mb.module.functions@[x])
                    && crate::ir::validity::facts::has_block(mb.module.functions@[x], mb.module.functions@[x].entry),
        decreases program.functions.len() - k,
    {
        let ghost old_functions = mb.module.functions@;
        proof {
            assert(function_fits(fs[k as int]));
        }
        let step = lower_function_o0(&mut mb, &program.functions[k], &gconsts, t);
        if let Err(e) = step {
            proof {
                lemma_functions_error_persists(gm, fs, (k + 1) as nat, fs.len());
            }
            return Err(e);
        }
        proof {
            assert forall|x: int| 0 <= x < k + 1 implies signature_lowered(
                #[trigger] mb.module.functions@[x],
                program.functions@[x],
            ) by {
                if x < k {
                    assert(mb.module.functions@[x] == mb.module.functions@.drop_last()[x]);
                }
            }
            assert forall|x: int| 0 <= x < k + 1 implies census((#[trigger] mb.module.functions@[x]).blocks@)
                == block_census(program.functions@[x].body, program.functions@[x].body.len() as nat) by {
                if x < k {
                    assert(mb.module.functions@[x] == mb.module.functions@.drop_last()[x]);
                }
            }
            assert forall|x: int| 0 <= x < k + 1 implies params_spilled(
                (#[trigger] mb.module.functions@[x]).blocks@[0].instructions@,
                mb.module.functions@[x].params@,
                mb.module.functions@[x].params@.len() as int,
            ) by {
                if x < k {
                    assert(mb.module.functions@[x] == mb.module.functions@.drop_last()[x]);
                }
            }
            assert forall|x: int| 0 <= x < k + 1 implies closed_if_straight(
                #[trigger] mb.module.functions@[x],
                program.functions@[x],
            ) by {
                if x < k {
                    assert(mb.module.functions@[x] == mb.module.functions@.drop_last()[x]);
                }
            }
            assert forall|x: int| 0 <= x < k + 1 implies crate::ir::validity::facts::params_not_void(
                #[trigger] mb.module.functions@[x],
            ) && crate::ir::validity::facts::has_block(mb.module.functions@[x], mb.module.functions@[x].entry) by {
                if x < k {
                    assert(mb.module.functions@[x] == mb.module.functions@.drop_last()[x]);
                }
            }
        }
        k += 1;
    }
    proof {
        assert forall|x: int| 0 <= x < program.globals@.len() implies mb.module.globals@[x].ty@ == gm[x].1
            && mb.module.globals@[x].init == gm[x].2 by {
            assert(gm[x] == gconsts@[x]@);
        }
        assert(crate::ir::validity::target_ok(mb.module)) by {
            assert(crate::target::target_layout(Target::X86_64WhaleLinux) == mb.module.datalayout);
        }
        assert forall|a: int, b: int| 0 <= a < b < mb.module.functions@.len() implies #[trigger] mb.module.functions@[a].name@
            != #[trigger] mb.module.functions@[b].name@ by {
            assert(signature_lowered(mb.module.functions@[a], program.functions@[a]));
            assert(signature_lowered(mb.module.functions@[b], program.functions@[b]));
            assert(program.functions@[a].name@ != program.functions@[b].name@);
        }
    }
    Ok(mb.finish())
}

} // verus!
