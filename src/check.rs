//! The assignment validator and the tree-walking checker.
use vstd::prelude::*;
use crate::ast::{Case, Catch, Class, Def, Diag, DiagKind, Expr, ExprKind, Field, Fun, Param, Pos, Stmt, StmtKind};
use crate::env::{join, lookup, merge_lenvs, Context, EnvModel, Lenv, Rty};
use crate::eval::{explicit_readonly, flag_rty, ro_kind_to_rty, rty_expr, rty_of, wrap};

verus! {

broadcast use vstd::std_specs::vec::group_vec_axioms, vstd::seq::group_seq_axioms;

/// Result of a walk: the environment after it and the diagnostics it reports.
pub type Outcome = (EnvModel, Seq<Diag>);

pub open spec fn diag_at(pos: Pos, kind: DiagKind) -> Diag {
    Diag { start: pos.start, end: pos.end, kind }
}

/// A non-local assignment `lhs = rhs` at `pos`: the diagnostics it reports and
/// the right-hand side after it.
pub open spec fn nonlocal_spec(env: EnvModel, this_ty: Rty, pos: Pos, lhs: Expr, rhs: Expr) -> (
    Seq<Diag>,
    Expr,
)
    decreases lhs,
{
    match lhs.kind {
        ExprKind::ObjGet(obj, _) => if rty_of(env, this_ty, *obj) == Rty::Readonly {
            (seq![diag_at(pos, DiagKind::AssignmentToReadonly)], rhs)
        } else if rty_of(env, this_ty, rhs) == Rty::Readonly {
            (Seq::empty(), wrap(rhs))
        } else {
            (Seq::empty(), rhs)
        },
        ExprKind::ArrayGet(base, _) => nonlocal_spec(env, this_ty, pos, *base, rhs),
        _ => if rty_of(env, this_ty, rhs) == Rty::Mutable {
            (Seq::empty(), rhs)
        } else if rty_of(env, this_ty, lhs) == Rty::Mutable {
            (seq![diag_at(rhs.pos, DiagKind::AssignReadonlyToMutableCollection)], rhs)
        } else {
            (Seq::empty(), wrap(rhs))
        },
    }
}

/// An assignment `lhs = rhs` at `pos`: the environment after it, the
/// diagnostics it reports and the right-hand side after it.
pub open spec fn assign_spec(env: EnvModel, this_ty: Rty, pos: Pos, lhs: Expr, rhs: Expr) -> (
    EnvModel,
    Seq<Diag>,
    Expr,
)
    decreases lhs, 1nat,
{
    match lhs.kind {
        ExprKind::Lvar(name) => (env.insert(name@, rty_of(env, this_ty, rhs)), Seq::empty(), rhs),
        ExprKind::List(targets) => assign_list_spec(env, this_ty, targets@, rhs),
        _ => {
            let (ds, r) = nonlocal_spec(env, this_ty, pos, lhs, rhs);
            (env, ds, r)
        },
    }
}

/// Each target of a destructuring list assigned, in order, from the same `rhs`.
pub open spec fn assign_list_spec(env: EnvModel, this_ty: Rty, targets: Seq<Expr>, rhs: Expr) -> (
    EnvModel,
    Seq<Diag>,
    Expr,
)
    decreases targets, 0nat,
{
    if targets.len() == 0 {
        (env, Seq::empty(), rhs)
    } else {
        let (env1, ds1, rhs1) = assign_list_spec(env, this_ty, targets.drop_last(), rhs);
        let t = targets.last();
        let (env2, ds2, rhs2) = assign_spec(env1, this_ty, t.pos, t, rhs1);
        (env2, ds1 + ds2, rhs2)
    }
}

/// A call argument after marking: behind an explicit marker when it is `Readonly`.
pub open spec fn mark_arg(env: EnvModel, this_ty: Rty, e: Expr) -> Expr {
    if rty_of(env, this_ty, e) == Rty::Readonly {
        wrap(e)
    } else {
        e
    }
}

/// Walk of an expression in a declaration returning `ret` with `$this` of `this_ty`.
pub open spec fn walk_expr(ret: Rty, this_ty: Rty, env: EnvModel, e: Expr) -> Outcome
    decreases e,
{
    match e.kind {
        ExprKind::Assign(lhs, rhs) => {
            let (env1, ds1, _) = assign_spec(env, this_ty, e.pos, *lhs, *rhs);
            let (env2, ds2) = walk_expr(ret, this_ty, env1, *lhs);
            let (env3, ds3) = walk_expr(ret, this_ty, env2, *rhs);
            (env3, ds1 + ds2 + ds3)
        },
        ExprKind::Call(callee, args) => {
            let (env1, ds1) = walk_expr(ret, this_ty, env, *callee);
            let (env2, ds2) = walk_exprs(ret, this_ty, env1, args@);
            (env2, ds1 + ds2)
        },
        ExprKind::ReadonlyExpr(inner) => walk_expr(ret, this_ty, env, *inner),
        ExprKind::Wrap(_, inner) => walk_expr(ret, this_ty, env, *inner),
        ExprKind::ObjGet(a, b) => {
            let (env1, ds1) = walk_expr(ret, this_ty, env, *a);
            let (env2, ds2) = walk_expr(ret, this_ty, env1, *b);
            (env2, ds1 + ds2)
        },
        ExprKind::Pair(a, b) => {
            let (env1, ds1) = walk_expr(ret, this_ty, env, *a);
            let (env2, ds2) = walk_expr(ret, this_ty, env1, *b);
            (env2, ds1 + ds2)
        },
        ExprKind::ArrayGet(base, idx) => match idx {
            Some(i) => {
                let (env1, ds1) = walk_expr(ret, this_ty, env, *base);
                let (env2, ds2) = walk_expr(ret, this_ty, env1, *i);
                (env2, ds1 + ds2)
            },
            None => walk_expr(ret, this_ty, env, *base),
        },
        ExprKind::Eif(c, t, els) => {
            let (env1, ds1) = match t {
                Some(t) => {
                    let (env1, ds1) = walk_expr(ret, this_ty, env, *c);
                    let (env2, ds2) = walk_expr(ret, this_ty, env1, *t);
                    (env2, ds1 + ds2)
                },
                None => walk_expr(ret, this_ty, env, *c),
            };
            let (env2, ds2) = walk_expr(ret, this_ty, env1, *els);
            (env2, ds1 + ds2)
        },
        ExprKind::Aggregate(_, fields) => walk_fields(ret, this_ty, env, fields@),
        ExprKind::List(es) => walk_exprs(ret, this_ty, env, es@),
        ExprKind::Other(_, es) => walk_exprs(ret, this_ty, env, es@),
        ExprKind::Lambda(_, f) => (env, walk_fun(*f)),
        ExprKind::Lvar(_) => (env, Seq::empty()),
        ExprKind::This => (env, Seq::empty()),
        ExprKind::Leaf(_, _) => (env, Seq::empty()),
    }
}

/// Walk of a sequence of expressions, in order.
pub open spec fn walk_exprs(ret: Rty, this_ty: Rty, env: EnvModel, es: Seq<Expr>) -> Outcome
    decreases es,
{
    if es.len() == 0 {
        (env, Seq::empty())
    } else {
        let (env1, ds1) = walk_exprs(ret, this_ty, env, es.drop_last());
        let (env2, ds2) = walk_expr(ret, this_ty, env1, es.last());
        (env2, ds1 + ds2)
    }
}

/// Walk of one field of a collection literal: its key, then its value.
pub open spec fn walk_field(ret: Rty, this_ty: Rty, env: EnvModel, f: Field) -> Outcome
    decreases f,
{
    match f.key {
        Some(k) => {
            let (env1, ds1) = walk_expr(ret, this_ty, env, k);
            let (env2, ds2) = walk_expr(ret, this_ty, env1, f.value);
            (env2, ds1 + ds2)
        },
        None => walk_expr(ret, this_ty, env, f.value),
    }
}

/// Walk of the fields of a collection literal, in order.
pub open spec fn walk_fields(ret: Rty, this_ty: Rty, env: EnvModel, fs: Seq<Field>) -> Outcome
    decreases fs,
{
    if fs.len() == 0 {
        (env, Seq::empty())
    } else {
        let (env1, ds1) = walk_fields(ret, this_ty, env, fs.drop_last());
        let (env2, ds2) = walk_field(ret, this_ty, env1, fs.last());
        (env2, ds1 + ds2)
    }
}

/// The environment in which a declaration's body starts: each parameter bound
/// `Readonly` when declared readonly, else `Mutable`.
pub open spec fn params_env(ps: Seq<Param>) -> EnvModel
    decreases ps.len(),
{
    if ps.len() == 0 {
        Map::empty()
    } else {
        params_env(ps.drop_last()).insert(ps.last().name@, flag_rty(ps.last().readonly))
    }
}

/// Diagnostics of a function or method, checked in a context of its own.
pub open spec fn walk_fun(f: Fun) -> Seq<Diag>
    decreases f,
{
    walk_block(flag_rty(f.readonly_ret), flag_rty(f.readonly_this), params_env(f.params@), f.body@).1
}

/// What a `return e` reports before its expression is walked.
pub open spec fn return_diags(ret: Rty, this_ty: Rty, env: EnvModel, e: Expr) -> Seq<Diag> {
    if rty_of(env, this_ty, e) == Rty::Readonly && ret == Rty::Mutable {
        seq![diag_at(e.pos, DiagKind::InvalidReadonly)]
    } else {
        Seq::empty()
    }
}

/// Walk of a statement.
pub open spec fn walk_stmt(ret: Rty, this_ty: Rty, env: EnvModel, s: Stmt) -> Outcome
    decreases s,
{
    match s.kind {
        StmtKind::Expr(e) => walk_expr(ret, this_ty, env, e),
        StmtKind::Throw(e) => walk_expr(ret, this_ty, env, e),
        StmtKind::Return(opt) => match opt {
            Some(e) => {
                let (env1, ds1) = walk_expr(ret, this_ty, env, e);
                (env1, return_diags(ret, this_ty, env, e) + ds1)
            },
            None => (env, Seq::empty()),
        },
        StmtKind::If(c, then_b, else_b) => {
            let (_, ds0) = walk_expr(ret, this_ty, env, c);
            let (env1, ds1) = walk_block(ret, this_ty, env, then_b@);
            let (env2, ds2) = walk_block(ret, this_ty, env, else_b@);
            (join(env1, env2), ds0 + ds1 + ds2)
        },
        StmtKind::Try(try_b, catches, finally_b) => {
            let (env1, ds1) = walk_block(ret, this_ty, env, try_b@);
            let (env2, ds2) = walk_catches(ret, this_ty, env, env1, catches@);
            let (env3, ds3) = walk_block(ret, this_ty, env2, finally_b@);
            (env3, ds1 + ds2 + ds3)
        },
        StmtKind::Switch(c, cases) => {
            let (env1, ds1) = walk_expr(ret, this_ty, env, c);
            let (env2, ds2) = walk_cases(ret, this_ty, env1, env1, cases@);
            (env2, ds1 + ds2)
        },
        StmtKind::While(c, b) => {
            let (env1, ds1) = walk_expr(ret, this_ty, env, c);
            let (env2, ds2) = walk_block(ret, this_ty, env1, b@);
            (env2, ds1 + ds2)
        },
        StmtKind::DoWhile(b, c) => {
            let (env1, ds1) = walk_block(ret, this_ty, env, b@);
            let (env2, ds2) = walk_expr(ret, this_ty, env1, c);
            (env2, ds1 + ds2)
        },
        StmtKind::For(init, cond, step, b) => {
            let (env1, ds1) = walk_exprs(ret, this_ty, env, init@);
            let (env2, ds2) = walk_exprs(ret, this_ty, env1, cond@);
            let (env3, ds3) = walk_exprs(ret, this_ty, env2, step@);
            let (env4, ds4) = walk_block(ret, this_ty, env3, b@);
            (env4, ds1 + ds2 + ds3 + ds4)
        },
        StmtKind::Foreach(coll, pat, b) => {
            let (env1, ds1) = walk_expr(ret, this_ty, env, coll);
            let (env2, ds2) = walk_expr(ret, this_ty, env1, pat);
            let (env3, ds3) = walk_block(ret, this_ty, env2, b@);
            (env3, ds1 + ds2 + ds3)
        },
        StmtKind::Block(b) => walk_block(ret, this_ty, env, b@),
        StmtKind::Break => (env, Seq::empty()),
        StmtKind::Continue => (env, Seq::empty()),
        StmtKind::Noop => (env, Seq::empty()),
    }
}

/// Walk of a block, statement by statement.
pub open spec fn walk_block(ret: Rty, this_ty: Rty, env: EnvModel, ss: Seq<Stmt>) -> Outcome
    decreases ss,
{
    if ss.len() == 0 {
        (env, Seq::empty())
    } else {
        let (env1, ds1) = walk_block(ret, this_ty, env, ss.drop_last());
        let (env2, ds2) = walk_stmt(ret, this_ty, env1, ss.last());
        (env2, ds1 + ds2)
    }
}

/// Catch clauses, each walked from `pre` and joined into `acc`.
pub open spec fn walk_catches(
    ret: Rty,
    this_ty: Rty,
    pre: EnvModel,
    acc: EnvModel,
    cs: Seq<Catch>,
) -> Outcome
    decreases cs,
{
    if cs.len() == 0 {
        (acc, Seq::empty())
    } else {
        let (env1, ds1) = walk_catches(ret, this_ty, pre, acc, cs.drop_last());
        let (env2, ds2) = walk_block(ret, this_ty, pre, cs.last().body@);
        (join(env1, env2), ds1 + ds2)
    }
}

/// Walk of one switch case from `pre`: the environment after its block and
/// what its label and block report.
pub open spec fn walk_case(ret: Rty, this_ty: Rty, pre: EnvModel, c: Case) -> Outcome
    decreases c,
{
    match c {
        Case::Case(e, b) => {
            let (_, ds1) = walk_expr(ret, this_ty, pre, e);
            let (env2, ds2) = walk_block(ret, this_ty, pre, b@);
            (env2, ds1 + ds2)
        },
        Case::Default(b) => walk_block(ret, this_ty, pre, b@),
    }
}

/// Switch cases, each walked from `pre` and joined into `acc`.
pub open spec fn walk_cases(
    ret: Rty,
    this_ty: Rty,
    pre: EnvModel,
    acc: EnvModel,
    cs: Seq<Case>,
) -> Outcome
    decreases cs,
{
    if cs.len() == 0 {
        (acc, Seq::empty())
    } else {
        let (env1, ds1) = walk_cases(ret, this_ty, pre, acc, cs.drop_last());
        let (env2, ds2) = walk_case(ret, this_ty, pre, cs.last());
        (join(env1, env2), ds1 + ds2)
    }
}

/// Diagnostics of a sequence of methods.
pub open spec fn walk_funs(fs: Seq<Fun>) -> Seq<Diag>
    decreases fs.len(),
{
    if fs.len() == 0 {
        Seq::empty()
    } else {
        walk_funs(fs.drop_last()) + walk_fun(fs.last())
    }
}

/// Walk of a top-level item; top-level statements share one environment.
pub open spec fn walk_def(env: EnvModel, d: Def) -> Outcome {
    match d {
        Def::Fun(f) => (env, walk_fun(f)),
        Def::Class(c) => (env, walk_funs(c.methods@)),
        Def::Stmt(s) => walk_stmt(Rty::Mutable, Rty::Mutable, env, s),
    }
}

/// Walk of a program's items, in order.
pub open spec fn walk_defs(env: EnvModel, ds: Seq<Def>) -> Outcome
    decreases ds.len(),
{
    if ds.len() == 0 {
        (env, Seq::empty())
    } else {
        let (env1, ds1) = walk_defs(env, ds.drop_last());
        let (env2, ds2) = walk_def(env1, ds.last());
        (env2, ds1 + ds2)
    }
}

/// Diagnostics that checking `program` reports.
pub open spec fn program_diags(program: Seq<Def>) -> Seq<Diag> {
    walk_defs(Map::empty(), program).1
}

/// Collects the diagnostics of one pass.
pub struct Checker {
    pub errors: Vec<Diag>,
}

impl Checker {
    pub fn new() -> (r: Checker)
        ensures
            r.errors@ == Seq::<Diag>::empty(),
    {
        Checker { errors: Vec::new() }
    }

    /// Records a diagnostic of `kind` at `pos`.
    pub fn add_error(&mut self, pos: Pos, kind: DiagKind)
        ensures
            final(self).errors@ == old(self).errors@ + seq![diag_at(pos, kind)],
    {
        self.errors.push(Diag { start: pos.start, end: pos.end, kind });
        proof {
            assert(final(self).errors@ =~= old(self).errors@ + seq![diag_at(pos, kind)]);
        }
    }

    /// Reports a return-qualifier mismatch at `pos` when a `Readonly` value
    /// stands where `Mutable` is declared.
    pub fn subtype(&mut self, pos: Pos, r_sub: Rty, r_sup: Rty)
        ensures
            final(self).errors@ == old(self).errors@ + (if r_sub == Rty::Readonly && r_sup
                == Rty::Mutable {
                seq![diag_at(pos, DiagKind::InvalidReadonly)]
            } else {
                Seq::empty()
            }),
    {
        if r_sub == Rty::Readonly && r_sup == Rty::Mutable {
            self.add_error(pos, DiagKind::InvalidReadonly);
        } else {
            proof {
                assert(self.errors@ =~= self.errors@ + Seq::<Diag>::empty());
            }
        }
    }
}

/// Checks an assignment to a non-local target (a property, an element, or any
/// other place) and returns the right-hand side, marked where it must be.
pub fn check_assignment_nonlocal(
    context: &Context,
    checker: &mut Checker,
    pos: Pos,
    lhs: &Expr,
    rhs: Expr,
) -> (r: Expr)
    requires
        context.wf(),
    ensures
        final(checker).errors@ == old(checker).errors@ + nonlocal_spec(
            context.locals@,
            context.this_ty,
            pos,
            *lhs,
            rhs,
        ).0,
        r == nonlocal_spec(context.locals@, context.this_ty, pos, *lhs, rhs).1,
    decreases lhs,
{
    proof {
        assert(checker.errors@ =~= checker.errors@ + Seq::<Diag>::empty());
    }
    match &lhs.kind {
        ExprKind::ObjGet(obj, _) => {
            if rty_expr(context, obj) == Rty::Readonly {
                checker.add_error(pos, DiagKind::AssignmentToReadonly);
                rhs
            } else if rty_expr(context, &rhs) == Rty::Readonly {
                explicit_readonly(rhs)
            } else {
                rhs
            }
        },
        ExprKind::ArrayGet(base, _) => check_assignment_nonlocal(context, checker, pos, base, rhs),
        _ => {
            let l = rty_expr(context, lhs);
            let r = rty_expr(context, &rhs);
            if r == Rty::Mutable {
                rhs
            } else if l == Rty::Mutable {
                checker.add_error(rhs.pos, DiagKind::AssignReadonlyToMutableCollection);
                rhs
            } else {
                explicit_readonly(rhs)
            }
        },
    }
}

/// Checks the assignment `lhs = rhs` at `pos`: a local variable is rebound to
/// the qualifier of `rhs`, each target of a destructuring list is checked
/// against the same `rhs`, any other target goes to the non-local check.
/// Returns the right-hand side, marked where it must be.
pub fn check_assignment_validity(
    context: &mut Context,
    checker: &mut Checker,
    pos: Pos,
    lhs: &Expr,
    rhs: Expr,
) -> (r: Expr)
    requires
        old(context).wf(),
    ensures
        final(context).wf(),
        final(context).readonly_return == old(context).readonly_return,
        final(context).this_ty == old(context).this_ty,
        final(context).locals@ == assign_spec(
            old(context).locals@,
            old(context).this_ty,
            pos,
            *lhs,
            rhs,
        ).0,
        final(checker).errors@ == old(checker).errors@ + assign_spec(
            old(context).locals@,
            old(context).this_ty,
            pos,
            *lhs,
            rhs,
        ).1,
        r == assign_spec(old(context).locals@, old(context).this_ty, pos, *lhs, rhs).2,
    decreases lhs,
{
    match &lhs.kind {
        ExprKind::Lvar(name) => {
            let rty = rty_expr(context, &rhs);
            context.add_local(name, rty);
            proof {
                assert(checker.errors@ =~= checker.errors@ + Seq::<Diag>::empty());
            }
            rhs
        },
        ExprKind::List(targets) => {
            let ghost env0 = context.locals@;
            let ghost errs0 = checker.errors@;
            let ghost rhs0 = rhs;
            let mut cur = rhs;
            let mut i: usize = 0;
            proof {
                assert(errs0 =~= errs0 + Seq::<Diag>::empty());
            }
            while i < targets.len()
                invariant
                    context.wf(),
                    context.readonly_return == old(context).readonly_return,
                    context.this_ty == old(context).this_ty,
                    lhs.kind is List,
                    lhs.kind->List_0 == *targets,
                    i <= targets.len(),
                    ({
                        let (e, ds, r) = assign_list_spec(
                            env0,
                            context.this_ty,
                            targets@.subrange(0, i as int),
                            rhs0,
                        );
                        context.locals@ == e && checker.errors@ == errs0 + ds && cur == r
                    }),
                decreases targets.len() - i,
            {
                proof {
                    assert(targets@.subrange(0, i + 1).drop_last() =~= targets@.subrange(
                        0,
                        i as int,
                    ));
                }
                cur = check_assignment_validity(context, checker, targets[i].pos, &targets[i], cur);
                proof {
                    assert(checker.errors@ =~= errs0 + assign_list_spec(
                        env0,
                        context.this_ty,
                        targets@.subrange(0, i + 1),
                        rhs0,
                    ).1);
                }
                i = i + 1;
            }
            proof {
                assert(targets@.subrange(0, targets.len() as int) =~= targets@);
            }
            cur
        },
        _ => {
            let r = check_assignment_nonlocal(context, checker, pos, lhs, rhs);
            r
        },
    }
}

/// `r` is `e` after its walk from `env`: the same tree, with each right-hand
/// side and call argument marked as the assignment check and the argument
/// marking decided.
pub open spec fn expr_out(ret: Rty, this_ty: Rty, env: EnvModel, e: Expr, r: Expr) -> bool
    decreases e, 0nat,
{
    r.pos == e.pos && match (e.kind, r.kind) {
        (ExprKind::Assign(lhs, rhs), ExprKind::Assign(lhs2, rhs2)) => {
            let (env1, _, rhs1) = assign_spec(env, this_ty, e.pos, *lhs, *rhs);
            let env2 = walk_expr(ret, this_ty, env1, *lhs).0;
            expr_out(ret, this_ty, env1, *lhs, *lhs2) && marked_out(
                ret,
                this_ty,
                env2,
                *rhs,
                rhs1 == wrap(*rhs),
                *rhs2,
            )
        },
        (ExprKind::Call(callee, args), ExprKind::Call(callee2, args2)) => {
            let env1 = walk_expr(ret, this_ty, env, *callee).0;
            expr_out(ret, this_ty, env, *callee, *callee2) && exprs_out(
                ret,
                this_ty,
                env1,
                args@,
                args2@,
                Some(env),
            )
        },
        (ExprKind::ReadonlyExpr(a), ExprKind::ReadonlyExpr(a2)) => expr_out(ret, this_ty, env, *a, *a2),
        (ExprKind::Wrap(k, a), ExprKind::Wrap(k2, a2)) => k == k2 && expr_out(ret, this_ty, env, *a, *a2),
        (ExprKind::ObjGet(a, b), ExprKind::ObjGet(a2, b2)) => {
            let env1 = walk_expr(ret, this_ty, env, *a).0;
            expr_out(ret, this_ty, env, *a, *a2) && expr_out(ret, this_ty, env1, *b, *b2)
        },
        (ExprKind::Pair(a, b), ExprKind::Pair(a2, b2)) => {
            let env1 = walk_expr(ret, this_ty, env, *a).0;
            expr_out(ret, this_ty, env, *a, *a2) && expr_out(ret, this_ty, env1, *b, *b2)
        },
        (ExprKind::ArrayGet(a, idx), ExprKind::ArrayGet(a2, idx2)) => {
            let env1 = walk_expr(ret, this_ty, env, *a).0;
            expr_out(ret, this_ty, env, *a, *a2) && match (idx, idx2) {
                (Some(i), Some(i2)) => expr_out(ret, this_ty, env1, *i, *i2),
                (None, None) => true,
                _ => false,
            }
        },
        (ExprKind::Eif(c, t, els), ExprKind::Eif(c2, t2, els2)) => {
            let env1 = walk_expr(ret, this_ty, env, *c).0;
            expr_out(ret, this_ty, env, *c, *c2) && match (t, t2) {
                (Some(t), Some(t2)) => expr_out(ret, this_ty, env1, *t, *t2) && expr_out(
                    ret,
                    this_ty,
                    walk_expr(ret, this_ty, env1, *t).0,
                    *els,
                    *els2,
                ),
                (None, None) => expr_out(ret, this_ty, env1, *els, *els2),
                _ => false,
            }
        },
        (ExprKind::Aggregate(k, fs), ExprKind::Aggregate(k2, fs2)) => k == k2 && fields_out(
            ret,
            this_ty,
            env,
            fs@,
            fs2@,
        ),
        (ExprKind::List(es), ExprKind::List(es2)) => exprs_out(ret, this_ty, env, es@, es2@, None),
        (ExprKind::Other(k, es), ExprKind::Other(k2, es2)) => k == k2 && exprs_out(
            ret,
            this_ty,
            env,
            es@,
            es2@,
            None,
        ),
        (ExprKind::Lambda(k, f), ExprKind::Lambda(k2, f2)) => k == k2 && fun_out(*f, *f2),
        (ExprKind::Lvar(_), _) => r.kind == e.kind,
        (ExprKind::This, _) => r.kind == e.kind,
        (ExprKind::Leaf(_, _), _) => r.kind == e.kind,
        _ => false,
    }
}

/// `r` is `orig` after its walk, behind a marker when `mark` is set.
pub open spec fn marked_out(ret: Rty, this_ty: Rty, env: EnvModel, orig: Expr, mark: bool, r: Expr) -> bool
    decreases orig, 1nat,
{
    if mark && !(orig.kind is ReadonlyExpr) {
        r.pos == orig.pos && match r.kind {
            ExprKind::ReadonlyExpr(inner) => expr_out(ret, this_ty, env, orig, *inner),
            _ => false,
        }
    } else {
        expr_out(ret, this_ty, env, orig, r)
    }
}

/// Whether an element of a walked sequence is marked: only call arguments
/// are, by the environment `marking` before the call.
pub open spec fn is_marked_arg(this_ty: Rty, marking: Option<EnvModel>, e: Expr) -> bool {
    match marking {
        Some(m) => rty_of(m, this_ty, e) == Rty::Readonly,
        None => false,
    }
}

/// `rs` is `es` after its walk from `env`, element by element.
pub open spec fn exprs_out(
    ret: Rty,
    this_ty: Rty,
    env: EnvModel,
    es: Seq<Expr>,
    rs: Seq<Expr>,
    marking: Option<EnvModel>,
) -> bool
    decreases es, 0nat,
{
    rs.len() == es.len() && (es.len() > 0 ==> {
        &&& exprs_out(ret, this_ty, env, es.drop_last(), rs.drop_last(), marking)
        &&& marked_out(
            ret,
            this_ty,
            walk_exprs(ret, this_ty, env, es.drop_last()).0,
            es.last(),
            is_marked_arg(this_ty, marking, es.last()),
            rs.last(),
        )
    })
}

/// `r` is the field `f` after its walk from `env`.
pub open spec fn field_out(ret: Rty, this_ty: Rty, env: EnvModel, f: Field, r: Field) -> bool
    decreases f, 0nat,
{
    match (f.key, r.key) {
        (Some(k), Some(k2)) => expr_out(ret, this_ty, env, k, k2) && expr_out(
            ret,
            this_ty,
            walk_expr(ret, this_ty, env, k).0,
            f.value,
            r.value,
        ),
        (None, None) => expr_out(ret, this_ty, env, f.value, r.value),
        _ => false,
    }
}

/// `rs` is `fs` after its walk from `env`, field by field.
pub open spec fn fields_out(ret: Rty, this_ty: Rty, env: EnvModel, fs: Seq<Field>, rs: Seq<Field>) -> bool
    decreases fs, 0nat,
{
    rs.len() == fs.len() && (fs.len() > 0 ==> {
        &&& fields_out(ret, this_ty, env, fs.drop_last(), rs.drop_last())
        &&& field_out(
            ret,
            this_ty,
            walk_fields(ret, this_ty, env, fs.drop_last()).0,
            fs.last(),
            rs.last(),
        )
    })
}

/// `r` is the function `f` after it is checked: only its body changes.
pub open spec fn fun_out(f: Fun, r: Fun) -> bool
    decreases f, 0nat,
{
    &&& r.name == f.name
    &&& r.params == f.params
    &&& r.readonly_ret == f.readonly_ret
    &&& r.readonly_this == f.readonly_this
    &&& block_out(
        flag_rty(f.readonly_ret),
        flag_rty(f.readonly_this),
        params_env(f.params@),
        f.body@,
        r.body@,
    )
}

/// `r` is the statement `s` after its walk from `env`.
pub open spec fn stmt_out(ret: Rty, this_ty: Rty, env: EnvModel, s: Stmt, r: Stmt) -> bool
    decreases s, 0nat,
{
    r.pos == s.pos && match (s.kind, r.kind) {
        (StmtKind::Expr(e), StmtKind::Expr(e2)) => expr_out(ret, this_ty, env, e, e2),
        (StmtKind::Throw(e), StmtKind::Throw(e2)) => expr_out(ret, this_ty, env, e, e2),
        (StmtKind::Return(o), StmtKind::Return(o2)) => match (o, o2) {
            (Some(e), Some(e2)) => expr_out(ret, this_ty, env, e, e2),
            (None, None) => true,
            _ => false,
        },
        (StmtKind::If(c, t, el), StmtKind::If(c2, t2, el2)) => {
            &&& expr_out(ret, this_ty, env, c, c2)
            &&& block_out(ret, this_ty, env, t@, t2@)
            &&& block_out(ret, this_ty, env, el@, el2@)
        },
        (StmtKind::Try(tb, cs, fb), StmtKind::Try(tb2, cs2, fb2)) => {
            let env1 = walk_block(ret, this_ty, env, tb@).0;
            let env2 = walk_catches(ret, this_ty, env, env1, cs@).0;
            &&& block_out(ret, this_ty, env, tb@, tb2@)
            &&& catches_out(ret, this_ty, env, cs@, cs2@)
            &&& block_out(ret, this_ty, env2, fb@, fb2@)
        },
        (StmtKind::Switch(c, cases), StmtKind::Switch(c2, cases2)) => {
            let env1 = walk_expr(ret, this_ty, env, c).0;
            expr_out(ret, this_ty, env, c, c2) && cases_out(ret, this_ty, env1, cases@, cases2@)
        },
        (StmtKind::While(c, b), StmtKind::While(c2, b2)) => {
            let env1 = walk_expr(ret, this_ty, env, c).0;
            expr_out(ret, this_ty, env, c, c2) && block_out(ret, this_ty, env1, b@, b2@)
        },
        (StmtKind::DoWhile(b, c), StmtKind::DoWhile(b2, c2)) => {
            let env1 = walk_block(ret, this_ty, env, b@).0;
            block_out(ret, this_ty, env, b@, b2@) && expr_out(ret, this_ty, env1, c, c2)
        },
        (StmtKind::For(i, c, st, b), StmtKind::For(i2, c2, st2, b2)) => {
            let env1 = walk_exprs(ret, this_ty, env, i@).0;
            let env2 = walk_exprs(ret, this_ty, env1, c@).0;
            let env3 = walk_exprs(ret, this_ty, env2, st@).0;
            &&& exprs_out(ret, this_ty, env, i@, i2@, None)
            &&& exprs_out(ret, this_ty, env1, c@, c2@, None)
            &&& exprs_out(ret, this_ty, env2, st@, st2@, None)
            &&& block_out(ret, this_ty, env3, b@, b2@)
        },
        (StmtKind::Foreach(a, p, b), StmtKind::Foreach(a2, p2, b2)) => {
            let env1 = walk_expr(ret, this_ty, env, a).0;
            let env2 = walk_expr(ret, this_ty, env1, p).0;
            &&& expr_out(ret, this_ty, env, a, a2)
            &&& expr_out(ret, this_ty, env1, p, p2)
            &&& block_out(ret, this_ty, env2, b@, b2@)
        },
        (StmtKind::Block(b), StmtKind::Block(b2)) => block_out(ret, this_ty, env, b@, b2@),
        (StmtKind::Break, StmtKind::Break) => true,
        (StmtKind::Continue, StmtKind::Continue) => true,
        (StmtKind::Noop, StmtKind::Noop) => true,
        _ => false,
    }
}

/// `rs` is the block `ss` after its walk from `env`, statement by statement.
pub open spec fn block_out(ret: Rty, this_ty: Rty, env: EnvModel, ss: Seq<Stmt>, rs: Seq<Stmt>) -> bool
    decreases ss, 0nat,
{
    rs.len() == ss.len() && (ss.len() > 0 ==> {
        &&& block_out(ret, this_ty, env, ss.drop_last(), rs.drop_last())
        &&& stmt_out(
            ret,
            this_ty,
            walk_block(ret, this_ty, env, ss.drop_last()).0,
            ss.last(),
            rs.last(),
        )
    })
}

/// `rs` is the catch clauses `cs` after each is walked from `pre`.
pub open spec fn catches_out(ret: Rty, this_ty: Rty, pre: EnvModel, cs: Seq<Catch>, rs: Seq<Catch>) -> bool
    decreases cs, 0nat,
{
    rs.len() == cs.len() && (cs.len() > 0 ==> {
        &&& catches_out(ret, this_ty, pre, cs.drop_last(), rs.drop_last())
        &&& rs.last().class == cs.last().class
        &&& rs.last().var == cs.last().var
        &&& block_out(ret, this_ty, pre, cs.last().body@, rs.last().body@)
    })
}

/// `r` is the switch case `c` after it is walked from `pre`.
pub open spec fn case_out(ret: Rty, this_ty: Rty, pre: EnvModel, c: Case, r: Case) -> bool
    decreases c, 0nat,
{
    match (c, r) {
        (Case::Case(e, b), Case::Case(e2, b2)) => expr_out(ret, this_ty, pre, e, e2) && block_out(
            ret,
            this_ty,
            pre,
            b@,
            b2@,
        ),
        (Case::Default(b), Case::Default(b2)) => block_out(ret, this_ty, pre, b@, b2@),
        _ => false,
    }
}

/// `rs` is the switch cases `cs` after each is walked from `pre`.
pub open spec fn cases_out(ret: Rty, this_ty: Rty, pre: EnvModel, cs: Seq<Case>, rs: Seq<Case>) -> bool
    decreases cs, 0nat,
{
    rs.len() == cs.len() && (cs.len() > 0 ==> {
        &&& cases_out(ret, this_ty, pre, cs.drop_last(), rs.drop_last())
        &&& case_out(ret, this_ty, pre, cs.last(), rs.last())
    })
}

/// `r` is the top-level item `d` after it is checked from `env`.
pub open spec fn def_out(env: EnvModel, d: Def, r: Def) -> bool {
    match (d, r) {
        (Def::Fun(f), Def::Fun(f2)) => fun_out(f, f2),
        (Def::Class(c), Def::Class(c2)) => {
            &&& c2.name == c.name
            &&& c2.methods@.len() == c.methods@.len()
            &&& forall|i: int| 0 <= i < c.methods@.len() ==> fun_out(#[trigger] c.methods@[i], c2.methods@[i])
        },
        (Def::Stmt(s), Def::Stmt(s2)) => stmt_out(Rty::Mutable, Rty::Mutable, env, s, s2),
        _ => false,
    }
}

/// `rs` is the program `ds` after it is checked, item by item.
pub open spec fn defs_out(env: EnvModel, ds: Seq<Def>, rs: Seq<Def>) -> bool
    decreases ds.len(),
{
    rs.len() == ds.len() && (ds.len() > 0 ==> {
        &&& defs_out(env, ds.drop_last(), rs.drop_last())
        &&& def_out(walk_defs(env, ds.drop_last()).0, ds.last(), rs.last())
    })
}

/// `c1` and `e1` are `c0` and `e0` after a walk with outcome `o`: same
/// declaration, the outcome's environment, its diagnostics appended.
pub open spec fn advances(c0: Context, c1: Context, e0: Seq<Diag>, e1: Seq<Diag>, o: Outcome) -> bool {
    &&& c1.wf()
    &&& c1.readonly_return == c0.readonly_return
    &&& c1.this_ty == c0.this_ty
    &&& c1.locals@ == o.0
    &&& e1 == e0 + o.1
}

/// Across an `if`, a name stays `Readonly` when either branch ends with it
/// `Readonly`; in particular, a name that is `Readonly` before the `if` stays
/// so when either branch leaves its binding as it found it, as an empty
/// `else` does.
pub proof fn lemma_if_keeps_readonly(ret: Rty, this_ty: Rty, env: EnvModel, s: Stmt, name: Seq<char>)
    requires
        s.kind is If,
    ensures
        ({
            let then_env = walk_block(ret, this_ty, env, s.kind->If_1@).0;
            let else_env = walk_block(ret, this_ty, env, s.kind->If_2@).0;
            let after = walk_stmt(ret, this_ty, env, s).0;
            &&& (lookup(then_env, name) == Rty::Readonly || lookup(else_env, name) == Rty::Readonly)
                ==> lookup(after, name) == Rty::Readonly
            &&& (lookup(env, name) == Rty::Readonly && (lookup(then_env, name) == lookup(env, name)
                || lookup(else_env, name) == lookup(env, name))) ==> lookup(after, name)
                == Rty::Readonly
            &&& (lookup(env, name) == Rty::Readonly && s.kind->If_2@.len() == 0) ==> lookup(
                after,
                name,
            ) == Rty::Readonly
        }),
{
}

/// An assignment hands back its right-hand side, marked or not.
proof fn lemma_assign_rhs(env: EnvModel, this_ty: Rty, pos: Pos, lhs: Expr, rhs: Expr)
    ensures
        assign_spec(env, this_ty, pos, lhs, rhs).2 == rhs || assign_spec(
            env,
            this_ty,
            pos,
            lhs,
            rhs,
        ).2 == wrap(rhs),
    decreases lhs, 1nat,
{
    match lhs.kind {
        ExprKind::Lvar(_) => {},
        ExprKind::List(targets) => lemma_assign_list_rhs(env, this_ty, targets@, rhs),
        _ => lemma_nonlocal_rhs(env, this_ty, pos, lhs, rhs),
    }
}

proof fn lemma_assign_list_rhs(env: EnvModel, this_ty: Rty, targets: Seq<Expr>, rhs: Expr)
    ensures
        assign_list_spec(env, this_ty, targets, rhs).2 == rhs || assign_list_spec(
            env,
            this_ty,
            targets,
            rhs,
        ).2 == wrap(rhs),
    decreases targets, 0nat,
{
    if targets.len() > 0 {
        lemma_assign_list_rhs(env, this_ty, targets.drop_last(), rhs);
        let (env1, _, rhs1) = assign_list_spec(env, this_ty, targets.drop_last(), rhs);
        let t = targets.last();
        lemma_assign_rhs(env1, this_ty, t.pos, t, rhs1);
    }
}

proof fn lemma_nonlocal_rhs(env: EnvModel, this_ty: Rty, pos: Pos, lhs: Expr, rhs: Expr)
    ensures
        nonlocal_spec(env, this_ty, pos, lhs, rhs).1 == rhs || nonlocal_spec(
            env,
            this_ty,
            pos,
            lhs,
            rhs,
        ).1 == wrap(rhs),
    decreases lhs,
{
    if let ExprKind::ArrayGet(base, _) = lhs.kind {
        lemma_nonlocal_rhs(env, this_ty, pos, *base, rhs);
    }
}

/// Marks each call argument that evaluates `Readonly`.
pub fn mark_readonly_args(context: &Context, args: Vec<Expr>) -> (r: Vec<Expr>)
    requires
        context.wf(),
    ensures
        r@ == args@.map_values(|a: Expr| mark_arg(context.locals@, context.this_ty, a)),
{
    let ghost orig = args@;
    let mut rest = args;
    let mut out: Vec<Expr> = Vec::new();
    let ghost mut i: int = 0;
    while rest.len() > 0
        invariant
            context.wf(),
            0 <= i <= orig.len(),
            rest@ == orig.subrange(i, orig.len() as int),
            out@ == orig.subrange(0, i).map_values(
                |a: Expr| mark_arg(context.locals@, context.this_ty, a),
            ),
        decreases rest.len(),
    {
        let a = rest.remove(0);
        let m = if rty_expr(context, &a) == Rty::Readonly {
            explicit_readonly(a)
        } else {
            a
        };
        out.push(m);
        proof {
            i = i + 1;
            assert(rest@ =~= orig.subrange(i, orig.len() as int));
            assert(out@ =~= orig.subrange(0, i).map_values(
                |a: Expr| mark_arg(context.locals@, context.this_ty, a),
            ));
        }
    }
    proof {
        assert(orig.subrange(0, i) =~= orig);
    }
    out
}

impl Checker {
    /// Walks an expression: checks each assignment and marks readonly call
    /// arguments before walking the sub-expressions, in order.
    #[verifier::rlimit(60)]
    pub fn visit_expr(&mut self, context: &mut Context, e: Expr) -> (r: Expr)
        requires
            old(context).wf(),
        ensures
            advances(
                *old(context),
                *final(context),
                old(self).errors@,
                final(self).errors@,
                walk_expr(old(context).readonly_return, old(context).this_ty, old(context).locals@, e),
            ),
            expr_out(old(context).readonly_return, old(context).this_ty, old(context).locals@, e, r),
        decreases e, 1nat,
    {
        let ghost ge = e;
        let ghost env0 = context.locals@;
        let ghost errs0 = self.errors@;
        let ghost ret = context.readonly_return;
        let ghost this_ty = context.this_ty;
        let Expr { pos, kind } = e;
        match kind {
            ExprKind::Assign(lhs, rhs) => {
                let ghost rhs0: Expr = *rhs;
                let rhs1 = check_assignment_validity(context, self, pos, &lhs, *rhs);
                proof {
                    lemma_assign_rhs(env0, this_ty, pos, *lhs, rhs0);
                }
                let lhs1 = self.visit_expr(context, *lhs);
                let ghost mark = rhs1 == wrap(rhs0);
                let rhs2 = self.visit_marked(context, rhs1, Ghost(rhs0), Ghost(mark));
                proof {
                    assert(self.errors@ =~= errs0 + walk_expr(ret, this_ty, env0, ge).1);
                }
                Expr { pos, kind: ExprKind::Assign(Box::new(lhs1), Box::new(rhs2)) }
            },
            ExprKind::Call(callee, args) => {
                let ghost args0 = args@;
                let marked = mark_readonly_args(context, args);
                let callee1 = self.visit_expr(context, *callee);
                let args1 = self.visit_exprs(context, marked, Ghost(args0), Ghost(Some(env0)));
                proof {
                    assert(self.errors@ =~= errs0 + walk_expr(ret, this_ty, env0, ge).1);
                }
                Expr { pos, kind: ExprKind::Call(Box::new(callee1), args1) }
            },
            ExprKind::ReadonlyExpr(inner) => {
                let i1 = self.visit_expr(context, *inner);
                Expr { pos, kind: ExprKind::ReadonlyExpr(Box::new(i1)) }
            },
            ExprKind::Wrap(k, inner) => {
                let i1 = self.visit_expr(context, *inner);
                Expr { pos, kind: ExprKind::Wrap(k, Box::new(i1)) }
            },
            ExprKind::ObjGet(a, b) => {
                let a1 = self.visit_expr(context, *a);
                let b1 = self.visit_expr(context, *b);
                proof {
                    assert(self.errors@ =~= errs0 + walk_expr(ret, this_ty, env0, ge).1);
                }
                Expr { pos, kind: ExprKind::ObjGet(Box::new(a1), Box::new(b1)) }
            },
            ExprKind::Pair(a, b) => {
                let a1 = self.visit_expr(context, *a);
                let b1 = self.visit_expr(context, *b);
                proof {
                    assert(self.errors@ =~= errs0 + walk_expr(ret, this_ty, env0, ge).1);
                }
                Expr { pos, kind: ExprKind::Pair(Box::new(a1), Box::new(b1)) }
            },
            ExprKind::ArrayGet(base, idx) => {
                let base1 = self.visit_expr(context, *base);
                let idx1 = match idx {
                    Some(i) => {
                        let i1 = self.visit_expr(context, *i);
                        Some(Box::new(i1))
                    },
                    None => None,
                };
                proof {
                    assert(self.errors@ =~= errs0 + walk_expr(ret, this_ty, env0, ge).1);
                }
                Expr { pos, kind: ExprKind::ArrayGet(Box::new(base1), idx1) }
            },
            ExprKind::Eif(c, t, els) => {
                let c1 = self.visit_expr(context, *c);
                let t1 = match t {
                    Some(t) => {
                        let t1 = self.visit_expr(context, *t);
                        Some(Box::new(t1))
                    },
                    None => None,
                };
                let els1 = self.visit_expr(context, *els);
                proof {
                    assert(self.errors@ =~= errs0 + walk_expr(ret, this_ty, env0, ge).1);
                }
                Expr { pos, kind: ExprKind::Eif(Box::new(c1), t1, Box::new(els1)) }
            },
            ExprKind::Aggregate(k, fields) => {
                let f1 = self.visit_fields(context, fields);
                Expr { pos, kind: ExprKind::Aggregate(k, f1) }
            },
            ExprKind::List(es) => {
                let ghost v = es@;
                let es1 = self.visit_exprs(context, es, Ghost(v), Ghost(None));
                Expr { pos, kind: ExprKind::List(es1) }
            },
            ExprKind::Other(k, es) => {
                let ghost v = es@;
                let es1 = self.visit_exprs(context, es, Ghost(v), Ghost(None));
                Expr { pos, kind: ExprKind::Other(k, es1) }
            },
            ExprKind::Lambda(k, f) => {
                let f1 = self.visit_fun(*f);
                Expr { pos, kind: ExprKind::Lambda(k, Box::new(f1)) }
            },
            ExprKind::Lvar(n) => {
                proof {
                    assert(self.errors@ =~= errs0 + Seq::<Diag>::empty());
                }
                Expr { pos, kind: ExprKind::Lvar(n) }
            },
            ExprKind::This => {
                proof {
                    assert(self.errors@ =~= errs0 + Seq::<Diag>::empty());
                }
                Expr { pos, kind: ExprKind::This }
            },
            ExprKind::Leaf(k, text) => {
                proof {
                    assert(self.errors@ =~= errs0 + Seq::<Diag>::empty());
                }
                Expr { pos, kind: ExprKind::Leaf(k, text) }
            },
        }
    }

    /// Walks `x`, which is `orig` or `orig` behind a marker, as `orig` is walked.
    fn visit_marked(
        &mut self,
        context: &mut Context,
        x: Expr,
        Ghost(orig): Ghost<Expr>,
        Ghost(mark): Ghost<bool>,
    ) -> (r: Expr)
        requires
            old(context).wf(),
            x == (if mark {
                wrap(orig)
            } else {
                orig
            }),
        ensures
            advances(
                *old(context),
                *final(context),
                old(self).errors@,
                final(self).errors@,
                walk_expr(
                    old(context).readonly_return,
                    old(context).this_ty,
                    old(context).locals@,
                    orig,
                ),
            ),
            marked_out(
                old(context).readonly_return,
                old(context).this_ty,
                old(context).locals@,
                orig,
                mark,
                r,
            ),
        decreases orig, 2nat,
    {
        let Expr { pos, kind } = x;
        match kind {
            ExprKind::ReadonlyExpr(inner) => {
                let i1 = self.visit_expr(context, *inner);
                Expr { pos, kind: ExprKind::ReadonlyExpr(Box::new(i1)) }
            },
            other => self.visit_expr(context, Expr { pos, kind: other }),
        }
    }

    /// Walks `es`, whose elements are those of `orig`, each marked or not, in order.
    fn visit_exprs(
        &mut self,
        context: &mut Context,
        es: Vec<Expr>,
        Ghost(orig): Ghost<Seq<Expr>>,
        Ghost(marking): Ghost<Option<EnvModel>>,
    ) -> (r: Vec<Expr>)
        requires
            old(context).wf(),
            es@.len() == orig.len(),
            forall|i: int|
                0 <= i < orig.len() ==> es@[i] == (if is_marked_arg(
                    old(context).this_ty,
                    marking,
                    #[trigger] orig[i],
                ) {
                    wrap(orig[i])
                } else {
                    orig[i]
                }),
        ensures
            advances(
                *old(context),
                *final(context),
                old(self).errors@,
                final(self).errors@,
                walk_exprs(
                    old(context).readonly_return,
                    old(context).this_ty,
                    old(context).locals@,
                    orig,
                ),
            ),
            exprs_out(
                old(context).readonly_return,
                old(context).this_ty,
                old(context).locals@,
                orig,
                r@,
                marking,
            ),
        decreases orig, 0nat,
    {
        let ghost env0 = context.locals@;
        let ghost errs0 = self.errors@;
        let ghost ret = context.readonly_return;
        let ghost this_ty = context.this_ty;
        let ghost es0 = es@;
        let mut rest = es;
        let mut out: Vec<Expr> = Vec::new();
        let ghost mut i: int = 0;
        proof {
            assert(errs0 =~= errs0 + Seq::<Diag>::empty());
        }
        while rest.len() > 0
            invariant
                0 <= i <= orig.len(),
                es0.len() == orig.len(),
                forall|j: int|
                    0 <= j < orig.len() ==> es0[j] == (if is_marked_arg(
                        this_ty,
                        marking,
                        #[trigger] orig[j],
                    ) {
                        wrap(orig[j])
                    } else {
                        orig[j]
                    }),
                exprs_out(ret, this_ty, env0, orig.subrange(0, i), out@, marking),
                rest@ == es0.subrange(i, orig.len() as int),
                context.readonly_return == ret,
                context.this_ty == this_ty,
                advances(
                    *old(context),
                    *context,
                    errs0,
                    self.errors@,
                    walk_exprs(ret, this_ty, env0, orig.subrange(0, i)),
                ),
            decreases rest.len(),
        {
            let x = rest.remove(0);
            proof {
                assert(orig.subrange(0, i + 1).drop_last() =~= orig.subrange(0, i));
            }
            let x1 = self.visit_marked(
                context,
                x,
                Ghost(orig[i]),
                Ghost(is_marked_arg(this_ty, marking, orig[i])),
            );
            let ghost out0 = out@;
            out.push(x1);
            proof {
                assert(out@.drop_last() =~= out0);
                i = i + 1;
                assert(rest@ =~= es0.subrange(i, orig.len() as int));
                assert(self.errors@ =~= errs0 + walk_exprs(ret, this_ty, env0, orig.subrange(0, i)).1);
            }
        }
        proof {
            assert(orig.subrange(0, i) =~= orig);
        }
        out
    }

    /// Walks the fields of a collection literal in order, each key before its value.
    fn visit_fields(&mut self, context: &mut Context, fs: Vec<Field>) -> (r: Vec<Field>)
        requires
            old(context).wf(),
        ensures
            advances(
                *old(context),
                *final(context),
                old(self).errors@,
                final(self).errors@,
                walk_fields(
                    old(context).readonly_return,
                    old(context).this_ty,
                    old(context).locals@,
                    fs@,
                ),
            ),
            fields_out(
                old(context).readonly_return,
                old(context).this_ty,
                old(context).locals@,
                fs@,
                r@,
            ),
        decreases fs, 0nat,
    {
        let ghost env0 = context.locals@;
        let ghost errs0 = self.errors@;
        let ghost ret = context.readonly_return;
        let ghost this_ty = context.this_ty;
        let ghost orig = fs@;
        let mut rest = fs;
        let mut out: Vec<Field> = Vec::new();
        let ghost mut i: int = 0;
        proof {
            assert(errs0 =~= errs0 + Seq::<Diag>::empty());
        }
        while rest.len() > 0
            invariant
                0 <= i <= orig.len(),
                orig == fs@,
                rest@ == orig.subrange(i, orig.len() as int),
                context.readonly_return == ret,
                context.this_ty == this_ty,
                advances(
                    *old(context),
                    *context,
                    errs0,
                    self.errors@,
                    walk_fields(ret, this_ty, env0, orig.subrange(0, i)),
                ),
                fields_out(ret, this_ty, env0, orig.subrange(0, i), out@),
            decreases rest.len(),
        {
            let f = rest.remove(0);
            proof {
                assert(orig.subrange(0, i + 1).drop_last() =~= orig.subrange(0, i));
            }
            let ghost errs1 = self.errors@;
            let ghost env1 = context.locals@;
            let Field { key, value } = f;
            let key1 = match key {
                Some(k) => {
                    let k1 = self.visit_expr(context, k);
                    Some(k1)
                },
                None => None,
            };
            let value1 = self.visit_expr(context, value);
            let f1 = Field { key: key1, value: value1 };
            proof {
                assert(field_out(ret, this_ty, env1, orig[i], f1));
            }
            let ghost out0 = out@;
            out.push(f1);
            proof {
                assert(out@.drop_last() =~= out0);
                assert(self.errors@ =~= errs1 + walk_field(ret, this_ty, env1, orig[i]).1);
                i = i + 1;
                assert(rest@ =~= orig.subrange(i, orig.len() as int));
                assert(self.errors@ =~= errs0 + walk_fields(ret, this_ty, env0, orig.subrange(0, i)).1);
            }
        }
        proof {
            assert(orig.subrange(0, i) =~= orig);
        }
        out
    }

    /// Checks a function or method in a context of its own: its declared
    /// qualifiers, and its parameters bound as declared.
    pub fn visit_fun(&mut self, f: Fun) -> (r: Fun)
        ensures
            final(self).errors@ == old(self).errors@ + walk_fun(f),
            fun_out(f, r),
        decreases f, 0nat,
    {
        let Fun { name, params, readonly_ret, readonly_this, body } = f;
        let mut context = Context::new(ro_kind_to_rty(readonly_ret), ro_kind_to_rty(readonly_this));
        let mut i: usize = 0;
        while i < params.len()
            invariant
                context.wf(),
                context.readonly_return == flag_rty(readonly_ret),
                context.this_ty == flag_rty(readonly_this),
                i <= params.len(),
                context.locals@ == params_env(params@.subrange(0, i as int)),
            decreases params.len() - i,
        {
            proof {
                assert(params@.subrange(0, i + 1).drop_last() =~= params@.subrange(0, i as int));
            }
            let rty = ro_kind_to_rty(params[i].readonly);
            context.add_local(&params[i].name, rty);
            i = i + 1;
        }
        proof {
            assert(params@.subrange(0, params.len() as int) =~= params@);
        }
        let body1 = self.visit_block(&mut context, body);
        Fun { name, params, readonly_ret, readonly_this, body: body1 }
    }

    /// Walks a block, statement by statement.
    pub fn visit_block(&mut self, context: &mut Context, ss: Vec<Stmt>) -> (r: Vec<Stmt>)
        requires
            old(context).wf(),
        ensures
            advances(
                *old(context),
                *final(context),
                old(self).errors@,
                final(self).errors@,
                walk_block(
                    old(context).readonly_return,
                    old(context).this_ty,
                    old(context).locals@,
                    ss@,
                ),
            ),
            block_out(
                old(context).readonly_return,
                old(context).this_ty,
                old(context).locals@,
                ss@,
                r@,
            ),
        decreases ss, 0nat,
    {
        let ghost env0 = context.locals@;
        let ghost errs0 = self.errors@;
        let ghost ret = context.readonly_return;
        let ghost this_ty = context.this_ty;
        let ghost orig = ss@;
        let mut rest = ss;
        let mut out: Vec<Stmt> = Vec::new();
        let ghost mut i: int = 0;
        proof {
            assert(errs0 =~= errs0 + Seq::<Diag>::empty());
        }
        while rest.len() > 0
            invariant
                0 <= i <= orig.len(),
                orig == ss@,
                rest@ == orig.subrange(i, orig.len() as int),
                context.readonly_return == ret,
                context.this_ty == this_ty,
                advances(
                    *old(context),
                    *context,
                    errs0,
                    self.errors@,
                    walk_block(ret, this_ty, env0, orig.subrange(0, i)),
                ),
                block_out(ret, this_ty, env0, orig.subrange(0, i), out@),
            decreases rest.len(),
        {
            let st = rest.remove(0);
            proof {
                assert(orig.subrange(0, i + 1).drop_last() =~= orig.subrange(0, i));
            }
            let st1 = self.visit_stmt(context, st);
            let ghost out0 = out@;
            out.push(st1);
            proof {
                assert(out@.drop_last() =~= out0);
                i = i + 1;
                assert(rest@ =~= orig.subrange(i, orig.len() as int));
                assert(self.errors@ =~= errs0 + walk_block(ret, this_ty, env0, orig.subrange(0, i)).1);
            }
        }
        proof {
            assert(orig.subrange(0, i) =~= orig);
        }
        out
    }

    /// Walks `b` from the environment `lenv`; returns the block and the
    /// environment after it.
    pub fn handle_single_block(&mut self, context: &mut Context, lenv: Lenv, b: Vec<Stmt>) -> (r: (
        Vec<Stmt>,
        Lenv,
    ))
        requires
            old(context).wf(),
            lenv.wf(),
        ensures
            advances(
                *old(context),
                *final(context),
                old(self).errors@,
                final(self).errors@,
                walk_block(old(context).readonly_return, old(context).this_ty, lenv@, b@),
            ),
            r.1.wf(),
            r.1@ == walk_block(old(context).readonly_return, old(context).this_ty, lenv@, b@).0,
            block_out(old(context).readonly_return, old(context).this_ty, lenv@, b@, r.0@),
        decreases b, 1nat,
    {
        context.locals = lenv;
        let b1 = self.visit_block(context, b);
        let out = context.locals.copy();
        (b1, out)
    }

    /// Walks catch clauses, each from `pre`, joining each result into `acc`.
    fn visit_catches(
        &mut self,
        context: &mut Context,
        pre: &Lenv,
        acc: Lenv,
        cs: Vec<Catch>,
    ) -> (r: (Vec<Catch>, Lenv))
        requires
            old(context).wf(),
            pre.wf(),
            acc.wf(),
        ensures
            final(context).wf(),
            final(context).readonly_return == old(context).readonly_return,
            final(context).this_ty == old(context).this_ty,
            r.1.wf(),
            r.1@ == walk_catches(old(context).readonly_return, old(context).this_ty, pre@, acc@, cs@).0,
            final(self).errors@ == old(self).errors@ + walk_catches(
                old(context).readonly_return,
                old(context).this_ty,
                pre@,
                acc@,
                cs@,
            ).1,
            catches_out(old(context).readonly_return, old(context).this_ty, pre@, cs@, r.0@),
        decreases cs, 0nat,
    {
        let ghost errs0 = self.errors@;
        let ghost ret = context.readonly_return;
        let ghost this_ty = context.this_ty;
        let ghost acc0 = acc@;
        let ghost orig = cs@;
        let mut result = acc;
        let mut rest = cs;
        let mut out: Vec<Catch> = Vec::new();
        let ghost mut i: int = 0;
        proof {
            assert(errs0 =~= errs0 + Seq::<Diag>::empty());
        }
        while rest.len() > 0
            invariant
                0 <= i <= orig.len(),
                orig == cs@,
                pre.wf(),
                result.wf(),
                context.wf(),
                rest@ == orig.subrange(i, orig.len() as int),
                context.readonly_return == ret,
                context.this_ty == this_ty,
                result@ == walk_catches(ret, this_ty, pre@, acc0, orig.subrange(0, i)).0,
                self.errors@ == errs0 + walk_catches(ret, this_ty, pre@, acc0, orig.subrange(0, i)).1,
                catches_out(ret, this_ty, pre@, orig.subrange(0, i), out@),
            decreases rest.len(),
        {
            let c = rest.remove(0);
            proof {
                assert(orig.subrange(0, i + 1).drop_last() =~= orig.subrange(0, i));
            }
            let Catch { class, var, body } = c;
            let (body1, catch_lenv) = self.handle_single_block(context, pre.copy(), body);
            result = merge_lenvs(&result, &catch_lenv);
            let ghost out0 = out@;
            out.push(Catch { class, var, body: body1 });
            proof {
                assert(out@.drop_last() =~= out0);
                i = i + 1;
                assert(rest@ =~= orig.subrange(i, orig.len() as int));
                assert(self.errors@ =~= errs0 + walk_catches(ret, this_ty, pre@, acc0, orig.subrange(0, i)).1);
            }
        }
        proof {
            assert(orig.subrange(0, i) =~= orig);
        }
        (out, result)
    }

    /// Walks switch cases, each from `pre`, joining each result into `acc`.
    fn visit_cases(
        &mut self,
        context: &mut Context,
        pre: &Lenv,
        acc: Lenv,
        cs: Vec<Case>,
    ) -> (r: (Vec<Case>, Lenv))
        requires
            old(context).wf(),
            pre.wf(),
            acc.wf(),
        ensures
            final(context).wf(),
            final(context).readonly_return == old(context).readonly_return,
            final(context).this_ty == old(context).this_ty,
            r.1.wf(),
            r.1@ == walk_cases(old(context).readonly_return, old(context).this_ty, pre@, acc@, cs@).0,
            final(self).errors@ == old(self).errors@ + walk_cases(
                old(context).readonly_return,
                old(context).this_ty,
                pre@,
                acc@,
                cs@,
            ).1,
            cases_out(old(context).readonly_return, old(context).this_ty, pre@, cs@, r.0@),
        decreases cs, 0nat,
    {
        let ghost errs0 = self.errors@;
        let ghost ret = context.readonly_return;
        let ghost this_ty = context.this_ty;
        let ghost acc0 = acc@;
        let ghost orig = cs@;
        let mut result = acc;
        let mut rest = cs;
        let mut out: Vec<Case> = Vec::new();
        let ghost mut i: int = 0;
        proof {
            assert(errs0 =~= errs0 + Seq::<Diag>::empty());
        }
        while rest.len() > 0
            invariant
                0 <= i <= orig.len(),
                orig == cs@,
                pre.wf(),
                result.wf(),
                context.wf(),
                rest@ == orig.subrange(i, orig.len() as int),
                context.readonly_return == ret,
                context.this_ty == this_ty,
                result@ == walk_cases(ret, this_ty, pre@, acc0, orig.subrange(0, i)).0,
                self.errors@ == errs0 + walk_cases(ret, this_ty, pre@, acc0, orig.subrange(0, i)).1,
                cases_out(ret, this_ty, pre@, orig.subrange(0, i), out@),
            decreases rest.len(),
        {
            let c = rest.remove(0);
            proof {
                assert(orig.subrange(0, i + 1).drop_last() =~= orig.subrange(0, i));
            }
            let ghost gc = c;
            let ghost errs1 = self.errors@;
            let c1 = match c {
                Case::Case(e, b) => {
                    context.locals = pre.copy();
                    let e1 = self.visit_expr(context, e);
                    let (b1, case_lenv) = self.handle_single_block(context, pre.copy(), b);
                    result = merge_lenvs(&result, &case_lenv);
                    Case::Case(e1, b1)
                },
                Case::Default(b) => {
                    let (b1, case_lenv) = self.handle_single_block(context, pre.copy(), b);
                    result = merge_lenvs(&result, &case_lenv);
                    Case::Default(b1)
                },
            };
            proof {
                assert(gc == orig[i]);
                assert(case_out(ret, this_ty, pre@, orig[i], c1));
            }
            let ghost out0 = out@;
            out.push(c1);
            proof {
                assert(out@.drop_last() =~= out0);
                assert(self.errors@ =~= errs1 + walk_case(ret, this_ty, pre@, orig[i]).1);
                i = i + 1;
                assert(rest@ =~= orig.subrange(i, orig.len() as int));
                assert(self.errors@ =~= errs0 + walk_cases(ret, this_ty, pre@, acc0, orig.subrange(0, i)).1);
            }
        }
        proof {
            assert(orig.subrange(0, i) =~= orig);
        }
        (out, result)
    }

    /// Walks a statement: a return is held to the declared return qualifier,
    /// and branches are walked from the environment before them and joined.
    #[verifier::rlimit(60)]
    pub fn visit_stmt(&mut self, context: &mut Context, s: Stmt) -> (r: Stmt)
        requires
            old(context).wf(),
        ensures
            advances(
                *old(context),
                *final(context),
                old(self).errors@,
                final(self).errors@,
                walk_stmt(old(context).readonly_return, old(context).this_ty, old(context).locals@, s),
            ),
            stmt_out(old(context).readonly_return, old(context).this_ty, old(context).locals@, s, r),
        decreases s, 1nat,
    {
        let ghost gs = s;
        let ghost env0 = context.locals@;
        let ghost errs0 = self.errors@;
        let ghost ret = context.readonly_return;
        let ghost this_ty = context.this_ty;
        let Stmt { pos, kind } = s;
        match kind {
            StmtKind::Expr(e) => {
                let e1 = self.visit_expr(context, e);
                Stmt { pos, kind: StmtKind::Expr(e1) }
            },
            StmtKind::Throw(e) => {
                let e1 = self.visit_expr(context, e);
                Stmt { pos, kind: StmtKind::Throw(e1) }
            },
            StmtKind::Return(opt) => {
                match opt {
                    Some(e) => {
                        let rty = rty_expr(context, &e);
                        self.subtype(e.pos, rty, context.readonly_return);
                        let e1 = self.visit_expr(context, e);
                        proof {
                            assert(self.errors@ =~= errs0 + walk_stmt(ret, this_ty, env0, gs).1);
                        }
                        Stmt { pos, kind: StmtKind::Return(Some(e1)) }
                    },
                    None => {
                        proof {
                            assert(self.errors@ =~= errs0 + Seq::<Diag>::empty());
                        }
                        Stmt { pos, kind: StmtKind::Return(None) }
                    },
                }
            },
            StmtKind::If(c, then_b, else_b) => {
                let old_lenv = context.locals.copy();
                let c1 = self.visit_expr(context, c);
                let (then_b1, then_lenv) = self.handle_single_block(context, old_lenv.copy(), then_b);
                let (else_b1, else_lenv) = self.handle_single_block(context, old_lenv.copy(), else_b);
                context.locals = merge_lenvs(&then_lenv, &else_lenv);
                proof {
                    assert(self.errors@ =~= errs0 + walk_stmt(ret, this_ty, env0, gs).1);
                }
                Stmt { pos, kind: StmtKind::If(c1, then_b1, else_b1) }
            },
            StmtKind::Try(try_b, catches, finally_b) => {
                let old_lenv = context.locals.copy();
                let try_b1 = self.visit_block(context, try_b);
                let after_try = context.locals.copy();
                let (catches1, result) = self.visit_catches(context, &old_lenv, after_try, catches);
                context.locals = result;
                let finally_b1 = self.visit_block(context, finally_b);
                proof {
                    assert(self.errors@ =~= errs0 + walk_stmt(ret, this_ty, env0, gs).1);
                }
                Stmt { pos, kind: StmtKind::Try(try_b1, catches1, finally_b1) }
            },
            StmtKind::Switch(c, cases) => {
                let c1 = self.visit_expr(context, c);
                let old_lenv = context.locals.copy();
                let (cases1, result) = self.visit_cases(context, &old_lenv, old_lenv.copy(), cases);
                context.locals = result;
                proof {
                    assert(self.errors@ =~= errs0 + walk_stmt(ret, this_ty, env0, gs).1);
                }
                Stmt { pos, kind: StmtKind::Switch(c1, cases1) }
            },
            StmtKind::While(c, b) => {
                let c1 = self.visit_expr(context, c);
                let b1 = self.visit_block(context, b);
                proof {
                    assert(self.errors@ =~= errs0 + walk_stmt(ret, this_ty, env0, gs).1);
                }
                Stmt { pos, kind: StmtKind::While(c1, b1) }
            },
            StmtKind::DoWhile(b, c) => {
                let b1 = self.visit_block(context, b);
                let c1 = self.visit_expr(context, c);
                proof {
                    assert(self.errors@ =~= errs0 + walk_stmt(ret, this_ty, env0, gs).1);
                }
                Stmt { pos, kind: StmtKind::DoWhile(b1, c1) }
            },
            StmtKind::For(init, cond, step, b) => {
                let ghost vi = init@;
                let ghost vc = cond@;
                let ghost vs = step@;
                let init1 = self.visit_exprs(context, init, Ghost(vi), Ghost(None));
                let cond1 = self.visit_exprs(context, cond, Ghost(vc), Ghost(None));
                let step1 = self.visit_exprs(context, step, Ghost(vs), Ghost(None));
                let b1 = self.visit_block(context, b);
                proof {
                    assert(self.errors@ =~= errs0 + walk_stmt(ret, this_ty, env0, gs).1);
                }
                Stmt { pos, kind: StmtKind::For(init1, cond1, step1, b1) }
            },
            StmtKind::Foreach(coll, pat, b) => {
                let coll1 = self.visit_expr(context, coll);
                let pat1 = self.visit_expr(context, pat);
                let b1 = self.visit_block(context, b);
                proof {
                    assert(self.errors@ =~= errs0 + walk_stmt(ret, this_ty, env0, gs).1);
                }
                Stmt { pos, kind: StmtKind::Foreach(coll1, pat1, b1) }
            },
            StmtKind::Block(b) => {
                let b1 = self.visit_block(context, b);
                Stmt { pos, kind: StmtKind::Block(b1) }
            },
            StmtKind::Break => {
                proof {
                    assert(self.errors@ =~= errs0 + Seq::<Diag>::empty());
                }
                Stmt { pos, kind: StmtKind::Break }
            },
            StmtKind::Continue => {
                proof {
                    assert(self.errors@ =~= errs0 + Seq::<Diag>::empty());
                }
                Stmt { pos, kind: StmtKind::Continue }
            },
            StmtKind::Noop => {
                proof {
                    assert(self.errors@ =~= errs0 + Seq::<Diag>::empty());
                }
                Stmt { pos, kind: StmtKind::Noop }
            },
        }
    }

    /// Checks each method of a class, each in a context of its own.
    pub fn visit_class(&mut self, c: Class) -> (r: Class)
        ensures
            final(self).errors@ == old(self).errors@ + walk_funs(c.methods@),
            r.name == c.name,
            r.methods@.len() == c.methods@.len(),
            forall|i: int| 0 <= i < c.methods@.len() ==> fun_out(#[trigger] c.methods@[i], r.methods@[i]),
    {
        let Class { name, methods } = c;
        let ghost errs0 = self.errors@;
        let ghost orig = methods@;
        let mut rest = methods;
        let mut out: Vec<Fun> = Vec::new();
        let ghost mut i: int = 0;
        proof {
            assert(errs0 =~= errs0 + Seq::<Diag>::empty());
        }
        while rest.len() > 0
            invariant
                0 <= i <= orig.len(),
                rest@ == orig.subrange(i, orig.len() as int),
                self.errors@ == errs0 + walk_funs(orig.subrange(0, i)),
                orig == c.methods@,
                out@.len() == i,
                forall|j: int| 0 <= j < i ==> fun_out(#[trigger] orig[j], out@[j]),
            decreases rest.len(),
        {
            let m = rest.remove(0);
            proof {
                assert(orig.subrange(0, i + 1).drop_last() =~= orig.subrange(0, i));
            }
            let m1 = self.visit_fun(m);
            out.push(m1);
            proof {
                i = i + 1;
                assert(rest@ =~= orig.subrange(i, orig.len() as int));
                assert(self.errors@ =~= errs0 + walk_funs(orig.subrange(0, i)));
            }
        }
        proof {
            assert(orig.subrange(0, i) =~= orig);
        }
        Class { name, methods: out }
    }

    /// Checks a top-level item; a top-level statement is walked in `context`.
    pub fn visit_def(&mut self, context: &mut Context, d: Def) -> (r: Def)
        requires
            old(context).wf(),
            old(context).readonly_return == Rty::Mutable,
            old(context).this_ty == Rty::Mutable,
        ensures
            advances(
                *old(context),
                *final(context),
                old(self).errors@,
                final(self).errors@,
                walk_def(old(context).locals@, d),
            ),
            def_out(old(context).locals@, d, r),
    {
        match d {
            Def::Fun(f) => Def::Fun(self.visit_fun(f)),
            Def::Class(c) => Def::Class(self.visit_class(c)),
            Def::Stmt(s) => Def::Stmt(self.visit_stmt(context, s)),
        }
    }
} // impl Checker

/// Checks every function, method and top-level statement of `program`,
/// marking readonly values where they cross into a call or an accepted
/// assignment, and returns the diagnostics in the order found.
pub fn check_program(program: &mut Vec<Def>) -> (r: Vec<Diag>)
    ensures
        r@ == program_diags(old(program)@),
        defs_out(Map::empty(), old(program)@, final(program)@),
{
    let mut checker = Checker::new();
    let mut context = Context::new(Rty::Mutable, Rty::Mutable);
    let mut rest: Vec<Def> = Vec::new();
    std::mem::swap(program, &mut rest);
    let ghost orig = rest@;
    let mut i: usize = 0;
    let n = rest.len();
    proof {
        assert(checker.errors@ =~= Seq::<Diag>::empty());
    }
    while rest.len() > 0
        invariant
            0 <= i <= orig.len(),
            n == orig.len(),
            rest@ == orig.subrange(i as int, orig.len() as int),
            context.wf(),
            context.readonly_return == Rty::Mutable,
            context.this_ty == Rty::Mutable,
            program@.len() == i,
            context.locals@ == walk_defs(Map::empty(), orig.subrange(0, i as int)).0,
            checker.errors@ == walk_defs(Map::empty(), orig.subrange(0, i as int)).1,
            defs_out(Map::empty(), orig.subrange(0, i as int), program@),
        decreases rest.len(),
    {
        let d = rest.remove(0);
        proof {
            assert(orig.subrange(0, i + 1).drop_last() =~= orig.subrange(0, i as int));
        }
        let d1 = checker.visit_def(&mut context, d);
        let ghost out0 = program@;
        program.push(d1);
        proof {
            assert(program@.drop_last() =~= out0);
        }
        i = i + 1;
        proof {
            assert(rest@ =~= orig.subrange(i as int, orig.len() as int));
        }
    }
    proof {
        assert(orig.subrange(0, i as int) =~= orig);
    }
    checker.errors
}

} // verus!
