//! The expression qualifier evaluator and the explicit readonly marker.
use vstd::prelude::*;
use crate::ast::{Expr, ExprKind, Field, Pos};
use crate::env::{lookup, Context, EnvModel, Rty};

verus! {

broadcast use vstd::std_specs::vec::group_vec_axioms, vstd::seq::group_seq_axioms;

/// The name of the `$this` pseudo-variable.
pub open spec fn this_name() -> Seq<char> {
    seq!['$', 't', 'h', 'i', 's']
}

/// Qualifier of `e` in environment `env`, with `this_ty` for `$this`.
pub open spec fn rty_of(env: EnvModel, this_ty: Rty, e: Expr) -> Rty
    decreases e,
{
    match e.kind {
        ExprKind::ReadonlyExpr(_) => Rty::Readonly,
        ExprKind::Lvar(n) => if n@ == this_name() {
            this_ty
        } else {
            lookup(env, n@)
        },
        ExprKind::This => this_ty,
        ExprKind::ObjGet(obj, _) => rty_of(env, this_ty, *obj),
        ExprKind::ArrayGet(base, _) => rty_of(env, this_ty, *base),
        ExprKind::Wrap(_, inner) => rty_of(env, this_ty, *inner),
        ExprKind::Aggregate(_, fields) => if any_readonly_value(env, this_ty, fields@) {
            Rty::Readonly
        } else {
            Rty::Mutable
        },
        ExprKind::Eif(c, then_opt, els) => match then_opt {
            Some(t) => either(rty_of(env, this_ty, *t), rty_of(env, this_ty, *els)),
            None => either(rty_of(env, this_ty, *c), rty_of(env, this_ty, *els)),
        },
        ExprKind::Pair(a, b) => either(rty_of(env, this_ty, *a), rty_of(env, this_ty, *b)),
        ExprKind::List(_) => Rty::Mutable,
        ExprKind::Call(_, _) => Rty::Mutable,
        ExprKind::Assign(_, _) => Rty::Mutable,
        ExprKind::Lambda(_, _) => Rty::Mutable,
        ExprKind::Other(_, _) => Rty::Mutable,
        ExprKind::Leaf(_, _) => Rty::Mutable,
    }
}

/// Whether some field of `fields` has a value that evaluates `Readonly`.
pub open spec fn any_readonly_value(env: EnvModel, this_ty: Rty, fields: Seq<Field>) -> bool
    decreases fields,
{
    if fields.len() == 0 {
        false
    } else {
        any_readonly_value(env, this_ty, fields.drop_last()) || rty_of(
            env,
            this_ty,
            fields.last().value,
        ) == Rty::Readonly
    }
}

/// `Readonly` when either qualifier is.
pub open spec fn either(a: Rty, b: Rty) -> Rty {
    if a == Rty::Readonly || b == Rty::Readonly {
        Rty::Readonly
    } else {
        Rty::Mutable
    }
}

/// Whether `name` is the `$this` pseudo-variable.
fn is_this(name: &String) -> (r: bool)
    ensures
        r == (name@ == this_name()),
{
    let this: String = "$this".to_owned();
    proof {
        reveal_strlit("$this");
        assert(this@ =~= this_name());
    }
    *name == this
}

/// The qualifier that a declaration's readonly flag stands for.
pub open spec fn flag_rty(readonly: bool) -> Rty {
    if readonly {
        Rty::Readonly
    } else {
        Rty::Mutable
    }
}

/// The qualifier that a declaration's readonly flag stands for.
pub fn ro_kind_to_rty(readonly: bool) -> (r: Rty)
    ensures
        r == flag_rty(readonly),
{
    if readonly {
        Rty::Readonly
    } else {
        Rty::Mutable
    }
}

/// Evaluates the qualifier of `expr` in `context`, without changing either.
pub fn rty_expr(context: &Context, expr: &Expr) -> (r: Rty)
    requires
        context.wf(),
    ensures
        r == rty_of(context.locals@, context.this_ty, *expr),
    decreases expr,
{
    match &expr.kind {
        ExprKind::ReadonlyExpr(_) => Rty::Readonly,
        ExprKind::Lvar(name) => {
            if is_this(name) {
                context.this_ty
            } else {
                context.get_rty(name)
            }
        },
        ExprKind::This => context.this_ty,
        ExprKind::ObjGet(obj, _) => rty_expr(context, obj),
        ExprKind::ArrayGet(base, _) => rty_expr(context, base),
        ExprKind::Wrap(_, inner) => rty_expr(context, inner),
        ExprKind::Aggregate(_, fields) => {
            let mut found = false;
            let mut i: usize = 0;
            while i < fields.len()
                invariant
                    context.wf(),
                    expr.kind is Aggregate,
                    expr.kind->Aggregate_1 == *fields,
                    i <= fields.len(),
                    found == any_readonly_value(
                        context.locals@,
                        context.this_ty,
                        fields@.subrange(0, i as int),
                    ),
                decreases fields.len() - i,
            {
                let v = rty_expr(context, &fields[i].value);
                proof {
                    assert(fields@.subrange(0, i + 1).drop_last() =~= fields@.subrange(0, i as int));
                }
                found = found || v == Rty::Readonly;
                i = i + 1;
            }
            proof {
                assert(fields@.subrange(0, fields.len() as int) =~= fields@);
            }
            if found {
                Rty::Readonly
            } else {
                Rty::Mutable
            }
        },
        ExprKind::Eif(c, then_opt, els) => {
            // `c ?: els` yields `c` itself when it is truthy
            let a = match then_opt {
                Some(t) => rty_expr(context, t),
                None => rty_expr(context, c),
            };
            let b = rty_expr(context, els);
            if a == Rty::Readonly || b == Rty::Readonly {
                Rty::Readonly
            } else {
                Rty::Mutable
            }
        },
        ExprKind::Pair(x, y) => {
            let a = rty_expr(context, x);
            let b = rty_expr(context, y);
            if a == Rty::Readonly || b == Rty::Readonly {
                Rty::Readonly
            } else {
                Rty::Mutable
            }
        },
        ExprKind::List(_) => Rty::Mutable,
        ExprKind::Call(_, _) => Rty::Mutable,
        ExprKind::Assign(_, _) => Rty::Mutable,
        ExprKind::Lambda(_, _) => Rty::Mutable,
        ExprKind::Other(_, _) => Rty::Mutable,
        ExprKind::Leaf(_, _) => Rty::Mutable,
    }
}

/// `e` behind an explicit readonly marker; a marked expression is kept as it is.
pub open spec fn wrap(e: Expr) -> Expr {
    if e.kind is ReadonlyExpr {
        e
    } else {
        Expr { pos: e.pos, kind: ExprKind::ReadonlyExpr(Box::new(e)) }
    }
}

/// Puts `expr` behind an explicit readonly marker at its own position, unless
/// it already is behind one.
pub fn explicit_readonly(expr: Expr) -> (r: Expr)
    ensures
        r == wrap(expr),
{
    if let ExprKind::ReadonlyExpr(_) = &expr.kind {
        expr
    } else {
        let pos: Pos = expr.pos;
        Expr { pos, kind: ExprKind::ReadonlyExpr(Box::new(expr)) }
    }
}

/// A marked expression evaluates `Readonly`, and marking it again changes nothing.
pub proof fn lemma_wrap_idempotent(env: EnvModel, this_ty: Rty, e: Expr)
    ensures
        rty_of(env, this_ty, wrap(e)) == Rty::Readonly,
        wrap(wrap(e)) == wrap(e),
{
}

/// A collection literal evaluates `Readonly` exactly when one of its values does.
pub proof fn lemma_aggregate_taint(env: EnvModel, this_ty: Rty, e: Expr)
    requires
        e.kind is Aggregate,
    ensures
        rty_of(env, this_ty, e) == Rty::Readonly <==> exists|i: int|
            0 <= i < e.kind->Aggregate_1@.len() && rty_of(
                env,
                this_ty,
                #[trigger] e.kind->Aggregate_1@[i].value,
            ) == Rty::Readonly,
        rty_of(env, this_ty, e) == Rty::Mutable <==> forall|i: int|
            0 <= i < e.kind->Aggregate_1@.len() ==> rty_of(
                env,
                this_ty,
                #[trigger] e.kind->Aggregate_1@[i].value,
            ) == Rty::Mutable,
{
    lemma_any_readonly_value(env, this_ty, e.kind->Aggregate_1@);
}

proof fn lemma_any_readonly_value(env: EnvModel, this_ty: Rty, fields: Seq<Field>)
    ensures
        any_readonly_value(env, this_ty, fields) <==> exists|i: int|
            0 <= i < fields.len() && rty_of(env, this_ty, #[trigger] fields[i].value)
                == Rty::Readonly,
    decreases fields.len(),
{
    if fields.len() > 0 {
        let rest = fields.drop_last();
        lemma_any_readonly_value(env, this_ty, rest);
        if any_readonly_value(env, this_ty, rest) {
            let w = choose|i: int|
                0 <= i < rest.len() && rty_of(env, this_ty, #[trigger] rest[i].value)
                    == Rty::Readonly;
            assert(fields[w].value == rest[w].value);
        }
        if exists|i: int|
            0 <= i < fields.len() && rty_of(env, this_ty, #[trigger] fields[i].value)
                == Rty::Readonly {
            let w = choose|i: int|
                0 <= i < fields.len() && rty_of(env, this_ty, #[trigger] fields[i].value)
                    == Rty::Readonly;
            if w < fields.len() - 1 {
                assert(rest[w].value == fields[w].value);
            }
        }
    }
}

} // verus!
