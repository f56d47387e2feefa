use readonly_check::ast::{
    AggKind, Case, Catch, Def, Diag, DiagKind, Expr, ExprKind, Field, Fun, LambdaKind, LeafKind,
    OtherKind, Param, Pos, Stmt, StmtKind, WrapKind,
};
use readonly_check::check::{
    check_assignment_nonlocal, check_assignment_validity, check_program, mark_readonly_args,
    Checker,
};
use readonly_check::env::{merge_lenvs, Context, Lenv, Rty};
use readonly_check::eval::{explicit_readonly, ro_kind_to_rty, rty_expr};

fn pos(start: usize, end: usize) -> Pos {
    Pos { start, end }
}

fn ex(start: usize, end: usize, kind: ExprKind) -> Expr {
    Expr { pos: pos(start, end), kind }
}

fn lvar(name: &str, start: usize) -> Expr {
    ex(start, start + name.len(), ExprKind::Lvar(name.to_string()))
}

fn int_lit(text: &str, start: usize) -> Expr {
    ex(start, start + text.len(), ExprKind::Leaf(LeafKind::Int, text.to_string()))
}

fn ro(e: Expr) -> Expr {
    let p = e.pos;
    Expr { pos: Pos { start: p.start - 9, end: p.end }, kind: ExprKind::ReadonlyExpr(Box::new(e)) }
}

fn new_foo(start: usize) -> Expr {
    ex(start, start + 9, ExprKind::Other(OtherKind::New, vec![]))
}

fn prop(obj: Expr, member: &str) -> Expr {
    let start = obj.pos.start;
    let end = obj.pos.end + 2 + member.len();
    let m = ex(obj.pos.end + 2, end, ExprKind::Leaf(LeafKind::Id, member.to_string()));
    ex(start, end, ExprKind::ObjGet(Box::new(obj), Box::new(m)))
}

fn assign(lhs: Expr, rhs: Expr) -> Expr {
    let start = lhs.pos.start;
    let end = rhs.pos.end;
    ex(start, end, ExprKind::Assign(Box::new(lhs), Box::new(rhs)))
}

fn st(e: Expr) -> Stmt {
    Stmt { pos: pos(e.pos.start, e.pos.end + 1), kind: StmtKind::Expr(e) }
}

fn fun(params: Vec<Param>, readonly_ret: bool, body: Vec<Stmt>) -> Fun {
    Fun { name: "f".to_string(), params, readonly_ret, readonly_this: false, body }
}

fn param(name: &str, readonly: bool) -> Param {
    Param { name: name.to_string(), readonly }
}

fn diag(start: usize, end: usize, kind: DiagKind) -> Diag {
    Diag { start, end, kind }
}

fn ctx_with(bindings: &[(&str, Rty)]) -> Context {
    let mut c = Context::new(Rty::Mutable, Rty::Mutable);
    for (n, r) in bindings {
        c.add_local(&n.to_string(), *r);
    }
    c
}

fn is_marked(e: &Expr) -> bool {
    matches!(e.kind, ExprKind::ReadonlyExpr(_))
}

#[test]
fn unbound_name_is_mutable() {
    let c = Context::new(Rty::Readonly, Rty::Readonly);
    assert!(c.get_rty(&"$never".to_string()) == Rty::Mutable);
    let c = ctx_with(&[("$a", Rty::Readonly)]);
    assert!(c.get_rty(&"$b".to_string()) == Rty::Mutable);
    assert!(c.get_rty(&"$a".to_string()) == Rty::Readonly);
}

#[test]
fn add_local_overwrites() {
    let mut c = ctx_with(&[("$a", Rty::Readonly)]);
    c.add_local(&"$a".to_string(), Rty::Mutable);
    assert!(c.get_rty(&"$a".to_string()) == Rty::Mutable);
}

fn lenv(bindings: &[(&str, Rty)]) -> Lenv {
    let mut l = Lenv::new();
    for (n, r) in bindings {
        l.insert(&n.to_string(), *r);
    }
    l
}

#[test]
fn join_is_commutative() {
    let a = lenv(&[("$x", Rty::Readonly), ("$y", Rty::Mutable), ("$z", Rty::Mutable)]);
    let b = lenv(&[("$y", Rty::Readonly), ("$z", Rty::Mutable), ("$w", Rty::Mutable)]);
    let ab = merge_lenvs(&a, &b);
    let ba = merge_lenvs(&b, &a);
    for n in ["$x", "$y", "$z", "$w", "$none"] {
        assert!(ab.get(&n.to_string()) == ba.get(&n.to_string()), "{}", n);
    }
    assert!(ab.get(&"$x".to_string()) == Rty::Readonly);
    assert!(ab.get(&"$y".to_string()) == Rty::Readonly);
    assert!(ab.get(&"$z".to_string()) == Rty::Mutable);
    assert!(ab.get(&"$w".to_string()) == Rty::Mutable);
}

#[test]
fn join_keeps_readonly_from_either_side() {
    let a = lenv(&[("$x", Rty::Mutable)]);
    let b = lenv(&[("$x", Rty::Readonly)]);
    assert!(merge_lenvs(&a, &b).get(&"$x".to_string()) == Rty::Readonly);
    assert!(merge_lenvs(&b, &a).get(&"$x".to_string()) == Rty::Readonly);
    let empty = Lenv::new();
    assert!(merge_lenvs(&empty, &b).get(&"$x".to_string()) == Rty::Readonly);
    assert!(merge_lenvs(&b, &empty).get(&"$x".to_string()) == Rty::Readonly);
}

#[test]
fn collection_literal_taint() {
    let c = ctx_with(&[("$r", Rty::Readonly), ("$m", Rty::Mutable)]);
    let tainted = ex(
        0,
        20,
        ExprKind::Aggregate(
            AggKind::Darray,
            vec![
                Field { key: Some(int_lit("1", 1)), value: lvar("$m", 3) },
                Field { key: Some(int_lit("2", 6)), value: lvar("$r", 8) },
            ],
        ),
    );
    assert!(rty_expr(&c, &tainted) == Rty::Readonly);
    let clean = ex(
        0,
        20,
        ExprKind::Aggregate(
            AggKind::Varray,
            vec![Field { key: None, value: lvar("$m", 1) }, Field { key: None, value: int_lit("3", 4) }],
        ),
    );
    assert!(rty_expr(&c, &clean) == Rty::Mutable);
    let empty = ex(0, 2, ExprKind::Aggregate(AggKind::Tuple, vec![]));
    assert!(rty_expr(&c, &empty) == Rty::Mutable);
    // a readonly key alone does not taint
    let keyed = ex(
        0,
        9,
        ExprKind::Aggregate(
            AggKind::KeyValCollection,
            vec![Field { key: Some(lvar("$r", 1)), value: int_lit("1", 6) }],
        ),
    );
    assert!(rty_expr(&c, &keyed) == Rty::Mutable);
}

#[test]
fn marking_is_idempotent() {
    let c = ctx_with(&[]);
    let once = explicit_readonly(lvar("$x", 0));
    assert!(is_marked(&once));
    assert!(rty_expr(&c, &once) == Rty::Readonly);
    assert_eq!(once.pos, pos(0, 2));
    let twice = explicit_readonly(once);
    assert!(rty_expr(&c, &twice) == Rty::Readonly);
    match &twice.kind {
        ExprKind::ReadonlyExpr(inner) => assert!(!is_marked(inner)),
        _ => panic!("not marked"),
    }
}

#[test]
fn lookup_and_propagation_rules() {
    let c = Context::new(Rty::Mutable, Rty::Readonly);
    assert!(rty_expr(&c, &lvar("$this", 0)) == Rty::Readonly);
    assert!(rty_expr(&c, &ex(0, 4, ExprKind::This)) == Rty::Readonly);
    assert!(rty_expr(&c, &prop(lvar("$this", 0), "p")) == Rty::Readonly);
    let c = ctx_with(&[("$r", Rty::Readonly)]);
    let get = ex(0, 5, ExprKind::ArrayGet(Box::new(lvar("$r", 0)), Some(Box::new(int_lit("0", 3)))));
    assert!(rty_expr(&c, &get) == Rty::Readonly);
    let aw = ex(0, 8, ExprKind::Wrap(WrapKind::Await, Box::new(lvar("$r", 6))));
    assert!(rty_expr(&c, &aw) == Rty::Readonly);
    let call = ex(0, 6, ExprKind::Call(Box::new(lvar("$r", 0)), vec![lvar("$r", 3)]));
    assert!(rty_expr(&c, &call) == Rty::Mutable);
    let list = ex(0, 8, ExprKind::List(vec![lvar("$r", 5)]));
    assert!(rty_expr(&c, &list) == Rty::Mutable);
    let cast = ex(0, 8, ExprKind::Other(OtherKind::Cast, vec![lvar("$r", 5)]));
    assert!(rty_expr(&c, &cast) == Rty::Mutable);
    assert!(rty_expr(&c, &ex(0, 4, ExprKind::Leaf(LeafKind::Null, "null".to_string()))) == Rty::Mutable);
}

#[test]
fn conditional_and_pair_take_the_union() {
    let c = ctx_with(&[("$r", Rty::Readonly), ("$m", Rty::Mutable)]);
    let eif = ex(
        0,
        12,
        ExprKind::Eif(Box::new(lvar("$c", 0)), Some(Box::new(lvar("$m", 5))), Box::new(lvar("$r", 10))),
    );
    assert!(rty_expr(&c, &eif) == Rty::Readonly);
    let short = ex(0, 8, ExprKind::Eif(Box::new(lvar("$r", 0)), None, Box::new(lvar("$m", 6))));
    assert!(rty_expr(&c, &short) == Rty::Readonly);
    let short = ex(0, 8, ExprKind::Eif(Box::new(lvar("$m", 0)), None, Box::new(lvar("$r", 6))));
    assert!(rty_expr(&c, &short) == Rty::Readonly);
    let short = ex(0, 8, ExprKind::Eif(Box::new(lvar("$m", 0)), None, Box::new(lvar("$m", 6))));
    assert!(rty_expr(&c, &short) == Rty::Mutable);
    let pair = ex(0, 8, ExprKind::Pair(Box::new(lvar("$r", 0)), Box::new(lvar("$m", 4))));
    assert!(rty_expr(&c, &pair) == Rty::Readonly);
    let pair = ex(0, 8, ExprKind::Pair(Box::new(lvar("$m", 0)), Box::new(lvar("$m", 4))));
    assert!(rty_expr(&c, &pair) == Rty::Mutable);
}

#[test]
fn flags_map_to_qualifiers() {
    assert!(ro_kind_to_rty(true) == Rty::Readonly);
    assert!(ro_kind_to_rty(false) == Rty::Mutable);
    assert_eq!(
        DiagKind::InvalidReadonly.reason(),
        Some("this function does not return readonly. Please mark it to return readonly if needed.")
    );
    assert!(DiagKind::AssignmentToReadonly.reason().is_none());
}

#[test]
fn scenario_return_of_readonly_from_mutable_function() {
    // function f(): mixed { return readonly new Foo(); }
    let ret = ro(new_foo(40));
    let ret_pos = ret.pos;
    let body = vec![Stmt { pos: pos(24, 50), kind: StmtKind::Return(Some(ret)) }];
    let mut program = vec![Def::Fun(fun(vec![], false, body))];
    let diags = check_program(&mut program);
    assert_eq!(diags, vec![diag(ret_pos.start, ret_pos.end, DiagKind::InvalidReadonly)]);
}

#[test]
fn return_of_readonly_from_readonly_function_is_accepted() {
    let body = vec![Stmt { pos: pos(24, 50), kind: StmtKind::Return(Some(ro(new_foo(40)))) }];
    let mut program = vec![Def::Fun(fun(vec![], true, body))];
    assert!(check_program(&mut program).is_empty());
}

#[test]
fn scenario_write_through_readonly_parameter() {
    // function f(readonly Foo $x): void { $x->y = 1; }
    let a = assign(prop(lvar("$x", 36), "y"), int_lit("1", 45));
    let a_pos = a.pos;
    let mut program = vec![Def::Fun(fun(vec![param("$x", true)], false, vec![st(a)]))];
    let diags = check_program(&mut program);
    assert_eq!(diags, vec![diag(a_pos.start, a_pos.end, DiagKind::AssignmentToReadonly)]);
}

#[test]
fn write_through_mutable_parameter_is_accepted() {
    let a = assign(prop(lvar("$x", 36), "y"), int_lit("1", 45));
    let mut program = vec![Def::Fun(fun(vec![param("$x", false)], false, vec![st(a)]))];
    assert!(check_program(&mut program).is_empty());
}

#[test]
fn scenario_readonly_survives_branch_join() {
    // $a = readonly new Foo(); if (cond) { $b = 1; } else { } $a->y = 1;
    let first = st(assign(lvar("$a", 0), ro(new_foo(14))));
    let then_b = vec![st(assign(lvar("$b", 40), int_lit("1", 45)))];
    let iff = Stmt {
        pos: pos(25, 60),
        kind: StmtKind::If(ex(29, 33, ExprKind::Leaf(LeafKind::Id, "cond".to_string())), then_b, vec![]),
    };
    let last = assign(prop(lvar("$a", 61), "y"), int_lit("1", 70));
    let last_pos = last.pos;
    let mut program = vec![Def::Fun(fun(vec![], false, vec![first, iff, st(last)]))];
    let diags = check_program(&mut program);
    assert_eq!(diags, vec![diag(last_pos.start, last_pos.end, DiagKind::AssignmentToReadonly)]);
}

#[test]
fn readonly_bound_in_one_branch_survives_join() {
    let then_b = vec![st(assign(lvar("$a", 10), ro(lvar("$p", 24))))];
    let else_b = vec![st(assign(lvar("$a", 30), new_foo(35)))];
    let iff = Stmt { pos: pos(0, 50), kind: StmtKind::If(lvar("$c", 4), then_b, else_b) };
    let last = assign(prop(lvar("$a", 61), "y"), int_lit("1", 70));
    let last_pos = last.pos;
    let mut program = vec![Def::Fun(fun(vec![], false, vec![iff, st(last)]))];
    let diags = check_program(&mut program);
    assert_eq!(diags, vec![diag(last_pos.start, last_pos.end, DiagKind::AssignmentToReadonly)]);
}

#[test]
fn scenario_list_destructuring_binds_each_target() {
    // list($a, $b) = readonly $c;
    let target = ex(0, 12, ExprKind::List(vec![lvar("$a", 5), lvar("$b", 9)]));
    let rhs = ro(lvar("$c", 24));
    let mut c = ctx_with(&[]);
    let mut checker = Checker::new();
    let p = pos(0, 26);
    let rhs1 = check_assignment_validity(&mut c, &mut checker, p, &target, rhs);
    assert!(is_marked(&rhs1));
    assert!(checker.errors.is_empty());
    assert!(c.get_rty(&"$a".to_string()) == Rty::Readonly);
    assert!(c.get_rty(&"$b".to_string()) == Rty::Readonly);

    // ...; $a->y = 1;
    let list_assign = assign(ex(0, 12, ExprKind::List(vec![lvar("$a", 5), lvar("$b", 9)])), ro(lvar("$c", 24)));
    let last = assign(prop(lvar("$a", 30), "y"), int_lit("1", 38));
    let last_pos = last.pos;
    let mut program = vec![Def::Fun(fun(vec![], false, vec![st(list_assign), st(last)]))];
    let diags = check_program(&mut program);
    assert_eq!(diags, vec![diag(last_pos.start, last_pos.end, DiagKind::AssignmentToReadonly)]);
}

#[test]
fn scenario_readonly_call_argument_is_marked() {
    // f($readonlyVar); with $readonlyVar bound readonly
    let call = ex(
        20,
        36,
        ExprKind::Call(
            Box::new(ex(20, 21, ExprKind::Leaf(LeafKind::Id, "f".to_string()))),
            vec![lvar("$readonlyVar", 22), lvar("$other", 30)],
        ),
    );
    let mut program = vec![Def::Fun(fun(vec![param("$readonlyVar", true)], false, vec![st(call)]))];
    let diags = check_program(&mut program);
    assert!(diags.is_empty());
    match &program[0] {
        Def::Fun(f) => match &f.body[0].kind {
            StmtKind::Expr(e) => match &e.kind {
                ExprKind::Call(_, args) => {
                    assert!(is_marked(&args[0]));
                    assert_eq!(args[0].pos, pos(22, 34));
                    assert!(!is_marked(&args[1]));
                },
                _ => panic!("call expected"),
            },
            _ => panic!("expression statement expected"),
        },
        _ => panic!("function expected"),
    }
}

#[test]
fn mark_readonly_args_marks_only_readonly() {
    let c = ctx_with(&[("$r", Rty::Readonly)]);
    let out = mark_readonly_args(&c, vec![lvar("$r", 0), lvar("$m", 4), ro(lvar("$m", 20))]);
    assert_eq!(out.len(), 3);
    assert!(is_marked(&out[0]));
    assert!(!is_marked(&out[1]));
    match &out[2].kind {
        ExprKind::ReadonlyExpr(inner) => assert!(!is_marked(inner)),
        _ => panic!("not marked"),
    }
}

#[test]
fn readonly_into_mutable_collection() {
    // $m[0] = $r; with $m mutable and $r readonly
    let c = ctx_with(&[("$r", Rty::Readonly)]);
    let mut checker = Checker::new();
    let lhs = ex(0, 5, ExprKind::ArrayGet(Box::new(lvar("$m", 0)), Some(Box::new(int_lit("0", 3)))));
    let rhs = lvar("$r", 8);
    let out = check_assignment_nonlocal(&c, &mut checker, pos(0, 10), &lhs, rhs);
    assert!(!is_marked(&out));
    assert_eq!(checker.errors, vec![diag(8, 10, DiagKind::AssignReadonlyToMutableCollection)]);
}

#[test]
fn readonly_into_readonly_collection_is_marked() {
    let c = ctx_with(&[("$r", Rty::Readonly), ("$q", Rty::Readonly)]);
    let mut checker = Checker::new();
    let lhs = ex(0, 5, ExprKind::ArrayGet(Box::new(lvar("$q", 0)), None));
    let out = check_assignment_nonlocal(&c, &mut checker, pos(0, 10), &lhs, lvar("$r", 8));
    assert!(is_marked(&out));
    assert!(checker.errors.is_empty());
    let out = check_assignment_nonlocal(&c, &mut checker, pos(0, 10), &lhs, int_lit("1", 8));
    assert!(!is_marked(&out));
    assert!(checker.errors.is_empty());
}

#[test]
fn readonly_value_into_mutable_property_is_marked() {
    // $m->p[0] = $r;
    let c = ctx_with(&[("$r", Rty::Readonly)]);
    let mut checker = Checker::new();
    let lhs = ex(0, 8, ExprKind::ArrayGet(Box::new(prop(lvar("$m", 0), "p")), Some(Box::new(int_lit("0", 6)))));
    let out = check_assignment_nonlocal(&c, &mut checker, pos(0, 13), &lhs, lvar("$r", 11));
    assert!(is_marked(&out));
    assert!(checker.errors.is_empty());
}

#[test]
fn local_assignment_rebinds() {
    let mut c = ctx_with(&[("$r", Rty::Readonly), ("$a", Rty::Readonly)]);
    let mut checker = Checker::new();
    let out = check_assignment_validity(&mut c, &mut checker, pos(0, 9), &lvar("$a", 0), new_foo(5));
    assert!(!is_marked(&out));
    assert!(c.get_rty(&"$a".to_string()) == Rty::Mutable);
    let _ = check_assignment_validity(&mut c, &mut checker, pos(0, 9), &lvar("$b", 0), lvar("$r", 5));
    assert!(c.get_rty(&"$b".to_string()) == Rty::Readonly);
    assert!(checker.errors.is_empty());
}

#[test]
fn catch_is_checked_from_state_before_try() {
    // $a = readonly ...; try { $a = new Foo(); } catch (E $e) { } $a->y = 1;
    let first = st(assign(lvar("$a", 0), ro(lvar("$p", 14))));
    let try_b = vec![st(assign(lvar("$a", 30), new_foo(35)))];
    let catches = vec![Catch { class: "E".to_string(), var: "$e".to_string(), body: vec![] }];
    let t = Stmt { pos: pos(25, 70), kind: StmtKind::Try(try_b, catches, vec![]) };
    let last = assign(prop(lvar("$a", 71), "y"), int_lit("1", 80));
    let last_pos = last.pos;
    let mut program = vec![Def::Fun(fun(vec![], false, vec![first, t, st(last)]))];
    let diags = check_program(&mut program);
    assert_eq!(diags, vec![diag(last_pos.start, last_pos.end, DiagKind::AssignmentToReadonly)]);
}

#[test]
fn try_without_catch_keeps_try_state() {
    let first = st(assign(lvar("$a", 0), ro(lvar("$p", 14))));
    let try_b = vec![st(assign(lvar("$a", 30), new_foo(35)))];
    let t = Stmt { pos: pos(25, 70), kind: StmtKind::Try(try_b, vec![], vec![]) };
    let last = assign(prop(lvar("$a", 71), "y"), int_lit("1", 80));
    let mut program = vec![Def::Fun(fun(vec![], false, vec![first, t, st(last)]))];
    assert!(check_program(&mut program).is_empty());
}

#[test]
fn switch_cases_are_joined() {
    let case1 = Case::Case(int_lit("1", 20), vec![st(assign(lvar("$a", 30), ro(lvar("$p", 44))))]);
    let case2 = Case::Default(vec![st(assign(lvar("$a", 50), new_foo(55)))]);
    let sw = Stmt { pos: pos(0, 70), kind: StmtKind::Switch(lvar("$c", 8), vec![case1, case2]) };
    let last = assign(prop(lvar("$a", 71), "y"), int_lit("1", 80));
    let last_pos = last.pos;
    let mut program = vec![Def::Fun(fun(vec![], false, vec![sw, st(last)]))];
    let diags = check_program(&mut program);
    assert_eq!(diags, vec![diag(last_pos.start, last_pos.end, DiagKind::AssignmentToReadonly)]);
}

#[test]
fn lambda_is_checked_in_a_fresh_context() {
    // function f(readonly $x) { $g = () ==> { $x->y = 1; }; $x->z = 2; }
    let inner_assign = assign(prop(lvar("$x", 40), "y"), int_lit("1", 47));
    let lambda = Fun {
        name: "".to_string(),
        params: vec![],
        readonly_ret: false,
        readonly_this: false,
        body: vec![st(inner_assign)],
    };
    let g = st(assign(lvar("$g", 20), ex(25, 55, ExprKind::Lambda(LambdaKind::Lfun, Box::new(lambda)))));
    let outer = assign(prop(lvar("$x", 60), "z"), int_lit("2", 67));
    let outer_pos = outer.pos;
    let mut program = vec![Def::Fun(fun(vec![param("$x", true)], false, vec![g, st(outer)]))];
    let diags = check_program(&mut program);
    assert_eq!(diags, vec![diag(outer_pos.start, outer_pos.end, DiagKind::AssignmentToReadonly)]);
}

#[test]
fn every_violation_is_reported() {
    let a1 = assign(prop(lvar("$x", 10), "a"), int_lit("1", 17));
    let a2 = assign(prop(lvar("$x", 20), "b"), int_lit("2", 27));
    let r = ro(lvar("$x", 40));
    let r_pos = r.pos;
    let (p1, p2) = (a1.pos, a2.pos);
    let body = vec![st(a1), st(a2), Stmt { pos: pos(30, 45), kind: StmtKind::Return(Some(r)) }];
    let mut program = vec![Def::Fun(fun(vec![param("$x", true)], false, body))];
    let diags = check_program(&mut program);
    assert_eq!(
        diags,
        vec![
            diag(p1.start, p1.end, DiagKind::AssignmentToReadonly),
            diag(p2.start, p2.end, DiagKind::AssignmentToReadonly),
            diag(r_pos.start, r_pos.end, DiagKind::InvalidReadonly),
        ]
    );
}

#[test]
fn top_level_statements_share_one_environment() {
    let first = Def::Stmt(st(assign(lvar("$a", 0), ro(lvar("$p", 14)))));
    let last = assign(prop(lvar("$a", 30), "y"), int_lit("1", 38));
    let last_pos = last.pos;
    let mut program = vec![first, Def::Stmt(st(last))];
    let diags = check_program(&mut program);
    assert_eq!(diags, vec![diag(last_pos.start, last_pos.end, DiagKind::AssignmentToReadonly)]);
    assert_eq!(program.len(), 2);
}

#[test]
fn methods_use_declared_this_qualifier() {
    let a = assign(prop(lvar("$this", 10), "p"), int_lit("1", 22));
    let a_pos = a.pos;
    let m = Fun { name: "m".to_string(), params: vec![], readonly_ret: false, readonly_this: true, body: vec![st(a)] };
    let class = readonly_check::ast::Class { name: "C".to_string(), methods: vec![m] };
    let mut program = vec![Def::Class(class)];
    let diags = check_program(&mut program);
    assert_eq!(diags, vec![diag(a_pos.start, a_pos.end, DiagKind::AssignmentToReadonly)]);
}

#[test]
fn empty_program_has_no_diagnostics() {
    let mut program: Vec<Def> = vec![];
    assert!(check_program(&mut program).is_empty());
}

#[test]
fn readonly_survives_if_with_empty_else_even_when_then_rebinds() {
    let first = st(assign(lvar("$a", 0), ro(lvar("$p", 14))));
    let then_b = vec![st(assign(lvar("$a", 40), new_foo(45)))];
    let iff = Stmt { pos: pos(25, 60), kind: StmtKind::If(lvar("$c", 29), then_b, vec![]) };
    let last = assign(prop(lvar("$a", 61), "y"), int_lit("1", 70));
    let last_pos = last.pos;
    let mut program = vec![Def::Fun(fun(vec![], false, vec![first, iff, st(last)]))];
    let diags = check_program(&mut program);
    assert_eq!(diags, vec![diag(last_pos.start, last_pos.end, DiagKind::AssignmentToReadonly)]);
}
