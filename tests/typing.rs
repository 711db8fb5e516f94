use sigexpr::ctx::Ctx;
use sigexpr::expr::{Expr, Primitive, TyError};
use sigexpr::ty::Ty;

fn fn_ty(a: Ty, b: Ty) -> Ty {
    Ty::Fn(Box::new((a, b)))
}

fn prod(a: Ty, b: Ty) -> Ty {
    Ty::Prod(Box::new((a, b)))
}

fn node(id: u32, ty: Ty, inner: Primitive) -> Expr {
    Expr { id, ty, inner }
}

fn konst(id: u32, v: f64) -> Expr {
    node(id, Ty::Fp, Primitive::FVal { muted: false, value: v.to_bits() })
}

fn run(e: &Expr) -> Result<(), TyError> {
    let ctx = Ctx::new();
    let mut local: Vec<Ty> = Vec::new();
    e.check(&ctx, &mut local)
}

fn mismatch_of(r: Result<(), TyError>) -> (u32, Ty, Ty) {
    match r {
        Err(TyError::Mismatch { expr, declared, synthesized }) => (expr.id, declared, synthesized),
        other => panic!("expected a mismatch, got {:?}", other),
    }
}

#[test]
fn constant_declared_fp_checks() {
    for v in [0.0, 1.5, -3.25, f64::MAX] {
        assert!(run(&konst(1, v)).is_ok());
        let muted = node(2, Ty::Fp, Primitive::FVal { muted: true, value: v.to_bits() });
        assert!(run(&muted).is_ok());
    }
}

#[test]
fn constant_declared_bool_fails() {
    let e = node(4, Ty::Bool, Primitive::FVal { muted: false, value: 0 });
    assert_eq!(mismatch_of(run(&e)), (4, Ty::Bool, Ty::Fp));
}

#[test]
fn add_declared_bool_fails_at_the_add() {
    let e = node(3, Ty::Bool, Primitive::FAdd { l: Box::new(konst(1, 1.0)), r: Box::new(konst(2, 2.0)) });
    let (id, declared, synthesized) = mismatch_of(run(&e));
    assert_eq!(id, 3);
    assert_eq!(declared, Ty::Bool);
    assert_eq!(synthesized, Ty::Fp);
}

#[test]
fn add_of_constants_checks() {
    let e = node(3, Ty::Fp, Primitive::FMul { l: Box::new(konst(1, 1.0)), r: Box::new(konst(2, 2.0)) });
    assert!(run(&e).is_ok());
}

#[test]
fn comparison_needs_bool() {
    let ok = node(3, Ty::Bool, Primitive::FLtr { l: Box::new(konst(1, 1.0)), r: Box::new(konst(2, 2.0)) });
    assert!(run(&ok).is_ok());
    let bad = node(3, Ty::Fp, Primitive::FEq { l: Box::new(konst(1, 1.0)), r: Box::new(konst(2, 2.0)) });
    assert_eq!(mismatch_of(run(&bad)), (3, Ty::Fp, Ty::Bool));
}

#[test]
fn left_child_fails_before_right() {
    let bad_l = node(1, Ty::Time, Primitive::FVal { muted: false, value: 0 });
    let bad_r = node(2, Ty::Bool, Primitive::FVal { muted: false, value: 0 });
    let e = node(3, Ty::Fp, Primitive::FSub { l: Box::new(bad_l), r: Box::new(bad_r) });
    assert_eq!(mismatch_of(run(&e)), (1, Ty::Time, Ty::Fp));
}

#[test]
fn refer_internal_past_the_scope_overflows() {
    let e = node(5, Ty::Fp, Primitive::ReferInternal { debrujin: 2 });
    let ctx = Ctx::new();
    let mut local = vec![Ty::Fp];
    match e.check(&ctx, &mut local) {
        Err(TyError::OverflowVariableList { expr, declared }) => {
            assert_eq!(expr.id, 5);
            assert_eq!(declared, Ty::Fp);
        }
        other => panic!("expected an overflow, got {:?}", other),
    }
    assert_eq!(local, vec![Ty::Fp]);
}

#[test]
fn refer_internal_counts_from_the_innermost() {
    let ctx = Ctx::new();
    let mut local = vec![Ty::Bool, Ty::Fp];
    let inner = node(1, Ty::Fp, Primitive::ReferInternal { debrujin: 0 });
    assert!(inner.check(&ctx, &mut local).is_ok());
    let outer = node(2, Ty::Fp, Primitive::ReferInternal { debrujin: 1 });
    assert_eq!(mismatch_of(outer.check(&ctx, &mut local)), (2, Ty::Fp, Ty::Bool));
}

#[test]
fn function_body_type_mismatch() {
    let body = konst(1, 0.5);
    let e = node(2, fn_ty(Ty::Fp, Ty::Bool), Primitive::Function { x: Box::new(body) });
    let (id, declared, synthesized) = mismatch_of(run(&e));
    assert_eq!(id, 2);
    assert_eq!(declared, fn_ty(Ty::Fp, Ty::Bool));
    assert_eq!(synthesized, fn_ty(Ty::Auto, Ty::Fp));
}

#[test]
fn function_binds_its_parameter() {
    let body = node(1, Ty::Time, Primitive::ReferInternal { debrujin: 0 });
    let e = node(2, fn_ty(Ty::Time, Ty::Time), Primitive::Function { x: Box::new(body) });
    let ctx = Ctx::new();
    let mut local = vec![Ty::Bool];
    assert!(e.check(&ctx, &mut local).is_ok());
    assert_eq!(local, vec![Ty::Bool]);
}

#[test]
fn function_declared_otherwise_fails() {
    let e = node(2, Ty::Fp, Primitive::Function { x: Box::new(konst(1, 0.0)) });
    assert_eq!(mismatch_of(run(&e)), (2, Ty::Fp, fn_ty(Ty::Auto, Ty::Auto)));
}

#[test]
fn scope_is_restored_after_a_failure() {
    let body = node(1, Ty::Bool, Primitive::FVal { muted: false, value: 0 });
    let e = node(2, fn_ty(Ty::Fp, Ty::Bool), Primitive::Function { x: Box::new(body) });
    let ctx = Ctx::new();
    let mut local = vec![Ty::Time];
    assert!(e.check(&ctx, &mut local).is_err());
    assert_eq!(local, vec![Ty::Time]);
}

#[test]
fn pair_and_projections() {
    let pair = || node(3, prod(Ty::Fp, Ty::Fp), Primitive::Pair { l: Box::new(konst(1, 1.0)), r: Box::new(konst(2, 2.0)) });
    assert!(run(&pair()).is_ok());
    let left = node(4, Ty::Fp, Primitive::LProj { x: Box::new(pair()) });
    assert!(run(&left).is_ok());
    let wrong = node(4, Ty::Time, Primitive::LProj { x: Box::new(pair()) });
    let (id, declared, synthesized) = mismatch_of(run(&wrong));
    assert_eq!(id, 4);
    assert_eq!(declared, Ty::Time);
    assert_eq!(synthesized, Ty::Fp);
    let right = node(5, Ty::Fp, Primitive::RProj { x: Box::new(pair()) });
    assert!(run(&right).is_ok());
}

#[test]
fn projection_of_a_scalar_fails() {
    let e = node(4, Ty::Bool, Primitive::RProj { x: Box::new(konst(1, 1.0)) });
    assert_eq!(mismatch_of(run(&e)), (4, Ty::Fp, prod(Ty::Auto, Ty::Bool)));
}

#[test]
fn pair_declared_wrong_fails() {
    let e = node(3, prod(Ty::Fp, Ty::Bool), Primitive::Pair { l: Box::new(konst(1, 1.0)), r: Box::new(konst(2, 2.0)) });
    assert_eq!(mismatch_of(run(&e)), (3, prod(Ty::Fp, Ty::Bool), prod(Ty::Fp, Ty::Fp)));
}

#[test]
fn branch_rules() {
    let cond = || node(1, Ty::Bool, Primitive::FGte { l: Box::new(konst(7, 1.0)), r: Box::new(konst(8, 2.0)) });
    let ok = node(4, Ty::Fp, Primitive::Br { c: Box::new(cond()), l: Box::new(konst(2, 1.0)), r: Box::new(konst(3, 2.0)) });
    assert!(run(&ok).is_ok());
    let bad = node(4, Ty::Bool, Primitive::Br { c: Box::new(cond()), l: Box::new(konst(2, 1.0)), r: Box::new(konst(3, 2.0)) });
    assert_eq!(mismatch_of(run(&bad)), (4, Ty::Fp, Ty::Bool));
    let bad_c = node(4, Ty::Fp, Primitive::Br { c: Box::new(konst(1, 0.0)), l: Box::new(konst(2, 1.0)), r: Box::new(konst(3, 2.0)) });
    assert_eq!(mismatch_of(run(&bad_c)), (4, Ty::Fp, Ty::Bool));
}

#[test]
fn apply_checks_the_argument() {
    let f = || node(2, fn_ty(Ty::Fp, Ty::Fp), Primitive::Function { x: Box::new(node(1, Ty::Fp, Primitive::ReferInternal { debrujin: 0 })) });
    let ok = node(4, Ty::Fp, Primitive::Apply { x: Box::new(konst(3, 1.0)), f: Box::new(f()) });
    assert!(run(&ok).is_ok());
    let arg = node(3, Ty::Bool, Primitive::FLte { l: Box::new(konst(5, 1.0)), r: Box::new(konst(6, 1.0)) });
    let bad = node(4, Ty::Fp, Primitive::Apply { x: Box::new(arg), f: Box::new(f()) });
    assert_eq!(mismatch_of(run(&bad)), (3, Ty::Bool, Ty::Fp));
    let not_fn = node(4, Ty::Fp, Primitive::Apply { x: Box::new(konst(3, 1.0)), f: Box::new(konst(2, 1.0)) });
    assert_eq!(mismatch_of(run(&not_fn)), (4, Ty::Fp, fn_ty(Ty::Fp, Ty::Auto)));
}

#[test]
fn time_forms() {
    let ctx = Ctx::new();
    let mut local = vec![Ty::Part];
    let part = || node(1, Ty::Part, Primitive::ReferInternal { debrujin: 0 });
    let secs = node(2, Ty::Fp, Primitive::TimeSec { x: Box::new(part()) });
    assert!(secs.check(&ctx, &mut local).is_ok());
    let rel = node(2, Ty::Time, Primitive::PartRel { x: Box::new(part()) });
    assert!(rel.check(&ctx, &mut local).is_ok());
    let abs = node(2, Ty::Fp, Primitive::PartAbs { x: Box::new(part()) });
    assert_eq!(mismatch_of(abs.check(&ctx, &mut local)), (2, Ty::Fp, Ty::Time));
    let of_scalar = node(2, Ty::Fp, Primitive::TimeSec { x: Box::new(konst(1, 0.0)) });
    assert_eq!(mismatch_of(of_scalar.check(&ctx, &mut local)), (1, Ty::Fp, Ty::Time));
    let rel_of_scalar = node(2, Ty::Time, Primitive::PartRel { x: Box::new(konst(1, 0.0)) });
    assert_eq!(mismatch_of(rel_of_scalar.check(&ctx, &mut local)), (1, Ty::Fp, Ty::Part));
}

#[test]
fn dup_builds_right_nested_tuples() {
    assert_eq!(Ty::dup(Ty::Fp, 3), prod(Ty::Fp, prod(Ty::Fp, Ty::Fp)));
    assert_eq!(Ty::dup(Ty::Fp, 1), Ty::Fp);
    assert_eq!(Ty::dup(Ty::Bool, 2), prod(Ty::Bool, Ty::Bool));
}

#[test]
fn types_compare_structurally() {
    assert!(fn_ty(Ty::Fp, Ty::Time).same(&fn_ty(Ty::Fp, Ty::Time)));
    assert!(!fn_ty(Ty::Fp, Ty::Time).same(&fn_ty(Ty::Fp, Ty::Part)));
    assert!(!prod(Ty::Fp, Ty::Fp).same(&Ty::Enum(Box::new((Ty::Fp, Ty::Fp)))));
    assert_eq!(prod(Ty::Auto, Ty::Fp).deep_copy(), prod(Ty::Auto, Ty::Fp));
}

fn ode(decl: Ty) -> Expr {
    let state = node(1, Ty::Fp, Primitive::ReferInternal { debrujin: 0 });
    node(2, decl, Primitive::TimeODE { transform: vec![state], init: vec![0.0f64.to_bits()] })
}

#[test]
fn ode_with_one_channel() {
    assert!(run(&ode(fn_ty(Ty::Time, Ty::Fp))).is_ok());
    let declared = fn_ty(Ty::Time, prod(Ty::Fp, Ty::Fp));
    assert_eq!(mismatch_of(run(&ode(declared.deep_copy()))), (2, declared, fn_ty(Ty::Time, Ty::Fp)));
}

#[test]
fn ode_scope_has_time_then_state() {
    let time = node(1, Ty::Time, Primitive::ReferInternal { debrujin: 2 });
    let secs = node(3, Ty::Fp, Primitive::TimeSec { x: Box::new(time) });
    let second = node(4, Ty::Fp, Primitive::ReferInternal { debrujin: 0 });
    let e = node(5, fn_ty(Ty::Time, prod(Ty::Fp, Ty::Fp)), Primitive::TimeODE { transform: vec![secs, second], init: vec![0, 0] });
    let ctx = Ctx::new();
    let mut local = vec![Ty::Bool];
    assert!(e.check(&ctx, &mut local).is_ok());
    assert_eq!(local, vec![Ty::Bool]);
}

#[test]
fn ode_output_must_be_scalar() {
    let b = node(1, Ty::Bool, Primitive::FLtr { l: Box::new(konst(6, 0.0)), r: Box::new(konst(7, 1.0)) });
    let e = node(2, fn_ty(Ty::Time, Ty::Fp), Primitive::TimeODE { transform: vec![b], init: vec![0] });
    assert_eq!(mismatch_of(run(&e)), (1, Ty::Bool, Ty::Fp));
}

#[test]
fn zip_samples_a_signal() {
    let signal = || node(1, fn_ty(Ty::Time, Ty::Fp), Primitive::Function { x: Box::new(konst(9, 1.0)) });
    let e = node(3, fn_ty(Ty::Time, prod(Ty::Fp, Ty::Fp)), Primitive::TimeZip {
        x: Box::new(signal()),
        secs: vec![0.5f64.to_bits(), 1.0f64.to_bits()],
        default: Box::new(konst(2, 0.0)),
    });
    assert!(run(&e).is_ok());
    let wrong = node(3, fn_ty(Ty::Time, Ty::Fp), Primitive::TimeZip {
        x: Box::new(signal()),
        secs: vec![0.5f64.to_bits(), 1.0f64.to_bits()],
        default: Box::new(konst(2, 0.0)),
    });
    assert_eq!(mismatch_of(run(&wrong)), (3, fn_ty(Ty::Time, Ty::Fp), fn_ty(Ty::Time, prod(Ty::Fp, Ty::Fp))));
}

#[test]
fn environment_entries_resolve() {
    let mut ctx = Ctx::new();
    let first = ctx.insert(konst(1, 2.0), "two".to_string());
    assert_eq!(first, Some(0));
    let reference = node(2, Ty::Fp, Primitive::ReferExternal { slot: 0 });
    let second = ctx.insert(reference, "again".to_string());
    assert_eq!(second, Some(1));
    assert_eq!(ctx.len(), 2);
    assert_eq!(ctx.slot_of(1), Some(1));
    assert_eq!(ctx.slot_of(7), None);
    assert_eq!(ctx.label(1), "again");
    let mut local: Vec<Ty> = Vec::new();
    assert!(ctx.entry(1).check(&ctx, &mut local).is_ok());
    let wrong = node(3, Ty::Bool, Primitive::ReferExternal { slot: 1 });
    assert!(wrong.is_shaped(ctx.len()));
    assert_eq!(mismatch_of(wrong.check(&ctx, &mut local)), (3, Ty::Bool, Ty::Fp));
}

#[test]
fn environment_refuses_dangling_references() {
    let mut ctx = Ctx::new();
    let dangling = node(2, Ty::Fp, Primitive::ReferExternal { slot: 0 });
    assert!(!dangling.is_shaped(0));
    assert_eq!(ctx.insert(dangling, "x".to_string()), None);
    assert_eq!(ctx.len(), 0);
}

#[test]
fn zero_channels_are_a_mismatch() {
    let empty_ode = node(3, fn_ty(Ty::Time, Ty::Fp), Primitive::TimeODE { transform: vec![], init: vec![] });
    assert_eq!(mismatch_of(run(&empty_ode)), (3, fn_ty(Ty::Time, Ty::Fp), fn_ty(Ty::Time, Ty::Auto)));
    let declared_auto = node(3, fn_ty(Ty::Time, Ty::Auto), Primitive::TimeODE { transform: vec![], init: vec![] });
    assert!(run(&declared_auto).is_err());
    let signal = node(1, fn_ty(Ty::Time, Ty::Fp), Primitive::Function { x: Box::new(konst(9, 1.0)) });
    let empty_zip = node(4, fn_ty(Ty::Time, Ty::Fp), Primitive::TimeZip {
        x: Box::new(signal),
        secs: vec![],
        default: Box::new(konst(2, 0.0)),
    });
    assert_eq!(mismatch_of(run(&empty_zip)), (4, fn_ty(Ty::Time, Ty::Fp), fn_ty(Ty::Time, Ty::Auto)));
    let mut ctx = Ctx::new();
    let empty_ode = node(3, fn_ty(Ty::Time, Ty::Fp), Primitive::TimeODE { transform: vec![], init: vec![] });
    assert_eq!(ctx.insert(empty_ode, "y".to_string()), Some(0));
}

#[test]
fn copies_are_equal() {
    let e = node(5, Ty::Fp, Primitive::TimeZip {
        x: Box::new(ode(fn_ty(Ty::Time, Ty::Fp))),
        secs: vec![1, 2, 3],
        default: Box::new(konst(2, 0.0)),
    });
    assert_eq!(e.deep_copy(), e);
}
