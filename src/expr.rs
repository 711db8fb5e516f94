use vstd::prelude::*;
use crate::ty::{Ty, fn_ty, prod_ty, dup_spec};
use crate::ctx::Ctx;

verus! {

/// A node of the expression tree: an identifier, a declared type and a form.
#[derive(Debug, PartialEq)]
pub struct Expr {
    pub id: u32,
    pub ty: Ty,
    pub inner: Primitive,
}

/// The forms of expression. Numeric constants are held as the bit patterns
/// of IEEE-754 doubles.
#[derive(Debug, PartialEq)]
pub enum Primitive {
    /// Samples a signal `Time -> Fp` at `secs.len()` fixed offsets. `default`
    /// is the fallback value and is checked as an expression in its own
    /// right; its type is not constrained, so a host may choose a scalar or
    /// a tuple that matches the channels.
    TimeZip { x: Box<Expr>, secs: Vec<u64>, default: Box<Expr> },
    /// Integrates one state channel per element of `init`.
    TimeODE { transform: Vec<Expr>, init: Vec<u64> },
    PartRel { x: Box<Expr> },
    PartAbs { x: Box<Expr> },
    TimeSec { x: Box<Expr> },
    /// Applies `f` to the argument `x`.
    Apply { x: Box<Expr>, f: Box<Expr> },
    /// A function whose body is `x`; its parameter is the innermost binder.
    Function { x: Box<Expr> },
    /// A binder of the lexical scope, counted from the innermost one.
    ReferInternal { debrujin: usize },
    /// An entry of the environment's definition table.
    ReferExternal { slot: usize },
    Br { c: Box<Expr>, l: Box<Expr>, r: Box<Expr> },
    FEq { l: Box<Expr>, r: Box<Expr> },
    FLtr { l: Box<Expr>, r: Box<Expr> },
    FGtr { l: Box<Expr>, r: Box<Expr> },
    FLte { l: Box<Expr>, r: Box<Expr> },
    FGte { l: Box<Expr>, r: Box<Expr> },
    Pair { l: Box<Expr>, r: Box<Expr> },
    LProj { x: Box<Expr> },
    RProj { x: Box<Expr> },
    FAdd { l: Box<Expr>, r: Box<Expr> },
    FSub { l: Box<Expr>, r: Box<Expr> },
    FMul { l: Box<Expr>, r: Box<Expr> },
    FDiv { l: Box<Expr>, r: Box<Expr> },
    FPow { l: Box<Expr>, r: Box<Expr> },
    /// A constant; `muted` marks one that the host may override at run time.
    FVal { muted: bool, value: u64 },
}

/// The first inconsistency that checking found.
#[derive(Debug, PartialEq)]
pub enum TyError {
    Mismatch { expr: Box<Expr>, declared: Ty, synthesized: Ty },
    OverflowVariableList { expr: Box<Expr>, declared: Ty },
}

/// The mathematical model of an expression node.
pub struct Node {
    pub id: u32,
    pub ty: Ty,
    pub form: Form,
}

/// The model of a form: sequences stand for vectors.
pub enum Form {
    TimeZip { x: Box<Node>, secs: Seq<u64>, default: Box<Node> },
    TimeODE { transform: Seq<Node>, init: Seq<u64> },
    PartRel { x: Box<Node> },
    PartAbs { x: Box<Node> },
    TimeSec { x: Box<Node> },
    Apply { x: Box<Node>, f: Box<Node> },
    Function { x: Box<Node> },
    ReferInternal { debrujin: usize },
    ReferExternal { slot: usize },
    Br { c: Box<Node>, l: Box<Node>, r: Box<Node> },
    FEq { l: Box<Node>, r: Box<Node> },
    FLtr { l: Box<Node>, r: Box<Node> },
    FGtr { l: Box<Node>, r: Box<Node> },
    FLte { l: Box<Node>, r: Box<Node> },
    FGte { l: Box<Node>, r: Box<Node> },
    Pair { l: Box<Node>, r: Box<Node> },
    LProj { x: Box<Node> },
    RProj { x: Box<Node> },
    FAdd { l: Box<Node>, r: Box<Node> },
    FSub { l: Box<Node>, r: Box<Node> },
    FMul { l: Box<Node>, r: Box<Node> },
    FDiv { l: Box<Node>, r: Box<Node> },
    FPow { l: Box<Node>, r: Box<Node> },
    FVal { muted: bool, value: u64 },
}

/// The model of a checking error.
pub enum Fault {
    Mismatch { expr: Node, declared: Ty, synthesized: Ty },
    OverflowVariableList { expr: Node, declared: Ty },
}

impl TyError {
    pub open spec fn view(&self) -> Fault {
        match self {
            TyError::Mismatch { expr, declared, synthesized } => Fault::Mismatch {
                expr: expr.view(),
                declared: *declared,
                synthesized: *synthesized,
            },
            TyError::OverflowVariableList { expr, declared } => Fault::OverflowVariableList {
                expr: expr.view(),
                declared: *declared,
            },
        }
    }
}

/// The model of a result of checking.
pub open spec fn outcome(r: Result<(), TyError>) -> Result<(), Fault> {
    match r {
        Ok(()) => Ok(()),
        Err(e) => Err(e.view()),
    }
}

impl Expr {
    pub open spec fn view(&self) -> Node
        decreases *self, 0nat,
    {
        Node { id: self.id, ty: self.ty, form: self.inner.view() }
    }
}

/// The models of a sequence of expressions.
pub open spec fn views(es: Seq<Expr>) -> Seq<Node>
    decreases es, 2nat,
{
    Seq::new(
        es.len(),
        |i: int|
            if 0 <= i < es.len() {
                es[i].view()
            } else {
                arbitrary()
            },
    )
}

impl Primitive {
    pub open spec fn view(&self) -> Form
        decreases *self, 1nat,
    {
        match self {
            Primitive::TimeZip { x, secs, default } => Form::TimeZip {
                x: Box::new(x.view()),
                secs: secs@,
                default: Box::new(default.view()),
            },
            Primitive::TimeODE { transform, init } => Form::TimeODE {
                transform: views(transform@),
                init: init@,
            },
            Primitive::PartRel { x } => Form::PartRel { x: Box::new(x.view()) },
            Primitive::PartAbs { x } => Form::PartAbs { x: Box::new(x.view()) },
            Primitive::TimeSec { x } => Form::TimeSec { x: Box::new(x.view()) },
            Primitive::Apply { x, f } => Form::Apply { x: Box::new(x.view()), f: Box::new(f.view()) },
            Primitive::Function { x } => Form::Function { x: Box::new(x.view()) },
            Primitive::ReferInternal { debrujin } => Form::ReferInternal { debrujin: *debrujin },
            Primitive::ReferExternal { slot } => Form::ReferExternal { slot: *slot },
            Primitive::Br { c, l, r } => Form::Br {
                c: Box::new(c.view()),
                l: Box::new(l.view()),
                r: Box::new(r.view()),
            },
            Primitive::FEq { l, r } => Form::FEq { l: Box::new(l.view()), r: Box::new(r.view()) },
            Primitive::FLtr { l, r } => Form::FLtr { l: Box::new(l.view()), r: Box::new(r.view()) },
            Primitive::FGtr { l, r } => Form::FGtr { l: Box::new(l.view()), r: Box::new(r.view()) },
            Primitive::FLte { l, r } => Form::FLte { l: Box::new(l.view()), r: Box::new(r.view()) },
            Primitive::FGte { l, r } => Form::FGte { l: Box::new(l.view()), r: Box::new(r.view()) },
            Primitive::Pair { l, r } => Form::Pair { l: Box::new(l.view()), r: Box::new(r.view()) },
            Primitive::LProj { x } => Form::LProj { x: Box::new(x.view()) },
            Primitive::RProj { x } => Form::RProj { x: Box::new(x.view()) },
            Primitive::FAdd { l, r } => Form::FAdd { l: Box::new(l.view()), r: Box::new(r.view()) },
            Primitive::FSub { l, r } => Form::FSub { l: Box::new(l.view()), r: Box::new(r.view()) },
            Primitive::FMul { l, r } => Form::FMul { l: Box::new(l.view()), r: Box::new(r.view()) },
            Primitive::FDiv { l, r } => Form::FDiv { l: Box::new(l.view()), r: Box::new(r.view()) },
            Primitive::FPow { l, r } => Form::FPow { l: Box::new(l.view()), r: Box::new(r.view()) },
            Primitive::FVal { muted, value } => Form::FVal { muted: *muted, value: *value },
        }
    }
}

/// True when every external reference in `e` names a slot below `slots`.
pub open spec fn shaped(e: Node, slots: nat) -> bool
    decreases e, 0nat,
{
    match e.form {
        Form::TimeZip { x, secs, default } => shaped(*x, slots) && shaped(
            *default,
            slots,
        ),
        Form::TimeODE { transform, init } => shaped_from(
            transform,
            0,
            slots,
        ),
        Form::PartRel { x } | Form::PartAbs { x } | Form::TimeSec { x }
        | Form::Function { x } | Form::LProj { x } | Form::RProj { x } => shaped(
            *x,
            slots,
        ),
        Form::Apply { x, f } => shaped(*x, slots) && shaped(*f, slots),
        Form::ReferInternal { .. } | Form::FVal { .. } => true,
        Form::ReferExternal { slot } => slot < slots,
        Form::Br { c, l, r } => shaped(*c, slots) && shaped(*l, slots) && shaped(*r, slots),
        Form::FEq { l, r } | Form::FLtr { l, r } | Form::FGtr { l, r }
        | Form::FLte { l, r } | Form::FGte { l, r } | Form::Pair { l, r }
        | Form::FAdd { l, r } | Form::FSub { l, r } | Form::FMul { l, r }
        | Form::FDiv { l, r } | Form::FPow { l, r } => shaped(*l, slots) && shaped(
            *r,
            slots,
        ),
    }
}

/// `shaped` holds of every element of `es` from index `i` on.
pub open spec fn shaped_from(es: Seq<Node>, i: int, slots: nat) -> bool
    decreases es, es.len() - i,
{
    if 0 <= i < es.len() {
        shaped(es[i], slots) && shaped_from(es, i + 1, slots)
    } else {
        true
    }
}

/// A mismatch reported at `e`.
pub open spec fn mismatch(e: Node, declared: Ty, synthesized: Ty) -> Result<(), Fault> {
    Err(Fault::Mismatch { expr: e, declared, synthesized })
}

/// Success when `declared` is `synthesized`, else a mismatch reported at `e`.
pub open spec fn agree(e: Node, declared: Ty, synthesized: Ty) -> Result<(), Fault> {
    if declared == synthesized {
        Ok(())
    } else {
        mismatch(e, declared, synthesized)
    }
}

/// The error of `a` if it failed, else `b`.
pub open spec fn first_error(a: Result<(), Fault>, b: Result<(), Fault>) -> Result<(), Fault> {
    if a is Err {
        a
    } else {
        b
    }
}

/// The scope under which a integrator's body is checked: the running time,
/// then one scalar per state channel.
pub open spec fn ode_scope(local: Seq<Ty>, n: nat) -> Seq<Ty> {
    local.push(Ty::Time) + Seq::new(n, |i: int| Ty::Fp)
}

/// The rule for the declared type of an integrator or resampler with `n`
/// channels: a function from `Time` to `n` scalars. With no channels there is
/// no such tuple, and the node is reported against `Time -> Auto`.
pub open spec fn channel_rule(e: Node, n: nat) -> Result<(), Fault> {
    if n == 0 {
        mismatch(e, e.ty, fn_ty(Ty::Time, Ty::Auto))
    } else {
        agree(e, e.ty, fn_ty(Ty::Time, dup_spec(Ty::Fp, n)))
    }
}

/// The rule of a binary scalar form whose operands have types `l` and `r`
/// and whose own type must be `result`.
pub open spec fn scalar_rule(e: Node, l: Ty, r: Ty, result: Ty) -> Result<(), Fault> {
    first_error(agree(e, e.ty, result), first_error(agree(e, l, Ty::Fp), agree(e, r, Ty::Fp)))
}

/// The outcome of checking `e` against the table `cls`, of which only the
/// entries below `lim` may be consulted, under the lexical scope `local`.
pub open spec fn checked(e: Node, cls: Seq<Node>, lim: nat, local: Seq<Ty>) -> Result<(), Fault>
    decreases lim, e, 0nat,
{
    match e.form {
        Form::FAdd { l, r } | Form::FSub { l, r } | Form::FMul { l, r }
        | Form::FDiv { l, r } | Form::FPow { l, r } => first_error(
            checked(*l, cls, lim, local),
            first_error(checked(*r, cls, lim, local), scalar_rule(e, l.ty, r.ty, Ty::Fp)),
        ),
        Form::FLtr { l, r } | Form::FGtr { l, r } | Form::FLte { l, r }
        | Form::FGte { l, r } | Form::FEq { l, r } => first_error(
            checked(*l, cls, lim, local),
            first_error(checked(*r, cls, lim, local), scalar_rule(e, l.ty, r.ty, Ty::Bool)),
        ),
        Form::FVal { .. } => agree(e, e.ty, Ty::Fp),
        Form::Pair { l, r } => first_error(
            checked(*l, cls, lim, local),
            first_error(checked(*r, cls, lim, local), agree(e, e.ty, prod_ty(l.ty, r.ty))),
        ),
        Form::LProj { x } => first_error(
            checked(*x, cls, lim, local),
            match x.ty {
                Ty::Prod(p) => agree(e, e.ty, p.0),
                _ => mismatch(e, x.ty, prod_ty(e.ty, Ty::Auto)),
            },
        ),
        Form::RProj { x } => first_error(
            checked(*x, cls, lim, local),
            match x.ty {
                Ty::Prod(p) => agree(e, e.ty, p.1),
                _ => mismatch(e, x.ty, prod_ty(Ty::Auto, e.ty)),
            },
        ),
        Form::Br { c, l, r } => first_error(
            checked(*c, cls, lim, local),
            first_error(
                checked(*l, cls, lim, local),
                first_error(
                    checked(*r, cls, lim, local),
                    first_error(
                        agree(e, l.ty, e.ty),
                        first_error(agree(e, r.ty, e.ty), agree(e, c.ty, Ty::Bool)),
                    ),
                ),
            ),
        ),
        // A slot at or past `lim` does not occur in a shaped expression.
        Form::ReferExternal { slot } => if slot < lim && slot < cls.len() {
            first_error(checked(cls[slot as int], cls, slot as nat, local), agree(e, e.ty, cls[slot as int].ty))
        } else {
            Ok(())
        },
        Form::ReferInternal { debrujin } => if local.len() <= debrujin {
            Err(Fault::OverflowVariableList { expr: e, declared: e.ty })
        } else {
            agree(e, e.ty, local[local.len() - 1 - debrujin])
        },
        Form::Function { x } => match e.ty {
            Ty::Fn(my) => first_error(
                checked(*x, cls, lim, local.push(my.0)),
                if x.ty == my.1 {
                    Ok(())
                } else {
                    mismatch(e, e.ty, fn_ty(Ty::Auto, x.ty))
                },
            ),
            _ => mismatch(e, e.ty, fn_ty(Ty::Auto, Ty::Auto)),
        },
        Form::Apply { x, f } => first_error(
            checked(*x, cls, lim, local),
            first_error(
                checked(*f, cls, lim, local),
                match f.ty {
                    Ty::Fn(ft) => agree(*x, x.ty, ft.0),
                    _ => mismatch(e, e.ty, fn_ty(x.ty, Ty::Auto)),
                },
            ),
        ),
        Form::TimeSec { x } => first_error(
            checked(*x, cls, lim, local),
            first_error(
                if x.ty is Time || x.ty is Part {
                    Ok(())
                } else {
                    mismatch(*x, x.ty, Ty::Time)
                },
                agree(e, e.ty, Ty::Fp),
            ),
        ),
        Form::PartRel { x } | Form::PartAbs { x } => first_error(
            checked(*x, cls, lim, local),
            first_error(
                if x.ty is Part {
                    Ok(())
                } else {
                    mismatch(*x, x.ty, Ty::Part)
                },
                agree(e, e.ty, Ty::Time),
            ),
        ),
        Form::TimeODE { transform, init } => first_error(
            checked_from(transform, 0, cls, lim, ode_scope(local, init.len() as nat)),
            first_error(
                outputs_from(transform, 0),
                channel_rule(e, init.len() as nat),
            ),
        ),
        Form::TimeZip { x, secs, default } => first_error(
            checked(*x, cls, lim, local),
            first_error(
                checked(*default, cls, lim, local),
                first_error(
                    channel_rule(e, secs.len() as nat),
                    agree(*x, x.ty, fn_ty(Ty::Time, Ty::Fp)),
                ),
            ),
        ),
    }
}

/// Checks the elements of `es` from index `i` on, in order, stopping at the
/// first failure.
pub open spec fn checked_from(
    es: Seq<Node>,
    i: int,
    cls: Seq<Node>,
    lim: nat,
    local: Seq<Ty>,
) -> Result<(), Fault>
    decreases lim, es, es.len() - i,
{
    if 0 <= i < es.len() {
        first_error(checked(es[i], cls, lim, local), checked_from(es, i + 1, cls, lim, local))
    } else {
        Ok(())
    }
}

/// The first element of `es` from index `i` on whose type is not `Fp`,
/// reported at that element.
pub open spec fn outputs_from(es: Seq<Node>, i: int) -> Result<(), Fault>
    decreases es.len() - i,
{
    if 0 <= i < es.len() {
        first_error(agree(es[i], es[i].ty, Ty::Fp), outputs_from(es, i + 1))
    } else {
        Ok(())
    }
}

impl Expr {
    /// A deep copy of the expression.
    pub fn deep_copy(&self) -> (r: Expr)
        ensures
            r@ == self@,
        decreases *self, 1nat,
    {
        Expr { id: self.id, ty: self.ty.deep_copy(), inner: self.inner.deep_copy() }
    }

    /// A mismatch reported at this node.
    fn mismatch_here(&self, declared: &Ty, synthesized: Ty) -> (r: Result<(), TyError>)
        ensures
            outcome(r) == mismatch(self@, *declared, synthesized),
    {
        Err(TyError::Mismatch {
            expr: Box::new(self.deep_copy()),
            declared: declared.deep_copy(),
            synthesized,
        })
    }

    /// Success when `declared` is `synthesized`, else a mismatch at this node.
    fn agree_here(&self, declared: &Ty, synthesized: Ty) -> (r: Result<(), TyError>)
        ensures
            outcome(r) == agree(self@, *declared, synthesized),
    {
        if declared.same(&synthesized) {
            Ok(())
        } else {
            self.mismatch_here(declared, synthesized)
        }
    }

    fn channels_here(&self, n: usize) -> (r: Result<(), TyError>)
        ensures
            outcome(r) == channel_rule(self@, n as nat),
    {
        if n == 0 {
            self.mismatch_here(&self.ty, Ty::Fn(Box::new((Ty::Time, Ty::Auto))))
        } else {
            self.agree_here(&self.ty, Ty::Fn(Box::new((Ty::Time, Ty::dup(Ty::Fp, n)))))
        }
    }

    fn scalar_here(&self, l: &Ty, r: &Ty, result: Ty) -> (res: Result<(), TyError>)
        ensures
            outcome(res) == scalar_rule(self@, *l, *r, result),
    {
        if let Err(err) = self.agree_here(&self.ty, result) {
            return Err(err);
        }
        if let Err(err) = self.agree_here(l, Ty::Fp) {
            return Err(err);
        }
        self.agree_here(r, Ty::Fp)
    }
}

impl Primitive {
    /// A deep copy of the form.
    pub fn deep_copy(&self) -> (r: Primitive)
        ensures
            r@ == self@,
        decreases *self, 1nat,
    {
        match self {
            Primitive::TimeZip { x, secs, default } => Primitive::TimeZip {
                x: Box::new(x.deep_copy()),
                secs: copy_bits(secs),
                default: Box::new(default.deep_copy()),
            },
            Primitive::TimeODE { transform, init } => Primitive::TimeODE {
                transform: copy_exprs(transform),
                init: copy_bits(init),
            },
            Primitive::PartRel { x } => Primitive::PartRel { x: Box::new(x.deep_copy()) },
            Primitive::PartAbs { x } => Primitive::PartAbs { x: Box::new(x.deep_copy()) },
            Primitive::TimeSec { x } => Primitive::TimeSec { x: Box::new(x.deep_copy()) },
            Primitive::Apply { x, f } => Primitive::Apply {
                x: Box::new(x.deep_copy()),
                f: Box::new(f.deep_copy()),
            },
            Primitive::Function { x } => Primitive::Function { x: Box::new(x.deep_copy()) },
            Primitive::ReferInternal { debrujin } => Primitive::ReferInternal { debrujin: *debrujin },
            Primitive::ReferExternal { slot } => Primitive::ReferExternal { slot: *slot },
            Primitive::Br { c, l, r } => Primitive::Br {
                c: Box::new(c.deep_copy()),
                l: Box::new(l.deep_copy()),
                r: Box::new(r.deep_copy()),
            },
            Primitive::FEq { l, r } => Primitive::FEq { l: Box::new(l.deep_copy()), r: Box::new(r.deep_copy()) },
            Primitive::FLtr { l, r } => Primitive::FLtr { l: Box::new(l.deep_copy()), r: Box::new(r.deep_copy()) },
            Primitive::FGtr { l, r } => Primitive::FGtr { l: Box::new(l.deep_copy()), r: Box::new(r.deep_copy()) },
            Primitive::FLte { l, r } => Primitive::FLte { l: Box::new(l.deep_copy()), r: Box::new(r.deep_copy()) },
            Primitive::FGte { l, r } => Primitive::FGte { l: Box::new(l.deep_copy()), r: Box::new(r.deep_copy()) },
            Primitive::Pair { l, r } => Primitive::Pair { l: Box::new(l.deep_copy()), r: Box::new(r.deep_copy()) },
            Primitive::LProj { x } => Primitive::LProj { x: Box::new(x.deep_copy()) },
            Primitive::RProj { x } => Primitive::RProj { x: Box::new(x.deep_copy()) },
            Primitive::FAdd { l, r } => Primitive::FAdd { l: Box::new(l.deep_copy()), r: Box::new(r.deep_copy()) },
            Primitive::FSub { l, r } => Primitive::FSub { l: Box::new(l.deep_copy()), r: Box::new(r.deep_copy()) },
            Primitive::FMul { l, r } => Primitive::FMul { l: Box::new(l.deep_copy()), r: Box::new(r.deep_copy()) },
            Primitive::FDiv { l, r } => Primitive::FDiv { l: Box::new(l.deep_copy()), r: Box::new(r.deep_copy()) },
            Primitive::FPow { l, r } => Primitive::FPow { l: Box::new(l.deep_copy()), r: Box::new(r.deep_copy()) },
            Primitive::FVal { muted, value } => Primitive::FVal { muted: *muted, value: *value },
        }
    }
}

fn copy_bits(v: &Vec<u64>) -> (r: Vec<u64>)
    ensures
        r@ == v@,
{
    let mut r: Vec<u64> = Vec::new();
    let mut i: usize = 0;
    while i < v.len()
        invariant
            i <= v.len(),
            r@ == v@.subrange(0, i as int),
        decreases v.len() - i,
    {
        r.push(v[i]);
        i = i + 1;
    }
    assert(r@ =~= v@);
    r
}

fn copy_exprs(es: &Vec<Expr>) -> (r: Vec<Expr>)
    ensures
        views(r@) == views(es@),
    decreases es@, 0nat,
{
    let mut r: Vec<Expr> = Vec::new();
    let mut i: usize = 0;
    while i < es.len()
        invariant
            i <= es.len(),
            r@.len() == i,
            forall|k: int| 0 <= k < i ==> #[trigger] r@[k].view() == es@[k].view(),
        decreases es.len() - i,
    {
        r.push(es[i].deep_copy());
        i = i + 1;
    }
    assert forall|k: int| 0 <= k < r@.len() implies #[trigger] views(r@)[k] == views(es@)[k] by {
        assert(r@[k].view() == es@[k].view());
    }
    assert(views(r@) =~= views(es@));
    r
}

impl Expr {
    /// Checks this node and everything below it against the environment
    /// `ctx`, under the lexical scope `local` (innermost binder last). Stops
    /// at the first inconsistency, children before their parent, left before
    /// right. The scope is left as it was found.
    pub fn check(&self, ctx: &Ctx, local: &mut Vec<Ty>) -> (r: Result<(), TyError>)
        requires
            ctx.wf(),
            shaped(self@, ctx.entries().len() as nat),
        ensures
            outcome(r) == checked(self@, ctx.entries(), ctx.entries().len() as nat, old(local)@),
            final(local)@ == old(local)@,
    {
        self.check_under(ctx, Ghost(ctx.entries().len() as nat), local)
    }

    #[verifier::rlimit(100)]
    #[verifier::spinoff_prover]
    fn check_under(&self, ctx: &Ctx, lim: Ghost<nat>, local: &mut Vec<Ty>) -> (r: Result<
        (),
        TyError,
    >)
        requires
            ctx.wf(),
            lim@ <= ctx.entries().len(),
            shaped(self@, lim@),
        ensures
            outcome(r) == checked(self@, ctx.entries(), lim@, old(local)@),
            final(local)@ == old(local)@,
        decreases lim@, *self, 0nat,
    {
        match &self.inner {
            Primitive::FAdd { l, r } | Primitive::FSub { l, r } | Primitive::FMul { l, r }
            | Primitive::FDiv { l, r } | Primitive::FPow { l, r } => {
                if let Err(err) = l.check_under(ctx, lim, local) {
                    return Err(err);
                }
                if let Err(err) = r.check_under(ctx, lim, local) {
                    return Err(err);
                }
                self.scalar_here(&l.ty, &r.ty, Ty::Fp)
            },
            Primitive::FLtr { l, r } | Primitive::FGtr { l, r } | Primitive::FLte { l, r }
            | Primitive::FGte { l, r } | Primitive::FEq { l, r } => {
                if let Err(err) = l.check_under(ctx, lim, local) {
                    return Err(err);
                }
                if let Err(err) = r.check_under(ctx, lim, local) {
                    return Err(err);
                }
                self.scalar_here(&l.ty, &r.ty, Ty::Bool)
            },
            Primitive::FVal { .. } => self.agree_here(&self.ty, Ty::Fp),
            Primitive::Pair { l, r } => {
                if let Err(err) = l.check_under(ctx, lim, local) {
                    return Err(err);
                }
                if let Err(err) = r.check_under(ctx, lim, local) {
                    return Err(err);
                }
                self.agree_here(&self.ty, Ty::Prod(Box::new((l.ty.deep_copy(), r.ty.deep_copy()))))
            },
            Primitive::LProj { x } => {
                if let Err(err) = x.check_under(ctx, lim, local) {
                    return Err(err);
                }
                match &x.ty {
                    Ty::Prod(p) => self.agree_here(&self.ty, p.0.deep_copy()),
                    _ => self.mismatch_here(&x.ty, Ty::Prod(Box::new((self.ty.deep_copy(), Ty::Auto)))),
                }
            },
            Primitive::RProj { x } => {
                if let Err(err) = x.check_under(ctx, lim, local) {
                    return Err(err);
                }
                match &x.ty {
                    Ty::Prod(p) => self.agree_here(&self.ty, p.1.deep_copy()),
                    _ => self.mismatch_here(&x.ty, Ty::Prod(Box::new((Ty::Auto, self.ty.deep_copy())))),
                }
            },
            Primitive::Br { c, l, r } => {
                if let Err(err) = c.check_under(ctx, lim, local) {
                    return Err(err);
                }
                if let Err(err) = l.check_under(ctx, lim, local) {
                    return Err(err);
                }
                if let Err(err) = r.check_under(ctx, lim, local) {
                    return Err(err);
                }
                if let Err(err) = self.agree_here(&l.ty, self.ty.deep_copy()) {
                    return Err(err);
                }
                if let Err(err) = self.agree_here(&r.ty, self.ty.deep_copy()) {
                    return Err(err);
                }
                self.agree_here(&c.ty, Ty::Bool)
            },
            Primitive::ReferExternal { slot } => {
                let entry = ctx.entry(*slot);
                proof {
                    assert(shaped(ctx.entries()[*slot as int], *slot as nat));
                }
                if let Err(err) = entry.check_under(ctx, Ghost(*slot as nat), local) {
                    return Err(err);
                }
                self.agree_here(&self.ty, entry.ty.deep_copy())
            },
            Primitive::ReferInternal { debrujin } => {
                if local.len() <= *debrujin {
                    Err(TyError::OverflowVariableList {
                        expr: Box::new(self.deep_copy()),
                        declared: self.ty.deep_copy(),
                    })
                } else {
                    let bound = local[local.len() - 1 - *debrujin].deep_copy();
                    self.agree_here(&self.ty, bound)
                }
            },
            Primitive::Function { x } => match &self.ty {
                Ty::Fn(my) => {
                    let ghost start = local@;
                    local.push(my.0.deep_copy());
                    let res = x.check_under(ctx, lim, local);
                    local.pop();
                    assert(local@ =~= start);
                    if let Err(err) = res {
                        return Err(err);
                    }
                    if x.ty.same(&my.1) {
                        Ok(())
                    } else {
                        self.mismatch_here(&self.ty, Ty::Fn(Box::new((Ty::Auto, x.ty.deep_copy()))))
                    }
                },
                _ => self.mismatch_here(&self.ty, Ty::Fn(Box::new((Ty::Auto, Ty::Auto)))),
            },
            Primitive::Apply { x, f } => {
                if let Err(err) = x.check_under(ctx, lim, local) {
                    return Err(err);
                }
                if let Err(err) = f.check_under(ctx, lim, local) {
                    return Err(err);
                }
                match &f.ty {
                    Ty::Fn(ft) => x.agree_here(&x.ty, ft.0.deep_copy()),
                    _ => self.mismatch_here(&self.ty, Ty::Fn(Box::new((x.ty.deep_copy(), Ty::Auto)))),
                }
            },
            Primitive::TimeSec { x } => {
                if let Err(err) = x.check_under(ctx, lim, local) {
                    return Err(err);
                }
                let timed = match x.ty {
                    Ty::Time | Ty::Part => true,
                    _ => false,
                };
                if !timed {
                    return x.mismatch_here(&x.ty, Ty::Time);
                }
                self.agree_here(&self.ty, Ty::Fp)
            },
            Primitive::PartRel { x } | Primitive::PartAbs { x } => {
                if let Err(err) = x.check_under(ctx, lim, local) {
                    return Err(err);
                }
                let part = match x.ty {
                    Ty::Part => true,
                    _ => false,
                };
                if !part {
                    return x.mismatch_here(&x.ty, Ty::Part);
                }
                self.agree_here(&self.ty, Ty::Time)
            },
            Primitive::TimeODE { transform, init } => {
                let n = init.len();
                let base = local.len();
                let ghost start = local@;
                local.push(Ty::Time);
                let mut k: usize = 0;
                while k < n
                    invariant
                        k <= n,
                        local@ == start.push(Ty::Time) + Seq::new(k as nat, |i: int| Ty::Fp),
                    decreases n - k,
                {
                    local.push(Ty::Fp);
                    k = k + 1;
                    assert(local@ =~= start.push(Ty::Time) + Seq::new(k as nat, |i: int| Ty::Fp));
                }
                assert(local@ =~= ode_scope(start, n as nat));
                let res = check_from(transform, 0, ctx, lim, local);
                local.truncate(base);
                assert(local@ =~= start);
                if let Err(err) = res {
                    return Err(err);
                }
                if let Err(err) = outputs_at(transform, 0) {
                    return Err(err);
                }
                self.channels_here(n)
            },
            Primitive::TimeZip { x, secs, default } => {
                if let Err(err) = x.check_under(ctx, lim, local) {
                    return Err(err);
                }
                if let Err(err) = default.check_under(ctx, lim, local) {
                    return Err(err);
                }
                if let Err(err) = self.channels_here(secs.len()) {
                    return Err(err);
                }
                x.agree_here(&x.ty, Ty::Fn(Box::new((Ty::Time, Ty::Fp))))
            },
        }
    }
}

/// Checks the elements of `es` from index `i` on, in order.
fn check_from(es: &Vec<Expr>, i: usize, ctx: &Ctx, lim: Ghost<nat>, local: &mut Vec<Ty>) -> (r:
    Result<(), TyError>)
    requires
        ctx.wf(),
        lim@ <= ctx.entries().len(),
        i <= es.len(),
        shaped_from(views(es@), i as int, lim@),
    ensures
        outcome(r) == checked_from(views(es@), i as int, ctx.entries(), lim@, old(local)@),
        final(local)@ == old(local)@,
    decreases lim@, es@, es@.len() - i,
{
    if i >= es.len() {
        return Ok(());
    }
    assert(views(es@)[i as int] == es@[i as int].view());
    if let Err(err) = es[i].check_under(ctx, lim, local) {
        return Err(err);
    }
    check_from(es, i + 1, ctx, lim, local)
}

/// The first element of `es` from index `i` on whose type is not `Fp`.
fn outputs_at(es: &Vec<Expr>, i: usize) -> (r: Result<(), TyError>)
    requires
        i <= es.len(),
    ensures
        outcome(r) == outputs_from(views(es@), i as int),
    decreases es@.len() - i,
{
    if i >= es.len() {
        return Ok(());
    }
    assert(views(es@)[i as int] == es@[i as int].view());
    if let Err(err) = es[i].agree_here(&es[i].ty, Ty::Fp) {
        return Err(err);
    }
    outputs_at(es, i + 1)
}

impl Expr {
    /// Decides `shaped`: every external reference names a slot below `slots`,
    pub fn is_shaped(&self, slots: usize) -> (r: bool)
        ensures
            r == shaped(self@, slots as nat),
        decreases *self, 0nat,
    {
        match &self.inner {
            Primitive::TimeZip { x, secs, default } => x.is_shaped(slots)
                && default.is_shaped(slots),
            Primitive::TimeODE { transform, init } => shaped_each(
                transform,
                0,
                slots,
            ),
            Primitive::PartRel { x } | Primitive::PartAbs { x } | Primitive::TimeSec { x }
            | Primitive::Function { x } | Primitive::LProj { x } | Primitive::RProj { x } => x.is_shaped(slots),
            Primitive::Apply { x, f } => x.is_shaped(slots) && f.is_shaped(slots),
            Primitive::ReferInternal { .. } | Primitive::FVal { .. } => true,
            Primitive::ReferExternal { slot } => *slot < slots,
            Primitive::Br { c, l, r } => c.is_shaped(slots) && l.is_shaped(slots) && r.is_shaped(slots),
            Primitive::FEq { l, r } | Primitive::FLtr { l, r } | Primitive::FGtr { l, r }
            | Primitive::FLte { l, r } | Primitive::FGte { l, r } | Primitive::Pair { l, r }
            | Primitive::FAdd { l, r } | Primitive::FSub { l, r } | Primitive::FMul { l, r }
            | Primitive::FDiv { l, r } | Primitive::FPow { l, r } => l.is_shaped(slots) && r.is_shaped(slots),
        }
    }
}

fn shaped_each(es: &Vec<Expr>, i: usize, slots: usize) -> (r: bool)
    requires
        i <= es.len(),
    ensures
        r == shaped_from(views(es@), i as int, slots as nat),
    decreases es@, es@.len() - i,
{
    if i >= es.len() {
        return true;
    }
    assert(views(es@)[i as int] == es@[i as int].view());
    es[i].is_shaped(slots) && shaped_each(es, i + 1, slots)
}

/// A constant declared `Fp` checks, whatever the environment and the scope.
pub proof fn lemma_constant_checks(
    id: u32,
    muted: bool,
    value: u64,
    cls: Seq<Node>,
    lim: nat,
    local: Seq<Ty>,
)
    ensures
        checked(Node { id, ty: Ty::Fp, form: Form::FVal { muted, value } }, cls, lim, local) == Ok::<
            (),
            Fault,
        >(()),
{
}

/// What the table of forms asks of the node `e` itself: its declared type,
/// and its children's, as the form requires.
pub open spec fn node_rule(e: Node, cls: Seq<Node>, local: Seq<Ty>) -> bool {
    match e.form {
        Form::FAdd { l, r } | Form::FSub { l, r } | Form::FMul { l, r } | Form::FDiv { l, r }
        | Form::FPow { l, r } => e.ty == Ty::Fp && l.ty == Ty::Fp && r.ty == Ty::Fp,
        Form::FLtr { l, r } | Form::FGtr { l, r } | Form::FLte { l, r } | Form::FGte { l, r }
        | Form::FEq { l, r } => e.ty == Ty::Bool && l.ty == Ty::Fp && r.ty == Ty::Fp,
        Form::FVal { .. } => e.ty == Ty::Fp,
        Form::Pair { l, r } => e.ty == prod_ty(l.ty, r.ty),
        Form::LProj { x } => x.ty is Prod && x.ty->Prod_0.0 == e.ty,
        Form::RProj { x } => x.ty is Prod && x.ty->Prod_0.1 == e.ty,
        Form::Br { c, l, r } => c.ty == Ty::Bool && l.ty == e.ty && r.ty == e.ty,
        Form::ReferInternal { debrujin } => debrujin < local.len() && e.ty == local[local.len() - 1
            - debrujin],
        Form::ReferExternal { slot } => slot < cls.len() && e.ty == cls[slot as int].ty,
        Form::Function { x } => e.ty is Fn && e.ty->Fn_0.1 == x.ty,
        Form::Apply { x, f } => f.ty is Fn && f.ty->Fn_0.0 == x.ty,
        Form::TimeSec { x } => (x.ty == Ty::Time || x.ty == Ty::Part) && e.ty == Ty::Fp,
        Form::PartRel { x } | Form::PartAbs { x } => x.ty == Ty::Part && e.ty == Ty::Time,
        Form::TimeODE { transform, init } => (forall|k: int|
            0 <= k < transform.len() ==> #[trigger] transform[k].ty == Ty::Fp) && init.len() >= 1
            && e.ty == fn_ty(
            Ty::Time,
            dup_spec(Ty::Fp, init.len() as nat),
        ),
        Form::TimeZip { x, secs, .. } => x.ty == fn_ty(Ty::Time, Ty::Fp) && secs.len() >= 1 && e.ty == fn_ty(
            Ty::Time,
            dup_spec(Ty::Fp, secs.len() as nat),
        ),
    }
}

proof fn lemma_outputs_fp(es: Seq<Node>, i: int)
    requires
        0 <= i,
        outputs_from(es, i) is Ok,
    ensures
        forall|k: int| i <= k < es.len() ==> #[trigger] es[k].ty == Ty::Fp,
    decreases es.len() - i,
{
    if i < es.len() {
        lemma_outputs_fp(es, i + 1);
    }
}

/// A node that checks has the declared type that its form and its
/// children's declared types call for.
pub proof fn lemma_checked_node_consistent(e: Node, cls: Seq<Node>, lim: nat, local: Seq<Ty>)
    requires
        lim <= cls.len(),
        shaped(e, lim),
        checked(e, cls, lim, local) is Ok,
    ensures
        node_rule(e, cls, local),
{
    if let Form::TimeODE { transform, init } = e.form {
        lemma_outputs_fp(transform, 0);
    }
}

} // verus!
