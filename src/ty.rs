use vstd::prelude::*;

verus! {

/// The closed grammar of types of the signal language.
#[derive(Debug, PartialEq)]
pub enum Ty {
    /// A first-order function from its domain to its codomain.
    Fn(Box<(Ty, Ty)>),
    /// A double-precision scalar.
    Fp,
    /// An absolute point on the timeline.
    Time,
    /// A bounded sub-interval of the timeline; a subtype of `Time`.
    Part,
    Bool,
    /// A binary product; tuples are right-nested products.
    Prod(Box<(Ty, Ty)>),
    /// A binary sum, part of the grammar but built by no expression form.
    Enum(Box<(Ty, Ty)>),
    /// A shape not yet known; stands only inside error reports.
    Auto,
}

/// The function type `a -> b`.
pub open spec fn fn_ty(a: Ty, b: Ty) -> Ty {
    Ty::Fn(Box::new((a, b)))
}

/// The product type `(a, b)`.
pub open spec fn prod_ty(a: Ty, b: Ty) -> Ty {
    Ty::Prod(Box::new((a, b)))
}

/// The right-nested tuple of `n` copies of `t`; one copy is `t` itself.
pub open spec fn dup_spec(t: Ty, n: nat) -> Ty
    recommends
        n >= 1,
    decreases n,
{
    if n <= 1 {
        t
    } else {
        prod_ty(t, dup_spec(t, (n - 1) as nat))
    }
}

impl Ty {
    /// Structural equality, decided by walking both trees.
    pub fn same(&self, o: &Ty) -> (r: bool)
        ensures
            r == (*self == *o),
        decreases self,
    {
        match (self, o) {
            (Ty::Fn(a), Ty::Fn(b)) | (Ty::Prod(a), Ty::Prod(b)) | (Ty::Enum(a), Ty::Enum(b)) => {
                let first = a.0.same(&b.0);
                let second = a.1.same(&b.1);
                proof {
                    if first && second {
                        assert(**a == **b);
                    }
                }
                first && second
            },
            (Ty::Fp, Ty::Fp) | (Ty::Time, Ty::Time) | (Ty::Part, Ty::Part) | (Ty::Bool, Ty::Bool)
            | (Ty::Auto, Ty::Auto) => true,
            _ => false,
        }
    }

    /// A deep copy of the type.
    pub fn deep_copy(&self) -> (r: Ty)
        ensures
            r == *self,
        decreases self,
    {
        match self {
            Ty::Fn(p) => Ty::Fn(Box::new((p.0.deep_copy(), p.1.deep_copy()))),
            Ty::Fp => Ty::Fp,
            Ty::Time => Ty::Time,
            Ty::Part => Ty::Part,
            Ty::Bool => Ty::Bool,
            Ty::Prod(p) => Ty::Prod(Box::new((p.0.deep_copy(), p.1.deep_copy()))),
            Ty::Enum(p) => Ty::Enum(Box::new((p.0.deep_copy(), p.1.deep_copy()))),
            Ty::Auto => Ty::Auto,
        }
    }

    /// The tuple of `n` copies of `ty`, nested to the right; `n == 1` gives `ty`.
    pub fn dup(ty: Ty, n: usize) -> (r: Ty)
        requires
            n >= 1,
        ensures
            r == dup_spec(ty, n as nat),
        decreases n,
    {
        if n == 1 {
            ty
        } else {
            let head = ty.deep_copy();
            Ty::Prod(Box::new((head, Ty::dup(ty, n - 1))))
        }
    }
}

} // verus!
