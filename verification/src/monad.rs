//! The effect interface: a container family supports `bind` (feed each
//! contained value to a step function producing another container of the
//! same family, and recombine) and `ret` (lift a plain value into the
//! minimal container holding exactly that one value).

use vstd::prelude::*;

verus! {

/// The two-operation contract every effect family satisfies.
///
/// `Self` is the container being stepped forward, carrying values of type
/// `Self::Inner`; `O` is the resulting container of the same family,
/// possibly carrying a different value type.
///
/// The family's semantics are fixed by two spec functions: `values` gives
/// the contained values in order (empty when the container is absent or
/// failed), and `combines` says how the family recombines the step
/// function's per-value results into the final container. `bind` promises
/// that the step function was applied to exactly the contained values, in
/// order, and the results recombined; in particular, when `values` is
/// empty the step function is never invoked (its precondition is not even
/// required to hold), which is the short-circuit behaviour.
pub trait Monad<O>: Sized {
    /// The type of the values the container carries.
    type Inner;

    /// The contained ("present") values, in order.
    spec fn values(&self) -> Seq<Self::Inner>;

    /// How the family combines the per-value results `rs` (one for each
    /// element of `self.values()`) into the overall result `r`.
    spec fn combines(&self, rs: Seq<O>, r: O) -> bool;

    /// Apply `f` to each contained value in order and recombine the
    /// results according to the family's rule.
    fn bind<F: Fn(Self::Inner) -> O>(m: Self, f: F) -> (r: O)
        requires
            steps_accepted(f, m.values()),
        ensures
            exists|rs: Seq<O>| step_results(f, m.values(), rs) && #[trigger] m.combines(rs, r),
    ;

    /// Lift a plain value into the minimal container: exactly one value
    /// present, no additional effect.
    fn ret(inner: Self::Inner) -> (r: Self)
        ensures
            r.values() == seq![inner],
    ;
}

/// What `bind` asks of its callers: the step function must accept every
/// contained value. Of an absent or failed container (no contained
/// values) nothing is asked, since the step function is never invoked.
pub open spec fn steps_accepted<I, O, F: Fn(I) -> O>(f: F, vals: Seq<I>) -> bool {
    forall|i: int| 0 <= i < vals.len() ==> call_requires(f, (vals[i],))
}

/// One step result per contained value, in order, each a possible output
/// of the step function on the corresponding value.
pub open spec fn step_results<I, O, F: Fn(I) -> O>(f: F, vals: Seq<I>, rs: Seq<O>) -> bool {
    &&& rs.len() == vals.len()
    &&& forall|i: int| 0 <= i < rs.len() ==> call_ensures(f, (vals[i],), #[trigger] rs[i])
}

impl<T, O> Monad<Option<O>> for Option<T> {
    type Inner = T;

    /// An optional value holds zero or one value.
    open spec fn values(&self) -> Seq<T> {
        match self {
            Option::Some(t) => seq![*t],
            Option::None => Seq::empty(),
        }
    }

    /// A present value's single result passes through unchanged; an absent
    /// container stays absent.
    open spec fn combines(&self, rs: Seq<Option<O>>, r: Option<O>) -> bool {
        match self {
            Option::Some(_) => r == rs[0],
            Option::None => r is None,
        }
    }

    fn bind<F: Fn(T) -> Option<O>>(m: Option<T>, f: F) -> (r: Option<O>) {
        match m {
            Option::Some(t) => {
                proof {
                    assert(<Option<T> as Monad<Option<O>>>::values(&m)[0] == t);
                }
                let out = f(t);
                proof {
                    let rs: Seq<Option<O>> = seq![out];
                    assert(m.combines(rs, out));
                }
                out
            },
            Option::None => {
                proof {
                    let rs: Seq<Option<O>> = Seq::empty();
                    assert(m.combines(rs, Option::<O>::None));
                }
                Option::None
            },
        }
    }

    fn ret(inner: T) -> (r: Option<T>) {
        Option::Some(inner)
    }
}

impl<T, O, E> Monad<Result<O, E>> for Result<T, E> {
    type Inner = T;

    /// A fallible value holds exactly one value, or none when it carries
    /// an error.
    open spec fn values(&self) -> Seq<T> {
        match self {
            Result::Ok(t) => seq![*t],
            Result::Err(_) => Seq::empty(),
        }
    }

    /// A success's single result passes through unchanged; a failure is
    /// propagated as exactly the same error, never substituted or wrapped.
    open spec fn combines(&self, rs: Seq<Result<O, E>>, r: Result<O, E>) -> bool {
        match self {
            Result::Ok(_) => r == rs[0],
            Result::Err(e) => r == Result::<O, E>::Err(*e),
        }
    }

    fn bind<F: Fn(T) -> Result<O, E>>(m: Result<T, E>, f: F) -> (r: Result<O, E>) {
        match m {
            Result::Ok(t) => {
                proof {
                    assert(<Result<T, E> as Monad<Result<O, E>>>::values(&m)[0] == t);
                }
                let out = f(t);
                proof {
                    let rs: Seq<Result<O, E>> = seq![out];
                    assert(m.combines(rs, out));
                }
                out
            },
            Result::Err(e) => {
                proof {
                    let rs: Seq<Result<O, E>> = Seq::empty();
                    assert(m.combines(rs, Result::<O, E>::Err(e)));
                }
                Result::Err(e)
            },
        }
    }

    fn ret(inner: T) -> (r: Result<T, E>) {
        Result::Ok(inner)
    }
}

/// The concatenation, in source order, of the contents of the lists in
/// `rs`: all elements of `rs[0]`, then all elements of `rs[1]`, and so on.
pub open spec fn concat_all<O>(rs: Seq<Vec<O>>) -> Seq<O> {
    rs.map_values(|v: Vec<O>| v@).flatten()
}

/// Concatenating one more list appends exactly its contents at the end.
pub proof fn lemma_concat_all_push<O>(rs: Seq<Vec<O>>, v: Vec<O>)
    ensures
        concat_all(rs.push(v)) == concat_all(rs) + v@,
{
    broadcast use vstd::prelude::Seq::lemma_flatten_push;

    assert(rs.push(v).map_values(|v: Vec<O>| v@) =~= rs.map_values(|v: Vec<O>| v@).push(v@));
}

/// Concatenating no lists at all yields the empty sequence.
pub proof fn lemma_concat_all_empty<O>()
    ensures
        concat_all(Seq::<Vec<O>>::empty()) == Seq::<O>::empty(),
{
    assert(Seq::<Vec<O>>::empty().map_values(|v: Vec<O>| v@) =~= Seq::<Seq<O>>::empty());
}

impl<T, O> Monad<Vec<O>> for Vec<T> {
    type Inner = T;

    /// A list holds zero or more values, in order.
    open spec fn values(&self) -> Seq<T> {
        self@
    }

    /// The per-element result lists are concatenated in source order: all
    /// results of element 0, then all results of element 1, and so on.
    open spec fn combines(&self, rs: Seq<Vec<O>>, r: Vec<O>) -> bool {
        r@ == concat_all(rs)
    }

    fn bind<F: Fn(T) -> Vec<O>>(m: Vec<T>, f: F) -> (r: Vec<O>) {
        let ghost vals = <Vec<T> as Monad<Vec<O>>>::values(&m);
        let mut acc: Vec<O> = Vec::new();
        let ghost mut rs: Seq<Vec<O>> = Seq::empty();
        proof {
            lemma_concat_all_empty::<O>();
        }
        for t in iter: m.into_iter()
            invariant
                iter.seq() == vals,
                rs.len() == iter.index(),
                forall|i: int| 0 <= i < rs.len() ==> call_ensures(f, (vals[i],), #[trigger] rs[i]),
                acc@ == concat_all(rs),
                forall|i: int| 0 <= i < vals.len() ==> call_requires(f, (vals[i],)),
        {
            let mut out = f(t);
            proof {
                lemma_concat_all_push(rs, out);
                rs = rs.push(out);
            }
            acc.append(&mut out);
        }
        proof {
            assert(m.combines(rs, acc));
        }
        acc
    }

    fn ret(inner: T) -> (r: Vec<T>) {
        let mut v: Vec<T> = Vec::new();
        v.push(inner);
        proof {
            assert(v@ =~= seq![inner]);
        }
        v
    }
}

} // verus!
