//! The mathematical model of the three effect families and the laws every
//! family satisfies: left identity, right identity, associativity, and
//! short-circuiting on absence.
//!
//! Each family's `bind`/`ret` pair is modelled by a pair of spec
//! functions; the lemmas below are the family's correctness contract. The
//! lemmas at the end tie the executable `Monad` methods to the model: any
//! result the executable `bind` may return is the model's `bind` of the
//! step function's description.

use vstd::prelude::*;
use vstd::seq_lib::lemma_flatten_concat;
use crate::monad::{Monad, concat_all, step_results};

verus! {

/// Stepping an optional value forward: a present value is fed to `f`; an
/// absent one short-circuits, and `f` plays no part in the result.
pub open spec fn option_bind<T, O>(m: Option<T>, f: spec_fn(T) -> Option<O>) -> Option<O> {
    match m {
        Option::Some(t) => f(t),
        Option::None => Option::None,
    }
}

/// The minimal optional container: exactly one present value.
pub open spec fn option_ret<T>(x: T) -> Option<T> {
    Option::Some(x)
}

/// Stepping a fallible value forward: a success is fed to `f`; a failure
/// short-circuits with exactly the same error, never substituted.
pub open spec fn result_bind<T, O, E>(
    m: Result<T, E>,
    f: spec_fn(T) -> Result<O, E>,
) -> Result<O, E> {
    match m {
        Result::Ok(t) => f(t),
        Result::Err(e) => Result::Err(e),
    }
}

/// The minimal fallible container: a success, no error.
pub open spec fn result_ret<T, E>(x: T) -> Result<T, E> {
    Result::Ok(x)
}

/// Stepping a list forward: `f` is applied to every element in order, and
/// the resulting lists are concatenated, all results of element 0 before
/// all results of element 1, and so on.
pub open spec fn list_bind<T, O>(m: Seq<T>, f: spec_fn(T) -> Seq<O>) -> Seq<O> {
    m.map_values(f).flatten()
}

/// The minimal list container: a single-element list.
pub open spec fn list_ret<T>(x: T) -> Seq<T> {
    seq![x]
}

// ---------------------------------------------------------------------
// The monad laws for the optional family.
// ---------------------------------------------------------------------

/// Left identity: lifting a value and stepping it forward is one
/// application of the step function.
pub proof fn lemma_option_left_identity<T, O>(x: T, f: spec_fn(T) -> Option<O>)
    ensures
        option_bind(option_ret(x), f) == f(x),
{
}

/// Right identity: stepping forward into a bare lift changes nothing.
pub proof fn lemma_option_right_identity<T>(m: Option<T>)
    ensures
        option_bind(m, |x: T| option_ret(x)) == m,
{
}

/// Associativity: nesting of binds does not matter, only their order.
pub proof fn lemma_option_associativity<T, U, V>(
    m: Option<T>,
    f: spec_fn(T) -> Option<U>,
    g: spec_fn(U) -> Option<V>,
)
    ensures
        option_bind(option_bind(m, f), g) == option_bind(m, |x: T| option_bind(f(x), g)),
{
}

/// Short-circuit: an absent first step leaves every later step untouched;
/// the result is absent whatever the step functions are.
pub proof fn lemma_option_short_circuit<T, U, V>(
    f: spec_fn(T) -> Option<U>,
    g: spec_fn(U) -> Option<V>,
)
    ensures
        option_bind(Option::<T>::None, f) == Option::<U>::None,
        option_bind(option_bind(Option::<T>::None, f), g) == Option::<V>::None,
{
}

// ---------------------------------------------------------------------
// The monad laws for the fallible family.
// ---------------------------------------------------------------------

/// Left identity: lifting a value and stepping it forward is one
/// application of the step function.
pub proof fn lemma_result_left_identity<T, O, E>(x: T, f: spec_fn(T) -> Result<O, E>)
    ensures
        result_bind(result_ret(x), f) == f(x),
{
}

/// Right identity: stepping forward into a bare lift changes nothing.
pub proof fn lemma_result_right_identity<T, E>(m: Result<T, E>)
    ensures
        result_bind(m, |x: T| result_ret(x)) == m,
{
}

/// Associativity: nesting of binds does not matter, only their order.
pub proof fn lemma_result_associativity<T, U, V, E>(
    m: Result<T, E>,
    f: spec_fn(T) -> Result<U, E>,
    g: spec_fn(U) -> Result<V, E>,
)
    ensures
        result_bind(result_bind(m, f), g) == result_bind(m, |x: T| result_bind(f(x), g)),
{
}

/// Short-circuit: a failed first step leaves every later step untouched;
/// the result carries exactly the first error, whatever the step
/// functions are.
pub proof fn lemma_result_short_circuit<T, U, V, E>(
    e: E,
    f: spec_fn(T) -> Result<U, E>,
    g: spec_fn(U) -> Result<V, E>,
)
    ensures
        result_bind(Result::<T, E>::Err(e), f) == Result::<U, E>::Err(e),
        result_bind(result_bind(Result::<T, E>::Err(e), f), g) == Result::<V, E>::Err(e),
{
}

// ---------------------------------------------------------------------
// The monad laws for the list family.
// ---------------------------------------------------------------------

/// Binding one more element appends exactly that element's results.
pub proof fn lemma_list_bind_push<T, O>(m: Seq<T>, a: T, f: spec_fn(T) -> Seq<O>)
    ensures
        list_bind(m.push(a), f) == list_bind(m, f) + f(a),
{
    broadcast use vstd::prelude::Seq::lemma_flatten_push;

    assert(m.push(a).map_values(f) =~= m.map_values(f).push(f(a)));
}

/// Binding distributes over concatenation of the input lists.
pub proof fn lemma_list_bind_concat<T, O>(x: Seq<T>, y: Seq<T>, f: spec_fn(T) -> Seq<O>)
    ensures
        list_bind(x + y, f) == list_bind(x, f) + list_bind(y, f),
{
    assert((x + y).map_values(f) =~= x.map_values(f) + y.map_values(f));
    lemma_flatten_concat(x.map_values(f), y.map_values(f));
}

/// Binding the empty list yields the empty list, whatever the step
/// function: no element, no step, no result.
pub proof fn lemma_list_bind_empty<T, O>(f: spec_fn(T) -> Seq<O>)
    ensures
        list_bind(Seq::<T>::empty(), f) == Seq::<O>::empty(),
{
    assert(Seq::<T>::empty().map_values(f) =~= Seq::<Seq<O>>::empty());
}

/// Left identity: lifting a value and stepping it forward is one
/// application of the step function.
pub proof fn lemma_list_left_identity<T, O>(x: T, f: spec_fn(T) -> Seq<O>)
    ensures
        list_bind(list_ret(x), f) == f(x),
{
    assert(list_ret(x).map_values(f) =~= seq![f(x)]);
    seq![f(x)].lemma_flatten_one_element();
}

/// Right identity: stepping forward into a bare lift changes nothing.
pub proof fn lemma_list_right_identity<T>(m: Seq<T>)
    ensures
        list_bind(m, |x: T| list_ret(x)) == m,
    decreases m.len(),
{
    let f = |x: T| list_ret(x);
    if m.len() == 0 {
        lemma_list_bind_empty::<T, T>(f);
        assert(m =~= Seq::<T>::empty());
    } else {
        let m0 = m.drop_last();
        let a = m.last();
        lemma_list_right_identity::<T>(m0);
        lemma_list_bind_push(m0, a, f);
        assert(m0.push(a) =~= m);
        assert(m0 + seq![a] =~= m);
    }
}

/// Associativity: nesting of binds does not matter, only their order.
pub proof fn lemma_list_associativity<T, U, V>(
    m: Seq<T>,
    f: spec_fn(T) -> Seq<U>,
    g: spec_fn(U) -> Seq<V>,
)
    ensures
        list_bind(list_bind(m, f), g) == list_bind(m, |x: T| list_bind(f(x), g)),
    decreases m.len(),
{
    let h = |x: T| list_bind(f(x), g);
    if m.len() == 0 {
        lemma_list_bind_empty::<T, U>(f);
        lemma_list_bind_empty::<U, V>(g);
        lemma_list_bind_empty::<T, V>(h);
        assert(m =~= Seq::<T>::empty());
    } else {
        let m0 = m.drop_last();
        let a = m.last();
        lemma_list_associativity(m0, f, g);
        assert(m0.push(a) =~= m);
        lemma_list_bind_push(m0, a, f);
        lemma_list_bind_concat(list_bind(m0, f), f(a), g);
        lemma_list_bind_push(m0, a, h);
    }
}

/// A sequence ending in an explicit lift of the bound value equals the
/// sequence ending in the bare expression: for every input list and step
/// function, binding each step result into `ret` is the bare bind. This
/// is why an annotated-return tail and a bare tail are interchangeable.
pub proof fn lemma_list_ret_tail_equals_bare_tail<T, U>(m: Seq<T>, f: spec_fn(T) -> Seq<U>)
    ensures
        list_bind(m, |a: T| list_bind(f(a), |x: U| list_ret(x))) == list_bind(m, f),
{
    assert(m.map_values(|a: T| list_bind(f(a), |x: U| list_ret(x))) =~= m.map_values(f)) by {
        assert forall|i: int| 0 <= i < m.len() implies (|a: T|
            list_bind(f(a), |x: U| list_ret(x)))(m[i]) == f(m[i]) by {
            lemma_list_right_identity(f(m[i]));
        }
    }
}

// ---------------------------------------------------------------------
// The executable interface agrees with the model.
// ---------------------------------------------------------------------

/// Whatever the executable `bind` on an optional container returns, it is
/// the model's `option_bind` of any function `fs` that describes the step
/// function's behaviour. The second hypothesis is exactly what `bind`
/// ensures of its result.
pub proof fn lemma_option_bind_models<T, O, F: Fn(T) -> Option<O>>(
    f: F,
    fs: spec_fn(T) -> Option<O>,
    m: Option<T>,
    r: Option<O>,
)
    requires
        forall|x: T, y: Option<O>| call_ensures(f, (x,), y) ==> y == fs(x),
        exists|rs: Seq<Option<O>>|
            step_results(f, <Option<T> as Monad<Option<O>>>::values(&m), rs)
                && #[trigger] m.combines(rs, r),
    ensures
        r == option_bind(m, fs),
{
    let vals = <Option<T> as Monad<Option<O>>>::values(&m);
    let rs = choose|rs: Seq<Option<O>>|
        step_results(f, <Option<T> as Monad<Option<O>>>::values(&m), rs)
            && #[trigger] m.combines(rs, r);
    match m {
        Option::Some(t) => {
            assert(vals[0] == t);
            assert(call_ensures(f, (t,), rs[0]));
        },
        Option::None => {},
    }
}

/// Whatever the executable `bind` on a fallible container returns, it is
/// the model's `result_bind` of any function `fs` that describes the step
/// function's behaviour.
pub proof fn lemma_result_bind_models<T, O, E, F: Fn(T) -> Result<O, E>>(
    f: F,
    fs: spec_fn(T) -> Result<O, E>,
    m: Result<T, E>,
    r: Result<O, E>,
)
    requires
        forall|x: T, y: Result<O, E>| call_ensures(f, (x,), y) ==> y == fs(x),
        exists|rs: Seq<Result<O, E>>|
            step_results(f, <Result<T, E> as Monad<Result<O, E>>>::values(&m), rs)
                && #[trigger] m.combines(rs, r),
    ensures
        r == result_bind(m, fs),
{
    let vals = <Result<T, E> as Monad<Result<O, E>>>::values(&m);
    let rs = choose|rs: Seq<Result<O, E>>|
        step_results(f, <Result<T, E> as Monad<Result<O, E>>>::values(&m), rs)
            && #[trigger] m.combines(rs, r);
    match m {
        Result::Ok(t) => {
            assert(vals[0] == t);
            assert(call_ensures(f, (t,), rs[0]));
        },
        Result::Err(_) => {},
    }
}

/// Whatever the executable `bind` on a list returns, its contents are the
/// model's `list_bind` of any function `fs` that describes the step
/// function's contents.
pub proof fn lemma_list_bind_models<T, O, F: Fn(T) -> Vec<O>>(
    f: F,
    fs: spec_fn(T) -> Seq<O>,
    m: Vec<T>,
    r: Vec<O>,
)
    requires
        forall|x: T, y: Vec<O>| call_ensures(f, (x,), y) ==> y@ == fs(x),
        exists|rs: Seq<Vec<O>>|
            step_results(f, <Vec<T> as Monad<Vec<O>>>::values(&m), rs)
                && #[trigger] m.combines(rs, r),
    ensures
        r@ == list_bind(m@, fs),
{
    let rs = choose|rs: Seq<Vec<O>>|
        step_results(f, <Vec<T> as Monad<Vec<O>>>::values(&m), rs)
            && #[trigger] m.combines(rs, r);
    assert(rs.map_values(|v: Vec<O>| v@) =~= m@.map_values(fs)) by {
        assert forall|i: int| 0 <= i < rs.len() implies rs[i]@ == fs(m@[i]) by {
            assert(call_ensures(f, (m@[i],), rs[i]));
        }
    }
    assert(r@ == concat_all(rs));
}

/// What the executable `ret` on the optional family returns is the
/// model's `option_ret`: the hypothesis is exactly what `ret` ensures.
pub proof fn lemma_option_ret_models<T>(inner: T, r: Option<T>)
    requires
        <Option<T> as Monad<Option<T>>>::values(&r) == seq![inner],
    ensures
        r == option_ret(inner),
{
    match r {
        Option::Some(t) => {
            assert(seq![t][0] == seq![inner][0]);
        },
        Option::None => {
            assert(Seq::<T>::empty().len() == seq![inner].len());
        },
    }
}

/// What the executable `ret` on the fallible family returns is the
/// model's `result_ret`: a success, never an error.
pub proof fn lemma_result_ret_models<T, E>(inner: T, r: Result<T, E>)
    requires
        <Result<T, E> as Monad<Result<T, E>>>::values(&r) == seq![inner],
    ensures
        r == result_ret::<T, E>(inner),
{
    match r {
        Result::Ok(t) => {
            assert(seq![t][0] == seq![inner][0]);
        },
        Result::Err(_) => {
            assert(Seq::<T>::empty().len() == seq![inner].len());
        },
    }
}

/// What the executable `ret` on the list family returns holds the
/// model's `list_ret`: a single-element list.
pub proof fn lemma_list_ret_models<T>(inner: T, r: Vec<T>)
    requires
        <Vec<T> as Monad<Vec<T>>>::values(&r) == seq![inner],
    ensures
        r@ == list_ret(inner),
{
}

} // verus!
