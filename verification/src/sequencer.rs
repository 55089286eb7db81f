//! The desugaring engine: a pattern-driven rewrite that consumes a linear
//! sequence of binding steps and produces the single nested expression it
//! stands for — one `bind` call per binding step, a block per ordinary
//! statement, and the terminal as the innermost expression.
//!
//! The engine is purely syntactic: it never looks inside a host
//! expression, so the expression type `E` is a type parameter carried
//! through untouched, and it never knows which concrete effect family is
//! in use — the emitted calls dispatch on the value types flowing through
//! them. Which family consistency would require of the expressions is the
//! host type system's burden, not the engine's. A sequence with no
//! binding steps at all is a degenerate but valid input: it rewrites
//! directly to its terminal. Shapes with no terminal, two terminals, or a
//! terminal before the end are unrepresentable here, so the engine never
//! sees them.

use vstd::prelude::*;

verus! {

/// A concrete effect family, named by an explicit annotation on a
/// terminal lift where the family cannot be inferred from context
/// (notably: lifting a scalar into the list family).
#[derive(Clone, Copy, Debug, PartialEq, Eq, Structural)]
pub enum Family {
    Optional,
    Fallible,
    List,
}

/// One binding step of a sequence, every one before the terminal.
#[derive(Debug, PartialEq, Eq)]
pub enum Step<E> {
    /// `name <- expr`: bind the unwrapped value to `name` for the rest.
    Bind { name: String, expr: E },
    /// `mut name <- expr`: the same, but `name` is reassignable in the
    /// rest; mutability of the name is the only difference.
    BindMut { name: String, expr: E },
    /// `ignore <- expr`: the unwrapped value is discarded, but the rest
    /// still runs only if this step succeeds in the family's sense.
    BindIgnore { expr: E },
    /// An ordinary statement, executed for its side effect strictly
    /// before the rest; it introduces no effect-level binding.
    Stmt { stmt: E },
}

/// The terminal of a sequence: always present, always last.
#[derive(Debug, PartialEq, Eq)]
pub enum Terminal<E> {
    /// `ret(value) : family` — an explicit lift with the family named.
    RetAnnotated { family: Family, value: E },
    /// `ret(value)` — an explicit lift, the family left to inference.
    Ret { value: E },
    /// A bare effect-producing expression.
    Bare { expr: E },
}

/// A well-formed sequence: zero or more binding steps and exactly one
/// terminal.
#[derive(Debug, PartialEq, Eq)]
pub struct Sequence<E> {
    pub steps: Vec<Step<E>>,
    pub terminal: Terminal<E>,
}

/// The binder the engine writes on a step function it emits.
#[derive(Debug, PartialEq, Eq)]
pub enum Binder {
    /// `|name| ...`
    Named { name: String },
    /// `|mut name| ...`
    NamedMut { name: String },
    /// `|_| ...` — the value is bound to an unused name.
    Ignored,
}

/// The emitted expression: a nest of interface calls around a single
/// innermost lift or bare expression.
#[derive(Debug, PartialEq, Eq)]
pub enum Emitted<E> {
    /// `ret(value)` with the family fixed by the annotation.
    LiftAnnotated { family: Family, value: E },
    /// `ret(value)`, the family resolved by inference at the call site.
    Lift { value: E },
    /// The bare tail expression, emitted unchanged: the base case.
    Tail { expr: E },
    /// `bind(expr, |binder| body)`.
    BindCall { expr: E, binder: Binder, body: Box<Emitted<E>> },
    /// `{ stmt; body }` — `stmt` runs strictly before `body`.
    Block { stmt: E, body: Box<Emitted<E>> },
}

/// What a terminal alone rewrites to: an annotated lift keeps its
/// annotation, a plain lift keeps none, and a bare expression is emitted
/// unchanged.
pub open spec fn emits_terminal<E>(t: Terminal<E>, out: Emitted<E>) -> bool {
    match t {
        Terminal::RetAnnotated { family, value } => out == (Emitted::LiftAnnotated {
            family,
            value,
        }),
        Terminal::Ret { value } => out == (Emitted::Lift { value }),
        Terminal::Bare { expr } => out == (Emitted::Tail { expr }),
    }
}

/// What one leading step wraps around the rewritten rest: each of the
/// three bind forms becomes one `bind` call whose step function carries
/// the step's binder, and an ordinary statement becomes a block that runs
/// it strictly before the rest.
pub open spec fn wraps<E>(s: Step<E>, rest: Emitted<E>, out: Emitted<E>) -> bool {
    match s {
        Step::Bind { name, expr } => out matches Emitted::BindCall { expr: e, binder, body }
            && e == expr && binder == (Binder::Named { name }) && *body == rest,
        Step::BindMut { name, expr } => out matches Emitted::BindCall { expr: e, binder, body }
            && e == expr && binder == (Binder::NamedMut { name }) && *body == rest,
        Step::BindIgnore { expr } => out matches Emitted::BindCall { expr: e, binder, body }
            && e == expr && binder == Binder::Ignored && *body == rest,
        Step::Stmt { stmt } => out matches Emitted::Block { stmt: s2, body } && s2 == stmt && *body
            == rest,
    }
}

/// The rewrite relation: `out` is the one expression that the sequence of
/// `steps` followed by the terminal `t` rewrites to. The first step is
/// matched, it wraps the (recursively rewritten) remainder, and the
/// recursion terminates on the terminal.
pub open spec fn emits<E>(steps: Seq<Step<E>>, t: Terminal<E>, out: Emitted<E>) -> bool
    decreases steps.len(),
{
    if steps.len() == 0 {
        emits_terminal(t, out)
    } else {
        match out {
            Emitted::BindCall { body, .. } => wraps(steps.first(), *body, out) && emits(
                steps.drop_first(),
                t,
                *body,
            ),
            Emitted::Block { body, .. } => wraps(steps.first(), *body, out) && emits(
                steps.drop_first(),
                t,
                *body,
            ),
            _ => false,
        }
    }
}

/// Desugar a sequence into the nested calls it stands for. Each step's
/// expression appears exactly once in the output, in source order, each
/// bind step's name becomes the binder of the step function wrapped
/// around the rest, and the terminal stands innermost.
pub fn desugar<E>(s: Sequence<E>) -> (out: Emitted<E>)
    ensures
        emits(s.steps@, s.terminal, out),
{
    let Sequence { steps, terminal } = s;
    let mut steps = steps;
    let ghost all = steps@;
    let mut out = match terminal {
        Terminal::RetAnnotated { family, value } => Emitted::LiftAnnotated { family, value },
        Terminal::Ret { value } => Emitted::Lift { value },
        Terminal::Bare { expr } => Emitted::Tail { expr },
    };
    proof {
        assert(all.skip(all.len() as int) =~= Seq::<Step<E>>::empty());
    }
    while steps.len() > 0
        invariant
            steps@.len() <= all.len(),
            steps@ == all.take(steps@.len() as int),
            emits(all.skip(steps@.len() as int), s.terminal, out),
        decreases steps.len(),
    {
        let ghost pre = steps@;
        let step = steps.pop().unwrap();
        let ghost n = steps@.len() as int;
        let ghost gstep = step;
        let ghost prev = out;
        out = match step {
            Step::Bind { name, expr } => Emitted::BindCall {
                expr,
                binder: Binder::Named { name },
                body: Box::new(out),
            },
            Step::BindMut { name, expr } => Emitted::BindCall {
                expr,
                binder: Binder::NamedMut { name },
                body: Box::new(out),
            },
            Step::BindIgnore { expr } => Emitted::BindCall {
                expr,
                binder: Binder::Ignored,
                body: Box::new(out),
            },
            Step::Stmt { stmt } => Emitted::Block { stmt, body: Box::new(out) },
        };
        proof {
            assert(pre.last() == all[n]);
            assert(steps@ =~= all.take(n));
            assert(wraps(gstep, prev, out));
            assert(all.skip(n).first() == all[n]);
            assert(all.skip(n).drop_first() =~= all.skip(n + 1));
            assert(emits(all.skip(n), s.terminal, out));
        }
    }
    proof {
        assert(all.skip(0) =~= all);
    }
    out
}

/// Discarding the bound name changes no observable behaviour besides the
/// name's absence from scope: a sequence beginning with an ignored bind
/// rewrites to exactly a `bind` of that step's expression, with the
/// value bound to an unused name, around the rewritten rest.
pub proof fn lemma_ignored_bind_equivalence<E>(
    expr: E,
    rest: Seq<Step<E>>,
    t: Terminal<E>,
    out: Emitted<E>,
)
    requires
        emits(seq![Step::BindIgnore { expr }] + rest, t, out),
    ensures
        out matches Emitted::BindCall { expr: e, binder, body } && e == expr && binder
            == Binder::Ignored && emits(rest, t, *body),
{
    let steps = seq![Step::BindIgnore { expr }] + rest;
    assert(steps.first() == (Step::BindIgnore { expr }));
    assert(steps.drop_first() =~= rest);
}

/// The rewrite is a function: a sequence rewrites to exactly one
/// expression.
pub proof fn lemma_emits_unique<E>(
    steps: Seq<Step<E>>,
    t: Terminal<E>,
    o1: Emitted<E>,
    o2: Emitted<E>,
)
    requires
        emits(steps, t, o1),
        emits(steps, t, o2),
    ensures
        o1 == o2,
    decreases steps.len(),
{
    if steps.len() > 0 {
        match (o1, o2) {
            (Emitted::BindCall { body: b1, .. }, Emitted::BindCall { body: b2, .. }) => {
                lemma_emits_unique(steps.drop_first(), t, *b1, *b2);
            },
            (Emitted::Block { body: b1, .. }, Emitted::Block { body: b2, .. }) => {
                lemma_emits_unique(steps.drop_first(), t, *b1, *b2);
            },
            _ => {},
        }
    }
}

} // verus!
