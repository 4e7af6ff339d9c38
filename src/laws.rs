use crate::registry::{acquire_step, complete_step, Claim, ResourceKey, Slot};
use std::sync::Arc;
use vstd::prelude::*;

verus! {

/// One step of any interleaving of callers on a registry: a request for a
/// key, or a builder's report (`None` for a failed build).
pub enum Event<T> {
    Acquire(ResourceKey),
    Complete(ResourceKey, Option<T>),
}

/// The state after one event.
pub open spec fn apply<T>(m: Map<ResourceKey, Slot<T>>, e: Event<T>) -> Map<ResourceKey, Slot<T>> {
    match e {
        Event::Acquire(k) => acquire_step(m, k).0,
        Event::Complete(k, built) => complete_step(m, k, built),
    }
}

/// The state after a sequence of events.
pub open spec fn run<T>(m: Map<ResourceKey, Slot<T>>, es: Seq<Event<T>>) -> Map<
    ResourceKey,
    Slot<T>,
>
    decreases es.len(),
{
    if es.len() == 0 {
        m
    } else {
        apply(run(m, es.drop_last()), es.last())
    }
}

/// How many requests for `k` in `es` were told to build.
pub open spec fn builds<T>(m: Map<ResourceKey, Slot<T>>, es: Seq<Event<T>>, k: ResourceKey) -> nat
    decreases es.len(),
{
    if es.len() == 0 {
        0
    } else {
        builds(m, es.drop_last(), k) + if es.last() == Event::<T>::Acquire(k) && acquire_step(
            run(m, es.drop_last()),
            k,
        ).1 == Some(Claim::<T>::Build) {
            1nat
        } else {
            0nat
        }
    }
}

/// Whether `es` holds a builder's report for `k`.
pub open spec fn reports<T>(es: Seq<Event<T>>, k: ResourceKey) -> bool {
    exists|i: int| 0 <= i < es.len() && #[trigger] es[i] is Complete && es[i]->Complete_0 == k
}

/// Whether `es` holds a request for `k`.
pub open spec fn requests<T>(es: Seq<Event<T>>, k: ResourceKey) -> bool {
    exists|i: int| 0 <= i < es.len() && #[trigger] es[i] == Event::<T>::Acquire(k)
}

/// Under any interleaving of requests, for this key and others, and of
/// reports for other keys, a key that is idle is built by exactly one
/// caller, if anyone asks for it at all: every other request for it is told
/// to wait until that builder reports.
pub proof fn lemma_one_builder_per_key<T>(
    m: Map<ResourceKey, Slot<T>>,
    es: Seq<Event<T>>,
    k: ResourceKey,
)
    requires
        m.contains_key(k),
        m[k] is Idle,
        !reports(es, k),
    ensures
        builds(m, es, k) == if requests(es, k) {
            1nat
        } else {
            0nat
        },
        run(m, es).contains_key(k),
        run(m, es)[k] is Building <==> requests(es, k),
        run(m, es)[k] is Idle <==> !requests(es, k),
    decreases es.len(),
{
    if es.len() > 0 {
        let init = es.drop_last();
        assert(!reports(init, k)) by {
            if reports(init, k) {
                let i = choose|i: int|
                    0 <= i < init.len() && #[trigger] init[i] is Complete && init[i]->Complete_0 == k;
                assert(es[i] == init[i]);
            }
        }
        lemma_one_builder_per_key(m, init, k);
        let last = es.last();
        assert(requests(es, k) <==> requests(init, k) || last == Event::<T>::Acquire(k)) by {
            if requests(es, k) {
                let i = choose|i: int| 0 <= i < es.len() && #[trigger] es[i] == Event::<T>::Acquire(k);
                if i < es.len() - 1 {
                    assert(init[i] == es[i]);
                }
            }
            if requests(init, k) {
                let i = choose|i: int|
                    0 <= i < init.len() && #[trigger] init[i] == Event::<T>::Acquire(k);
                assert(es[i] == init[i]);
            }
            if last == Event::<T>::Acquire(k) {
                assert(es[es.len() - 1] == Event::<T>::Acquire(k));
            }
        }
        if let Event::Complete(a, built) = last {
            assert(es[es.len() - 1] is Complete);
            assert(a != k);
        }
    }
}

/// A built engine stays in place whatever happens afterwards, and every
/// later request for its key is handed that same engine.
pub proof fn lemma_ready_is_kept<T>(m: Map<ResourceKey, Slot<T>>, es: Seq<Event<T>>, k: ResourceKey)
    requires
        m.contains_key(k),
        m[k] is Ready,
    ensures
        run(m, es).contains_key(k),
        run(m, es)[k] == m[k],
        forall|i: int|
            0 <= i < es.len() && #[trigger] es[i] == Event::<T>::Acquire(k) ==> acquire_step(
                run(m, es.take(i)),
                k,
            ).1 == Some(Claim::Ready(m[k]->Ready_0)),
    decreases es.len(),
{
    if es.len() > 0 {
        lemma_ready_is_kept(m, es.drop_last(), k);
    }
    assert forall|i: int|
        0 <= i < es.len() && #[trigger] es[i] == Event::<T>::Acquire(k) implies acquire_step(
        run(m, es.take(i)),
        k,
    ).1 == Some(Claim::Ready(m[k]->Ready_0)) by {
        lemma_ready_is_kept(m, es.take(i), k);
    }
}

/// A failed build leaves the key buildable: the next request for it is told
/// to build, and a successful report then makes the engine ready.
pub proof fn lemma_retry_after_failure<T>(m: Map<ResourceKey, Slot<T>>, k: ResourceKey, h: T)
    requires
        m.contains_key(k),
        m[k] is Building,
    ensures
        complete_step(m, k, None)[k] is Idle,
        acquire_step(complete_step(m, k, None), k).1 == Some(Claim::<T>::Build),
        complete_step(acquire_step(complete_step(m, k, None), k).0, k, Some(h))[k] == Slot::Ready(
            Arc::new(h),
        ),
{
}

/// Keys do not affect one another: whatever state key `a` is in, a request
/// for another key `b` gets the same answer, and requests and reports for
/// `a` change nothing outside `a`.
pub proof fn lemma_keys_independent<T>(
    m: Map<ResourceKey, Slot<T>>,
    a: ResourceKey,
    b: ResourceKey,
    s: Slot<T>,
    built: Option<T>,
)
    requires
        a != b,
    ensures
        acquire_step(m.insert(a, s), b).1 == acquire_step(m, b).1,
        acquire_step(m, a).0.remove(a) == m.remove(a),
        complete_step(m, a, built).remove(a) == m.remove(a),
{
    assert(acquire_step(m, a).0.remove(a) =~= m.remove(a));
    assert(complete_step(m, a, built).remove(a) =~= m.remove(a));
}

} // verus!
