use crate::error::NlpError;
use crate::language::LanguageCode;
use std::sync::Arc;
use vstd::prelude::*;

verus! {

/// Names one engine instance: a translation direction, or one of the
/// single-instance capabilities.
#[derive(Debug, Clone, Copy, PartialEq, Eq, Structural, Hash)]
pub enum ResourceKey {
    Translation(LanguageCode, LanguageCode),
    SentenceEmbeddings,
    Summarization,
    QuestionAnswering,
    ZeroShotClassification,
    EntityRecognition,
}

impl ResourceKey {
    /// The source and target languages of a translation key.
    pub fn direction(&self) -> (r: Option<(LanguageCode, LanguageCode)>)
        ensures
            r == match *self {
                ResourceKey::Translation(s, t) => Some((s, t)),
                _ => None::<(LanguageCode, LanguageCode)>,
            },
    {
        match *self {
            ResourceKey::Translation(s, t) => Some((s, t)),
            _ => None,
        }
    }
}

/// The state of a registered key.
pub enum Slot<T> {
    /// A builder is registered and nothing has been built yet, or the last
    /// build failed.
    Idle,
    /// One caller is building the engine now.
    Building,
    /// The engine, shared by everyone who asks for the key.
    Ready(Arc<T>),
}

/// What a caller that asks for a registered key has to do next.
pub enum Claim<T> {
    /// The caller builds the engine and reports back with `complete`.
    Build,
    /// Another caller is building the engine; ask again later.
    Wait,
    /// The engine is ready: a shared reference to it.
    Ready(Arc<T>),
}

/// The answer that a request for `k` gets from a registry in state `m`
/// (`None` where `k` is not registered), and the state that follows.
pub open spec fn acquire_step<T>(m: Map<ResourceKey, Slot<T>>, k: ResourceKey) -> (Map<
    ResourceKey,
    Slot<T>,
>, Option<Claim<T>>) {
    if !m.contains_key(k) {
        (m, None)
    } else {
        match m[k] {
            Slot::Idle => (m.insert(k, Slot::Building), Some(Claim::Build)),
            Slot::Building => (m, Some(Claim::Wait)),
            Slot::Ready(h) => (m, Some(Claim::Ready(h))),
        }
    }
}

/// The state after the builder of `k` reports: an engine, or a failure
/// (`None`). A report for a key that is not being built changes nothing.
pub open spec fn complete_step<T>(m: Map<ResourceKey, Slot<T>>, k: ResourceKey, built: Option<T>) -> Map<
    ResourceKey,
    Slot<T>,
> {
    if m.contains_key(k) && m[k] is Building {
        match built {
            Some(h) => m.insert(k, Slot::Ready(Arc::new(h))),
            None => m.insert(k, Slot::Idle),
        }
    } else {
        m
    }
}

/// Relies on `Arc::clone`: the new pointer refers to the same value.
#[verifier::external_body]
fn share<T>(a: &Arc<T>) -> (r: Arc<T>)
    ensures
        r == *a,
{
    Arc::clone(a)
}

struct Entry<T> {
    key: ResourceKey,
    slot: Slot<T>,
}

/// A cache from keys to shared engines that builds each engine at most once
/// at a time and keeps it once built. Keys must be registered before they
/// can be built.
///
/// The registry itself does no locking: callers that share it hold a lock
/// only around `acquire` and `complete`, and build outside the lock, so that
/// different keys build concurrently.
pub struct ResourceRegistry<T> {
    entries: Vec<Entry<T>>,
    slots: Ghost<Map<ResourceKey, Slot<T>>>,
}

impl<T> ResourceRegistry<T> {
    /// The state of every registered key.
    pub closed spec fn view(&self) -> Map<ResourceKey, Slot<T>> {
        self.slots@
    }

    pub closed spec fn wf(&self) -> bool {
        &&& forall|i: int|
            0 <= i < self.entries@.len() ==> self.slots@.contains_key(#[trigger] self.entries@[i].key)
                && self.slots@[self.entries@[i].key] == self.entries@[i].slot
        &&& forall|k: ResourceKey|
            #[trigger] self.slots@.contains_key(k) ==> exists|i: int|
                0 <= i < self.entries@.len() && self.entries@[i].key == k
        &&& forall|i: int, j: int|
            0 <= i < self.entries@.len() && 0 <= j < self.entries@.len() && i != j
                ==> #[trigger] self.entries@[i].key != #[trigger] self.entries@[j].key
    }

    /// An empty registry: no key registered.
    pub fn new() -> (r: Self)
        ensures
            r.wf(),
            r@ == Map::<ResourceKey, Slot<T>>::empty(),
    {
        ResourceRegistry { entries: Vec::new(), slots: Ghost(Map::empty()) }
    }

    /// The position of `k` in the entries, if it is registered.
    fn find(&self, k: ResourceKey) -> (r: Option<usize>)
        requires
            self.wf(),
        ensures
            match r {
                Some(i) => i < self.entries@.len() && self.entries@[i as int].key == k,
                None => !self@.contains_key(k),
            },
    {
        let mut i: usize = 0;
        while i < self.entries.len()
            invariant
                self.wf(),
                i <= self.entries@.len(),
                forall|j: int| 0 <= j < i ==> self.entries@[j].key != k,
            decreases self.entries@.len() - i,
        {
            if self.entries[i].key == k {
                return Some(i);
            }
            i = i + 1;
        }
        None
    }

    /// Registers a builder for `k`. A key that is registered already keeps
    /// its state.
    pub fn register(&mut self, k: ResourceKey)
        requires
            old(self).wf(),
        ensures
            final(self).wf(),
            final(self)@ == if old(self)@.contains_key(k) {
                old(self)@
            } else {
                old(self)@.insert(k, Slot::Idle)
            },
    {
        match self.find(k) {
            Some(_) => {},
            None => {
                self.entries.push(Entry { key: k, slot: Slot::Idle });
                self.slots = Ghost(self.slots@.insert(k, Slot::Idle));
                proof {
                    let n = self.entries@.len() - 1;
                    assert(self.entries@[n].key == k);
                    assert forall|q: ResourceKey| #[trigger] self.slots@.contains_key(q) implies exists|j: int|
                        0 <= j < self.entries@.len() && self.entries@[j].key == q by {
                        if q != k {
                            let j = choose|j: int|
                                0 <= j < old(self).entries@.len() && old(self).entries@[j].key == q;
                            assert(self.entries@[j] == old(self).entries@[j]);
                        }
                    }
                }
            },
        }
    }

    /// Asks for the engine of `k`. Exactly one caller of an idle key is told
    /// to build it; until that caller reports, everyone else is told to
    /// wait. A built engine is handed out without building anything. A key
    /// with no registered builder is `ResourceUnavailable`.
    pub fn acquire(&mut self, k: ResourceKey) -> (r: Result<Claim<T>, NlpError>)
        requires
            old(self).wf(),
        ensures
            final(self).wf(),
            final(self)@ == acquire_step(old(self)@, k).0,
            r == match acquire_step(old(self)@, k).1 {
                Some(c) => Ok::<Claim<T>, NlpError>(c),
                None => Err(NlpError::ResourceUnavailable),
            },
    {
        match self.find(k) {
            None => Err(NlpError::ResourceUnavailable),
            Some(i) => {
                match &self.entries[i].slot {
                    Slot::Idle => {},
                    Slot::Building => {
                        return Ok(Claim::Wait);
                    },
                    Slot::Ready(h) => {
                        return Ok(Claim::Ready(share(h)));
                    },
                }
                self.entries.set(i, Entry { key: k, slot: Slot::Building });
                self.slots = Ghost(self.slots@.insert(k, Slot::Building));
                proof {
                    assert forall|j: int| 0 <= j < self.entries@.len() implies self.slots@.contains_key(
                        #[trigger] self.entries@[j].key,
                    ) && self.slots@[self.entries@[j].key] == self.entries@[j].slot by {
                        if j != i {
                            assert(old(self).entries@[j] == self.entries@[j]);
                            assert(old(self).entries@[j].key != old(self).entries@[i as int].key);
                        }
                    }
                    assert forall|q: ResourceKey| #[trigger] self.slots@.contains_key(q) implies exists|j: int|
                        0 <= j < self.entries@.len() && self.entries@[j].key == q by {
                        let j = choose|j: int|
                            0 <= j < old(self).entries@.len() && old(self).entries@[j].key == q;
                        assert(self.entries@[j].key == old(self).entries@[j].key);
                    }
                }
                Ok(Claim::Build)
            },
        }
    }

    /// The builder of `k` reports what it built, or why it failed. On
    /// success the engine is kept and a shared reference to it returned; on
    /// failure nothing is kept and the key may be built again.
    pub fn complete(&mut self, k: ResourceKey, built: Result<T, String>) -> (r: Result<
        Arc<T>,
        NlpError,
    >)
        requires
            old(self).wf(),
            old(self)@.contains_key(k),
            old(self)@[k] is Building,
        ensures
            final(self).wf(),
            final(self)@ == complete_step(old(self)@, k, built.ok()),
            match built {
                Ok(h) => r == Ok::<Arc<T>, NlpError>(Arc::new(h)),
                Err(e) => r == Err::<Arc<T>, NlpError>(NlpError::BuildFailed(e)),
            },
    {
        let i = match self.find(k) {
            Some(i) => i,
            None => {
                return Err(NlpError::ResourceUnavailable);
            },
        };
        let ghost before = self.entries@;
        let r = match built {
            Ok(h) => {
                let h = Arc::new(h);
                let shared = share(&h);
                self.entries.set(i, Entry { key: k, slot: Slot::Ready(h) });
                self.slots = Ghost(self.slots@.insert(k, Slot::Ready(shared)));
                Ok(shared)
            },
            Err(e) => {
                self.entries.set(i, Entry { key: k, slot: Slot::Idle });
                self.slots = Ghost(self.slots@.insert(k, Slot::Idle));
                Err(NlpError::BuildFailed(e))
            },
        };
        proof {
            assert forall|j: int| 0 <= j < self.entries@.len() implies self.slots@.contains_key(
                #[trigger] self.entries@[j].key,
            ) && self.slots@[self.entries@[j].key] == self.entries@[j].slot by {
                if j != i {
                    assert(before[j] == self.entries@[j]);
                    assert(before[j].key != before[i as int].key);
                }
            }
            assert forall|q: ResourceKey| #[trigger] self.slots@.contains_key(q) implies exists|j: int|
                0 <= j < self.entries@.len() && self.entries@[j].key == q by {
                let j = choose|j: int| 0 <= j < before.len() && before[j].key == q;
                assert(self.entries@[j].key == before[j].key);
            }
        }
        r
    }
}

} // verus!
