//! The memoizing owner-reference ancestry resolver.
//!
//! The cache maps an object's name to the already-resolved chain suffix that
//! starts at that object.  A resolution is driven as a step machine: the
//! caller repeatedly asks for the next step; on a cache miss the machine
//! requests one external fetch and the caller hands the fetched object's own
//! owner references back in.  The caller is expected to serialize whole
//! resolutions behind one exclusive lock, so the cache is never observed in
//! a partially-updated state.
//!
//! A name is never fetched while it is cached, and never fetched twice
//! within one resolution: a repeated name means the ownership graph has a
//! cycle and the resolution fails fast instead of looping.

use vstd::prelude::*;
use crate::pod::OwnerReference;

verus! {

/// The names of a chain, nearest owner first.
pub open spec fn names_of(refs: Seq<OwnerReference>) -> Seq<Seq<char>> {
    refs.map_values(|o: OwnerReference| o.name@)
}

/// The map an entry list denotes; later entries would win, but entries are
/// kept unique-keyed.
pub open spec fn entries_map(es: Seq<(String, Vec<OwnerReference>)>) -> Map<
    Seq<char>,
    Seq<Seq<char>>,
>
    decreases es.len(),
{
    if es.len() == 0 {
        Map::empty()
    } else {
        entries_map(es.drop_last()).insert(es.last().0@, names_of(es.last().1@))
    }
}

/// Whether a name occurs in a list of names.
pub open spec fn name_in(names: Seq<String>, n: Seq<char>) -> bool {
    exists|i: int| 0 <= i < names.len() && names[i]@ == n
}

/// The memoizing resolver cache, keyed by object name.
pub struct OwnershipChainCache {
    entries: Vec<(String, Vec<OwnerReference>)>,
}

/// One level of the resolution: the owner references still to be spliced at
/// this level, the chain accumulated so far, and the name under which the
/// completed chain is memoized (`None` only for the root level).
pub struct ResolveFrame {
    pub pending: Vec<OwnerReference>,
    pub acc: Vec<OwnerReference>,
    pub memo_key: Option<String>,
}

/// One in-flight resolution.
pub struct Resolution {
    pub frames: Vec<ResolveFrame>,
    pub current: Option<OwnerReference>,
    pub visited: Vec<String>,
}

/// What the machine asks of its driver next.
pub enum ResolveStep {
    /// Fetch the named object's owner references and hand them back.
    Fetch(String),
    /// The chain is complete.
    Done(Vec<OwnerReference>),
    /// A name repeated within one resolution: the graph has a cycle.
    CycleDetected(String),
}

/// Termination measure of a resolution's frames.
pub open spec fn frames_measure(fs: Seq<ResolveFrame>) -> nat
    decreases fs.len(),
{
    if fs.len() == 0 {
        0
    } else {
        frames_measure(fs.drop_last()) + fs.last().pending@.len() + 1
    }
}

/// Whether some live frame will memoize the name when it completes.
pub open spec fn name_memoized(fs: Seq<ResolveFrame>, n: Seq<char>) -> bool {
    exists|j: int|
        0 <= j < fs.len() && (#[trigger] fs[j].memo_key) is Some && fs[j].memo_key->0@ == n
}

/// A visited name is never lost: it is cached, or a live frame will memoize
/// it, or it is the name whose fetch is in flight.
pub open spec fn accounted(
    m: Map<Seq<char>, Seq<Seq<char>>>,
    r: Resolution,
    n: Seq<char>,
) -> bool {
    m.contains_key(n) || name_memoized(r.frames@, n) || (r.current is Some && r.current->0.name@
        == n)
}

/// The session invariant: every name fetched in this resolution is
/// accounted for — already cached, or to be memoized by a live frame, or the
/// one whose fetch is in flight.
pub open spec fn session_accounted(m: Map<Seq<char>, Seq<Seq<char>>>, r: Resolution) -> bool {
    forall|i: int| 0 <= i < r.visited@.len() ==> accounted(m, r, #[trigger] r.visited@[i]@)
}

/// Every immediate owner's name is already cached.
pub open spec fn all_cached(m: Map<Seq<char>, Seq<Seq<char>>>, refs: Seq<OwnerReference>) -> bool {
    forall|i: int| 0 <= i < refs.len() ==> m.contains_key(#[trigger] refs[i].name@)
}

/// The chain spliced purely from cached suffixes, in owner order.
pub open spec fn spliced(m: Map<Seq<char>, Seq<Seq<char>>>, refs: Seq<OwnerReference>) -> Seq<
    Seq<char>,
>
    decreases refs.len(),
{
    if refs.len() == 0 {
        Seq::empty()
    } else {
        m[refs[0].name@] + spliced(m, refs.drop_first())
    }
}

/// Tests whether a name was already fetched in this resolution.
fn contains_name(v: &Vec<String>, n: &String) -> (r: bool)
    ensures
        r == name_in(v@, n@),
{
    let mut i: usize = 0;
    while i < v.len()
        invariant
            i <= v.len(),
            forall|j: int| 0 <= j < i ==> v@[j]@ != n@,
        decreases v.len() - i,
    {
        if v[i].eq(n) {
            proof {
                assert(name_in(v@, n@));
            }
            return true;
        }
        i = i + 1;
    }
    false
}

/// Copies a chain.
fn clone_chain(v: &Vec<OwnerReference>) -> (r: Vec<OwnerReference>)
    ensures
        names_of(r@) == names_of(v@),
{
    let mut out: Vec<OwnerReference> = Vec::new();
    let mut i: usize = 0;
    while i < v.len()
        invariant
            i <= v.len(),
            out@.len() == i,
            forall|j: int| 0 <= j < i ==> out@[j].name@ == v@[j].name@,
        decreases v.len() - i,
    {
        out.push(OwnerReference { name: v[i].name.clone() });
        i = i + 1;
    }
    proof {
        assert(names_of(out@) =~= names_of(v@));
    }
    out
}

/// Begins resolving the ancestry of an object with the given owner
/// references.
pub fn resolve_start(owner_refs: Vec<OwnerReference>) -> (r: Resolution)
    ensures
        r.frames@.len() == 1,
        r.frames@[0].pending == owner_refs,
        r.frames@[0].acc@.len() == 0,
        r.frames@[0].memo_key is None,
        r.current is None,
        r.visited@.len() == 0,
{
    Resolution {
        frames: vec![ResolveFrame { pending: owner_refs, acc: Vec::new(), memo_key: None }],
        current: None,
        visited: Vec::new(),
    }
}

impl OwnershipChainCache {
    /// The cached suffixes, keyed by object name.
    pub closed spec fn view(self) -> Map<Seq<char>, Seq<Seq<char>>> {
        entries_map(self.entries@)
    }

    /// Entry keys are unique.
    pub closed spec fn wf(self) -> bool {
        forall|i: int, j: int|
            0 <= i < j < self.entries@.len() ==> self.entries@[i].0@ != self.entries@[j].0@
    }

    /// An empty cache.
    pub fn new() -> (c: OwnershipChainCache)
        ensures
            c.wf(),
            c@ == Map::<Seq<char>, Seq<Seq<char>>>::empty(),
    {
        let c = OwnershipChainCache { entries: Vec::new() };
        proof {
            assert(c@ =~= Map::<Seq<char>, Seq<Seq<char>>>::empty());
        }
        c
    }

    /// Looks a name up.
    pub fn get_chain(&self, name: &String) -> (r: Option<&Vec<OwnerReference>>)
        requires
            self.wf(),
        ensures
            match r {
                Some(c) => self@.contains_key(name@) && self@[name@] == names_of(c@),
                None => !self@.contains_key(name@),
            },
    {
        let mut i: usize = 0;
        while i < self.entries.len()
            invariant
                self.wf(),
                i <= self.entries@.len(),
                forall|j: int| 0 <= j < i ==> self.entries@[j].0@ != name@,
            decreases self.entries@.len() - i,
        {
            if self.entries[i].0.eq(name) {
                proof {
                    lemma_entries_map_index(self.entries@, i as int);
                }
                return Some(&self.entries[i].1);
            }
            i = i + 1;
        }
        proof {
            lemma_entries_map_absent(self.entries@, name@);
        }
        None
    }

    /// Memoizes a resolved suffix; an already-cached suffix is left as it
    /// is, so a cached entry never changes.
    pub fn insert_chain(&mut self, name: String, chain: Vec<OwnerReference>)
        requires
            old(self).wf(),
        ensures
            final(self).wf(),
            final(self)@ == if old(self)@.contains_key(name@) {
                old(self)@
            } else {
                old(self)@.insert(name@, names_of(chain@))
            },
            final(self)@.contains_key(name@),
    {
        let present = self.get_chain(&name).is_some();
        if !present {
            proof {
                lemma_absent_entries_map(self.entries@, name@);
            }
            self.entries.push((name, chain));
            proof {
                assert(self.entries@.drop_last() =~= old(self).entries@);
                assert(final(self)@ =~= old(self)@.insert(name@, names_of(chain@)));
            }
        }
    }
}

impl OwnershipChainCache {
    /// Advances a resolution until it completes, detects a cycle, or needs
    /// one external fetch.  A fetch is only ever requested for a name that
    /// is not cached and was not fetched before in this resolution; the
    /// cache only grows, and a cached suffix never changes.  When the start
    /// state's owners are all cached already, the resolution completes at
    /// once, purely by splicing cached suffixes, with no fetch at all.
    pub fn resolve_step(&mut self, r: &mut Resolution) -> (s: ResolveStep)
        requires
            old(self).wf(),
            old(r).current is None,
            old(r).frames@.len() > 0,
            session_accounted(old(self)@, *old(r)),
        ensures
            final(self).wf(),
            forall|k: Seq<char>|
                #[trigger] old(self)@.contains_key(k) ==> final(self)@.contains_key(k)
                    && final(self)@[k] == old(self)@[k],
            s matches ResolveStep::Fetch(n) ==> !old(self)@.contains_key(n@) && !name_in(
                old(r).visited@,
                n@,
            ) && final(r).current is Some && final(r).current->0.name@ == n@
                && final(r).frames@.len() > 0 && session_accounted(final(self)@, *final(r)),
            s is Done ==> final(r).frames@.len() == 0 && final(r).current is None && (forall|
                i: int,
            |
                0 <= i < final(r).visited@.len() ==> final(self)@.contains_key(
                    #[trigger] final(r).visited@[i]@,
                )),
            (old(r).frames@.len() == 1 && old(r).frames@[0].memo_key is None && s is Done)
                ==> final(self)@ == old(self)@ && names_of(s->Done_0@) == names_of(
                old(r).frames@[0].acc@,
            ) + spliced(old(self)@, old(r).frames@[0].pending@),
            (old(r).frames@.len() == 1 && old(r).frames@[0].memo_key is None
                && old(r).frames@[0].acc@.len() == 0 && old(r).visited@.len() == 0 && all_cached(
                old(self)@,
                old(r).frames@[0].pending@,
            )) ==> s is Done && final(self)@ == old(self)@ && names_of(s->Done_0@) == spliced(
                old(self)@,
                old(r).frames@[0].pending@,
            ),
    {
        let ghost m0 = old(self)@;
        let ghost fast0 = old(r).frames@.len() == 1 && old(r).frames@[0].memo_key is None
            && old(r).frames@[0].acc@.len() == 0 && old(r).visited@.len() == 0 && all_cached(
            m0,
            old(r).frames@[0].pending@,
        );
        let ghost single0 = old(r).frames@.len() == 1 && old(r).frames@[0].memo_key is None;
        let ghost target = if old(r).frames@.len() == 1 {
            spliced(m0, old(r).frames@[0].pending@)
        } else {
            Seq::empty()
        };
        let ghost target2 = if old(r).frames@.len() == 1 {
            names_of(old(r).frames@[0].acc@) + spliced(m0, old(r).frames@[0].pending@)
        } else {
            Seq::empty()
        };
        loop
            invariant
                m0 == old(self)@,
                fast0 == (old(r).frames@.len() == 1 && old(r).frames@[0].memo_key is None
                    && old(r).frames@[0].acc@.len() == 0 && old(r).visited@.len() == 0
                    && all_cached(m0, old(r).frames@[0].pending@)),
                fast0 ==> target == spliced(m0, old(r).frames@[0].pending@),
                self.wf(),
                r.current is None,
                r.frames@.len() > 0,
                session_accounted(self@, *r),
                r.visited == old(r).visited,
                forall|k: Seq<char>|
                    #[trigger] m0.contains_key(k) ==> self@.contains_key(k) && self@[k] == m0[k],
                single0 == (old(r).frames@.len() == 1 && old(r).frames@[0].memo_key is None),
                single0 ==> target2 == names_of(old(r).frames@[0].acc@) + spliced(
                    m0,
                    old(r).frames@[0].pending@,
                ),
                single0 ==> self@ == m0 && r.frames@.len() == 1 && r.frames@[0].memo_key is None
                    && names_of(r.frames@[0].acc@) + spliced(m0, r.frames@[0].pending@)
                    == target2,
                fast0 ==> all_cached(m0, r.frames@[0].pending@) && names_of(r.frames@[0].acc@)
                    + spliced(m0, r.frames@[0].pending@) == target,
            decreases frames_measure(r.frames@),
        {
            let ghost frames0 = r.frames@;
            let ghost vis0 = r.visited@;
            let mut frame = r.frames.pop().unwrap();
            proof {
                assert(frames0.drop_last() =~= r.frames@);
            }
            if frame.pending.len() > 0 {
                let ghost pending0 = frame.pending@;
                let first = frame.pending.remove(0);
                proof {
                    assert(frame.pending@ =~= pending0.drop_first());
                }
                let cached = self.get_chain(&first.name);
                match cached {
                    Some(c) => {
                        let mut add = clone_chain(c);
                        let ghost addnames = names_of(add@);
                        let ghost acc0 = frame.acc@;
                        frame.acc.append(&mut add);
                        proof {
                            assert(names_of(frame.acc@) =~= names_of(acc0) + addnames);
                        }
                        r.frames.push(frame);
                        proof {
                            assert(r.frames@.drop_last() =~= frames0.drop_last());
                            assert(frames_measure(r.frames@) < frames_measure(frames0));
                            assert(forall|j: int|
                                0 <= j < r.frames@.len() ==> (#[trigger] r.frames@[j].memo_key)
                                    == frames0[j].memo_key);
                            lemma_accounted_frames(self@, *r, frames0, vis0);
                            if single0 {
                                assert(spliced(m0, pending0) == m0[pending0[0].name@] + spliced(
                                    m0,
                                    pending0.drop_first(),
                                ));
                                assert(names_of(r.frames@[0].acc@) + spliced(
                                    m0,
                                    r.frames@[0].pending@,
                                ) =~= target2);
                            }
                            if fast0 {
                                assert(names_of(r.frames@[0].acc@) + spliced(
                                    m0,
                                    r.frames@[0].pending@,
                                ) =~= target);
                            }
                        }
                    },
                    None => {
                        if contains_name(&r.visited, &first.name) {
                            let name = first.name;
                            r.frames.push(frame);
                            return ResolveStep::CycleDetected(name);
                        }
                        let ghost fname = first.name@;
                        let n = first.name.clone();
                        r.visited.push(first.name.clone());
                        r.current = Some(first);
                        r.frames.push(frame);
                        proof {
                            assert(r.frames@.drop_last() =~= frames0.drop_last());
                            assert(forall|j: int|
                                0 <= j < r.frames@.len() ==> (#[trigger] r.frames@[j].memo_key)
                                    == frames0[j].memo_key);
                            assert(r.current is Some && r.current->0.name@ == fname);
                            assert forall|i: int|
                                0 <= i < r.visited@.len() implies accounted(
                                self@,
                                *r,
                                #[trigger] r.visited@[i]@,
                            ) by {
                                if i < vis0.len() {
                                    assert(r.visited@[i] == vis0[i]);
                                    assert(accounted(self@, *r, vis0[i]@)) by {
                                        if !self@.contains_key(vis0[i]@) {
                                            assert(name_memoized(frames0, vis0[i]@));
                                            let j = choose|j: int|
                                                0 <= j < frames0.len() && (
                                                #[trigger] frames0[j].memo_key) is Some
                                                    && frames0[j].memo_key->0@ == vis0[i]@;
                                            assert(r.frames@[j].memo_key == frames0[j].memo_key);
                                            assert(name_memoized(r.frames@, vis0[i]@));
                                        }
                                    }
                                } else {
                                    assert(r.visited@[i]@ == fname);
                                }
                            }
                        }
                        return ResolveStep::Fetch(n);
                    },
                }
            } else {
                let chain = frame.acc;
                let ghost m_pre = self@;
                let ghost kview = match &frame.memo_key {
                    Some(k) => Some(k@),
                    None => None,
                };
                match frame.memo_key {
                    Some(k) => {
                        let copy = clone_chain(&chain);
                        self.insert_chain(k, copy);
                    },
                    None => {},
                }
                proof {
                    assert(kview is Some ==> self@.contains_key(kview->0));
                    assert(forall|k: Seq<char>|
                        #[trigger] m_pre.contains_key(k) ==> self@.contains_key(k) && self@[k]
                            == m_pre[k]);
                    assert(forall|k: Seq<char>|
                        #[trigger] m0.contains_key(k) ==> self@.contains_key(k) && self@[k]
                            == m0[k]);
                    assert(frames0.last().memo_key is Some ==> frames0.last().memo_key->0@
                        == kview->0);
                    assert forall|i: int|
                        0 <= i < vis0.len() implies self@.contains_key(#[trigger] vis0[i]@)
                        || name_memoized(frames0, vis0[i]@) by {
                        assert(accounted(m_pre, *r, vis0[i]@) || name_memoized(
                            frames0,
                            vis0[i]@,
                        ) || m_pre.contains_key(vis0[i]@));
                    }
                }
                if r.frames.len() == 0 {
                    proof {
                        lemma_accounted_pop(self@, *r, frames0, vis0);
                        assert forall|i: int|
                            0 <= i < r.visited@.len() implies self@.contains_key(
                            #[trigger] r.visited@[i]@,
                        ) by {
                            assert(accounted(self@, *r, r.visited@[i]@));
                        }
                        if single0 {
                            assert(frames0[0].memo_key is None);
                            assert(self@ == m0);
                            assert(spliced(m0, frame.pending@) == Seq::<Seq<char>>::empty());
                            assert(names_of(chain@) =~= target2);
                        }
                        if fast0 {
                            assert(names_of(chain@) =~= target);
                        }
                    }
                    return ResolveStep::Done(chain);
                }
                let ghost frames1 = r.frames@;
                let mut parent = r.frames.pop().unwrap();
                proof {
                    assert(frames1.drop_last() =~= r.frames@);
                }
                let mut c2 = chain;
                parent.acc.append(&mut c2);
                r.frames.push(parent);
                proof {
                    assert(r.frames@.drop_last() =~= frames1.drop_last());
                    assert(frames0.last().pending@.len() == 0);
                    assert(frames_measure(frames0) == frames_measure(frames1) + 1);
                    assert(r.frames@.last().pending@ == frames1.last().pending@);
                    assert(frames_measure(r.frames@) == frames_measure(r.frames@.drop_last())
                        + r.frames@.last().pending@.len() + 1);
                    assert(frames_measure(frames1) == frames_measure(frames1.drop_last())
                        + frames1.last().pending@.len() + 1);
                    assert(frames_measure(r.frames@) < frames_measure(frames0));
                    assert(forall|j: int|
                        0 <= j < r.frames@.len() ==> (#[trigger] r.frames@[j].memo_key)
                            == frames0[j].memo_key);
                    lemma_accounted_pop(self@, *r, frames0, vis0);
                }
            }
        }
    }

    /// Hands the fetched object's own owner references back to the machine:
    /// a new level is opened that starts with the fetched owner itself and
    /// will be memoized under its name.
    pub fn resolve_deliver(&self, r: &mut Resolution, fetched: Vec<OwnerReference>)
        requires
            old(r).current is Some,
            old(r).frames@.len() > 0,
            session_accounted(self@, *old(r)),
        ensures
            final(r).current is None,
            final(r).frames@.len() == old(r).frames@.len() + 1,
            forall|j: int| 0 <= j < old(r).frames@.len() ==> final(r).frames@[j] == old(
                r,
            ).frames@[j],
            final(r).frames@.last().pending == fetched,
            names_of(final(r).frames@.last().acc@) == seq![old(r).current->0.name@],
            final(r).frames@.last().memo_key is Some,
            final(r).frames@.last().memo_key->0@ == old(r).current->0.name@,
            final(r).visited == old(r).visited,
            session_accounted(self@, *final(r)),
    {
        let cur = r.current.take();
        let owner = cur.unwrap();
        let ghost oname = owner.name@;
        let mut acc: Vec<OwnerReference> = Vec::new();
        let key = owner.name.clone();
        acc.push(owner);
        r.frames.push(ResolveFrame { pending: fetched, acc, memo_key: Some(key) });
        proof {
            assert(forall|j: int|
                0 <= j < old(r).frames@.len() ==> old(r).frames@[j] == r.frames@[j]);
            let ghost last = r.frames@.len() - 1;
            assert(r.frames@[last].memo_key is Some && r.frames@[last].memo_key->0@ == oname);
            assert(name_memoized(r.frames@, oname));
            assert forall|i: int|
                0 <= i < r.visited@.len() implies accounted(self@, *r, #[trigger] r.visited@[i]@)
            by {
                let nm = r.visited@[i]@;
                assert(accounted(self@, *old(r), nm));
                if !self@.contains_key(nm) {
                    if name_memoized(old(r).frames@, nm) {
                        let j = choose|j: int|
                            0 <= j < old(r).frames@.len() && (
                            #[trigger] old(r).frames@[j].memo_key) is Some
                                && old(r).frames@[j].memo_key->0@ == nm;
                        assert(r.frames@[j].memo_key == old(r).frames@[j].memo_key);
                        assert(name_memoized(r.frames@, nm));
                    } else {
                        assert(nm == oname);
                    }
                }
            }
        }
    }
}

/// Accounting survives a step that keeps every frame's memo name: a witness
/// frame keeps its place.
proof fn lemma_accounted_frames(
    m: Map<Seq<char>, Seq<Seq<char>>>,
    r: Resolution,
    frames0: Seq<ResolveFrame>,
    vis0: Seq<String>,
)
    requires
        r.visited@ == vis0,
        r.current is None,
        r.frames@.len() == frames0.len(),
        forall|j: int| 0 <= j < r.frames@.len() ==> (#[trigger] r.frames@[j].memo_key)
            == frames0[j].memo_key,
        forall|i: int|
            0 <= i < vis0.len() ==> m.contains_key(#[trigger] vis0[i]@) || name_memoized(
                frames0,
                vis0[i]@,
            ),
    ensures
        session_accounted(m, r),
{
    assert forall|i: int|
        0 <= i < r.visited@.len() implies accounted(m, r, #[trigger] r.visited@[i]@) by {
        if !m.contains_key(vis0[i]@) {
            assert(name_memoized(frames0, vis0[i]@));
            let j = choose|j: int|
                0 <= j < frames0.len() && (#[trigger] frames0[j].memo_key) is Some
                    && frames0[j].memo_key->0@ == vis0[i]@;
            assert(r.frames@[j].memo_key == frames0[j].memo_key);
            assert(name_memoized(r.frames@, vis0[i]@));
        }
    }
}

/// An entry's key maps to its chain.
proof fn lemma_entries_map_index(es: Seq<(String, Vec<OwnerReference>)>, i: int)
    requires
        0 <= i < es.len(),
        forall|a: int, b: int| 0 <= a < b < es.len() ==> es[a].0@ != es[b].0@,
    ensures
        entries_map(es).contains_key(es[i].0@),
        entries_map(es)[es[i].0@] == names_of(es[i].1@),
    decreases es.len(),
{
    if i == es.len() - 1 {
    } else {
        assert(es.drop_last()[i] == es[i]);
        lemma_entries_map_index(es.drop_last(), i);
        assert(es.last().0@ != es[i].0@);
    }
}

/// A key under no entry is not in the map.
proof fn lemma_entries_map_absent(es: Seq<(String, Vec<OwnerReference>)>, n: Seq<char>)
    requires
        forall|a: int| 0 <= a < es.len() ==> es[a].0@ != n,
    ensures
        !entries_map(es).contains_key(n),
    decreases es.len(),
{
    if es.len() > 0 {
        assert(forall|a: int| 0 <= a < es.drop_last().len() ==> es.drop_last()[a].0@ != n);
        lemma_entries_map_absent(es.drop_last(), n);
    }
}

/// A key not in the map is under no entry.
proof fn lemma_absent_entries_map(es: Seq<(String, Vec<OwnerReference>)>, n: Seq<char>)
    requires
        !entries_map(es).contains_key(n),
    ensures
        forall|a: int| 0 <= a < es.len() ==> es[a].0@ != n,
    decreases es.len(),
{
    if es.len() > 0 {
        lemma_absent_entries_map(es.drop_last(), n);
        assert(forall|a: int| 0 <= a < es.len() - 1 ==> es[a].0@ == es.drop_last()[a].0@);
    }
}

/// Accounting survives popping the top frame once its memo name (if any)
/// has been cached: every other witness frame keeps its place.
proof fn lemma_accounted_pop(
    m: Map<Seq<char>, Seq<Seq<char>>>,
    r: Resolution,
    frames0: Seq<ResolveFrame>,
    vis0: Seq<String>,
)
    requires
        r.visited@ == vis0,
        r.current is None,
        frames0.len() >= 1,
        r.frames@.len() == frames0.len() - 1,
        forall|j: int|
            0 <= j < frames0.len() - 1 ==> (#[trigger] r.frames@[j].memo_key)
                == frames0[j].memo_key,
        frames0.last().memo_key is Some ==> m.contains_key(frames0.last().memo_key->0@),
        forall|i: int|
            0 <= i < vis0.len() ==> m.contains_key(#[trigger] vis0[i]@) || name_memoized(
                frames0,
                vis0[i]@,
            ),
    ensures
        session_accounted(m, r),
{
    assert forall|i: int|
        0 <= i < r.visited@.len() implies accounted(m, r, #[trigger] r.visited@[i]@) by {
        if !m.contains_key(vis0[i]@) {
            assert(name_memoized(frames0, vis0[i]@));
            let j = choose|j: int|
                0 <= j < frames0.len() && (#[trigger] frames0[j].memo_key) is Some
                    && frames0[j].memo_key->0@ == vis0[i]@;
            if j < frames0.len() - 1 {
                assert(r.frames@[j].memo_key == frames0[j].memo_key);
                assert(name_memoized(r.frames@, vis0[i]@));
            } else {
                assert(frames0.last() == frames0[j]);
                assert(m.contains_key(vis0[i]@));
            }
        }
    }
}

} // verus!
