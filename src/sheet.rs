use vstd::prelude::*;
use std::collections::HashMap;

verus! {

broadcast use vstd::std_specs::hash::group_hash_axioms;

/// The half-open time range `r` contains the time `t`.
pub open spec fn covers(r: (u64, u64), t: u64) -> bool {
    r.0 <= t < r.1
}

/// An index of items by half-open time ranges: it answers which items have
/// a range that contains a given time.
pub struct SegTree {
    entries: Vec<(usize, (u64, u64))>,
}

impl SegTree {
    /// The pairs of item and range that the index holds.
    pub closed spec fn ranges(&self) -> Set<(usize, (u64, u64))> {
        self.entries@.to_set()
    }

    pub closed spec fn wf(&self) -> bool {
        self.entries@.no_duplicates()
    }

    /// An empty index.
    pub fn new() -> (r: SegTree)
        ensures
            r.wf(),
            r.ranges() == Set::<(usize, (u64, u64))>::empty(),
    {
        let r = SegTree { entries: Vec::new() };
        assert(r.ranges() =~= Set::<(usize, (u64, u64))>::empty());
        r
    }

    /// The items, each once, with a range that contains `t`.
    pub fn get(&self, t: u64) -> (r: Vec<usize>)
        requires
            self.wf(),
        ensures
            r@.no_duplicates(),
            forall|i: usize|
                r@.contains(i) <==> exists|q: (u64, u64)|
                    #[trigger] self.ranges().contains((i, q)) && covers(q, t),
    {
        let mut r: Vec<usize> = Vec::new();
        let mut k: usize = 0;
        while k < self.entries.len()
            invariant
                k <= self.entries@.len(),
                r@.no_duplicates(),
                forall|i: usize|
                    r@.contains(i) <==> exists|n: int|
                        0 <= n < k && (#[trigger] self.entries@[n]).0 == i && covers(
                            self.entries@[n].1,
                            t,
                        ),
            decreases self.entries@.len() - k,
        {
            let (i, q) = self.entries[k];
            let ghost r0 = r@;
            if q.0 <= t && t < q.1 {
                if position(&r, i).is_none() {
                    let ghost prev = r@;
                    r.push(i);
                    proof {
                        assert forall|x: usize| r@.contains(x) <==> prev.contains(x) || x == i by {
                            if r@.contains(x) {
                                let n = choose|n: int| 0 <= n < r@.len() && r@[n] == x;
                                if n < prev.len() {
                                    assert(prev[n] == x);
                                }
                            }
                            if prev.contains(x) {
                                let n = choose|n: int| 0 <= n < prev.len() && prev[n] == x;
                                assert(r@[n] == x);
                            }
                            if x == i {
                                assert(r@[prev.len() as int] == x);
                            }
                        }
                    }
                }
            }
            proof {
                let e = self.entries@[k as int];
                assert(e == (i, q));
                assert(forall|x: usize| r@.contains(x) <==> r0.contains(x) || (x == i && covers(q, t)));
                assert forall|x: usize|
                    r@.contains(x) <==> exists|n: int|
                        0 <= n < k + 1 && (#[trigger] self.entries@[n]).0 == x && covers(
                            self.entries@[n].1,
                            t,
                        ) by {
                    if r@.contains(x) {
                        if r0.contains(x) {
                            let m = choose|m: int|
                                0 <= m < k && (#[trigger] self.entries@[m]).0 == x && covers(
                                    self.entries@[m].1,
                                    t,
                                );
                            assert(self.entries@[m].0 == x && covers(self.entries@[m].1, t));
                        } else {
                            assert(self.entries@[k as int].0 == x && covers(self.entries@[k as int].1, t));
                        }
                    }
                    if exists|n: int|
                        0 <= n < k + 1 && (#[trigger] self.entries@[n]).0 == x && covers(
                            self.entries@[n].1,
                            t,
                        ) {
                        let n = choose|n: int|
                            0 <= n < k + 1 && (#[trigger] self.entries@[n]).0 == x && covers(
                                self.entries@[n].1,
                                t,
                            );
                        if n < k {
                            assert(exists|m: int|
                                0 <= m < k && (#[trigger] self.entries@[m]).0 == x && covers(
                                    self.entries@[m].1,
                                    t,
                                ));
                            assert(r0.contains(x));
                        } else {
                            assert(x == i && covers(q, t));
                        }
                    }
                }
            }
            k = k + 1;
        }
        proof {
            assert forall|i: usize|
                r@.contains(i) <==> exists|q: (u64, u64)|
                    #[trigger] self.ranges().contains((i, q)) && covers(q, t) by {
                if r@.contains(i) {
                    let n = choose|n: int|
                        0 <= n < k && (#[trigger] self.entries@[n]).0 == i && covers(
                            self.entries@[n].1,
                            t,
                        );
                    let q = self.entries@[n].1;
                    assert(self.entries@[n] == (i, q));
                    assert(self.entries@.contains((i, q)));
                    assert(self.ranges().contains((i, q)) && covers(q, t));
                }
                if exists|q: (u64, u64)| #[trigger] self.ranges().contains((i, q)) && covers(q, t) {
                    let q = choose|q: (u64, u64)| #[trigger] self.ranges().contains((i, q)) && covers(q, t);
                    let n = choose|n: int| 0 <= n < self.entries@.len() && self.entries@[n] == (i, q);
                    assert(self.entries@[n].0 == i && covers(self.entries@[n].1, t));
                }
            }
        }
        r
    }

    /// Adds the item `i` under the range `t`.
    pub fn put(&mut self, i: usize, t: (u64, u64))
        requires
            old(self).wf(),
        ensures
            final(self).wf(),
            final(self).ranges() == old(self).ranges().insert((i, t)),
    {
        let mut k: usize = 0;
        while k < self.entries.len()
            invariant
                k <= self.entries@.len(),
                self.entries@ == old(self).entries@,
                self.wf(),
                forall|n: int| 0 <= n < k ==> self.entries@[n] != (i, t),
            decreases self.entries@.len() - k,
        {
            let (j, q) = self.entries[k];
            if j == i && q.0 == t.0 && q.1 == t.1 {
                proof {
                    assert(self.entries@[k as int] == (i, t));
                    assert(self.ranges() =~= old(self).ranges().insert((i, t)));
                }
                return;
            }
            proof {
                assert(self.entries@[k as int] == (j, q));
            }
            k = k + 1;
        }
        let ghost prev = self.entries@;
        assert(!prev.contains((i, t)));
        self.entries.push((i, t));
        proof {
            assert forall|a: int, b: int|
                0 <= a < self.entries@.len() && 0 <= b < self.entries@.len() && a != b implies
                self.entries@[a] != self.entries@[b] by {
                if a < prev.len() && b < prev.len() {
                    assert(prev[a] != prev[b]);
                } else if a < prev.len() {
                    assert(prev.contains(prev[a]));
                } else {
                    assert(prev.contains(prev[b]));
                }
            }
            assert forall|x: (usize, (u64, u64))| self.entries@.contains(x) <==> prev.contains(x) || x
                == (i, t) by {
                if self.entries@.contains(x) {
                    let n = choose|n: int| 0 <= n < self.entries@.len() && self.entries@[n] == x;
                    if n < prev.len() {
                        assert(prev[n] == x);
                    }
                }
                if prev.contains(x) {
                    let n = choose|n: int| 0 <= n < prev.len() && prev[n] == x;
                    assert(self.entries@[n] == x);
                }
                if x == (i, t) {
                    assert(self.entries@[prev.len() as int] == x);
                }
            }
            assert(self.ranges() =~= old(self).ranges().insert((i, t)));
        }
    }

    /// Takes the item `i` out from under the range `t`.
    pub fn rm(&mut self, i: usize, t: (u64, u64))
        requires
            old(self).wf(),
        ensures
            final(self).wf(),
            final(self).ranges() == old(self).ranges().remove((i, t)),
    {
        let mut k: usize = 0;
        while k < self.entries.len()
            invariant
                k <= self.entries@.len(),
                self.entries@ == old(self).entries@,
                self.wf(),
                forall|n: int| 0 <= n < k ==> self.entries@[n] != (i, t),
            decreases self.entries@.len() - k,
        {
            let (j, q) = self.entries[k];
            if j == i && q.0 == t.0 && q.1 == t.1 {
                let ghost prev = self.entries@;
                self.entries.remove(k);
                proof {
                    assert(prev[k as int] == (i, t));
                    assert forall|x: (usize, (u64, u64))| self.entries@.contains(x) <==> prev.contains(x)
                        && x != (i, t) by {
                        if self.entries@.contains(x) {
                            let n = choose|n: int| 0 <= n < self.entries@.len() && self.entries@[n] == x;
                            if n < k {
                                assert(prev[n] == x);
                                assert(prev[n] != prev[k as int]);
                            } else {
                                assert(prev[n + 1] == x);
                                assert(prev[n + 1] != prev[k as int]);
                            }
                        }
                        if prev.contains(x) && x != (i, t) {
                            let n = choose|n: int| 0 <= n < prev.len() && prev[n] == x;
                            if n < k {
                                assert(self.entries@[n] == x);
                            } else {
                                assert(self.entries@[n - 1] == x);
                            }
                        }
                    }
                    assert forall|a: int, b: int|
                        0 <= a < self.entries@.len() && 0 <= b < self.entries@.len() && a != b implies
                        self.entries@[a] != self.entries@[b] by {
                        let a2 = if a < k { a } else { a + 1 };
                        let b2 = if b < k { b } else { b + 1 };
                        assert(prev[a2] != prev[b2]);
                    }
                    assert(self.ranges() =~= old(self).ranges().remove((i, t)));
                }
                return;
            }
            proof {
                assert(self.entries@[k as int] == (j, q));
            }
            k = k + 1;
        }
        assert(self.ranges() =~= old(self).ranges().remove((i, t)));
    }
}

proof fn lemma_push_fresh(prev: Seq<usize>, x: usize)
    requires
        prev.no_duplicates(),
        !prev.contains(x),
    ensures
        prev.push(x).no_duplicates(),
        forall|y: usize| #[trigger] prev.push(x).contains(y) <==> prev.contains(y) || y == x,
{
    let next = prev.push(x);
    assert forall|y: usize| #[trigger] next.contains(y) <==> prev.contains(y) || y == x by {
        if next.contains(y) {
            let n = choose|n: int| 0 <= n < next.len() && next[n] == y;
            if n < prev.len() {
                assert(prev[n] == y);
            }
        }
        if prev.contains(y) {
            let n = choose|n: int| 0 <= n < prev.len() && prev[n] == y;
            assert(next[n] == y);
        }
        if y == x {
            assert(next[prev.len() as int] == y);
        }
    }
    assert forall|a: int, b: int| 0 <= a < next.len() && 0 <= b < next.len() && a != b implies next[a]
        != next[b] by {
        if a < prev.len() && b < prev.len() {
            assert(prev[a] != prev[b]);
        } else if a < prev.len() {
            assert(prev.contains(prev[a]));
        } else {
            assert(prev.contains(prev[b]));
        }
    }
}

/// A timed entry of a sheet. The pitch is the bit pattern of an IEEE-754
/// double; the range is a half-open pair of times.
pub struct Note {
    pub id: usize,
    /// The entry that this one leads on to.
    pub fw: usize,
    pub tag: String,
    /// Set once the entry is removed from its sheet.
    pub del: bool,
    pub muted: bool,
    pub pitch: u64,
    pub range: (u64, u64),
}

pub enum SheetError {
    NoSuchNote(usize),
}

/// A store of timed entries. Each entry has a slot in insertion order and
/// an identifier that maps to it; removal marks the entry deleted and keeps
/// its slot. A range index answers which live entries are active at a time.
pub struct Sheet {
    idmap: HashMap<usize, usize>,
    count: usize,
    inner: Vec<Note>,
    segtree_index: SegTree,
}

impl Sheet {
    /// The entries, by slot.
    pub closed spec fn notes(&self) -> Seq<Note> {
        self.inner@
    }

    /// The slot of each live identifier.
    pub closed spec fn ids(&self) -> Map<usize, usize> {
        self.idmap@
    }

    /// The identifier that the next insertion gives.
    pub closed spec fn next_id(&self) -> usize {
        self.count
    }

    /// The range index over slots.
    pub closed spec fn index(&self) -> SegTree {
        self.segtree_index
    }

    /// The slot holds an entry that has not been removed.
    pub open spec fn live_slot(&self, s: usize) -> bool {
        s < self.notes().len() && !self.notes()[s as int].del
    }

    /// Live identifiers are below the next one and map to live slots that
    /// carry them; every live slot is reached from its identifier; the index
    /// holds exactly the live slots under their ranges.
    pub open spec fn wf(&self) -> bool {
        &&& self.index().wf()
        &&& forall|id: usize| #[trigger]
            self.ids().contains_key(id) ==> {
                &&& id < self.next_id()
                &&& self.live_slot(self.ids()[id])
                &&& self.notes()[self.ids()[id] as int].id == id
            }
        &&& forall|s: usize| #[trigger]
            self.live_slot(s) ==> self.ids().contains_key(self.notes()[s as int].id)
                && self.ids()[self.notes()[s as int].id] == s
        &&& forall|s: usize, q: (u64, u64)| #[trigger]
            self.index().ranges().contains((s, q)) <==> self.live_slot(s) && self.notes()[s as int].range
                == q
    }

    /// An empty sheet.
    pub fn new() -> (r: Sheet)
        ensures
            r.wf(),
            r.notes() == Seq::<Note>::empty(),
            r.ids() == Map::<usize, usize>::empty(),
            r.next_id() == 0,
    {
        Sheet { count: 0, inner: Vec::new(), idmap: HashMap::new(), segtree_index: SegTree::new() }
    }

    /// Adds `note`, live, under the next identifier and at the next slot.
    pub fn put(&mut self, note: Note) -> (r: Result<(), SheetError>)
        requires
            old(self).wf(),
            old(self).next_id() < usize::MAX,
        ensures
            final(self).wf(),
            r is Ok,
            final(self).next_id() == old(self).next_id() + 1,
            final(self).notes() == old(self).notes().push(
                Note { id: old(self).next_id(), del: false, ..note },
            ),
            final(self).ids() == old(self).ids().insert(
                old(self).next_id(),
                old(self).notes().len() as usize,
            ),
    {
        let mut note = note;
        note.id = self.count;
        note.del = false;
        let slot = self.inner.len();
        self.idmap.insert(self.count, slot);
        self.segtree_index.put(slot, note.range);
        self.count = self.count + 1;
        self.inner.push(note);
        proof {
            let o = old(self);
            assert(self.notes()[slot as int] == note);
            assert forall|s: usize| #[trigger] self.live_slot(s) implies self.ids().contains_key(
                self.notes()[s as int].id,
            ) && self.ids()[self.notes()[s as int].id] == s by {
                if s != slot {
                    assert(o.live_slot(s));
                    assert(o.notes()[s as int].id < o.next_id());
                }
            }
            assert forall|id: usize| #[trigger] self.ids().contains_key(id) implies {
                &&& id < self.next_id()
                &&& self.live_slot(self.ids()[id])
                &&& self.notes()[self.ids()[id] as int].id == id
            } by {
                if id != o.next_id() {
                    assert(o.ids().contains_key(id));
                }
            }
            assert forall|s: usize, q: (u64, u64)| #[trigger]
                self.index().ranges().contains((s, q)) <==> self.live_slot(s)
                    && self.notes()[s as int].range == q by {
                if s != slot {
                    assert(self.live_slot(s) == o.live_slot(s));
                } else {
                    assert(!o.live_slot(s));
                    assert(!o.index().ranges().contains((s, q)));
                }
            }
        }
        Ok(())
    }

    /// Marks the entry with identifier `i` deleted, forgets the identifier
    /// and takes its slot out of the range index. Fails, changing nothing,
    /// on an identifier that is not live.
    pub fn rm(&mut self, i: usize) -> (r: Result<(), SheetError>)
        requires
            old(self).wf(),
        ensures
            final(self).wf(),
            r is Err <==> !old(self).ids().contains_key(i),
            r matches Err(e) ==> e == SheetError::NoSuchNote(i) && *final(self) == *old(self),
            r is Ok ==> {
                let s = old(self).ids()[i];
                &&& final(self).next_id() == old(self).next_id()
                &&& final(self).ids() == old(self).ids().remove(i)
                &&& final(self).notes() == old(self).notes().update(
                    s as int,
                    Note { del: true, ..old(self).notes()[s as int] },
                )
            },
    {
        let s = match self.idmap.get(&i) {
            Some(s) => *s,
            None => {
                return Err(SheetError::NoSuchNote(i));
            },
        };
        assert(self.ids().contains_key(i) && self.ids()[i] == s);
        assert(self.live_slot(s));
        let range = self.inner[s].range;
        self.inner[s].del = true;
        self.segtree_index.rm(s, range);
        self.idmap.remove(&i);
        proof {
            let o = old(self);
            assert forall|s2: usize| #[trigger] self.live_slot(s2) implies self.ids().contains_key(
                self.notes()[s2 as int].id,
            ) && self.ids()[self.notes()[s2 as int].id] == s2 by {
                assert(s2 != s);
                assert(self.notes()[s2 as int] == o.notes()[s2 as int]);
                assert(o.live_slot(s2));
                assert(o.notes()[s2 as int].id != i);
            }
            assert forall|id: usize| #[trigger] self.ids().contains_key(id) implies {
                &&& id < self.next_id()
                &&& self.live_slot(self.ids()[id])
                &&& self.notes()[self.ids()[id] as int].id == id
            } by {
                assert(o.ids().contains_key(id));
                assert(o.ids()[id] != s);
            }
            assert forall|s2: usize, q: (u64, u64)| #[trigger]
                self.index().ranges().contains((s2, q)) <==> self.live_slot(s2)
                    && self.notes()[s2 as int].range == q by {
                if s2 != s && s2 < self.notes().len() {
                    assert(self.notes()[s2 as int] == o.notes()[s2 as int]);
                    assert(self.live_slot(s2) == o.live_slot(s2));
                }
            }
        }
        Ok(())
    }

    /// Marks the entry with identifier `i` muted.
    pub fn mute(&mut self, i: usize) -> (r: Result<(), SheetError>)
        requires
            old(self).wf(),
        ensures
            final(self).wf(),
            r is Err <==> !old(self).ids().contains_key(i),
            r matches Err(e) ==> e == SheetError::NoSuchNote(i) && *final(self) == *old(self),
            r is Ok ==> {
                let s = old(self).ids()[i];
                &&& final(self).notes() == old(self).notes().update(
                    s as int,
                    Note { muted: true, ..old(self).notes()[s as int] },
                )
                &&& final(self).ids() == old(self).ids()
                &&& final(self).next_id() == old(self).next_id()
                &&& final(self).index() == old(self).index()
            },
    {
        self.set_muted(i, true)
    }

    /// Clears the mute mark of the entry with identifier `i`.
    pub fn unmute(&mut self, i: usize) -> (r: Result<(), SheetError>)
        requires
            old(self).wf(),
        ensures
            final(self).wf(),
            r is Err <==> !old(self).ids().contains_key(i),
            r matches Err(e) ==> e == SheetError::NoSuchNote(i) && *final(self) == *old(self),
            r is Ok ==> {
                let s = old(self).ids()[i];
                &&& final(self).notes() == old(self).notes().update(
                    s as int,
                    Note { muted: false, ..old(self).notes()[s as int] },
                )
                &&& final(self).ids() == old(self).ids()
                &&& final(self).next_id() == old(self).next_id()
                &&& final(self).index() == old(self).index()
            },
    {
        self.set_muted(i, false)
    }

    fn set_muted(&mut self, i: usize, muted: bool) -> (r: Result<(), SheetError>)
        requires
            old(self).wf(),
        ensures
            final(self).wf(),
            r is Err <==> !old(self).ids().contains_key(i),
            r matches Err(e) ==> e == SheetError::NoSuchNote(i) && *final(self) == *old(self),
            r is Ok ==> {
                let s = old(self).ids()[i];
                &&& final(self).notes() == old(self).notes().update(
                    s as int,
                    Note { muted, ..old(self).notes()[s as int] },
                )
                &&& final(self).ids() == old(self).ids()
                &&& final(self).next_id() == old(self).next_id()
                &&& final(self).index() == old(self).index()
            },
    {
        let s = match self.idmap.get(&i) {
            Some(s) => *s,
            None => {
                return Err(SheetError::NoSuchNote(i));
            },
        };
        assert(self.ids().contains_key(i) && self.ids()[i] == s);
        assert(self.live_slot(s));
        self.inner[s].muted = muted;
        proof {
            let o = old(self);
            assert forall|s2: usize| #[trigger] self.live_slot(s2) implies self.ids().contains_key(
                self.notes()[s2 as int].id,
            ) && self.ids()[self.notes()[s2 as int].id] == s2 by {
                if s2 != s {
                    assert(self.notes()[s2 as int] == o.notes()[s2 as int]);
                }
                assert(o.live_slot(s2));
            }
            assert forall|s2: usize, q: (u64, u64)| #[trigger]
                self.index().ranges().contains((s2, q)) <==> self.live_slot(s2)
                    && self.notes()[s2 as int].range == q by {
                assert(self.live_slot(s2) == o.live_slot(s2));
            }
        }
        Ok(())
    }

    /// The live slots, each once, whose ranges contain `t`.
    pub fn active_at(&self, t: u64) -> (r: Vec<usize>)
        requires
            self.wf(),
        ensures
            r@.no_duplicates(),
            forall|s: usize|
                #[trigger] r@.contains(s) <==> self.live_slot(s) && covers(
                    self.notes()[s as int].range,
                    t,
                ),
    {
        let r = self.segtree_index.get(t);
        proof {
            assert forall|s: usize|
                #[trigger] r@.contains(s) <==> self.live_slot(s) && covers(
                    self.notes()[s as int].range,
                    t,
                ) by {
                if self.live_slot(s) && covers(self.notes()[s as int].range, t) {
                    assert(self.index().ranges().contains((s, self.notes()[s as int].range)));
                }
            }
        }
        r
    }

    /// A cursor over this sheet that starts at `start`.
    pub fn player(&self, start: u64) -> (r: SheetPlayer)
        requires
            self.wf(),
        ensures
            r.position() == start,
            r.follows(*self),
            forall|s: usize|
                #[trigger] r.active().contains(s) <==> self.live_slot(s) && covers(
                    self.notes()[s as int].range,
                    start,
                ),
    {
        SheetPlayer::new(self, start)
    }

    /// The entry at `slot`.
    pub fn note(&self, slot: usize) -> (r: &Note)
        requires
            slot < self.notes().len(),
        ensures
            *r == self.notes()[slot as int],
    {
        &self.inner[slot]
    }

    /// The number of slots.
    pub fn len(&self) -> (r: usize)
        ensures
            r == self.notes().len(),
    {
        self.inner.len()
    }
}

/// An entry removed from a well-formed sheet is active at no time, and the
/// identifier the next insertion gives is not in use.
pub proof fn lemma_removed_inactive(sheet: Sheet, s: usize)
    requires
        sheet.wf(),
        s < sheet.notes().len(),
        sheet.notes()[s as int].del,
    ensures
        forall|q: (u64, u64)| !#[trigger] sheet.index().ranges().contains((s, q)),
        !sheet.ids().contains_key(sheet.next_id()),
{
}

/// A streaming cursor over a sheet: a position on the timeline and the
/// slots active there.
pub struct SheetPlayer {
    cursor: u64,
    active: Vec<usize>,
}

impl SheetPlayer {
    pub closed spec fn position(&self) -> u64 {
        self.cursor
    }

    pub closed spec fn active(&self) -> Seq<usize> {
        self.active@
    }

    /// The active slots are distinct slots of `sheet`.
    pub open spec fn follows(&self, sheet: Sheet) -> bool {
        &&& self.active().no_duplicates()
        &&& forall|k: int| 0 <= k < self.active().len() ==> #[trigger] self.active()[k] < sheet.notes().len()
    }

    /// A cursor at `start`, with the live entries whose ranges contain it.
    pub fn new(sheet: &Sheet, start: u64) -> (r: SheetPlayer)
        requires
            sheet.wf(),
        ensures
            r.position() == start,
            r.follows(*sheet),
            forall|s: usize|
                #[trigger] r.active().contains(s) <==> sheet.live_slot(s) && covers(
                    sheet.notes()[s as int].range,
                    start,
                ),
    {
        let active = sheet.active_at(start);
        proof {
            assert forall|k: int| 0 <= k < active@.len() implies #[trigger] active@[k] < sheet.notes().len() by {
                assert(active@.contains(active@[k]));
            }
        }
        SheetPlayer { cursor: start, active }
    }

    pub fn get_cursor(&self) -> (r: u64)
        ensures
            r == self.position(),
    {
        self.cursor
    }

    pub fn get_active(&self) -> (r: &Vec<usize>)
        ensures
            r@ == self.active(),
    {
        &self.active
    }

    /// Advances the cursor by `delta`: active entries whose ranges end by the
    /// new position leave, live entries that start in the window passed over
    /// join.
    pub fn tick_by(&mut self, sheet: &Sheet, delta: u64)
        requires
            sheet.wf(),
            old(self).follows(*sheet),
            old(self).position() + delta <= u64::MAX,
        ensures
            final(self).position() == old(self).position() + delta,
            final(self).follows(*sheet),
            forall|s: usize|
                #[trigger] final(self).active().contains(s) <==> (old(self).active().contains(s)
                    && sheet.notes()[s as int].range.1 > old(self).position() + delta) || (
                sheet.live_slot(s) && old(self).position() <= sheet.notes()[s as int].range.0
                    < old(self).position() + delta),
    {
        let from = self.cursor;
        let end = self.cursor + delta;
        let ghost was = self.active@;
        let mut kept: Vec<usize> = Vec::new();
        let mut k: usize = 0;
        while k < self.active.len()
            invariant
                self.active@ == was,
                self.cursor == from,
                end == from + delta,
                old(self).follows(*sheet),
                old(self).active() == was,
                k <= was.len(),
                kept@.no_duplicates(),
                forall|x: usize| #[trigger]
                    kept@.contains(x) ==> x < sheet.notes().len(),
                forall|x: usize| #[trigger]
                    kept@.contains(x) <==> (exists|m: int| 0 <= m < k && was[m] == x)
                        && sheet.notes()[x as int].range.1 > end,
            decreases was.len() - k,
        {
            let s = self.active[k];
            assert(was[k as int] < sheet.notes().len());
            if sheet.note(s).range.1 > end && position(&kept, s).is_none() {
                proof {
                    lemma_push_fresh(kept@, s);
                }
                kept.push(s);
            }
            proof {
                assert forall|x: usize| #[trigger]
                    kept@.contains(x) <==> (exists|m: int| 0 <= m < k + 1 && was[m] == x)
                        && sheet.notes()[x as int].range.1 > end by {
                    if x == s && sheet.notes()[x as int].range.1 > end {
                        assert(was[k as int] == x);
                    }
                    if exists|m: int| 0 <= m < k + 1 && was[m] == x {
                        let m = choose|m: int| 0 <= m < k + 1 && was[m] == x;
                        if m < k {
                            assert(exists|m2: int| 0 <= m2 < k && was[m2] == x);
                        }
                    }
                }
            }
            k = k + 1;
        }
        let n = sheet.len();
        let mut s: usize = 0;
        while s < n
            invariant
                n == sheet.notes().len(),
                self.cursor == from,
                end == from + delta,
                old(self).active() == was,
                s <= n,
                kept@.no_duplicates(),
                forall|x: usize| #[trigger]
                    kept@.contains(x) ==> x < sheet.notes().len(),
                forall|x: usize| #[trigger]
                    kept@.contains(x) <==> (was.contains(x) && sheet.notes()[x as int].range.1 > end)
                        || (x < s && sheet.live_slot(x) && from <= sheet.notes()[x as int].range.0 < end),
            decreases n - s,
        {
            let note = sheet.note(s);
            if !note.del && from <= note.range.0 && note.range.0 < end && position(&kept, s).is_none() {
                proof {
                    lemma_push_fresh(kept@, s);
                }
                kept.push(s);
            }
            s = s + 1;
        }
        self.cursor = end;
        self.active = kept;
        proof {
            assert forall|k2: int| 0 <= k2 < self.active@.len() implies #[trigger] self.active@[k2]
                < sheet.notes().len() by {
                assert(self.active@.contains(self.active@[k2]));
            }
        }
    }
}

/// Where `x` stands in `v`, if anywhere.
fn position(v: &Vec<usize>, x: usize) -> (r: Option<usize>)
    ensures
        r matches Some(k) ==> k < v@.len() && v@[k as int] == x,
        r is None ==> !v@.contains(x),
{
    let mut k: usize = 0;
    while k < v.len()
        invariant
            k <= v@.len(),
            forall|n: int| 0 <= n < k ==> v@[n] != x,
        decreases v@.len() - k,
    {
        if v[k] == x {
            return Some(k);
        }
        k = k + 1;
    }
    None
}

} // verus!
