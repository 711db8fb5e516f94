use vstd::prelude::*;
use std::sync::Arc;
use std::collections::HashMap;
use crate::expr::{Expr, Node, shaped};

verus! {

broadcast use vstd::std_specs::hash::group_hash_axioms;

/// The environment: a table of closed expressions that refer to each other
/// by slot, a label per entry, and stable identifiers that map to slots.
pub struct Ctx {
    cls: Vec<Arc<Expr>>,
    tag: Vec<String>,
    idcnt: u64,
    idmap: HashMap<u64, usize>,
}

impl Ctx {
    /// The expressions of the table, by slot.
    pub closed spec fn entries(&self) -> Seq<Node> {
        Seq::new(self.cls@.len(), |i: int| (*self.cls@[i]).view())
    }

    /// The label of each entry, by slot.
    pub closed spec fn labels(&self) -> Seq<Seq<char>> {
        Seq::new(self.tag@.len(), |i: int| self.tag@[i]@)
    }

    /// The slot that each identifier handed out so far stands for.
    pub closed spec fn ids(&self) -> Map<u64, usize> {
        self.idmap@
    }

    /// The identifier that the next insertion hands out.
    pub closed spec fn next_id(&self) -> u64 {
        self.idcnt
    }

    pub closed spec fn inv(&self) -> bool {
        &&& self.tag@.len() == self.cls@.len()
        &&& forall|id: u64| #[trigger]
            self.idmap@.contains_key(id) ==> id < self.idcnt && self.idmap@[id] < self.cls@.len()
    }

    /// Well-formed: every entry refers only to entries inserted before it,
    /// and every identifier maps to a slot of the table.
    pub open spec fn wf(&self) -> bool {
        &&& self.inv()
        &&& self.labels().len() == self.entries().len()
        &&& forall|k: int|
            0 <= k < self.entries().len() ==> shaped(#[trigger] self.entries()[k], k as nat)
        &&& forall|id: u64| #[trigger]
            self.ids().contains_key(id) ==> id < self.next_id() && self.ids()[id] < self.entries().len()
    }

    /// An empty environment.
    pub fn new() -> (r: Ctx)
        ensures
            r.wf(),
            r.entries() == Seq::<Node>::empty(),
            r.labels() == Seq::<Seq<char>>::empty(),
            r.ids() == Map::<u64, usize>::empty(),
            r.next_id() == 0,
    {
        let r = Ctx { cls: Vec::new(), tag: Vec::new(), idcnt: 0, idmap: HashMap::new() };
        assert(r.entries() =~= Seq::<Node>::empty());
        assert(r.labels() =~= Seq::<Seq<char>>::empty());
        r
    }

    /// Appends `e` under the label `tag` and returns its fresh identifier.
    /// Refused, leaving the table as it was, when `e` refers to a slot that
    /// is not yet filled, or when the identifiers are exhausted.
    pub fn insert(&mut self, e: Expr, tag: String) -> (r: Option<u64>)
        requires
            old(self).wf(),
        ensures
            final(self).wf(),
            r is Some <==> shaped(e@, old(self).entries().len() as nat) && old(self).next_id()
                < u64::MAX,
            r is None ==> *final(self) == *old(self),
            r is Some ==> {
                &&& r->0 == old(self).next_id()
                &&& final(self).next_id() == old(self).next_id() + 1
                &&& final(self).entries() == old(self).entries().push(e@)
                &&& final(self).labels() == old(self).labels().push(tag@)
                &&& final(self).ids() == old(self).ids().insert(
                    r->0,
                    old(self).entries().len() as usize,
                )
            },
    {
        if !e.is_shaped(self.cls.len()) || self.idcnt == u64::MAX {
            return None;
        }
        let id = self.idcnt;
        let slot = self.cls.len();
        self.idmap.insert(id, slot);
        self.idcnt = self.idcnt + 1;
        self.cls.push(Arc::new(e));
        self.tag.push(tag);
        assert(self.entries() =~= old(self).entries().push(e@));
        assert(self.labels() =~= old(self).labels().push(tag@));
        Some(id)
    }

    /// The slot that the identifier `id` stands for, if it was handed out.
    pub fn slot_of(&self, id: u64) -> (r: Option<usize>)
        ensures
            r == (if self.ids().contains_key(id) {
                Some(self.ids()[id])
            } else {
                None
            }),
    {
        match self.idmap.get(&id) {
            Some(s) => Some(*s),
            None => None,
        }
    }

    /// The entry at `slot`.
    pub fn entry(&self, slot: usize) -> (r: &Expr)
        requires
            slot < self.entries().len(),
        ensures
            r@ == self.entries()[slot as int],
    {
        &self.cls[slot]
    }

    /// The label of the entry at `slot`.
    pub fn label(&self, slot: usize) -> (r: &String)
        requires
            self.wf(),
            slot < self.entries().len(),
        ensures
            r@ == self.labels()[slot as int],
    {
        &self.tag[slot]
    }

    /// The number of entries.
    pub fn len(&self) -> (r: usize)
        ensures
            r == self.entries().len(),
    {
        self.cls.len()
    }
}

} // verus!
