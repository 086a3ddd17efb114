use std::collections::HashMap;
use vstd::prelude::*;

verus! {

broadcast use vstd::std_specs::hash::group_hash_axioms;

/// A value that carries a stable 128-bit identifier.
pub trait HasId {
    /// The identifier as contracts see it.
    spec fn key(&self) -> u128;

    fn id(&self) -> (id: u128)
        ensures
            id == self.key(),
    ;
}

/// The identifiers of a sequence of values, position by position.
pub open spec fn keys_of<T: HasId>(s: Seq<T>) -> Seq<u128> {
    s.map_values(|v: T| v.key())
}

/// Position of the value with identifier `id` in `s`.
pub open spec fn index_of_key<T: HasId>(s: Seq<T>, id: u128) -> int {
    keys_of(s).index_of(id)
}

/// A node of the list: a value and the identifiers of its neighbours.
pub struct Node<T: HasId> {
    pub value: T,
    pub next: Option<u128>,
    pub prev: Option<u128>,
}

impl<T: HasId> Node<T> {
    pub fn new(value: T, prev: Option<u128>, next: Option<u128>) -> (n: Self)
        ensures
            n.value == value,
            n.prev == prev,
            n.next == next,
    {
        Node { value, prev, next }
    }

    pub fn id(&self) -> (id: u128)
        ensures
            id == self.value.key(),
    {
        self.value.id()
    }
}

impl<T: HasId> HasId for Node<T> {
    open spec fn key(&self) -> u128 {
        self.value.key()
    }

    fn id(&self) -> (id: u128) {
        self.value.id()
    }
}

/// `HashMap::get_mut`: a mutable reference to the node stored under `id`, if
/// any; what is written through it becomes the node stored under `id`.
#[verifier::external_body]
fn node_get_mut<'a, T: HasId>(items: &'a mut HashMap<u128, Node<T>>, id: &u128) -> (r: Option<
    &'a mut Node<T>,
>)
    ensures
        !old(items)@.contains_key(*id) ==> r is None && final(items)@ == old(items)@,
        old(items)@.contains_key(*id) ==> (r matches Some(n) && *n == old(items)@[*id]
            && final(items)@ == old(items)@.insert(*id, *final(n))),
{
    items.get_mut(id)
}

/// A FIFO sequence of values with unique identifiers, with O(1) lookup,
/// insertion at either end and removal by identifier.
///
/// The nodes live in a hash map keyed by identifier; each node links to its
/// neighbours by identifier, and `head` / `tail` name the two ends.
pub struct LinkedHashmap<T: HasId> {
    head: Option<u128>,
    tail: Option<u128>,
    items: HashMap<u128, Node<T>>,
    order: Ghost<Seq<u128>>,
}

impl<T: HasId> View for LinkedHashmap<T> {
    type V = Seq<T>;

    /// The values from head to tail.
    closed spec fn view(&self) -> Seq<T> {
        Seq::new(self.order@.len(), |i: int| self.items@[self.order@[i]].value)
    }
}

impl<T: HasId> LinkedHashmap<T> {
    spec fn linked_at(&self, i: int) -> bool {
        let ids = self.order@;
        let n = self.items@[ids[i]];
        &&& n.value.key() == ids[i]
        &&& n.prev == (if i == 0 {
            None
        } else {
            Some(ids[i - 1])
        })
        &&& n.next == (if i + 1 < ids.len() {
            Some(ids[i + 1])
        } else {
            None
        })
    }

    /// The nodes in the map are exactly those on the chain from `head` to
    /// `tail`, each linked to its neighbours and stored under its own id.
    pub closed spec fn wf(&self) -> bool {
        let ids = self.order@;
        &&& ids.no_duplicates()
        &&& forall|k: u128| #[trigger] self.items@.contains_key(k) <==> ids.contains(k)
        &&& ids.len() == 0 ==> self.head is None && self.tail is None
        &&& ids.len() > 0 ==> self.head == Some(ids[0]) && self.tail == Some(ids.last())
        &&& forall|i: int| 0 <= i < ids.len() ==> #[trigger] self.linked_at(i)
    }

    proof fn lemma_view_keys(&self)
        requires
            self.wf(),
        ensures
            keys_of(self@) == self.order@,
            self@.len() == self.order@.len(),
    {
        assert forall|i: int| 0 <= i < self.order@.len() implies keys_of(self@)[i]
            == self.order@[i] by {
            assert(self.linked_at(i));
        }
        assert(keys_of(self@) =~= self.order@);
    }

    /// In a well-formed list no two values share an identifier.
    pub proof fn lemma_keys_unique(&self)
        requires
            self.wf(),
        ensures
            keys_of(self@).no_duplicates(),
    {
        self.lemma_view_keys();
    }

    pub fn new() -> (l: Self)
        ensures
            l.wf(),
            l@ == Seq::<T>::empty(),
    {
        let l = LinkedHashmap {
            head: None,
            tail: None,
            items: HashMap::new(),
            order: Ghost(Seq::empty()),
        };
        assert(l@ =~= Seq::<T>::empty());
        l
    }

    /// Appends `value` at the tail, unless a value with its identifier is
    /// already present, in which case nothing changes.
    pub fn push(&mut self, value: T)
        requires
            old(self).wf(),
        ensures
            final(self).wf(),
            keys_of(old(self)@).contains(value.key()) ==> final(self)@ == old(self)@,
            !keys_of(old(self)@).contains(value.key()) ==> final(self)@ == old(self)@.push(value),
    {
        proof {
            self.lemma_view_keys();
        }
        let id = value.id();
        if self.items.contains_key(&id) {
            return;
        }
        let ghost old_items = self.items@;
        let ghost ids = self.order@;
        let mut new_node = Node::new(value, None, None);
        match self.tail {
            Some(tail_id) => {
                assert(self.linked_at(ids.len() - 1));
                let mut tail_node = self.items.remove(&tail_id).unwrap();
                tail_node.next = Some(id);
                new_node.prev = Some(tail_node.id());
                self.items.insert(tail_id, tail_node);
            },
            None => {
                self.head = Some(id);
            },
        }
        self.tail = Some(id);
        self.items.insert(id, new_node);
        self.order = Ghost(ids.push(id));
        proof {
            let nids = self.order@;
            assert(self.items@.dom() =~= old_items.dom().insert(id));
            assert forall|k: u128| #[trigger] self.items@.contains_key(k) <==> nids.contains(k) by {
                assert(old_items.contains_key(k) <==> ids.contains(k));
                assert(self.items@.contains_key(k) <==> (old_items.contains_key(k) || k == id));
                assert(nids[ids.len() as int] == id);
                if ids.contains(k) {
                    let j = choose|j: int| 0 <= j < ids.len() && ids[j] == k;
                    assert(nids[j] == k);
                }
                if nids.contains(k) {
                    let j = choose|j: int| 0 <= j < nids.len() && nids[j] == k;
                    if j < ids.len() {
                        assert(ids[j] == k);
                    }
                }
            }
            assert forall|i: int| 0 <= i < nids.len() implies #[trigger] self.linked_at(i) by {
                if i < ids.len() {
                    assert(old(self).linked_at(i));
                    assert(ids[i] != id);
                }
            }
            assert(self@ =~= old(self)@.push(value)) by {
                assert forall|i: int| 0 <= i < ids.len() implies self@[i] == old(self)@[i] by {
                    assert(old(self).linked_at(i));
                }
            }
        }
    }

    /// Inserts `value` at the head, unless a value with its identifier is
    /// already present, in which case nothing changes.
    pub fn push_first(&mut self, value: T)
        requires
            old(self).wf(),
        ensures
            final(self).wf(),
            keys_of(old(self)@).contains(value.key()) ==> final(self)@ == old(self)@,
            !keys_of(old(self)@).contains(value.key()) ==> final(self)@ == seq![value] + old(
                self,
            )@,
    {
        proof {
            self.lemma_view_keys();
        }
        let id = value.id();
        if self.items.contains_key(&id) {
            return;
        }
        let ghost old_items = self.items@;
        let ghost ids = self.order@;
        let mut new_node = Node::new(value, None, None);
        match self.head {
            Some(head_id) => {
                assert(self.linked_at(0));
                let mut head_node = self.items.remove(&head_id).unwrap();
                head_node.prev = Some(id);
                new_node.next = Some(head_node.id());
                self.items.insert(head_id, head_node);
            },
            None => {
                self.tail = Some(id);
            },
        }
        self.head = Some(id);
        self.items.insert(id, new_node);
        self.order = Ghost(seq![id] + ids);
        proof {
            let nids = self.order@;
            assert(self.items@.dom() =~= old_items.dom().insert(id));
            assert forall|k: u128| #[trigger] self.items@.contains_key(k) <==> nids.contains(k) by {
                assert(old_items.contains_key(k) <==> ids.contains(k));
                assert(self.items@.contains_key(k) <==> (old_items.contains_key(k) || k == id));
                assert(nids[0] == id);
                if ids.contains(k) {
                    let j = choose|j: int| 0 <= j < ids.len() && ids[j] == k;
                    assert(nids[j + 1] == k);
                }
                if nids.contains(k) {
                    let j = choose|j: int| 0 <= j < nids.len() && nids[j] == k;
                    if j > 0 {
                        assert(ids[j - 1] == k);
                    }
                }
            }
            assert forall|i: int| 0 <= i < nids.len() implies #[trigger] self.linked_at(i) by {
                if i > 0 {
                    assert(old(self).linked_at(i - 1));
                    assert(ids[i - 1] != id);
                }
            }
            assert(self@ =~= seq![value] + old(self)@) by {
                assert forall|i: int| 0 < i < nids.len() implies self@[i] == old(self)@[i - 1] by {
                    assert(old(self).linked_at(i - 1));
                }
            }
        }
    }

    /// Removes and returns the value at the head.
    pub fn pop(&mut self) -> (r: Option<T>)
        requires
            old(self).wf(),
        ensures
            final(self).wf(),
            old(self)@.len() == 0 ==> r is None && final(self)@ == old(self)@,
            old(self)@.len() > 0 ==> r == Some(old(self)@[0]) && final(self)@ == old(
                self,
            )@.drop_first(),
    {
        proof {
            self.lemma_view_keys();
        }
        let ghost old_items = self.items@;
        let ghost ids = self.order@;
        let head_id = match self.head {
            Some(h) => h,
            None => {
                return None;
            },
        };
        self.head = None;
        assert(old(self).linked_at(0));
        let node = match self.items.remove(&head_id) {
            Some(n) => n,
            None => {
                self.head = None;
                self.tail = None;
                return None;
            },
        };
        self.head = node.next;
        match self.head {
            Some(new_head_id) => {
                assert(old(self).linked_at(1));
                match self.items.remove(&new_head_id) {
                    Some(mut new_head_node) => {
                        new_head_node.prev = None;
                        self.items.insert(new_head_id, new_head_node);
                    },
                    None => {
                        self.head = None;
                        self.tail = None;
                    },
                }
            },
            None => {
                self.tail = None;
            },
        }
        self.order = Ghost(ids.drop_first());
        proof {
            let nids = self.order@;
            assert(self.items@.dom() =~= old_items.dom().remove(head_id));
            assert forall|k: u128| #[trigger] self.items@.contains_key(k) <==> nids.contains(k) by {
                assert(old_items.contains_key(k) <==> ids.contains(k));
                if ids.contains(k) && k != head_id {
                    let j = choose|j: int| 0 <= j < ids.len() && ids[j] == k;
                    assert(j != 0);
                    assert(nids[j - 1] == k);
                }
                if nids.contains(k) {
                    let j = choose|j: int| 0 <= j < nids.len() && nids[j] == k;
                    assert(ids[j + 1] == k);
                }
            }
            assert forall|i: int| 0 <= i < nids.len() implies #[trigger] self.linked_at(i) by {
                assert(old(self).linked_at(i + 1));
            }
            assert(self@ =~= old(self)@.drop_first()) by {
                assert forall|i: int| 0 <= i < nids.len() implies self@[i] == old(self)@[i + 1] by {
                    assert(old(self).linked_at(i + 1));
                }
            }
        }
        Some(node.value)
    }

    /// Removes and returns the value with identifier `id`, keeping the order
    /// of the others.
    pub fn remove(&mut self, id: &u128) -> (r: Option<T>)
        requires
            old(self).wf(),
        ensures
            final(self).wf(),
            !keys_of(old(self)@).contains(*id) ==> r is None && final(self)@ == old(self)@,
            keys_of(old(self)@).contains(*id) ==> {
                let i = index_of_key(old(self)@, *id);
                &&& r == Some(old(self)@[i])
                &&& final(self)@ == old(self)@.remove(i)
            },
    {
        proof {
            self.lemma_view_keys();
        }
        let ghost old_items = self.items@;
        let ghost ids = self.order@;
        if !self.items.contains_key(id) {
            return None;
        }
        let node = self.items.remove(id).unwrap();
        let ghost idx = ids.index_of(*id);
        assert(ids.contains(*id));
        assert(0 <= idx < ids.len() && ids[idx] == *id);
        assert(old(self).linked_at(idx));
        match node.next {
            Some(next_id) => {
                assert(old(self).linked_at(idx + 1));
                match self.items.remove(&next_id) {
                    Some(mut next_node) => {
                        next_node.prev = node.prev;
                        self.items.insert(next_id, next_node);
                    },
                    None => {
                        if let Some(t) = self.tail {
                            if t == next_id {
                                self.tail = node.prev;
                            }
                        }
                    },
                }
            },
            None => {
                self.tail = node.prev;
            },
        }
        match node.prev {
            Some(prev_id) => {
                assert(old(self).linked_at(idx - 1));
                match self.items.remove(&prev_id) {
                    Some(mut prev_node) => {
                        prev_node.next = node.next;
                        self.items.insert(prev_id, prev_node);
                    },
                    None => {
                        if let Some(h) = self.head {
                            if h == prev_id {
                                self.head = node.next;
                            }
                        }
                    },
                }
            },
            None => {
                self.head = node.next;
            },
        }
        self.order = Ghost(ids.remove(idx));
        proof {
            let nids = self.order@;
            assert(self.items@.dom() =~= old_items.dom().remove(*id));
            assert forall|k: u128| #[trigger] self.items@.contains_key(k) <==> nids.contains(k) by {
                assert(old_items.contains_key(k) <==> ids.contains(k));
                if ids.contains(k) && k != *id {
                    let j = choose|j: int| 0 <= j < ids.len() && ids[j] == k;
                    assert(j != idx);
                    if j < idx {
                        assert(nids[j] == k);
                    } else {
                        assert(nids[j - 1] == k);
                    }
                }
                if nids.contains(k) {
                    let j = choose|j: int| 0 <= j < nids.len() && nids[j] == k;
                    if j < idx {
                        assert(ids[j] == k);
                    } else {
                        assert(ids[j + 1] == k);
                    }
                }
            }
            assert forall|i: int| 0 <= i < nids.len() implies #[trigger] self.linked_at(i) by {
                if i < idx {
                    assert(old(self).linked_at(i));
                } else {
                    assert(old(self).linked_at(i + 1));
                }
            }
            assert(self@ =~= old(self)@.remove(idx)) by {
                assert forall|i: int| 0 <= i < nids.len() implies self@[i] == old(self)@.remove(
                    idx,
                )[i] by {
                    if i < idx {
                        assert(old(self).linked_at(i));
                    } else {
                        assert(old(self).linked_at(i + 1));
                    }
                }
            }
            assert(index_of_key(old(self)@, *id) == idx);
        }
        Some(node.value)
    }

    /// The value at the head, if any.
    pub fn peek(&self) -> (r: Option<&T>)
        requires
            self.wf(),
        ensures
            self@.len() == 0 ==> r is None,
            self@.len() > 0 ==> (r matches Some(v) && *v == self@[0]),
    {
        proof {
            self.lemma_view_keys();
        }
        match self.head {
            Some(h) => match self.items.get(&h) {
                Some(node) => Some(&node.value),
                None => None,
            },
            None => None,
        }
    }

    /// The value at the tail, if any.
    pub fn peek_tail(&self) -> (r: Option<&T>)
        requires
            self.wf(),
        ensures
            self@.len() == 0 ==> r is None,
            self@.len() > 0 ==> (r matches Some(v) && *v == self@.last()),
    {
        proof {
            self.lemma_view_keys();
        }
        match self.tail {
            Some(t) => match self.items.get(&t) {
                Some(node) => Some(&node.value),
                None => None,
            },
            None => None,
        }
    }

    /// The value with identifier `id`, if any.
    pub fn get(&self, id: &u128) -> (r: Option<&T>)
        requires
            self.wf(),
        ensures
            !keys_of(self@).contains(*id) ==> r is None,
            keys_of(self@).contains(*id) ==> (r matches Some(v) && *v == self@[index_of_key(
                self@,
                *id,
            )]),
    {
        proof {
            self.lemma_view_keys();
        }
        match self.items.get(id) {
            Some(node) => {
                proof {
                    let ids = self.order@;
                    let idx = ids.index_of(*id);
                    assert(ids.contains(*id));
                    assert(index_of_key(self@, *id) == idx);
                }
                Some(&node.value)
            },
            None => None,
        }
    }

    /// Number of values in the list.
    pub fn len(&self) -> (n: usize)
        requires
            self.wf(),
        ensures
            n == self@.len(),
    {
        proof {
            self.lemma_view_keys();
            self.lemma_dom_len();
        }
        self.items.len()
    }

    /// Whether the list holds no value.
    pub fn is_empty(&self) -> (b: bool)
        requires
            self.wf(),
        ensures
            b == (self@.len() == 0),
    {
        proof {
            self.lemma_view_keys();
            self.lemma_dom_len();
        }
        self.items.is_empty()
    }

    /// Whether a value with identifier `id` is in the list.
    pub fn contains(&self, id: &u128) -> (b: bool)
        requires
            self.wf(),
        ensures
            b == keys_of(self@).contains(*id),
    {
        proof {
            self.lemma_view_keys();
        }
        self.items.contains_key(id)
    }

    /// Removes every value.
    pub fn clear(&mut self)
        ensures
            final(self).wf(),
            final(self)@ == Seq::<T>::empty(),
    {
        self.head = None;
        self.tail = None;
        self.items.clear();
        self.order = Ghost(Seq::empty());
        assert(self@ =~= Seq::<T>::empty());
    }

    proof fn lemma_dom_len(&self)
        requires
            self.wf(),
        ensures
            self.items@.len() == self.order@.len(),
            self.items@.dom().finite(),
    {
        assert(self.items@.dom() =~= self.order@.to_set());
        self.order@.unique_seq_to_set();
    }

    /// Mutable access to the value with identifier `id`, if any: what the
    /// caller writes through it replaces that value, in place (see
    /// `lemma_value_replaced`).
    pub fn get_mut(&mut self, id: &u128) -> (r: Option<&mut T>)
        requires
            old(self).wf(),
        ensures
            !keys_of(old(self)@).contains(*id) ==> r is None && Self::same_state(old(self), final(self)),
            keys_of(old(self)@).contains(*id) ==> (r matches Some(v) && *v == old(self)@[index_of_key(old(self)@, *id)]
                && Self::value_replaced(old(self), final(self), *id, *final(v))),
            !keys_of(old(self)@).contains(*id) ==> final(self).wf() && final(self)@ == old(self)@,
            keys_of(old(self)@).contains(*id) ==> (r matches Some(v) && {
                &&& final(self)@ == old(self)@.update(index_of_key(old(self)@, *id), *final(v))
                &&& final(v).key() == *id ==> final(self).wf()
            }),
    {
        proof {
            self.lemma_view_keys();
            if keys_of(old(self)@).contains(*id) {
                let ids = self.order@;
                let i = ids.index_of(*id);
                assert(ids.contains(*id));
                assert(index_of_key(old(self)@, *id) == i);
                assert(old(self).linked_at(i));
            }
        }
        let r = match node_get_mut(&mut self.items, id) {
            Some(node) => Some(&mut node.value),
            None => None,
        };
        proof {
            broadcast use {LinkedHashmap::lemma_value_replaced, LinkedHashmap::lemma_same_state};
        }
        r
    }

    /// `b` is `a` with nothing changed.
    pub closed spec fn same_state(a: &Self, b: &Self) -> bool {
        &&& b.order@ == a.order@
        &&& b.head == a.head
        &&& b.tail == a.tail
        &&& b.items@ == a.items@
    }

    /// `b` is `a` with the value stored under `id` replaced by `v`.
    pub closed spec fn value_replaced(a: &Self, b: &Self, id: u128, v: T) -> bool {
        &&& b.order@ == a.order@
        &&& b.head == a.head
        &&& b.tail == a.tail
        &&& b.items@ == a.items@.insert(
            id,
            Node { value: v, prev: a.items@[id].prev, next: a.items@[id].next },
        )
    }

    /// A list left unchanged keeps its values and stays well formed.
    pub broadcast proof fn lemma_same_state(a: &Self, b: &Self)
        requires
            a.wf(),
            #[trigger] Self::same_state(a, b),
        ensures
            b.wf(),
            b@ == a@,
    {
        Self::lemma_same_links(a, b);
    }

    /// Replacing the value under `id` replaces it at its position in the
    /// list; the list stays well formed when the identifier is kept.
    pub broadcast proof fn lemma_value_replaced(a: &Self, b: &Self, id: u128, v: T)
        requires
            a.wf(),
            keys_of(a@).contains(id),
            #[trigger] Self::value_replaced(a, b, id, v),
        ensures
            b@ == a@.update(index_of_key(a@, id), v),
            v.key() == id ==> b.wf(),
    {
        a.lemma_view_keys();
        let ids = a.order@;
        let i = ids.index_of(id);
        assert(ids.contains(id));
        assert(index_of_key(a@, id) == i);
        Self::lemma_replace_node(a, b, i, Node { value: v, prev: a.items@[id].prev, next: a.items@[id].next });
    }

    proof fn lemma_same_links(a: &Self, b: &Self)
        requires
            a.wf(),
            b.order@ == a.order@,
            b.head == a.head,
            b.tail == a.tail,
            b.items@ == a.items@,
        ensures
            b.wf(),
            b@ == a@,
    {
        let ids = a.order@;
        assert forall|j: int| 0 <= j < ids.len() implies #[trigger] b.linked_at(j) by {
            assert(a.linked_at(j));
        }
        assert forall|k: u128| #[trigger] b.items@.contains_key(k) <==> ids.contains(k) by {
            assert(a.items@.contains_key(k) <==> ids.contains(k));
        }
        assert(b@ =~= a@);
    }

    proof fn lemma_replace_node(a: &Self, b: &Self, i: int, n: Node<T>)
        requires
            a.wf(),
            0 <= i < a.order@.len(),
            b.order@ == a.order@,
            b.head == a.head,
            b.tail == a.tail,
            b.items@ == a.items@.insert(a.order@[i], n),
            n.prev == a.items@[a.order@[i]].prev,
            n.next == a.items@[a.order@[i]].next,
        ensures
            b@ == a@.update(i, n.value),
            n.value.key() == a.order@[i] ==> b.wf(),
    {
        let ids = a.order@;
        assert(a.linked_at(i));
        assert forall|j: int| 0 <= j < ids.len() && j != i implies b.items@[ids[j]] == a.items@[ids[j]] by {
            assert(ids[j] != ids[i]);
        }
        assert(b@ =~= a@.update(i, n.value));
        if n.value.key() == ids[i] {
            assert forall|j: int| 0 <= j < ids.len() implies #[trigger] b.linked_at(j) by {
                assert(a.linked_at(j));
            }
            assert forall|k: u128| #[trigger] b.items@.contains_key(k) <==> ids.contains(k) by {
                assert(a.items@.contains_key(k) <==> ids.contains(k));
            }
        }
    }
}

/// First in, first out: after pushing `v`, the head is the old head, or `v`
/// when the list was empty; popping it leaves the rest followed by `v`.
pub proof fn law_push_then_pop<T>(s: Seq<T>, v: T)
    ensures
        s.push(v)[0] == (if s.len() == 0 {
            v
        } else {
            s[0]
        }),
        s.len() > 0 ==> s.push(v).drop_first() == s.drop_first().push(v),
{
    if s.len() > 0 {
        assert(s.push(v).drop_first() =~= s.drop_first().push(v));
    }
}

/// Removing by its identifier a value just pushed gives it back and leaves
/// the list as it was.
pub proof fn law_push_then_remove_restores<T: HasId>(s: Seq<T>, v: T)
    requires
        !keys_of(s).contains(v.key()),
    ensures
        ({
            let t = s.push(v);
            let i = index_of_key(t, v.key());
            &&& t[i] == v
            &&& t.remove(i) == s
        }),
{
    let t = s.push(v);
    assert(keys_of(t)[s.len() as int] == v.key());
    let i = index_of_key(t, v.key());
    assert(0 <= i < t.len() && keys_of(t)[i] == v.key());
    if i < s.len() {
        assert(keys_of(s)[i] == v.key());
    }
    assert(t.remove(i) =~= s);
}

/// Putting a popped value back at the front undoes the pop: its identifier
/// is no longer in the rest, so `push_first` restores the list.
pub proof fn law_pop_then_push_first_restores<T: HasId>(s: Seq<T>)
    requires
        s.len() > 0,
        keys_of(s).no_duplicates(),
    ensures
        !keys_of(s.drop_first()).contains(s[0].key()),
        seq![s[0]] + s.drop_first() == s,
{
    if keys_of(s.drop_first()).contains(s[0].key()) {
        let j = choose|j: int| 0 <= j < keys_of(s.drop_first()).len() && keys_of(s.drop_first())[j] == s[0].key();
        assert(keys_of(s)[j + 1] == keys_of(s)[0]);
    }
    assert(seq![s[0]] + s.drop_first() =~= s);
}

impl<T: HasId> Default for LinkedHashmap<T> {
    fn default() -> (l: Self)
        ensures
            l.wf(),
            l@ == Seq::<T>::empty(),
    {
        Self::new()
    }
}

} // verus!
