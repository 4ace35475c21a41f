//! The materialized store.
//!
//! The store maps the id of an entity to the entity's current snapshot. It
//! starts empty and changes only when an event is applied to it. Its model is
//! a map from ids to snapshots; the snapshots are kept in a vector in which
//! no id occurs twice.

use crate::event::{action_named, Action, ProductEvent, ProductEventView};
use crate::text::same_text;
use vstd::prelude::*;
use vstd::string::*;

verus! {

/// The snapshot of one entity.
#[derive(Debug, PartialEq, Eq)]
pub struct Product {
    pub id: String,
    pub kind: String,
    pub name: String,
    pub version: String,
}

/// The mathematical content of a [`Product`].
pub ghost struct ProductView {
    pub id: Seq<char>,
    pub kind: Seq<char>,
    pub name: Seq<char>,
    pub version: Seq<char>,
}

impl View for Product {
    type V = ProductView;

    open spec fn view(&self) -> ProductView {
        ProductView { id: self.id@, kind: self.kind@, name: self.name@, version: self.version@ }
    }
}

impl Clone for Product {
    fn clone(&self) -> (res: Self)
        ensures
            res == *self,
    {
        Product {
            id: self.id.clone(),
            kind: self.kind.clone(),
            name: self.name.clone(),
            version: self.version.clone(),
        }
    }
}

/// The event just applied names no transition that the store knows; the
/// store was left as it was.
#[derive(Debug, Clone, Copy, PartialEq, Eq, Structural)]
pub struct UnrecognizedAction;

/// The snapshot that an event carries.
pub open spec fn snapshot_of(event: ProductEventView) -> ProductView {
    ProductView { id: event.id, kind: event.kind, name: event.name, version: event.version }
}

/// The store after `event` has been applied to the store `before`.
///
/// A creation or an update puts the event's snapshot under the event's id,
/// over whatever was there; a deletion takes the id out; an event with any
/// other name leaves the store as it is.
pub open spec fn applied(
    before: Map<Seq<char>, ProductView>,
    event: ProductEventView,
) -> Map<Seq<char>, ProductView> {
    match action_named(event.event) {
        Some(Action::Created) | Some(Action::Updated) => before.insert(
            event.id,
            snapshot_of(event),
        ),
        Some(Action::Deleted) => before.remove(event.id),
        None => before,
    }
}

/// What the store reports of an event: the transition applied, or that the
/// event's name is not one it knows.
pub open spec fn outcome_of(event: ProductEventView) -> Result<Action, UnrecognizedAction> {
    match action_named(event.event) {
        Some(action) => Ok(action),
        None => Err(UnrecognizedAction),
    }
}

/// No id occurs twice among `entries`.
pub open spec fn distinct_ids(entries: Seq<ProductView>) -> bool {
    forall|i: int, j: int|
        0 <= i < j < entries.len() ==> (#[trigger] entries[i]).id != (#[trigger] entries[j]).id
}

/// Some entry of `entries` has the id `id`.
pub open spec fn holds_id(entries: Seq<ProductView>, id: Seq<char>) -> bool {
    exists|i: int| 0 <= i < entries.len() && (#[trigger] entries[i]).id == id
}

/// The place of an entry with the id `id` in `entries`.
pub open spec fn place_of(entries: Seq<ProductView>, id: Seq<char>) -> int {
    choose|i: int| 0 <= i < entries.len() && (#[trigger] entries[i]).id == id
}

/// The map that `entries` stand for: each id to the entry that has it.
pub open spec fn as_map(entries: Seq<ProductView>) -> Map<Seq<char>, ProductView> {
    Map::new(|id: Seq<char>| holds_id(entries, id), |id: Seq<char>| entries[place_of(entries, id)])
}

/// `listing` lists the values of `store`, each once, in some order.
pub open spec fn lists(listing: Seq<ProductView>, store: Map<Seq<char>, ProductView>) -> bool {
    &&& distinct_ids(listing)
    &&& forall|i: int|
        0 <= i < listing.len() ==> store.contains_key((#[trigger] listing[i]).id) && store[listing[i].id]
            == listing[i]
    &&& forall|id: Seq<char>| store.contains_key(id) ==> holds_id(listing, id)
}

/// Where no id occurs twice, each entry is what the map holds under its id.
pub proof fn lemma_as_map_entry(entries: Seq<ProductView>, i: int)
    requires
        distinct_ids(entries),
        0 <= i < entries.len(),
    ensures
        as_map(entries).contains_key(entries[i].id),
        as_map(entries)[entries[i].id] == entries[i],
        place_of(entries, entries[i].id) == i,
{
    let id = entries[i].id;
    assert(holds_id(entries, id));
    let k = place_of(entries, id);
    assert(0 <= k < entries.len() && entries[k].id == id);
    if k < i {
        assert(entries[k].id != entries[i].id);
    } else if i < k {
        assert(entries[i].id != entries[k].id);
    }
}

/// An entry with a new id, put at the end, is an insertion into the map.
pub proof fn lemma_as_map_push(entries: Seq<ProductView>, entry: ProductView)
    requires
        distinct_ids(entries),
        !holds_id(entries, entry.id),
    ensures
        distinct_ids(entries.push(entry)),
        as_map(entries.push(entry)) == as_map(entries).insert(entry.id, entry),
{
    let after = entries.push(entry);
    assert forall|i: int, j: int| 0 <= i < j < after.len() implies (#[trigger] after[i]).id != (
    #[trigger] after[j]).id by {
        if j < entries.len() {
            assert(entries[i].id != entries[j].id);
        } else {
            assert(after[i] == entries[i]);
        }
    }
    let m = as_map(entries).insert(entry.id, entry);
    assert forall|id: Seq<char>| #[trigger] as_map(after).contains_key(id) <==> m.contains_key(
        id,
    ) by {
        if holds_id(after, id) {
            let k = place_of(after, id);
            if k < entries.len() {
                assert(entries[k] == after[k]);
            }
        }
        if holds_id(entries, id) {
            let k = place_of(entries, id);
            assert(after[k] == entries[k]);
        }
        if id == entry.id {
            assert(after[entries.len() as int] == entry);
        }
    }
    assert forall|id: Seq<char>| #[trigger] as_map(after).contains_key(id) implies as_map(after)[id]
        == m[id] by {
        let k = place_of(after, id);
        lemma_as_map_entry(after, k);
        if k < entries.len() {
            assert(after[k] == entries[k]);
            lemma_as_map_entry(entries, k);
        }
    }
    assert(as_map(after) =~= m);
}

/// Replacing an entry by one with the same id is an insertion into the map.
pub proof fn lemma_as_map_update(entries: Seq<ProductView>, i: int, entry: ProductView)
    requires
        distinct_ids(entries),
        0 <= i < entries.len(),
        entries[i].id == entry.id,
    ensures
        distinct_ids(entries.update(i, entry)),
        as_map(entries.update(i, entry)) == as_map(entries).insert(entry.id, entry),
{
    let after = entries.update(i, entry);
    assert forall|a: int, b: int| 0 <= a < b < after.len() implies (#[trigger] after[a]).id != (
    #[trigger] after[b]).id by {
        assert(entries[a].id != entries[b].id);
    }
    let m = as_map(entries).insert(entry.id, entry);
    assert forall|id: Seq<char>| #[trigger] as_map(after).contains_key(id) <==> m.contains_key(
        id,
    ) by {
        if holds_id(after, id) {
            let k = place_of(after, id);
            assert(entries[k].id == id);
        }
        if holds_id(entries, id) {
            let k = place_of(entries, id);
            assert(after[k].id == id);
        }
        if id == entry.id {
            assert(after[i].id == id);
        }
    }
    assert forall|id: Seq<char>| #[trigger] as_map(after).contains_key(id) implies as_map(after)[id]
        == m[id] by {
        let k = place_of(after, id);
        lemma_as_map_entry(after, k);
        if k != i {
            assert(after[k] == entries[k]);
            lemma_as_map_entry(entries, k);
        }
    }
    assert(as_map(after) =~= m);
}

/// Taking an entry out takes its id out of the map.
pub proof fn lemma_as_map_remove(entries: Seq<ProductView>, i: int)
    requires
        distinct_ids(entries),
        0 <= i < entries.len(),
    ensures
        distinct_ids(entries.remove(i)),
        as_map(entries.remove(i)) == as_map(entries).remove(entries[i].id),
{
    let after = entries.remove(i);
    assert forall|a: int, b: int| 0 <= a < b < after.len() implies (#[trigger] after[a]).id != (
    #[trigger] after[b]).id by {
        let a0 = if a < i { a } else { a + 1 };
        let b0 = if b < i { b } else { b + 1 };
        assert(after[a] == entries[a0]);
        assert(after[b] == entries[b0]);
        assert(entries[a0].id != entries[b0].id);
    }
    let m = as_map(entries).remove(entries[i].id);
    assert forall|id: Seq<char>| #[trigger] as_map(after).contains_key(id) <==> m.contains_key(
        id,
    ) by {
        if holds_id(after, id) {
            let k = place_of(after, id);
            let k0 = if k < i { k } else { k + 1 };
            assert(after[k] == entries[k0]);
            lemma_as_map_entry(entries, k0);
            lemma_as_map_entry(entries, i);
        }
        if holds_id(entries, id) && id != entries[i].id {
            let k = place_of(entries, id);
            let k1 = if k < i { k } else { k - 1 };
            assert(after[k1] == entries[k]);
        }
    }
    assert forall|id: Seq<char>| #[trigger] as_map(after).contains_key(id) implies as_map(after)[id]
        == m[id] by {
        let k = place_of(after, id);
        lemma_as_map_entry(after, k);
        let k0 = if k < i { k } else { k + 1 };
        assert(after[k] == entries[k0]);
        lemma_as_map_entry(entries, k0);
    }
    assert(as_map(after) =~= m);
}

/// The contents of `products`, one by one.
pub open spec fn snapshots(products: Seq<Product>) -> Seq<ProductView> {
    Seq::new(products.len(), |i: int| products[i]@)
}

/// The materialized store.
///
/// Reading borrows the store and changing it borrows it exclusively, so a
/// reader never sees an event half applied; a program that shares the store
/// between tasks puts it behind a lock.
pub struct AppState {
    products: Vec<Product>,
}

impl View for AppState {
    type V = Map<Seq<char>, ProductView>;

    /// The store as a map from each id to its current snapshot.
    closed spec fn view(&self) -> Map<Seq<char>, ProductView> {
        as_map(self.entries())
    }
}

impl AppState {
    /// The snapshots in the order in which the store keeps them.
    pub closed spec fn entries(&self) -> Seq<ProductView> {
        snapshots(self.products@)
    }

    #[verifier::type_invariant]
    spec fn no_id_twice(&self) -> bool {
        distinct_ids(self.entries())
    }

    /// An empty store.
    pub fn new() -> (res: AppState)
        ensures
            res@ == Map::<Seq<char>, ProductView>::empty(),
    {
        let res = AppState { products: Vec::new() };
        assert(res@ =~= Map::<Seq<char>, ProductView>::empty()) by {
            assert(res.entries().len() == 0);
        }
        res
    }

    /// The place of the entry with the id `id`, if there is one.
    fn find(&self, id: &str) -> (res: Option<usize>)
        ensures
            match res {
                Some(i) => i < self.entries().len() && self.entries()[i as int].id == id@,
                None => !holds_id(self.entries(), id@),
            },
    {
        let mut i: usize = 0;
        while i < self.products.len()
            invariant
                i <= self.products@.len(),
                forall|j: int| 0 <= j < i ==> (#[trigger] self.entries()[j]).id != id@,
            decreases self.products@.len() - i,
        {
            if same_text(self.products[i].id.as_str(), id) {
                return Some(i);
            }
            i += 1;
        }
        None
    }

    /// The current snapshot of the entity with the id `id`.
    pub fn get(&self, id: &str) -> (res: Option<&Product>)
        ensures
            match res {
                Some(product) => self@.contains_key(id@) && product@ == self@[id@],
                None => !self@.contains_key(id@),
            },
    {
        proof {
            use_type_invariant(self);
        }
        match self.find(id) {
            Some(i) => {
                proof {
                    lemma_as_map_entry(self.entries(), i as int);
                }
                Some(&self.products[i])
            },
            None => None,
        }
    }

    /// Every snapshot in the store, each once. The order carries no meaning.
    pub fn list(&self) -> (res: Vec<Product>)
        ensures
            snapshots(res@) == self.entries(),
            lists(snapshots(res@), self@),
    {
        proof {
            use_type_invariant(self);
            self.lemma_entries_list();
        }
        let mut res: Vec<Product> = Vec::new();
        let mut i: usize = 0;
        while i < self.products.len()
            invariant
                i <= self.products@.len(),
                res@.len() == i,
                forall|j: int| 0 <= j < i ==> (#[trigger] res@[j])@ == self.entries()[j],
            decreases self.products@.len() - i,
        {
            res.push(self.products[i].clone());
            i += 1;
        }
        assert(snapshots(res@) =~= self.entries());
        res
    }

    /// The entries of a store list the store.
    proof fn lemma_entries_list(&self)
        requires
            distinct_ids(self.entries()),
        ensures
            lists(self.entries(), self@),
    {
        let entries = self.entries();
        assert forall|i: int| 0 <= i < entries.len() implies self@.contains_key(
            (#[trigger] entries[i]).id,
        ) && self@[entries[i].id] == entries[i] by {
            lemma_as_map_entry(entries, i);
        }
    }

    /// Puts `product` under its id, over the snapshot that was there if any.
    fn upsert(&mut self, product: Product)
        ensures
            final(self)@ == old(self)@.insert(product@.id, product@),
    {
        proof {
            use_type_invariant(&*self);
        }
        let ghost before = self.entries();
        match self.find(product.id.as_str()) {
            Some(i) => {
                proof {
                    lemma_as_map_update(before, i as int, product@);
                }
                let mut products: Vec<Product> = Vec::new();
                std::mem::swap(&mut products, &mut self.products);
                products.set(i, product);
                assert(snapshots(products@) =~= before.update(i as int, product@));
                self.products = products;
            },
            None => {
                proof {
                    lemma_as_map_push(before, product@);
                }
                let mut products: Vec<Product> = Vec::new();
                std::mem::swap(&mut products, &mut self.products);
                products.push(product);
                assert(snapshots(products@) =~= before.push(product@));
                self.products = products;
            },
        }
    }

    /// Takes the id `id` out of the store, if it is there.
    fn remove(&mut self, id: &str)
        ensures
            final(self)@ == old(self)@.remove(id@),
    {
        proof {
            use_type_invariant(&*self);
        }
        let ghost before = self.entries();
        match self.find(id) {
            Some(i) => {
                proof {
                    lemma_as_map_remove(before, i as int);
                }
                let mut products: Vec<Product> = Vec::new();
                std::mem::swap(&mut products, &mut self.products);
                products.remove(i);
                assert(snapshots(products@) =~= before.remove(i as int));
                self.products = products;
            },
            None => {
                assert(self@.remove(id@) =~= self@);
            },
        }
    }

    /// Applies `event` to the store.
    ///
    /// `CREATED` and `UPDATED` store the event's snapshot under the event's
    /// id. `DELETED` removes the id, and does nothing where the id is absent.
    /// An event with any other name changes nothing and is reported as
    /// unrecognized.
    pub fn apply(&mut self, event: &ProductEvent) -> (res: Result<Action, UnrecognizedAction>)
        ensures
            final(self)@ == applied(old(self)@, event@),
            res == outcome_of(event@),
    {
        match Action::parse(event.event.as_str()) {
            Some(Action::Deleted) => {
                self.remove(event.id.as_str());
                Ok(Action::Deleted)
            },
            Some(action) => {
                let product = Product {
                    id: event.id.clone(),
                    kind: event.kind.clone(),
                    name: event.name.clone(),
                    version: event.version.clone(),
                };
                self.upsert(product);
                Ok(action)
            },
            None => Err(UnrecognizedAction),
        }
    }
}

/// Applying an event twice leaves the store as applying it once does. In
/// particular a creation or an update that is delivered again changes
/// nothing.
pub proof fn lemma_apply_idempotent(store: Map<Seq<char>, ProductView>, event: ProductEventView)
    ensures
        applied(applied(store, event), event) == applied(store, event),
{
    assert(applied(applied(store, event), event) =~= applied(store, event));
}

/// Deleting an id that the store does not hold leaves the store unchanged.
pub proof fn lemma_delete_absent(store: Map<Seq<char>, ProductView>, event: ProductEventView)
    requires
        action_named(event.event) == Some(Action::Deleted),
        !store.contains_key(event.id),
    ensures
        applied(store, event) == store,
{
    assert(applied(store, event) =~= store);
}

/// An event whose name the store does not know never changes the store.
pub proof fn lemma_unrecognized_changes_nothing(
    store: Map<Seq<char>, ProductView>,
    event: ProductEventView,
)
    requires
        action_named(event.event) is None,
    ensures
        applied(store, event) == store,
{
}

/// After a creation or an update the store holds the event's snapshot under
/// the event's id, and every other id as before.
pub proof fn lemma_upsert_stores_snapshot(
    store: Map<Seq<char>, ProductView>,
    event: ProductEventView,
    other: Seq<char>,
)
    requires
        action_named(event.event) == Some(Action::Created) || action_named(event.event) == Some(
            Action::Updated,
        ),
        other != event.id,
    ensures
        applied(store, event).contains_key(event.id),
        applied(store, event)[event.id] == snapshot_of(event),
        applied(store, event).contains_key(other) == store.contains_key(other),
        store.contains_key(other) ==> applied(store, event)[other] == store[other],
{
}

} // verus!
