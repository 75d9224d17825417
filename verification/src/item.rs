use vstd::prelude::*;

use crate::grid::GridPos;

verus! {

/// The kinds of item that can be picked up and consumed.
#[derive(Clone, Copy, Debug, PartialEq, Eq, Hash, Structural)]
pub enum ItemKind {
    Food,
    Water,
}

/// An item lying in the world.
#[derive(Clone, Copy, Debug, PartialEq, Eq, Structural)]
pub struct Item(pub ItemKind);

/// What a consumed item answers: eating or drinking.
#[derive(Clone, Copy, Debug, PartialEq, Eq, Hash, Structural)]
pub enum ConsumeKind {
    Food,
    Water,
}

/// The consume-kind part of the item table: for each item, the kind its entry lists,
/// or `None` when the item has no entry.
#[derive(Clone, Copy, Debug, PartialEq, Eq)]
pub struct ItemTable {
    pub food: Option<ConsumeKind>,
    pub water: Option<ConsumeKind>,
}

impl ItemTable {
    /// The kind that the entry of `id` lists, if `id` has an entry.
    pub open spec fn entry(self, id: ItemKind) -> Option<ConsumeKind> {
        match id {
            ItemKind::Food => self.food,
            ItemKind::Water => self.water,
        }
    }

    /// A table without entries.
    pub fn new() -> (t: ItemTable)
        ensures
            forall|id: ItemKind| #[trigger] t.entry(id) is None,
    {
        ItemTable { food: None, water: None }
    }

    /// Gives `id` an entry of kind `kind`, replacing any entry it had.
    pub fn set(&mut self, id: ItemKind, kind: ConsumeKind)
        ensures
            final(self).entry(id) == Some(kind),
            forall|other: ItemKind| other != id ==> #[trigger] final(self).entry(other) == old(
                self,
            ).entry(other),
    {
        match id {
            ItemKind::Food => self.food = Some(kind),
            ItemKind::Water => self.water = Some(kind),
        }
    }

    /// The kind that the entry of `id` lists, if `id` has an entry.
    pub fn get(&self, id: ItemKind) -> (k: Option<ConsumeKind>)
        ensures
            k == self.entry(id),
    {
        match id {
            ItemKind::Food => self.food,
            ItemKind::Water => self.water,
        }
    }

    /// Whether `id` has an entry of kind `want`.
    pub fn serves(&self, id: ItemKind, want: ConsumeKind) -> (b: bool)
        ensures
            b == serves(*self, id, want),
    {
        match self.get(id) {
            Some(k) => k == want,
            None => false,
        }
    }
}

/// Whether the table lists `id` with kind `want`.
pub open spec fn serves(t: ItemTable, id: ItemKind, want: ConsumeKind) -> bool {
    t.entry(id) == Some(want)
}

/// How many items of the sequence the table lists with kind `want`.
pub open spec fn count_of(t: ItemTable, s: Seq<ItemKind>, want: ConsumeKind) -> nat
    decreases s.len(),
{
    if s.len() == 0 {
        0
    } else {
        count_of(t, s.drop_last(), want) + if serves(t, s.last(), want) {
            1nat
        } else {
            0nat
        }
    }
}

/// The index of the first item that the table lists with kind `want`, if there is one.
pub open spec fn first_index(t: ItemTable, s: Seq<ItemKind>, want: ConsumeKind) -> Option<int>
    decreases s.len(),
{
    if s.len() == 0 {
        None
    } else if serves(t, s[0], want) {
        Some(0)
    } else {
        match first_index(t, s.drop_first(), want) {
            Some(i) => Some(i + 1),
            None => None,
        }
    }
}

/// The items left after the first item listed with kind `want` is taken out
/// (all of them when there is none).
pub open spec fn without_first(t: ItemTable, s: Seq<ItemKind>, want: ConsumeKind) -> Seq<
    ItemKind,
> {
    match first_index(t, s, want) {
        Some(i) => s.remove(i),
        None => s,
    }
}

/// `first_index` is the least index whose item is listed with kind `want`.
pub proof fn lemma_first_index(t: ItemTable, s: Seq<ItemKind>, want: ConsumeKind)
    ensures
        first_index(t, s, want) is None <==> (forall|j: int|
            0 <= j < s.len() ==> !serves(t, #[trigger] s[j], want)),
        first_index(t, s, want) matches Some(i) ==> {
            &&& 0 <= i < s.len()
            &&& serves(t, s[i], want)
            &&& forall|j: int| 0 <= j < i ==> !serves(t, #[trigger] s[j], want)
        },
    decreases s.len(),
{
    if s.len() > 0 {
        lemma_first_index(t, s.drop_first(), want);
        if !serves(t, s[0], want) {
            assert forall|j: int| 0 < j < s.len() implies s[j] == s.drop_first()[j - 1] by {}
            if first_index(t, s, want) is None {
                assert forall|j: int| 0 <= j < s.len() implies !serves(t, #[trigger] s[j], want) by {
                    if j > 0 {
                        assert(s[j] == s.drop_first()[j - 1]);
                    }
                }
            } else {
                let i = first_index(t, s, want)->0;
                assert(s[i] == s.drop_first()[i - 1]);
                assert forall|j: int| 0 <= j < i implies !serves(t, #[trigger] s[j], want) by {
                    if j > 0 {
                        assert(s[j] == s.drop_first()[j - 1]);
                    }
                }
            }
        }
    }
}

/// The least index whose item is listed with kind `want` is the one `first_index` gives.
pub proof fn lemma_first_index_unique(t: ItemTable, s: Seq<ItemKind>, want: ConsumeKind, i: int)
    requires
        0 <= i < s.len(),
        serves(t, s[i], want),
        forall|j: int| 0 <= j < i ==> !serves(t, #[trigger] s[j], want),
    ensures
        first_index(t, s, want) == Some(i),
{
    lemma_first_index(t, s, want);
    assert(!(forall|j: int| 0 <= j < s.len() ==> !serves(t, #[trigger] s[j], want)));
    let f = first_index(t, s, want)->0;
    if f < i {
        assert(!serves(t, s[f], want));
    } else if f > i {
        assert(!serves(t, s[i], want));
    }
}

/// Taking out the first item listed with a kind keeps the items before it and the items
/// after it, in order, and drops only that item.
pub proof fn lemma_without_first_shape(t: ItemTable, s: Seq<ItemKind>, want: ConsumeKind)
    ensures
        first_index(t, s, want) matches Some(i) ==> without_first(t, s, want) == s.take(i) + s.skip(
            i + 1,
        ),
        first_index(t, s, want) is None ==> without_first(t, s, want) == s,
{
    lemma_first_index(t, s, want);
    if let Some(i) = first_index(t, s, want) {
        assert(s.remove(i) =~= s.take(i) + s.skip(i + 1));
    }
}

/// `count_of` counts, in the sequence's multiset, the ids that the table lists with kind `want`.
pub proof fn lemma_count_of_multiset(t: ItemTable, s: Seq<ItemKind>, want: ConsumeKind)
    ensures
        count_of(t, s, want) == (if serves(t, ItemKind::Food, want) {
            s.to_multiset().count(ItemKind::Food)
        } else {
            0
        }) + (if serves(t, ItemKind::Water, want) {
            s.to_multiset().count(ItemKind::Water)
        } else {
            0
        }),
    decreases s.len(),
{
    broadcast use vstd::multiset::group_multiset_axioms;
    broadcast use vstd::seq_lib::group_to_multiset_ensures;

    if s.len() == 0 {
        assert(s.to_multiset() =~= vstd::multiset::Multiset::<ItemKind>::empty());
    } else {
        lemma_count_of_multiset(t, s.drop_last(), want);
        assert(s.drop_last().push(s.last()) =~= s);
    }
}

/// Taking out the first item listed with a kind removes exactly that one item, when there
/// is one, and keeps every other item; the count for that kind drops by one and the count
/// for the other kind is kept.
pub proof fn lemma_take_first_removes_one(
    t: ItemTable,
    s: Seq<ItemKind>,
    want: ConsumeKind,
    other: ConsumeKind,
)
    ensures
        first_index(t, s, want) matches Some(i) ==> without_first(t, s, want).to_multiset()
            == s.to_multiset().remove(s[i]) && serves(t, s[i], want),
        first_index(t, s, want) is None ==> without_first(t, s, want) == s && count_of(t, s, want)
            == 0,
        first_index(t, s, want) is Some ==> count_of(t, without_first(t, s, want), want) + 1
            == count_of(t, s, want),
        other != want ==> count_of(t, without_first(t, s, want), other) == count_of(t, s, other),
        without_first(t, s, want).len() == if first_index(t, s, want) is Some {
            s.len() - 1
        } else {
            s.len() as int
        },
{
    broadcast use vstd::multiset::group_multiset_axioms;
    broadcast use vstd::seq_lib::group_to_multiset_ensures;

    lemma_first_index(t, s, want);
    lemma_count_of_multiset(t, s, want);
    lemma_count_of_multiset(t, s, other);
    lemma_count_of_multiset(t, without_first(t, s, want), want);
    lemma_count_of_multiset(t, without_first(t, s, want), other);
    if let Some(i) = first_index(t, s, want) {
        assert(without_first(t, s, want).to_multiset() == s.to_multiset().remove(s[i]));
        assert(s.to_multiset().count(s[i]) > 0) by {
            assert(s.to_multiset().contains(s[i])) by {
                assert(s.contains(s[i]));
            }
        }
    } else {
        if serves(t, ItemKind::Food, want) && s.to_multiset().count(ItemKind::Food) > 0 {
            assert(s.contains(ItemKind::Food));
            let j = choose|j: int| 0 <= j < s.len() && s[j] == ItemKind::Food;
            assert(!serves(t, s[j], want));
        }
        if serves(t, ItemKind::Water, want) && s.to_multiset().count(ItemKind::Water) > 0 {
            assert(s.contains(ItemKind::Water));
            let j = choose|j: int| 0 <= j < s.len() && s[j] == ItemKind::Water;
            assert(!serves(t, s[j], want));
        }
    }
}

/// Picking up an item listed with a kind that no carried item is listed with, and then
/// taking out the first item listed with that kind, gives back the inventory as it was.
pub proof fn lemma_pick_up_then_take(t: ItemTable, s: Seq<ItemKind>, id: ItemKind, want: ConsumeKind)
    requires
        first_index(t, s, want) is None,
        serves(t, id, want),
    ensures
        without_first(t, s.push(id), want) == s,
{
    lemma_first_index(t, s, want);
    assert forall|j: int| 0 <= j < s.len() implies !serves(t, #[trigger] s.push(id)[j], want) by {
        assert(s.push(id)[j] == s[j]);
    }
    lemma_first_index_unique(t, s.push(id), want, s.len() as int);
    assert(s.push(id).remove(s.len() as int) =~= s);
}

/// An item counts for at most one kind: the two counts add up to at most the number of
/// items, and to exactly that number when every carried item has an entry.
pub proof fn lemma_counts_bounded(t: ItemTable, s: Seq<ItemKind>)
    ensures
        count_of(t, s, ConsumeKind::Food) + count_of(t, s, ConsumeKind::Water) <= s.len(),
        (forall|j: int| 0 <= j < s.len() ==> (#[trigger] t.entry(s[j])) is Some) ==> count_of(
            t,
            s,
            ConsumeKind::Food,
        ) + count_of(t, s, ConsumeKind::Water) == s.len(),
    decreases s.len(),
{
    if s.len() > 0 {
        lemma_counts_bounded(t, s.drop_last());
        if forall|j: int| 0 <= j < s.len() ==> (#[trigger] t.entry(s[j])) is Some {
            assert forall|j: int| 0 <= j < s.drop_last().len() implies (#[trigger] t.entry(
                s.drop_last()[j],
            )) is Some by {
                assert(s.drop_last()[j] == s[j]);
            }
            assert(t.entry(s[s.len() - 1]) is Some);
            assert(s.last() == s[s.len() - 1]);
            match t.entry(s.last()) {
                Some(ConsumeKind::Food) => {},
                Some(ConsumeKind::Water) => {},
                None => {},
            }
        }
    }
}

/// The player's carried items, in the order they were picked up.
pub struct Inventory {
    pub items: Vec<ItemKind>,
}

impl View for Inventory {
    type V = Seq<ItemKind>;

    open spec fn view(&self) -> Seq<ItemKind> {
        self.items@
    }
}

impl Inventory {
    /// An empty inventory.
    pub fn new() -> (inv: Inventory)
        ensures
            inv@ == Seq::<ItemKind>::empty(),
    {
        Inventory { items: Vec::new() }
    }

    /// Adds a picked-up item at the end.
    pub fn pick_up(&mut self, id: ItemKind)
        ensures
            final(self)@ == old(self)@.push(id),
    {
        self.items.push(id);
    }

    /// How many carried items the table lists with kind `want`.
    pub fn count_kind(&self, table: &ItemTable, want: ConsumeKind) -> (n: usize)
        ensures
            n == count_of(*table, self@, want),
    {
        let mut n: usize = 0;
        let mut i: usize = 0;
        while i < self.items.len()
            invariant
                i <= self.items.len(),
                n == count_of(*table, self@.take(i as int), want),
                n <= i,
            decreases self.items.len() - i,
        {
            assert(self@.take(i + 1).drop_last() =~= self@.take(i as int));
            if table.serves(self.items[i], want) {
                n = n + 1;
            }
            i = i + 1;
        }
        assert(self@.take(i as int) =~= self@);
        n
    }

    /// The index of the first carried item that the table lists with kind `want`.
    pub fn position(&self, table: &ItemTable, want: ConsumeKind) -> (r: Option<usize>)
        ensures
            r matches Some(i) ==> first_index(*table, self@, want) == Some(i as int),
            r is None ==> first_index(*table, self@, want) is None,
    {
        let mut i: usize = 0;
        while i < self.items.len()
            invariant
                i <= self.items.len(),
                forall|j: int| 0 <= j < i ==> !serves(*table, #[trigger] self@[j], want),
            decreases self.items.len() - i,
        {
            if table.serves(self.items[i], want) {
                proof {
                    lemma_first_index_unique(*table, self@, want, i as int);
                }
                return Some(i);
            }
            i = i + 1;
        }
        proof {
            lemma_first_index(*table, self@, want);
        }
        None
    }

    /// Takes out the first carried item that the table lists with kind `want` and returns
    /// it; returns `None`, and keeps every item, when no carried item is listed with it.
    pub fn take_first(&mut self, table: &ItemTable, want: ConsumeKind) -> (r: Option<ItemKind>)
        ensures
            r is None <==> first_index(*table, old(self)@, want) is None,
            r matches Some(id) ==> id == old(self)@[first_index(*table, old(self)@, want)->0],
            final(self)@ == without_first(*table, old(self)@, want),
    {
        proof {
            lemma_first_index(*table, self@, want);
        }
        match self.position(table, want) {
            Some(i) => {
                let id = self.items.remove(i);
                Some(id)
            },
            None => None,
        }
    }
}

/// An item placed in the world at the start: tile `(x, y)` and its kind.
#[derive(Clone, Copy, Debug, PartialEq, Eq, Structural)]
pub struct ItemSpawn {
    pub x: i32,
    pub y: i32,
    pub kind: ItemKind,
}

/// The items placed at the start, in order.
pub open spec fn spawn_list() -> Seq<ItemSpawn> {
    seq![
        ItemSpawn { x: 7, y: 5, kind: ItemKind::Food },
        ItemSpawn { x: 6, y: 7, kind: ItemKind::Water },
        ItemSpawn { x: 8, y: 8, kind: ItemKind::Food },
        ItemSpawn { x: 2, y: 8, kind: ItemKind::Water },
    ]
}

/// The items placed at the start.
pub fn item_spawns() -> (spawns: Vec<ItemSpawn>)
    ensures
        spawns@ == spawn_list(),
        spawns@.len() == 4,
        spawns@[0] == (ItemSpawn { x: 7, y: 5, kind: ItemKind::Food }),
        spawns@[1] == (ItemSpawn { x: 6, y: 7, kind: ItemKind::Water }),
        spawns@[2] == (ItemSpawn { x: 8, y: 8, kind: ItemKind::Food }),
        spawns@[3] == (ItemSpawn { x: 2, y: 8, kind: ItemKind::Water }),
{
    let v = vec![
        ItemSpawn { x: 7, y: 5, kind: ItemKind::Food },
        ItemSpawn { x: 6, y: 7, kind: ItemKind::Water },
        ItemSpawn { x: 8, y: 8, kind: ItemKind::Food },
        ItemSpawn { x: 2, y: 8, kind: ItemKind::Water },
    ];
    assert(v@ =~= spawn_list());
    v
}

/// Two food and two water items are placed, each on its own tile inside the starting
/// square: food at (7, 5) and (8, 8), water at (6, 7) and (2, 8).
pub proof fn lemma_spawn_list()
    ensures
        spawn_list().len() == 4,
        spawn_list()[0] == (ItemSpawn { x: 7, y: 5, kind: ItemKind::Food }),
        spawn_list()[1] == (ItemSpawn { x: 6, y: 7, kind: ItemKind::Water }),
        spawn_list()[2] == (ItemSpawn { x: 8, y: 8, kind: ItemKind::Food }),
        spawn_list()[3] == (ItemSpawn { x: 2, y: 8, kind: ItemKind::Water }),
        forall|i: int, j: int|
            0 <= i < j < 4 ==> (spawn_list()[i].x, spawn_list()[i].y) != (
                spawn_list()[j].x,
                spawn_list()[j].y,
            ),
        forall|i: int| 0 <= i < 4 ==> 0 <= #[trigger] spawn_list()[i].x < 10 && 0 <= spawn_list()[i].y < 10,
{
}

impl ItemSpawn {
    /// The tile on which the item is placed.
    pub fn tile(&self) -> (p: GridPos)
        ensures
            p@ == (self.x as int, self.y as int),
    {
        GridPos::new(self.x, self.y)
    }
}

} // verus!
