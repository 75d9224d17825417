use vstd::prelude::*;

use crate::item::{
    first_index, lemma_first_index, lemma_take_first_removes_one, without_first, ConsumeKind, Inventory, ItemKind,
    ItemTable,
};

verus! {

/// A request to eat or drink something from the inventory.
#[derive(Clone, Copy, Debug, PartialEq, Eq, Structural)]
pub enum Consume {
    Eat,
    Drink,
}

impl Consume {
    /// The consume kind that answers the request: food to eat, water to drink.
    pub open spec fn wanted(self) -> ConsumeKind {
        match self {
            Consume::Eat => ConsumeKind::Food,
            Consume::Drink => ConsumeKind::Water,
        }
    }

    /// The consume kind that answers the request.
    pub fn wanted_kind(&self) -> (k: ConsumeKind)
        ensures
            k == self.wanted(),
    {
        match self {
            Consume::Eat => ConsumeKind::Food,
            Consume::Drink => ConsumeKind::Water,
        }
    }
}

/// The requests raised in one frame: eating first, then drinking.
pub open spec fn consume_requests(eat_pressed: bool, drink_pressed: bool) -> Seq<Consume> {
    let eat = if eat_pressed {
        seq![Consume::Eat]
    } else {
        Seq::empty()
    };
    if drink_pressed {
        eat.push(Consume::Drink)
    } else {
        eat
    }
}

/// Turns the eat and drink keys pressed this frame into requests.
pub fn read_consume_input(eat_pressed: bool, drink_pressed: bool) -> (reqs: Vec<Consume>)
    ensures
        reqs@ == consume_requests(eat_pressed, drink_pressed),
{
    let mut reqs: Vec<Consume> = Vec::new();
    if eat_pressed {
        reqs.push(Consume::Eat);
    }
    if drink_pressed {
        reqs.push(Consume::Drink);
    }
    assert(reqs@ =~= consume_requests(eat_pressed, drink_pressed));
    reqs
}

/// Answers one request: takes out the first carried item that the table lists with the
/// wanted kind and returns it, or returns `None` and leaves the inventory when no carried
/// item is listed with it. Items without an entry are never taken.
pub fn consume_one(inventory: &mut Inventory, table: &ItemTable, request: Consume) -> (r: Option<
    ItemKind,
>)
    ensures
        r is None <==> first_index(*table, old(inventory)@, request.wanted()) is None,
        r matches Some(id) ==> id == old(inventory)@[first_index(
            *table,
            old(inventory)@,
            request.wanted(),
        )->0],
        final(inventory)@ == without_first(*table, old(inventory)@, request.wanted()),
{
    let want = request.wanted_kind();
    inventory.take_first(table, want)
}

/// The inventory left after answering the requests in order.
pub open spec fn inventory_after(t: ItemTable, s: Seq<ItemKind>, reqs: Seq<Consume>) -> Seq<
    ItemKind,
>
    decreases reqs.len(),
{
    if reqs.len() == 0 {
        s
    } else {
        inventory_after(t, without_first(t, s, reqs[0].wanted()), reqs.drop_first())
    }
}

/// The items consumed while answering the requests in order.
pub open spec fn consumed_items(t: ItemTable, s: Seq<ItemKind>, reqs: Seq<Consume>) -> Seq<
    ItemKind,
>
    decreases reqs.len(),
{
    if reqs.len() == 0 {
        Seq::empty()
    } else {
        let want = reqs[0].wanted();
        let rest = consumed_items(t, without_first(t, s, want), reqs.drop_first());
        match first_index(t, s, want) {
            Some(i) => seq![s[i]] + rest,
            None => rest,
        }
    }
}

/// Answers every request in order and returns the items consumed, in order; the
/// caller applies what each of them restores.
pub fn apply_consume(inventory: &mut Inventory, table: &ItemTable, requests: &Vec<Consume>) -> (eaten:
    Vec<ItemKind>)
    ensures
        final(inventory)@ == inventory_after(*table, old(inventory)@, requests@),
        eaten@ == consumed_items(*table, old(inventory)@, requests@),
{
    let mut eaten: Vec<ItemKind> = Vec::new();
    let mut i: usize = 0;
    assert(requests@.skip(0) =~= requests@);
    assert(eaten@ + consumed_items(*table, inventory@, requests@) =~= consumed_items(
        *table,
        inventory@,
        requests@,
    ));
    while i < requests.len()
        invariant
            i <= requests.len(),
            inventory_after(*table, old(inventory)@, requests@) == inventory_after(
                *table,
                inventory@,
                requests@.skip(i as int),
            ),
            consumed_items(*table, old(inventory)@, requests@) == eaten@ + consumed_items(
                *table,
                inventory@,
                requests@.skip(i as int),
            ),
        decreases requests.len() - i,
    {
        let ghost before = inventory@;
        let ghost rest = requests@.skip(i as int);
        assert(rest.drop_first() =~= requests@.skip(i + 1));
        assert(rest[0] == requests@[i as int]);
        let r = consume_one(inventory, table, requests[i]);
        match r {
            Some(id) => {
                eaten.push(id);
                assert(consumed_items(*table, before, rest) == seq![id] + consumed_items(
                    *table,
                    inventory@,
                    requests@.skip(i + 1),
                ));
            },
            None => {},
        }
        assert(consumed_items(*table, old(inventory)@, requests@) =~= eaten@ + consumed_items(
            *table,
            inventory@,
            requests@.skip(i + 1),
        ));
        i = i + 1;
    }
    assert(requests@.skip(i as int) =~= Seq::<Consume>::empty());
    assert(eaten@ + Seq::<ItemKind>::empty() =~= eaten@);
    eaten
}

/// Answering requests neither creates nor loses items: what is left and what was
/// consumed together make up the inventory as it was.
pub proof fn lemma_consume_conserves_items(t: ItemTable, s: Seq<ItemKind>, reqs: Seq<Consume>)
    ensures
        inventory_after(t, s, reqs).to_multiset().add(consumed_items(t, s, reqs).to_multiset())
            == s.to_multiset(),
        inventory_after(t, s, reqs).len() + consumed_items(t, s, reqs).len() == s.len(),
        consumed_items(t, s, reqs).len() <= reqs.len(),
    decreases reqs.len(),
{
    broadcast use vstd::multiset::group_multiset_axioms;
    broadcast use vstd::seq_lib::group_to_multiset_ensures;

    if reqs.len() == 0 {
        assert(consumed_items(t, s, reqs).to_multiset()
            =~= vstd::multiset::Multiset::<ItemKind>::empty());
        assert(s.to_multiset().add(vstd::multiset::Multiset::<ItemKind>::empty())
            =~= s.to_multiset());
    } else {
        let want = reqs[0].wanted();
        let s1 = without_first(t, s, want);
        let rest = reqs.drop_first();
        lemma_consume_conserves_items(t, s1, rest);
        lemma_take_first_removes_one(t, s, want, want);
        lemma_first_index(t, s, want);
        if let Some(i) = first_index(t, s, want) {
            let k = s[i];
            let c = consumed_items(t, s1, rest);
            assert(seq![k] + c =~= c.insert(0, k));
            assert((seq![k] + c).to_multiset() =~= c.to_multiset().insert(k));
            assert(s.to_multiset().remove(k).insert(k) =~= s.to_multiset()) by {
                assert(s[i] == k);
                assert(s.contains(k));
                assert(s.to_multiset().contains(k));
            }
            assert(inventory_after(t, s1, rest).to_multiset().add(c.to_multiset().insert(k))
                =~= inventory_after(t, s1, rest).to_multiset().add(c.to_multiset()).insert(k));
        }
    }
}

/// A request consumes an item exactly when some carried item is listed with the wanted
/// kind, and then it consumes the first such item; otherwise it changes nothing.
pub proof fn lemma_request_answered_iff_available(t: ItemTable, s: Seq<ItemKind>, req: Consume)
    ensures
        consumed_items(t, s, seq![req]) == (match first_index(t, s, req.wanted()) {
            Some(i) => seq![s[i]],
            None => Seq::<ItemKind>::empty(),
        }),
        inventory_after(t, s, seq![req]) == without_first(t, s, req.wanted()),
        first_index(t, s, req.wanted()) is None ==> inventory_after(t, s, seq![req]) == s,
{
    let r = seq![req];
    let s1 = without_first(t, s, req.wanted());
    assert(r.drop_first() =~= Seq::<Consume>::empty());
    assert(consumed_items(t, s1, r.drop_first()) == Seq::<ItemKind>::empty());
    assert(inventory_after(t, s1, r.drop_first()) == s1);
    if let Some(i) = first_index(t, s, req.wanted()) {
        assert(seq![s[i]] + Seq::<ItemKind>::empty() =~= seq![s[i]]);
    }
}

/// Answering a list of requests is answering its first part and then, on what is left,
/// its second part: the inventory left and the items consumed compose.
pub proof fn lemma_consume_split(t: ItemTable, s: Seq<ItemKind>, a: Seq<Consume>, b: Seq<Consume>)
    ensures
        inventory_after(t, s, a + b) == inventory_after(t, inventory_after(t, s, a), b),
        consumed_items(t, s, a + b) == consumed_items(t, s, a) + consumed_items(
            t,
            inventory_after(t, s, a),
            b,
        ),
    decreases a.len(),
{
    if a.len() == 0 {
        assert(a + b =~= b);
        assert(Seq::<ItemKind>::empty() + consumed_items(t, s, b) =~= consumed_items(t, s, b));
    } else {
        let want = a[0].wanted();
        let s1 = without_first(t, s, want);
        assert((a + b).drop_first() =~= a.drop_first() + b);
        assert((a + b)[0] == a[0]);
        lemma_consume_split(t, s1, a.drop_first(), b);
        let c1 = consumed_items(t, s1, a.drop_first());
        let c2 = consumed_items(t, inventory_after(t, s1, a.drop_first()), b);
        if let Some(i) = first_index(t, s, want) {
            assert(seq![s[i]] + (c1 + c2) =~= (seq![s[i]] + c1) + c2);
        }
    }
}

/// Every request of a frame is answered, one after the other: answering the requests
/// and then one more request is answering that last request on what the others left,
/// and that request consumes the first item listed with its wanted kind, if there is one.
pub proof fn lemma_consume_push(t: ItemTable, s: Seq<ItemKind>, reqs: Seq<Consume>, req: Consume)
    ensures
        inventory_after(t, s, reqs.push(req)) == without_first(
            t,
            inventory_after(t, s, reqs),
            req.wanted(),
        ),
        consumed_items(t, s, reqs.push(req)) == consumed_items(t, s, reqs) + match first_index(
            t,
            inventory_after(t, s, reqs),
            req.wanted(),
        ) {
            Some(i) => seq![inventory_after(t, s, reqs)[i]],
            None => Seq::<ItemKind>::empty(),
        },
{
    assert(reqs.push(req) =~= reqs + seq![req]);
    lemma_consume_split(t, s, reqs, seq![req]);
    lemma_request_answered_iff_available(t, inventory_after(t, s, reqs), req);
}

/// The requests of one frame: one per pressed key, eating before drinking.
pub proof fn lemma_consume_requests(eat_pressed: bool, drink_pressed: bool)
    ensures
        consume_requests(eat_pressed, drink_pressed).len() == (if eat_pressed {
            1int
        } else {
            0int
        }) + (if drink_pressed {
            1int
        } else {
            0int
        }),
        eat_pressed ==> consume_requests(eat_pressed, drink_pressed)[0] == Consume::Eat,
        drink_pressed ==> consume_requests(eat_pressed, drink_pressed).last() == Consume::Drink,
        forall|i: int|
            0 <= i < consume_requests(eat_pressed, drink_pressed).len() ==> (#[trigger] consume_requests(
                eat_pressed,
                drink_pressed,
            )[i] == Consume::Eat) == (eat_pressed && i == 0),
{
}

/// Eating wants food and drinking wants water.
pub proof fn lemma_wanted_kinds()
    ensures
        Consume::Eat.wanted() == ConsumeKind::Food,
        Consume::Drink.wanted() == ConsumeKind::Water,
{
}

} // verus!
