//! Items and the lists that they are kept in, sorted by name.
use vstd::prelude::*;
use crate::text::{
    is_text_le, lemma_text_le_antisymmetric, lemma_text_le_total, lemma_text_le_transitive, text_le,
};
use crate::values::Id;

verus! {

/// An item whose pod has been loaded.
#[derive(Debug)]
pub struct Item {
    pub name: String,
    pub id: Id,
    /// The place of the crafted item in the store of the application.
    pub crafted_item: usize,
    pub path: String,
}

impl Clone for Item {
    fn clone(&self) -> (r: Self)
        ensures
            r == *self,
    {
        Item {
            name: self.name.clone(),
            id: self.id,
            crafted_item: self.crafted_item,
            path: self.path.clone(),
        }
    }
}

/// The identifier that a pod gives its item: the first argument of the first public statement,
/// if it is a literal.
///
/// Each statement is given by its arguments, and each argument by its commitment if it is a
/// literal.
pub open spec fn pod_item_id(public_statements: Seq<Vec<Option<Id>>>) -> Option<Id> {
    if public_statements.len() > 0 && public_statements[0]@.len() > 0 {
        public_statements[0]@[0]
    } else {
        None
    }
}

impl Item {
    /// The item of a pod; `None` if the public statements give it no identifier.
    pub fn from_pod(
        name: String,
        public_statements: &Vec<Vec<Option<Id>>>,
        crafted_item: usize,
        path: String,
    ) -> (r: Option<Item>)
        ensures
            r == match pod_item_id(public_statements@) {
                Some(id) => Some(Item { name, id, crafted_item, path }),
                None => None,
            },
    {
        if public_statements.len() > 0 && public_statements[0].len() > 0 {
            match public_statements[0][0] {
                Some(id) => Some(Item { name, id, crafted_item, path }),
                None => None,
            }
        } else {
            None
        }
    }
}

/// The names ascend.
pub open spec fn sorted_by_name(items: Seq<Item>) -> bool {
    forall|i: int, j: int|
        0 <= i <= j < items.len() ==> text_le(
            (#[trigger] items[i]).name@,
            (#[trigger] items[j]).name@,
        )
}

/// The items of a name.
pub open spec fn called(name: Seq<char>) -> spec_fn(Item) -> bool {
    |item: Item| item.name@ == name
}

/// `after` is `before` sorted by name, items of one name in the order in which they were.
pub open spec fn stably_sorted(after: Seq<Item>, before: Seq<Item>) -> bool {
    &&& sorted_by_name(after)
    &&& forall|name: Seq<char>| #[trigger]
        after.filter(called(name)) == before.filter(called(name))
}

/// Putting `x` before the items that do not come before it keeps the order, and puts `x` before
/// the items of its name.
proof fn lemma_insert(s: Seq<Item>, p: int, x: Item)
    requires
        sorted_by_name(s),
        0 <= p <= s.len(),
        forall|i: int| 0 <= i < p ==> !text_le(x.name@, (#[trigger] s[i]).name@),
        p < s.len() ==> text_le(x.name@, s[p].name@),
    ensures
        sorted_by_name(s.insert(p, x)),
        forall|name: Seq<char>| #[trigger]
            s.insert(p, x).filter(called(name)) == (seq![x] + s).filter(called(name)),
{
    let t = s.insert(p, x);
    let left = s.take(p);
    let right = s.skip(p);
    assert(t =~= left + seq![x] + right);
    assert(s =~= left + right);
    assert forall|i: int, j: int| 0 <= i <= j < t.len() implies text_le(
        (#[trigger] t[i]).name@,
        (#[trigger] t[j]).name@,
    ) by {
        lemma_text_le_total(t[i].name@, t[j].name@);
        if i < p && j == p {
            lemma_text_le_total(x.name@, s[i].name@);
        } else if i == p && j > p {
            lemma_text_le_transitive(x.name@, s[p].name@, s[j - 1].name@);
        }
    }
    assert forall|name: Seq<char>| #[trigger]
        t.filter(called(name)) == (seq![x] + s).filter(called(name)) by {
        let f = called(name);
        let none = Seq::<Item>::empty();
        Seq::filter_distributes_over_add(left + seq![x], right, f);
        Seq::filter_distributes_over_add(left, seq![x], f);
        Seq::filter_distributes_over_add(seq![x], s, f);
        Seq::filter_distributes_over_add(left, right, f);
        if name == x.name@ {
            assert forall|i: int| 0 <= i < left.len() implies !f(#[trigger] left[i]) by {
                if left[i].name@ == name {
                    lemma_text_le_total(name, name);
                    assert(!text_le(x.name@, s[i].name@));
                }
            }
            lemma_filter_none(left, f);
        } else {
            lemma_filter_none(seq![x], f);
        }
        assert(t.filter(f) =~= (seq![x] + s).filter(f));
    }
}

/// A filter that no element passes leaves nothing.
proof fn lemma_filter_none(s: Seq<Item>, f: spec_fn(Item) -> bool)
    requires
        forall|i: int| 0 <= i < s.len() ==> !f(#[trigger] s[i]),
    ensures
        s.filter(f) == Seq::<Item>::empty(),
    decreases s.len(),
{
    reveal(Seq::filter);
    if s.len() > 0 {
        assert forall|i: int| 0 <= i < s.drop_last().len() implies !f(
            #[trigger] s.drop_last()[i],
        ) by {
            assert(s.drop_last()[i] == s[i]);
        }
        lemma_filter_none(s.drop_last(), f);
    }
    assert(s.filter(f) =~= Seq::<Item>::empty());
}

/// Sorts items by name; items of one name keep their order.
pub fn sort_by_name(items: Vec<Item>) -> (r: Vec<Item>)
    ensures
        stably_sorted(r@, items@),
{
    let mut rest = items;
    let mut r: Vec<Item> = Vec::new();
    assert(items@.skip(items@.len() as int) =~= Seq::<Item>::empty());
    while rest.len() > 0
        invariant
            rest@.len() <= items@.len(),
            rest@ == items@.take(rest@.len() as int),
            sorted_by_name(r@),
            forall|name: Seq<char>| #[trigger]
                r@.filter(called(name)) == items@.skip(rest@.len() as int).filter(called(name)),
        decreases rest@.len(),
    {
        let ghost n = rest@.len() as int;
        match rest.pop() {
            Some(x) => {
                assert(x == items@[n - 1]);
                let mut p: usize = 0;
                while p < r.len() && !is_text_le(x.name.as_str(), r[p].name.as_str())
                    invariant
                        p <= r@.len(),
                        forall|i: int|
                            0 <= i < p ==> !text_le(x.name@, (#[trigger] r@[i]).name@),
                    decreases r@.len() - p,
                {
                    p = p + 1;
                }
                let ghost before = r@;
                proof {
                    lemma_insert(before, p as int, x);
                }
                r.insert(p, x);
                assert(rest@ =~= items@.take(n - 1));
                assert forall|name: Seq<char>| #[trigger]
                    r@.filter(called(name)) == items@.skip(n - 1).filter(called(name)) by {
                    let f = called(name);
                    assert(items@.skip(n - 1) =~= seq![x] + items@.skip(n));
                    Seq::filter_distributes_over_add(seq![x], items@.skip(n), f);
                    Seq::filter_distributes_over_add(seq![x], before, f);
                    assert(before.filter(f) == items@.skip(n).filter(f));
                }
            },
            None => {},
        }
    }
    assert(items@.skip(0) =~= items@);
    r
}

/// Sorting a sorted list with one more item is sorting the whole list.
pub proof fn lemma_sort_extends(sorted: Seq<Item>, before: Seq<Item>, item: Item, after: Seq<Item>)
    requires
        stably_sorted(sorted, before),
        stably_sorted(after, sorted.push(item)),
    ensures
        stably_sorted(after, before.push(item)),
{
    assert forall|name: Seq<char>| #[trigger]
        after.filter(called(name)) == before.push(item).filter(called(name)) by {
        let f = called(name);
        sorted.lemma_filter_push(item, f);
        before.lemma_filter_push(item, f);
        assert(sorted.filter(f) == before.filter(f));
        assert(after.filter(f) == sorted.push(item).filter(f));
    }
}

/// Sorting a list that is sorted changes nothing.
pub proof fn law_sorted_list_stays(items: Seq<Item>, after: Seq<Item>)
    requires
        sorted_by_name(items),
        stably_sorted(after, items),
    ensures
        after == items,
{
    law_sort_is_unique(after, items, items);
}

/// A list has one sorted list only.
pub proof fn law_sort_is_unique(a: Seq<Item>, b: Seq<Item>, before: Seq<Item>)
    requires
        stably_sorted(a, before),
        stably_sorted(b, before),
    ensures
        a == b,
{
    assert forall|name: Seq<char>| #[trigger]
        a.filter(called(name)) == b.filter(called(name)) by {
        assert(a.filter(called(name)) == before.filter(called(name)));
        assert(b.filter(called(name)) == before.filter(called(name)));
    }
    lemma_same_names_same_list(a, b);
}

/// The first item of a name heads the items of that name.
proof fn lemma_filter_first(s: Seq<Item>, f: spec_fn(Item) -> bool)
    requires
        s.len() > 0,
    ensures
        f(s[0]) ==> s.filter(f) == seq![s[0]] + s.drop_first().filter(f),
        !f(s[0]) ==> s.filter(f) == s.drop_first().filter(f),
{
    assert(s =~= seq![s[0]] + s.drop_first());
    Seq::filter_distributes_over_add(seq![s[0]], s.drop_first(), f);
    reveal(Seq::filter);
    assert(seq![s[0]].drop_last() =~= Seq::<Item>::empty());
    assert(Seq::<Item>::empty().filter(f) =~= Seq::<Item>::empty());
    if f(s[0]) {
        assert(seq![s[0]].filter(f) =~= seq![s[0]]);
    } else {
        assert(seq![s[0]].filter(f) =~= Seq::<Item>::empty());
        assert(Seq::<Item>::empty() + s.drop_first().filter(f) =~= s.drop_first().filter(f));
    }
}

/// In a sorted list that holds items of the name of `x`, the first item comes before `x`.
proof fn lemma_first_is_least(s: Seq<Item>, x: Item)
    requires
        sorted_by_name(s),
        s.filter(called(x.name@)).len() > 0,
    ensures
        s.len() > 0,
        text_le(s[0].name@, x.name@),
{
    let f = called(x.name@);
    if forall|i: int| 0 <= i < s.len() ==> !f(#[trigger] s[i]) {
        lemma_filter_none(s, f);
    }
    let k = choose|k: int| 0 <= k < s.len() && f(#[trigger] s[k]);
    assert(text_le(s[0].name@, s[k].name@));
}

/// Sorted lists that hold the same items of each name are equal.
proof fn lemma_same_names_same_list(a: Seq<Item>, b: Seq<Item>)
    requires
        sorted_by_name(a),
        sorted_by_name(b),
        forall|name: Seq<char>| #[trigger] a.filter(called(name)) == b.filter(called(name)),
    ensures
        a == b,
    decreases a.len(),
{
    if a.len() == 0 {
        if b.len() > 0 {
            let f = called(b[0].name@);
            lemma_filter_first(b, f);
            lemma_filter_none(a, f);
            assert(a.filter(f) == b.filter(f));
        }
        assert(a =~= b);
    } else {
        let f = called(a[0].name@);
        lemma_filter_first(a, f);
        assert(a.filter(f) == b.filter(f));
        lemma_first_is_least(b, a[0]);
        let g = called(b[0].name@);
        lemma_filter_first(b, g);
        assert(a.filter(g) == b.filter(g));
        lemma_first_is_least(a, b[0]);
        lemma_text_le_antisymmetric(a[0].name@, b[0].name@);
        assert(a.filter(f)[0] == a[0]);
        assert(b.filter(g)[0] == b[0]);
        assert(a[0] == b[0]);
        let at = a.drop_first();
        let bt = b.drop_first();
        assert forall|name: Seq<char>| #[trigger]
            at.filter(called(name)) == bt.filter(called(name)) by {
            let h = called(name);
            lemma_filter_first(a, h);
            lemma_filter_first(b, h);
            assert(a.filter(h) == b.filter(h));
            if h(a[0]) {
                assert(at.filter(h) =~= (seq![a[0]] + at.filter(h)).drop_first());
                assert(bt.filter(h) =~= (seq![a[0]] + bt.filter(h)).drop_first());
            }
        }
        lemma_same_names_same_list(at, bt);
        assert(a =~= seq![a[0]] + at);
        assert(b =~= seq![b[0]] + bt);
    }
}

/// Items of one name are counted among the items of that name.
proof fn lemma_count_called(s: Seq<Item>, item: Item)
    ensures
        s.to_multiset().count(item) == s.filter(called(item.name@)).to_multiset().count(item),
    decreases s.len(),
{
    broadcast use vstd::seq_lib::group_to_multiset_ensures;

    let f = called(item.name@);
    reveal(Seq::filter);
    if s.len() > 0 {
        let init = s.drop_last();
        lemma_count_called(init, item);
        assert(s =~= init.push(s.last()));
        init.lemma_filter_push(s.last(), f);
    }
}

/// Sorting keeps every item as often as it was there.
pub proof fn law_sort_keeps_items(after: Seq<Item>, before: Seq<Item>)
    requires
        stably_sorted(after, before),
    ensures
        after.to_multiset() == before.to_multiset(),
        after.len() == before.len(),
{
    broadcast use vstd::seq_lib::group_to_multiset_ensures;

    assert forall|item: Item|
        after.to_multiset().count(item) == before.to_multiset().count(item) by {
        lemma_count_called(after, item);
        lemma_count_called(before, item);
        assert(after.filter(called(item.name@)) == before.filter(called(item.name@)));
    }
    assert(after.to_multiset() =~= before.to_multiset());
    assert(after.to_multiset().len() == after.len());
    assert(before.to_multiset().len() == before.len());
}

/// No two items have one name.
pub open spec fn distinct_names(items: Seq<Item>) -> bool {
    forall|i: int, j: int|
        0 <= i < items.len() && 0 <= j < items.len() && (#[trigger] items[i]).name@ == (
        #[trigger] items[j]).name@ ==> i == j
}

/// In a list of distinct names, an item is all that its name selects.
proof fn lemma_filter_distinct(s: Seq<Item>, k: int)
    requires
        distinct_names(s),
        0 <= k < s.len(),
    ensures
        s.filter(called(s[k].name@)) == seq![s[k]],
{
    let f = called(s[k].name@);
    let left = s.take(k);
    let right = s.skip(k + 1);
    assert(s =~= left + (seq![s[k]] + right));
    assert forall|i: int| 0 <= i < left.len() implies !f(#[trigger] left[i]) by {
        assert(left[i] == s[i]);
    }
    assert forall|i: int| 0 <= i < right.len() implies !f(#[trigger] right[i]) by {
        assert(right[i] == s[k + 1 + i]);
    }
    lemma_filter_none(left, f);
    lemma_filter_none(right, f);
    Seq::filter_distributes_over_add(left, seq![s[k]] + right, f);
    lemma_filter_first(seq![s[k]] + right, f);
    assert((seq![s[k]] + right).drop_first() =~= right);
    assert(s.filter(f) =~= seq![s[k]]);
}

/// What an item is apart from its place in the store: its name, its identifier and its path.
pub type Tag = (Seq<char>, Id, Seq<char>);

/// The tags of a list of items.
pub open spec fn tags(items: Seq<Item>) -> Seq<Tag> {
    items.map_values(|item: Item| (item.name@, item.id, item.path@))
}

/// Two items of one name make the items of that name at least two.
proof fn lemma_filter_two(s: Seq<Item>, f: spec_fn(Item) -> bool, i: int, j: int)
    requires
        0 <= i < j < s.len(),
        f(s[i]),
        f(s[j]),
    ensures
        s.filter(f).len() >= 2,
{
    let left = s.take(i + 1);
    let right = s.skip(i + 1);
    assert(s =~= left + right);
    Seq::filter_distributes_over_add(left, right, f);
    assert(left[i] == s[i]);
    assert(right[j - i - 1] == s[j]);
    left.lemma_filter_contains(f, i);
    right.lemma_filter_contains(f, j - i - 1);
    assert(left.filter(f).len() > 0);
    assert(right.filter(f).len() > 0);
}

/// Sorting a list of distinct names keeps them distinct, and keeps the tags.
proof fn lemma_sort_keeps_tags(after: Seq<Item>, before: Seq<Item>)
    requires
        distinct_names(before),
        stably_sorted(after, before),
    ensures
        distinct_names(after),
        forall|tag: Tag| tags(after).contains(tag) <==> tags(before).contains(tag),
{
    broadcast use vstd::seq_lib::group_to_multiset_ensures;

    law_sort_keeps_items(after, before);
    assert forall|i: int|
        0 <= i < after.len() implies exists|k: int| 0 <= k < before.len() && before[k]
        == #[trigger] after[i] by {
        assert(after.contains(after[i]));
        assert(before.to_multiset().count(after[i]) > 0);
        assert(before.contains(after[i]));
    }
    assert forall|i: int, j: int|
        0 <= i < after.len() && 0 <= j < after.len() && (#[trigger] after[i]).name@ == (
        #[trigger] after[j]).name@ implies i == j by {
        let f = called(after[i].name@);
        let k = choose|k: int| 0 <= k < before.len() && before[k] == after[i];
        lemma_filter_distinct(before, k);
        assert(after.filter(f) == before.filter(f));
        if i < j {
            lemma_filter_two(after, f, i, j);
        } else if j < i {
            lemma_filter_two(after, f, j, i);
        }
    }
    assert forall|tag: Tag| tags(after).contains(tag) <==> tags(before).contains(tag) by {
        if tags(after).contains(tag) {
            let i = choose|i: int| 0 <= i < after.len() && tags(after)[i] == tag;
            let k = choose|k: int| 0 <= k < before.len() && before[k] == after[i];
            assert(tags(before)[k] == tag);
        }
        if tags(before).contains(tag) {
            let k = choose|k: int| 0 <= k < before.len() && tags(before)[k] == tag;
            assert(before.contains(before[k]));
            assert(after.to_multiset().count(before[k]) > 0);
            assert(after.contains(before[k]));
            let i = choose|i: int| 0 <= i < after.len() && after[i] == before[k];
            assert(tags(after)[i] == tag);
        }
    }
}

/// Ascending lists of distinct names that hold the same tags are equal in their tags.
proof fn lemma_same_tags_same_list(a: Seq<Tag>, b: Seq<Tag>)
    requires
        forall|i: int, j: int|
            0 <= i <= j < a.len() ==> text_le((#[trigger] a[i]).0, (#[trigger] a[j]).0),
        forall|i: int, j: int|
            0 <= i <= j < b.len() ==> text_le((#[trigger] b[i]).0, (#[trigger] b[j]).0),
        forall|i: int, j: int|
            0 <= i < a.len() && 0 <= j < a.len() && (#[trigger] a[i]).0 == (#[trigger] a[j]).0
                ==> i == j,
        forall|i: int, j: int|
            0 <= i < b.len() && 0 <= j < b.len() && (#[trigger] b[i]).0 == (#[trigger] b[j]).0
                ==> i == j,
        forall|tag: Tag| #[trigger] a.contains(tag) <==> b.contains(tag),
    ensures
        a == b,
    decreases a.len(),
{
    if a.len() == 0 {
        if b.len() > 0 {
            assert(b.contains(b[0]));
            assert(a.contains(b[0]));
        }
        assert(a =~= b);
    } else {
        assert(a.contains(a[0]));
        assert(b.contains(a[0]));
        let j = choose|j: int| 0 <= j < b.len() && b[j] == a[0];
        assert(b.contains(b[0]));
        assert(a.contains(b[0]));
        let i = choose|i: int| 0 <= i < a.len() && a[i] == b[0];
        assert(text_le(b[0].0, b[j].0));
        assert(text_le(a[0].0, a[i].0));
        lemma_text_le_antisymmetric(a[0].0, b[0].0);
        assert(b[j].0 == b[0].0);
        assert(a[0] == b[0]);
        let at = a.drop_first();
        let bt = b.drop_first();
        assert forall|tag: Tag| #[trigger] at.contains(tag) <==> bt.contains(tag) by {
            if at.contains(tag) {
                let k = choose|k: int| 0 <= k < at.len() && at[k] == tag;
                assert(a[k + 1] == tag);
                assert(a.contains(tag));
                assert(b.contains(tag));
                let m = choose|m: int| 0 <= m < b.len() && b[m] == tag;
                assert(a[k + 1].0 != a[0].0);
                assert(m != 0);
                assert(bt[m - 1] == tag);
            }
            if bt.contains(tag) {
                let k = choose|k: int| 0 <= k < bt.len() && bt[k] == tag;
                assert(b[k + 1] == tag);
                assert(b.contains(tag));
                assert(a.contains(tag));
                let m = choose|m: int| 0 <= m < a.len() && a[m] == tag;
                assert(b[k + 1].0 != b[0].0);
                assert(m != 0);
                assert(at[m - 1] == tag);
            }
        }
        lemma_same_tags_same_list(at, bt);
        assert(a =~= seq![a[0]] + at);
        assert(b =~= seq![b[0]] + bt);
    }
}

/// The order in which items of distinct names are found does not matter: lists that hold the same
/// names, identifiers and paths are sorted into lists that agree in these.
pub proof fn law_order_of_finding_is_irrelevant(
    first: Seq<Item>,
    second: Seq<Item>,
    first_sorted: Seq<Item>,
    second_sorted: Seq<Item>,
)
    requires
        distinct_names(first),
        distinct_names(second),
        tags(first).to_set() == tags(second).to_set(),
        stably_sorted(first_sorted, first),
        stably_sorted(second_sorted, second),
    ensures
        tags(first_sorted) == tags(second_sorted),
{
    lemma_sort_keeps_tags(first_sorted, first);
    lemma_sort_keeps_tags(second_sorted, second);
    let a = tags(first_sorted);
    let b = tags(second_sorted);
    assert forall|tag: Tag| #[trigger] a.contains(tag) <==> b.contains(tag) by {
        assert(tags(first).to_set().contains(tag) == tags(first).contains(tag));
        assert(tags(second).to_set().contains(tag) == tags(second).contains(tag));
    }
    assert forall|i: int, j: int| 0 <= i <= j < a.len() implies text_le(
        (#[trigger] a[i]).0,
        (#[trigger] a[j]).0,
    ) by {
        assert(text_le(first_sorted[i].name@, first_sorted[j].name@));
    }
    assert forall|i: int, j: int| 0 <= i <= j < b.len() implies text_le(
        (#[trigger] b[i]).0,
        (#[trigger] b[j]).0,
    ) by {
        assert(text_le(second_sorted[i].name@, second_sorted[j].name@));
    }
    assert forall|i: int, j: int|
        0 <= i < a.len() && 0 <= j < a.len() && (#[trigger] a[i]).0 == (#[trigger] a[j]).0 implies i
        == j by {
        assert(first_sorted[i].name@ == first_sorted[j].name@);
    }
    assert forall|i: int, j: int|
        0 <= i < b.len() && 0 <= j < b.len() && (#[trigger] b[i]).0 == (#[trigger] b[j]).0 implies i
        == j by {
        assert(second_sorted[i].name@ == second_sorted[j].name@);
    }
    lemma_same_tags_same_list(a, b);
}

/// What was found at one entry of a directory.
#[derive(Debug)]
pub enum Entry {
    /// A directory, which holds no item itself.
    Dir,
    /// A file with an item.
    File(Item),
    /// An entry that could not be read.
    Unreadable,
}

/// The items of a list of entries.
pub open spec fn files(entries: Seq<Entry>) -> Seq<Item>
    decreases entries.len(),
{
    if entries.len() == 0 {
        Seq::empty()
    } else {
        match entries.last() {
            Entry::File(item) => files(entries.drop_last()).push(item),
            _ => files(entries.drop_last()),
        }
    }
}

/// Every entry could be read.
pub open spec fn readable(entries: Seq<Entry>) -> bool {
    forall|i: int| 0 <= i < entries.len() ==> !((#[trigger] entries[i]) is Unreadable)
}

/// The identifier of an item is the first argument of the first public statement of its pod,
/// whatever the other arguments and statements are: two pods that agree in it give one identifier,
/// and a pod without such an argument gives none.
pub proof fn law_first_argument_identifies(a: Seq<Vec<Option<Id>>>, b: Seq<Vec<Option<Id>>>)
    ensures
        a.len() > 0 && a[0]@.len() > 0 ==> pod_item_id(a) == a[0]@[0],
        a.len() == 0 || a[0]@.len() == 0 ==> pod_item_id(a) is None,
        a.len() > 0 && b.len() > 0 && a[0]@.len() > 0 && b[0]@.len() > 0 && a[0]@[0] == b[0]@[0]
            ==> pod_item_id(a) == pod_item_id(b),
{
}

/// What passes a filter keeps its order.
proof fn lemma_filter_keeps_order(s: Seq<Item>, f: spec_fn(Item) -> bool, a: int, b: int)
    requires
        0 <= a < b < s.filter(f).len(),
    ensures
        exists|p: int, q: int|
            0 <= p < q < s.len() && #[trigger] s[p] == s.filter(f)[a] && #[trigger] s[q]
                == s.filter(f)[b],
    decreases s.len(),
{
    reveal(Seq::filter);
    if s.len() > 0 {
        let init = s.drop_last();
        let last = s.len() - 1;
        if b < init.filter(f).len() {
            lemma_filter_keeps_order(init, f, a, b);
            let (p, q) = choose|p: int, q: int|
                0 <= p < q < init.len() && #[trigger] init[p] == init.filter(f)[a]
                    && #[trigger] init[q] == init.filter(f)[b];
            assert(s[p] == s.filter(f)[a] && s[q] == s.filter(f)[b]);
        } else {
            lemma_filter_comes_from(init, f, a);
            let p = choose|p: int| 0 <= p < init.len() && #[trigger] init[p] == init.filter(f)[a];
            assert(s[p] == s.filter(f)[a] && s[last] == s.filter(f)[b]);
        }
    }
}

/// What passes a filter was there.
proof fn lemma_filter_comes_from(s: Seq<Item>, f: spec_fn(Item) -> bool, a: int)
    requires
        0 <= a < s.filter(f).len(),
    ensures
        exists|p: int| 0 <= p < s.len() && #[trigger] s[p] == s.filter(f)[a],
    decreases s.len(),
{
    reveal(Seq::filter);
    if s.len() > 0 {
        let init = s.drop_last();
        if a < init.filter(f).len() {
            lemma_filter_comes_from(init, f, a);
            let p = choose|p: int| 0 <= p < init.len() && #[trigger] init[p] == init.filter(f)[a];
            assert(s[p] == s.filter(f)[a]);
        } else {
            assert(s[s.len() - 1] == s.filter(f)[a]);
        }
    }
}

/// The place that an element has among those that pass a filter.
proof fn lemma_filter_place(s: Seq<Item>, f: spec_fn(Item) -> bool, i: int)
    requires
        0 <= i < s.len(),
        f(s[i]),
    ensures
        s.take(i).filter(f).len() < s.filter(f).len(),
        s.filter(f)[s.take(i).filter(f).len() as int] == s[i],
        s.take(i + 1).filter(f).len() == s.take(i).filter(f).len() + 1,
{
    let left = s.take(i);
    let right = s.skip(i);
    assert(s =~= left + right);
    Seq::filter_distributes_over_add(left, right, f);
    lemma_filter_first(right, f);
    assert(right[0] == s[i]);
    assert(s.take(i + 1) =~= left.push(s[i]));
    left.lemma_filter_push(s[i], f);
}

proof fn lemma_filter_grows(s: Seq<Item>, f: spec_fn(Item) -> bool, i: int, j: int)
    requires
        0 <= i <= j <= s.len(),
    ensures
        s.take(i).filter(f).len() <= s.take(j).filter(f).len(),
{
    assert(s.take(j) =~= s.take(i) + s.subrange(i, j));
    Seq::filter_distributes_over_add(s.take(i), s.subrange(i, j), f);
}

/// In a sorted list, of two items the earlier one has the lesser name, or both have one name and
/// were found in this order.
pub proof fn law_names_ascend(after: Seq<Item>, before: Seq<Item>, i: int, j: int)
    requires
        stably_sorted(after, before),
        0 <= i < j < after.len(),
    ensures
        text_le(after[i].name@, after[j].name@),
        after[i].name@ == after[j].name@ ==> exists|p: int, q: int|
            0 <= p < q < before.len() && #[trigger] before[p] == after[i] && #[trigger] before[q]
                == after[j],
{
    if after[i].name@ == after[j].name@ {
        let f = called(after[i].name@);
        lemma_filter_place(after, f, i);
        lemma_filter_place(after, f, j);
        lemma_filter_grows(after, f, i + 1, j);
        assert(after.filter(f) == before.filter(f));
        lemma_filter_keeps_order(
            before,
            f,
            after.take(i).filter(f).len() as int,
            after.take(j).filter(f).len() as int,
        );
    }
}

/// The items of a directory are those of its parts, in their order.
pub proof fn law_items_of_parts(a: Seq<Entry>, b: Seq<Entry>)
    ensures
        files(a + b) == files(a) + files(b),
    decreases b.len(),
{
    if b.len() == 0 {
        assert(a + b =~= a);
        assert(files(a) + files(b) =~= files(a));
    } else {
        law_items_of_parts(a, b.drop_last());
        assert((a + b).drop_last() =~= a + b.drop_last());
        assert((a + b).last() == b.last());
        assert(files(a + b) =~= files(a) + files(b));
    }
}

/// A file with an item is listed, and nothing else is.
pub proof fn law_only_files_are_items(entries: Seq<Entry>, item: Item)
    ensures
        files(entries).contains(item) <==> entries.contains(Entry::File(item)),
        files(entries).len() <= entries.len(),
        files(entries).len() == entries.len() <==> forall|i: int|
            0 <= i < entries.len() ==> (#[trigger] entries[i]) is File,
    decreases entries.len(),
{
    if entries.len() > 0 {
        let init = entries.drop_last();
        let last = entries.last();
        law_only_files_are_items(init, item);
        assert(entries =~= init.push(last));
        assert(entries.contains(Entry::File(item)) <==> init.contains(Entry::File(item)) || last
            == Entry::File(item)) by {
            if init.contains(Entry::File(item)) {
                let k = choose|k: int| 0 <= k < init.len() && init[k] == Entry::File(item);
                assert(entries[k] == Entry::File(item));
            }
            assert(entries[init.len() as int] == last);
        }
        match last {
            Entry::File(x) => {
                let list = files(init).push(x);
                assert(list.contains(item) <==> files(init).contains(item) || x == item) by {
                    if files(init).contains(item) {
                        let k = choose|k: int|
                            0 <= k < files(init).len() && files(init)[k] == item;
                        assert(list[k] == item);
                    }
                    assert(list[files(init).len() as int] == x);
                }
            },
            _ => {
                assert(!(entries[entries.len() - 1] is File));
            },
        }
        if forall|i: int| 0 <= i < entries.len() ==> (#[trigger] entries[i]) is File {
            assert forall|i: int| 0 <= i < init.len() implies (#[trigger] init[i]) is File by {
                assert(entries[i] is File);
            }
            assert(entries[entries.len() - 1] is File);
        }
        if files(entries).len() == entries.len() {
            assert forall|i: int| 0 <= i < entries.len() implies (#[trigger] entries[i]) is File by {
                if i < init.len() {
                    assert(init[i] is File);
                }
            }
        }
    }
}

} // verus!
