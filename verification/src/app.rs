//! The application: its items, what is being crafted, and what a user can do.
use vstd::prelude::*;
use vstd::string::*;
use crate::crafting::{is_selected, nothing_else_chosen, Crafting};
use crate::items::{
    files, law_sort_is_unique, law_sort_keeps_items, law_sorted_list_stays, lemma_sort_extends, readable, sort_by_name, sorted_by_name,
    stably_sorted, Entry, Item,
};
use crate::paths::adjoined;
use crate::process::{Process, ProcessView};
use crate::text::text_le;
use crate::verb::Verb;

verus! {

/// The directory of used items, below the directory of pods.
pub const USED_ITEM_SUBDIR_NAME: &'static str = "used";

/// The predicate that the editor starts with.
pub const SAMPLE_PREDICATE: &'static str = r#"
IsTinPremium(item, private: ingredients, inputs, key, work) = AND(
    ItemDef(item, ingredients, inputs, key, work)
    DictContains(ingredients, "blueprint", "tinpremium")

    // 2 ingredients
    SetInsert(s1, {}, tin1)
    SetInsert(inputs, s1, tin2)

    // prove the ingredients are correct.
    IsTin(tin1)
    IsTin(tin2)
)"#;

/// The state of the application.
#[derive(Debug)]
pub struct App {
    /// The directory of pods.
    pub pods_path: String,
    pub items: Vec<Item>,
    pub used_items: Vec<Item>,
    pub crafting: Crafting,
    pub selected_tab: usize,
    /// Whether the window for a new predicate is open.
    pub modal_new_predicates: bool,
    pub code_editor_content: String,
    pub dev_mode: bool,
    pub danger: bool,
}

/// The place of the entry that could not be read.
#[derive(Clone, Copy, PartialEq, Eq, Structural, Debug)]
pub struct LoadError {
    /// Whether the entry is among those of the used items.
    pub used: bool,
    pub index: usize,
}

/// `e` is the place of the first entry that could not be read.
pub open spec fn fails_at(found: Seq<Entry>, found_used: Seq<Entry>, e: LoadError) -> bool {
    let entries = if e.used {
        found_used
    } else {
        found
    };
    &&& e.used ==> readable(found)
    &&& e.index < entries.len()
    &&& entries[e.index as int] is Unreadable
    &&& readable(entries.take(e.index as int))
}

/// The items that loading leaves: those of all entries if `outcome` is `Ok`, else those before the
/// entry that could not be read.
pub open spec fn loaded(
    app: App,
    found: Seq<Entry>,
    found_used: Seq<Entry>,
    outcome: Result<(), LoadError>,
) -> bool {
    match outcome {
        Ok(_) => {
            &&& readable(found)
            &&& readable(found_used)
            &&& stably_sorted(app.items@, files(found))
            &&& stably_sorted(app.used_items@, files(found_used))
        },
        Err(e) => {
            &&& fails_at(found, found_used, e)
            &&& if e.used {
                &&& stably_sorted(app.items@, files(found))
                &&& stably_sorted(app.used_items@, files(found_used.take(e.index as int)))
            } else {
                &&& stably_sorted(app.items@, files(found.take(e.index as int)))
                &&& app.used_items@ == Seq::<Item>::empty()
            }
        },
    }
}

/// The path of the directory of used items, below the directory of pods.
pub open spec fn used_path(pods_path: Seq<char>) -> Seq<char> {
    pods_path + "/"@ + USED_ITEM_SUBDIR_NAME@
}

impl App {
    /// All items: the items, then the used items.
    pub open spec fn all(self) -> Seq<Item> {
        self.items@ + self.used_items@
    }

    /// The application as it starts, with the items that were found in its directories.
    pub fn new(pods_path: String, found: Vec<Entry>, found_used: Vec<Entry>) -> (r: Result<
        App,
        LoadError,
    >)
        ensures
            match r {
                Ok(app) => {
                    &&& loaded(app, found@, found_used@, Ok(()))
                    &&& app.pods_path == pods_path
                    &&& app.crafting.selected_verb == Some(Verb::Craft)
                    &&& is_selected(app.crafting, ProcessView::Axe)
                    &&& nothing_else_chosen(app.crafting)
                    &&& app.selected_tab == 0
                    &&& !app.modal_new_predicates
                    &&& app.code_editor_content@ == SAMPLE_PREDICATE@
                    &&& !app.dev_mode
                    &&& !app.danger
                },
                Err(e) => fails_at(found@, found_used@, e),
            },
    {
        let mut app = App {
            pods_path,
            items: Vec::new(),
            used_items: Vec::new(),
            crafting: Crafting::default(),
            selected_tab: 0,
            modal_new_predicates: false,
            code_editor_content: SAMPLE_PREDICATE.to_owned(),
            dev_mode: false,
            danger: false,
        };
        app.crafting.selected_verb = Some(Verb::Craft);
        app.crafting.selected_process = Some(Process::Axe);
        match app.refresh_items(found, found_used) {
            Ok(_) => Ok(app),
            Err(e) => Err(e),
        }
    }

    /// All items: the items, then the used items.
    pub fn all_items(&self) -> (r: Vec<Item>)
        ensures
            r@ == self.all(),
    {
        let mut r: Vec<Item> = Vec::new();
        let mut i: usize = 0;
        while i < self.items.len()
            invariant
                i <= self.items@.len(),
                r@ == self.items@.take(i as int),
            decreases self.items@.len() - i,
        {
            r.push(self.items[i].clone());
            assert(self.items@.take(i + 1) =~= self.items@.take(i as int).push(
                self.items@[i as int],
            ));
            i = i + 1;
        }
        assert(self.items@.take(self.items@.len() as int) =~= self.items@);
        i = 0;
        while i < self.used_items.len()
            invariant
                i <= self.used_items@.len(),
                r@ == self.items@ + self.used_items@.take(i as int),
            decreases self.used_items@.len() - i,
        {
            r.push(self.used_items[i].clone());
            assert(self.items@ + self.used_items@.take(i + 1) =~= (self.items@
                + self.used_items@.take(i as int)).push(self.used_items@[i as int]));
            i = i + 1;
        }
        assert(self.used_items@.take(self.used_items@.len() as int) =~= self.used_items@);
        r
    }

    /// Puts a loaded item into its list and sorts both lists by name.
    pub fn load_item(&mut self, item: Item, used: bool)
        ensures
            stably_sorted(
                final(self).items@,
                if used {
                    old(self).items@
                } else {
                    old(self).items@.push(item)
                },
            ),
            stably_sorted(
                final(self).used_items@,
                if used {
                    old(self).used_items@.push(item)
                } else {
                    old(self).used_items@
                },
            ),
            *final(self) == (App {
                items: final(self).items,
                used_items: final(self).used_items,
                ..*old(self)
            }),
    {
        let mut items: Vec<Item> = Vec::new();
        std::mem::swap(&mut items, &mut self.items);
        let mut used_items: Vec<Item> = Vec::new();
        std::mem::swap(&mut used_items, &mut self.used_items);
        if used {
            used_items.push(item);
        } else {
            items.push(item);
        }
        self.items = sort_by_name(items);
        self.used_items = sort_by_name(used_items);
    }

    /// The directory of used items.
    pub fn used_dir(&self) -> (r: String)
        ensures
            r@ == self.pods_path@ + "/"@ + USED_ITEM_SUBDIR_NAME@,
            r@ == used_path(self.pods_path@),
    {
        self.pods_path.clone().concat("/").concat(USED_ITEM_SUBDIR_NAME)
    }

    /// The list of items, or that of used items.
    pub open spec fn list(self, used: bool) -> Seq<Item> {
        if used {
            self.used_items@
        } else {
            self.items@
        }
    }

    /// Loads the items of `entries` into an empty list, up to the first entry that could not be
    /// read, whose place is returned.
    fn load_entries(&mut self, entries: Vec<Entry>, used: bool) -> (r: Option<usize>)
        requires
            old(self).list(used) == Seq::<Item>::empty(),
            sorted_by_name(old(self).list(!used)),
        ensures
            match r {
                Some(index) => {
                    &&& index < entries@.len()
                    &&& entries@[index as int] is Unreadable
                    &&& readable(entries@.take(index as int))
                    &&& stably_sorted(final(self).list(used), files(entries@.take(index as int)))
                },
                None => {
                    &&& readable(entries@)
                    &&& stably_sorted(final(self).list(used), files(entries@))
                },
            },
            final(self).list(!used) == old(self).list(!used),
            *final(self) == (App {
                items: final(self).items,
                used_items: final(self).used_items,
                ..*old(self)
            }),
    {
        let ghost start = *self;
        assert(entries@.take(0) =~= Seq::<Entry>::empty());
        let mut i: usize = 0;
        while i < entries.len()
            invariant
                start == *old(self),
                i <= entries@.len(),
                readable(entries@.take(i as int)),
                stably_sorted(self.list(used), files(entries@.take(i as int))),
                sorted_by_name(self.list(!used)),
                self.list(!used) == start.list(!used),
                *self == (App { items: self.items, used_items: self.used_items, ..start }),
            decreases entries@.len() - i,
        {
            let ghost before = *self;
            let ghost next = entries@.take(i + 1);
            assert(next.drop_last() =~= entries@.take(i as int));
            assert(next.last() == entries@[i as int]);
            match &entries[i] {
                Entry::Unreadable => {
                    return Some(i);
                },
                Entry::Dir => {},
                Entry::File(item) => {
                    self.load_item(item.clone(), used);
                    proof {
                        lemma_sort_extends(
                            before.list(used),
                            files(entries@.take(i as int)),
                            *item,
                            self.list(used),
                        );
                        law_sorted_list_stays(before.list(!used), self.list(!used));
                    }
                },
            }
            assert(readable(next)) by {
                assert forall|j: int| 0 <= j < next.len() implies !((#[trigger] next[j])
                    is Unreadable) by {
                    if j < i {
                        assert(next[j] == entries@.take(i as int)[j]);
                    }
                }
            }
            i = i + 1;
        }
        assert(entries@.take(i as int) =~= entries@);
        None
    }

    /// Loads the items of `found` and the used items of `found_used` in place of those that are
    /// there, up to the first entry that could not be read.
    pub fn refresh_items(&mut self, found: Vec<Entry>, found_used: Vec<Entry>) -> (r: Result<
        (),
        LoadError,
    >)
        ensures
            loaded(*final(self), found@, found_used@, r),
            *final(self) == (App {
                items: final(self).items,
                used_items: final(self).used_items,
                ..*old(self)
            }),
    {
        self.items = Vec::new();
        self.used_items = Vec::new();
        match self.load_entries(found, false) {
            Some(index) => Err(LoadError { used: false, index }),
            None => match self.load_entries(found_used, true) {
                Some(index) => Err(LoadError { used: true, index }),
                None => Ok(()),
            },
        }
    }
}

/// What loading leaves depends on the entries alone: on nothing that was there before.
pub proof fn law_loading_forgets_the_past(
    a: App,
    b: App,
    found: Seq<Entry>,
    found_used: Seq<Entry>,
    first: Result<(), LoadError>,
    second: Result<(), LoadError>,
)
    requires
        loaded(a, found, found_used, first),
        loaded(b, found, found_used, second),
    ensures
        first == second,
        a.items@ == b.items@,
        a.used_items@ == b.used_items@,
{
    match (first, second) {
        (Ok(x), Ok(y)) => {
            assert(x == y);
        },
        (Err(e), Err(f)) => {
            let entries = if e.used {
                found_used
            } else {
                found
            };
            if e.used == f.used {
                if e.index < f.index {
                    assert(entries.take(f.index as int)[e.index as int] is Unreadable);
                } else if f.index < e.index {
                    assert(entries.take(e.index as int)[f.index as int] is Unreadable);
                }
            }
        },
        _ => {},
    }
    let before = match first {
        Err(e) => if e.used {
            files(found)
        } else {
            files(found.take(e.index as int))
        },
        Ok(_) => files(found),
    };
    law_sort_is_unique(a.items@, b.items@, before);
    match first {
        Ok(_) => {
            law_sort_is_unique(a.used_items@, b.used_items@, files(found_used));
        },
        Err(e) => if e.used {
            law_sort_is_unique(
                a.used_items@,
                b.used_items@,
                files(found_used.take(e.index as int)),
            );
        },
    }
}

/// Loading an item keeps all that were there.
pub proof fn law_loading_keeps_items(before: Seq<Item>, item: Item, after: Seq<Item>)
    requires
        stably_sorted(after, before.push(item)),
    ensures
        after.to_multiset() == before.to_multiset().insert(item),
        after.len() == before.len() + 1,
{
    broadcast use vstd::seq_lib::group_to_multiset_ensures;

    law_sort_keeps_items(after, before.push(item));
}

/// Loading fails exactly if there is an entry that could not be read, and then at the first one:
/// the directory of items comes before that of used items.
pub proof fn law_loading_fails_at_the_first_unreadable(
    app: App,
    found: Seq<Entry>,
    found_used: Seq<Entry>,
    outcome: Result<(), LoadError>,
)
    requires
        loaded(app, found, found_used, outcome),
    ensures
        outcome is Ok <==> {
            &&& forall|i: int| 0 <= i < found.len() ==> !((#[trigger] found[i]) is Unreadable)
            &&& forall|i: int|
                0 <= i < found_used.len() ==> !((#[trigger] found_used[i]) is Unreadable)
        },
        outcome matches Err(e) ==> !e.used ==> {
            &&& e.index < found.len()
            &&& found[e.index as int] is Unreadable
            &&& forall|i: int| 0 <= i < e.index ==> !((#[trigger] found[i]) is Unreadable)
        },
        outcome matches Err(e) ==> e.used ==> {
            &&& forall|i: int| 0 <= i < found.len() ==> !((#[trigger] found[i]) is Unreadable)
            &&& e.index < found_used.len()
            &&& found_used[e.index as int] is Unreadable
            &&& forall|i: int| 0 <= i < e.index ==> !((#[trigger] found_used[i]) is Unreadable)
        },
{
    match outcome {
        Ok(_) => {},
        Err(e) => {
            let entries = if e.used {
                found_used
            } else {
                found
            };
            assert forall|i: int| 0 <= i < e.index implies !((#[trigger] entries[i])
                is Unreadable) by {
                assert(entries.take(e.index as int)[i] == entries[i]);
            }
        },
    }
}

/// Once loading succeeded, the items are those of the one directory and the used items those of
/// the other, each as often as it was found, and both lists ascend by name.
pub proof fn law_loading_lists_what_was_found(
    app: App,
    found: Seq<Entry>,
    found_used: Seq<Entry>,
    i: int,
    j: int,
)
    requires
        loaded(app, found, found_used, Ok(())),
    ensures
        app.items@.to_multiset() == files(found).to_multiset(),
        app.used_items@.to_multiset() == files(found_used).to_multiset(),
        0 <= i < j < app.items@.len() ==> text_le(app.items@[i].name@, app.items@[j].name@),
        0 <= i < j < app.used_items@.len() ==> text_le(
            app.used_items@[i].name@,
            app.used_items@[j].name@,
        ),
{
    law_sort_keeps_items(app.items@, files(found));
    law_sort_keeps_items(app.used_items@, files(found_used));
}

/// The list of all items starts with the items and goes on with the used items.
pub proof fn law_used_items_come_last(app: App, k: int)
    ensures
        app.all().len() == app.items@.len() + app.used_items@.len(),
        0 <= k < app.items@.len() ==> app.all()[k] == app.items@[k],
        app.items@.len() <= k < app.all().len() ==> app.all()[k] == app.used_items@[k
            - app.items@.len()],
{
}

/// The directory of used items is the directory `used` of the directory of pods, and different
/// directories of pods have different ones.
pub proof fn law_used_items_lie_below(pods_path: Seq<char>, other: Seq<char>)
    ensures
        pods_path.len() > 0 && pods_path.last() != '/' ==> adjoined(
            used_path(pods_path),
            pods_path,
            "used"@,
        ),
        used_path(pods_path).take(pods_path.len() as int) == pods_path,
        used_path(pods_path) == used_path(other) ==> pods_path == other,
{
    reveal_strlit("/");
    reveal_strlit("used");
    let path = used_path(pods_path);
    assert("used"@[0] == 'u' && "used"@[1] == 's');
    assert("/"@ =~= seq!['/']);
    assert(path.take(pods_path.len() as int) =~= pods_path);
    assert(used_path(other).take(other.len() as int) =~= other);
    assert(path.len() == pods_path.len() + 5);
    assert(used_path(other).len() == other.len() + 5);
}

/// Where loading failed, the lists hold what was found before the entry that could not be read:
/// no used item if that is in the directory of items, else all items and the used items before it.
pub proof fn law_failed_loading_keeps_what_came_before(
    app: App,
    found: Seq<Entry>,
    found_used: Seq<Entry>,
    e: LoadError,
)
    requires
        loaded(app, found, found_used, Err(e)),
    ensures
        !e.used ==> app.items@.to_multiset() == files(found.take(e.index as int)).to_multiset(),
        !e.used ==> app.used_items@.len() == 0,
        e.used ==> app.items@.to_multiset() == files(found).to_multiset(),
        e.used ==> app.used_items@.to_multiset() == files(
            found_used.take(e.index as int),
        ).to_multiset(),
        sorted_by_name(app.items@),
        sorted_by_name(app.used_items@),
{
    if e.used {
        law_sort_keeps_items(app.items@, files(found));
        law_sort_keeps_items(app.used_items@, files(found_used.take(e.index as int)));
    } else {
        law_sort_keeps_items(app.items@, files(found.take(e.index as int)));
    }
}

} // verus!
