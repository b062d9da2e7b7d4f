//! The application state and its transitions.
//!
//! The state is a dictionary with two sets: under [`IDS_STR`] the identifiers of all
//! created items, under [`NULLIFIERS_STR`] the nullifiers of all destroyed ones.
use vstd::prelude::*;
use crate::text::same_text;
use crate::values::{DictView, Dictionary, Id, IdSet, Value, ValueView};

verus! {

/// The key of the identifiers of all created items.
pub const IDS_STR: &'static str = "ids";

/// The key of the nullifiers of all destroyed items.
pub const NULLIFIERS_STR: &'static str = "nullifiers";

/// An operation on the state.
#[derive(Clone, Copy, PartialEq, Eq, Structural, Debug, Hash)]
pub enum Op {
    /// Creates the empty state.
    Init,
    /// Records a created item.
    Append { id: Id },
    /// Records a destroyed item.
    Nullify { id: Id },
}

/// The dictionary that describes an operation.
pub open spec fn op_dict(op: Op) -> DictView {
    match op {
        Op::Init => map!["name"@ => ValueView::Text("init"@)],
        Op::Append { id } => map![
            "name"@ => ValueView::Text("append"@),
            "id"@ => ValueView::Raw(id),
        ],
        Op::Nullify { id } => map![
            "name"@ => ValueView::Text("nullify"@),
            "id"@ => ValueView::Raw(id),
        ],
    }
}

fn named(name: &str) -> (d: Dictionary)
    ensures
        d@ == Map::<Seq<char>, ValueView>::empty().insert("name"@, ValueView::Text(name@)),
{
    let mut d = Dictionary::new();
    d.insert("name", Value::Text(name.to_owned()));
    d
}

impl From<Op> for Dictionary {
    fn from(op: Op) -> (d: Self)
        ensures
            d@ == op_dict(op),
    {
        match op {
            Op::Init => named("init"),
            Op::Append { id } => {
                let mut d = named("append");
                d.insert("id", Value::Raw(id));
                d
            },
            Op::Nullify { id } => {
                let mut d = named("nullify");
                d.insert("id", Value::Raw(id));
                d
            },
        }
    }
}

/// Equal dictionaries may keep their entries in another order, so what `from` returns is
/// fixed by its own contract, through the view, and by no single value.
impl vstd::std_specs::convert::FromSpecImpl<Op> for Dictionary {
    open spec fn obeys_from_spec() -> bool {
        false
    }

    open spec fn from_spec(op: Op) -> Dictionary {
        arbitrary()
    }
}

/// Why a transition is refused.
#[derive(Clone, Copy, PartialEq, Eq, Structural, Debug)]
pub enum StateError {
    /// The state to initialise is not the empty one.
    OldStateNotEmpty,
    /// The set that should grow holds the identifier already.
    AlreadyContainsId,
}

impl StateError {
    /// The text of the error.
    pub fn message(&self) -> (r: &'static str)
        ensures
            r@ == match self {
                StateError::OldStateNotEmpty => "old state is not empty"@,
                StateError::AlreadyContainsId => "old_set already contains id"@,
            },
    {
        match self {
            StateError::OldStateNotEmpty => "old state is not empty",
            StateError::AlreadyContainsId => "old_set already contains id",
        }
    }
}

/// The state without items: both sets are there and empty.
pub open spec fn empty_state() -> DictView {
    map![
        IDS_STR@ => ValueView::IdSet(Set::empty()),
        NULLIFIERS_STR@ => ValueView::IdSet(Set::empty()),
    ]
}

/// `dict` has a set of identifiers under `key`.
pub open spec fn holds_set(dict: DictView, key: Seq<char>) -> bool {
    dict.contains_key(key) && dict[key] is IdSet
}

/// The set of identifiers under `key`.
pub open spec fn set_at(dict: DictView, key: Seq<char>) -> Set<Id> {
    match dict[key] {
        ValueView::IdSet(s) => s,
        _ => Set::empty(),
    }
}

/// `op` carries the name `name`.
pub open spec fn is_named(op: DictView, name: Seq<char>) -> bool {
    op.contains_key("name"@) && op["name"@] == ValueView::Text(name)
}

/// `op` carries an identifier.
pub open spec fn holds_id(op: DictView) -> bool {
    op.contains_key("id"@) && op["id"@] is Raw
}

/// The identifier that `op` carries.
pub open spec fn id_of(op: DictView) -> Id {
    match op["id"@] {
        ValueView::Raw(h) => h,
        _ => arbitrary(),
    }
}

/// The key of the set that grows: the identifiers for an `append`, else the nullifiers.
pub open spec fn set_key(op: DictView) -> Seq<char> {
    if is_named(op, "append"@) {
        IDS_STR@
    } else {
        NULLIFIERS_STR@
    }
}

/// `op` is an `append` or a `nullify` that can be tried on `old`.
pub open spec fn grows(old: DictView, op: DictView) -> bool {
    &&& is_named(op, "append"@) || is_named(op, "nullify"@)
    &&& holds_id(op)
    &&& holds_set(old, set_key(op))
}

/// `op` is an operation that can be tried on `old`.
pub open spec fn applicable(old: DictView, op: DictView) -> bool {
    is_named(op, "init"@) || grows(old, op)
}

/// The error that `op` meets on `old`, if it is refused.
pub open spec fn refusal(old: DictView, op: DictView) -> Option<StateError> {
    if is_named(op, "init"@) {
        if old == Map::<Seq<char>, ValueView>::empty() {
            None
        } else {
            Some(StateError::OldStateNotEmpty)
        }
    } else if set_at(old, set_key(op)).contains(id_of(op)) {
        Some(StateError::AlreadyContainsId)
    } else {
        None
    }
}

/// The state that `op` leads to from `old`, if it is not refused.
pub open spec fn next_state(old: DictView, op: DictView) -> DictView {
    if is_named(op, "init"@) {
        empty_state()
    } else {
        old.insert(
            set_key(op),
            ValueView::IdSet(set_at(old, set_key(op)).insert(id_of(op))),
        )
    }
}

/// The state without items.
pub fn init_state() -> (d: Dictionary)
    ensures
        d@ == empty_state(),
{
    let mut d = Dictionary::new();
    d.insert(IDS_STR, Value::IdSet(IdSet::new()));
    d.insert(NULLIFIERS_STR, Value::IdSet(IdSet::new()));
    d
}

/// Whether there is a set of identifiers under `key`.
fn has_set(dict: &Dictionary, key: &str) -> (r: bool)
    ensures
        r == holds_set(dict@, key@),
{
    match dict.get(key) {
        Some(Value::IdSet(_)) => true,
        _ => false,
    }
}

/// Whether `op` is an operation that can be tried on `old_state`.
pub fn can_apply(old_state: &Dictionary, op: &Dictionary) -> (r: bool)
    ensures
        r == applicable(old_state@, op@),
{
    proof {
        lemma_words();
    }
    let has_id = match op.get("id") {
        Some(Value::Raw(_)) => true,
        _ => false,
    };
    match op.get("name") {
        Some(Value::Text(name)) => if same_text(name.as_str(), "init") {
            true
        } else if same_text(name.as_str(), "append") {
            has_id && has_set(old_state, IDS_STR)
        } else if same_text(name.as_str(), "nullify") {
            has_id && has_set(old_state, NULLIFIERS_STR)
        } else {
            false
        },
        _ => false,
    }
}

/// The texts that name operations and keys differ from each other.
pub proof fn lemma_words()
    ensures
        "init"@ != "append"@,
        "init"@ != "nullify"@,
        "append"@ != "nullify"@,
        "name"@ != "id"@,
        IDS_STR@ != NULLIFIERS_STR@,
{
    reveal_strlit("init");
    reveal_strlit("append");
    reveal_strlit("nullify");
    reveal_strlit("name");
    reveal_strlit("id");
    reveal_strlit("ids");
    reveal_strlit("nullifiers");
    assert("init"@.len() == 4 && "append"@.len() == 6 && "nullify"@.len() == 7);
    assert("name"@.len() == 4 && "id"@.len() == 2);
    assert(IDS_STR@.len() == 3 && NULLIFIERS_STR@.len() == 10);
}

} // verus!
