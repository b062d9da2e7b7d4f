//! What holds of the state and its transitions as a whole.
//!
//! The predicates compare values by their commitments, so what is said of them is said for every
//! way of committing that is [`binding`](crate::script::binding).
use vstd::prelude::*;
use crate::helper::{branch_steps, refused_step, update_steps};
use crate::predicates::Predicates;
use crate::script::{
    binding, claim_holds, identifies, rejection, same_dict, Commit, OperandView, OperationView,
};
use crate::state::{
    applicable, empty_state, grows, holds_id, holds_set, id_of, is_named, lemma_words, next_state,
    op_dict, refusal, set_at, set_key, Op, StateError, IDS_STR, NULLIFIERS_STR,
};
use crate::values::{DictView, Id, ValueView};

verus! {

/// The predicate `init(new, old, op)`.
pub open spec fn init_holds(commit: Commit, new: DictView, old: DictView, op: DictView) -> bool {
    &&& claim_holds(
        commit,
        OperationView::DictContains { dict: op, key: "name"@, value: ValueView::Text("init"@) },
    )
    &&& claim_holds(
        commit,
        OperationView::Equal { left: OperandView::Dict(old), right: OperandView::Empty },
    )
    &&& claim_holds(
        commit,
        OperationView::Equal {
            left: OperandView::Dict(new),
            right: OperandView::Dict(empty_state()),
        },
    )
}

/// The set under `key` grows from `old_set` to `new_set` by the identifier of `op`, and nothing
/// else changes.
pub open spec fn set_grows(
    commit: Commit,
    new: DictView,
    old: DictView,
    op: DictView,
    key: Seq<char>,
    old_set: Set<Id>,
    new_set: Set<Id>,
) -> bool {
    &&& claim_holds(
        commit,
        OperationView::DictContains { dict: old, key, value: ValueView::IdSet(old_set) },
    )
    &&& claim_holds(commit, OperationView::SetInsert { new_set, old_set, dict: op, key: "id"@ })
    &&& claim_holds(commit, OperationView::DictUpdate { new, old, key, set: new_set })
}

/// The predicate `append(new, old, op)`.
pub open spec fn append_holds(commit: Commit, new: DictView, old: DictView, op: DictView) -> bool {
    &&& claim_holds(
        commit,
        OperationView::DictContains { dict: op, key: "name"@, value: ValueView::Text("append"@) },
    )
    &&& exists|old_set: Set<Id>, new_set: Set<Id>|
        set_grows(commit, new, old, op, IDS_STR@, old_set, new_set)
}

/// The predicate `nullify(new, old, op)`.
pub open spec fn nullify_holds(
    commit: Commit,
    new: DictView,
    old: DictView,
    op: DictView,
) -> bool {
    &&& claim_holds(
        commit,
        OperationView::DictContains { dict: op, key: "name"@, value: ValueView::Text("nullify"@) },
    )
    &&& exists|old_set: Set<Id>, new_set: Set<Id>|
        set_grows(commit, new, old, op, NULLIFIERS_STR@, old_set, new_set)
}

/// The predicate `update(new, old, op)`.
pub open spec fn update_holds(commit: Commit, new: DictView, old: DictView, op: DictView) -> bool {
    ||| init_holds(commit, new, old, op)
    ||| append_holds(commit, new, old, op)
    ||| nullify_holds(commit, new, old, op)
}

/// A state: the two sets, and nothing else.
pub open spec fn is_state(state: DictView) -> bool {
    &&& state.dom() == set![IDS_STR@, NULLIFIERS_STR@]
    &&& holds_set(state, IDS_STR@)
    &&& holds_set(state, NULLIFIERS_STR@)
}

/// Growth of a set is seen by its commitments alone.
proof fn lemma_set_grows_by_commitment(
    commit: Commit,
    new: DictView,
    old: DictView,
    op: DictView,
    other_new: DictView,
    other_old: DictView,
    other_op: DictView,
    key: Seq<char>,
    old_set: Set<Id>,
    new_set: Set<Id>,
)
    requires
        same_dict(commit, new, other_new),
        same_dict(commit, old, other_old),
        same_dict(commit, op, other_op),
        set_grows(commit, new, old, op, key, old_set, new_set),
    ensures
        set_grows(commit, other_new, other_old, other_op, key, old_set, new_set),
{
    assert(old.contains_key(key) && other_old.contains_key(key));
    assert(op.contains_key("id"@) && other_op.contains_key("id"@));
    let id = choose|id: Id|
        {
            &&& #[trigger] identifies(commit, id, op["id"@])
            &&& !old_set.contains(id)
            &&& new_set == old_set.insert(id)
        };
    assert(identifies(commit, id, other_op["id"@]));
    let mine = old.insert(key, ValueView::IdSet(new_set));
    let other = other_old.insert(key, ValueView::IdSet(new_set));
    assert(other.dom() =~= mine.dom());
    assert(other_new.dom() == other.dom());
    assert forall|k: Seq<char>| #[trigger] other_new.contains_key(k) implies commit(other_new[k])
        == commit(other[k]) by {
        assert(new.contains_key(k));
        assert(mine.contains_key(k));
        assert(commit(new[k]) == commit(mine[k]));
        if k != key {
            assert(old.contains_key(k));
        }
    }
}

/// The predicates see of the two states and the operation their commitments alone.
pub proof fn law_predicates_see_commitments(
    commit: Commit,
    new: DictView,
    old: DictView,
    op: DictView,
    other_new: DictView,
    other_old: DictView,
    other_op: DictView,
)
    requires
        same_dict(commit, new, other_new),
        same_dict(commit, old, other_old),
        same_dict(commit, op, other_op),
        update_holds(commit, new, old, op),
    ensures
        update_holds(commit, other_new, other_old, other_op),
{
    assert(op.contains_key("name"@) && other_op.contains_key("name"@));
    if init_holds(commit, new, old, op) {
        assert(same_dict(commit, other_new, empty_state())) by {
            assert forall|k: Seq<char>| #[trigger] other_new.contains_key(k) implies commit(
                other_new[k],
            ) == commit(empty_state()[k]) by {
                assert(new.contains_key(k));
            }
        }
        assert(init_holds(commit, other_new, other_old, other_op));
    } else if append_holds(commit, new, old, op) {
        let (old_set, new_set) = choose|old_set: Set<Id>, new_set: Set<Id>|
            set_grows(commit, new, old, op, IDS_STR@, old_set, new_set);
        lemma_set_grows_by_commitment(
            commit, new, old, op, other_new, other_old, other_op, IDS_STR@, old_set, new_set,
        );
        assert(append_holds(commit, other_new, other_old, other_op));
    } else {
        let (old_set, new_set) = choose|old_set: Set<Id>, new_set: Set<Id>|
            set_grows(commit, new, old, op, NULLIFIERS_STR@, old_set, new_set);
        lemma_set_grows_by_commitment(
            commit, new, old, op, other_new, other_old, other_op, NULLIFIERS_STR@, old_set, new_set,
        );
        assert(nullify_holds(commit, other_new, other_old, other_op));
    }
}

/// The predicate `update` holds of exactly the transitions that are carried out: of an operation
/// that can be tried on `old`, it holds if and only if the operation is not refused and `new` is,
/// up to commitments, the state that it leads to.
pub proof fn law_update_predicate(commit: Commit, new: DictView, old: DictView, op: DictView)
    requires
        binding(commit),
        applicable(old, op),
    ensures
        update_holds(commit, new, old, op) <==> refusal(old, op) is None && same_dict(
            commit,
            new,
            next_state(old, op),
        ),
{
    lemma_words();
    if is_named(op, "init"@) {
        if init_holds(commit, new, old, op) {
            assert(old =~= Map::<Seq<char>, ValueView>::empty());
        }
    } else {
        let key = set_key(op);
        let held = set_at(old, key);
        let grown = held.insert(id_of(op));
        if refusal(old, op) is None && same_dict(commit, new, next_state(old, op)) {
            assert(identifies(commit, id_of(op), op["id"@]));
            assert(set_grows(commit, new, old, op, key, held, grown));
        }
        assert forall|old_set: Set<Id>, new_set: Set<Id>|
            set_grows(commit, new, old, op, key, old_set, new_set) implies old_set == held
            && new_set == grown && !held.contains(id_of(op)) by {
            assert(commit(ValueView::IdSet(old_set)) == commit(ValueView::IdSet(held)));
            let id = choose|id: Id|
                {
                    &&& #[trigger] identifies(commit, id, op["id"@])
                    &&& !old_set.contains(id)
                    &&& new_set == old_set.insert(id)
                };
            assert(commit(ValueView::Raw(id)) == commit(ValueView::Raw(id_of(op))));
        }
    }
}

/// The first state may be given by numbers: with the number that an empty set commits to under both
/// keys, it is the state that `init` leads to.
pub proof fn law_first_state_by_number(commit: Commit, zero: Id)
    requires
        commit(ValueView::Raw(zero)) == commit(ValueView::IdSet(Set::empty())),
    ensures
        init_holds(
            commit,
            map![IDS_STR@ => ValueView::Raw(zero), NULLIFIERS_STR@ => ValueView::Raw(zero)],
            Map::empty(),
            op_dict(Op::Init),
        ),
{
    let by_number: DictView = map![
        IDS_STR@ => ValueView::Raw(zero),
        NULLIFIERS_STR@ => ValueView::Raw(zero),
    ];
    assert(by_number.dom() =~= empty_state().dom());
}

/// From one state one operation leads, up to commitments, to at most one state.
pub proof fn law_update_is_a_function(
    commit: Commit,
    first: DictView,
    second: DictView,
    old: DictView,
    op: DictView,
)
    requires
        binding(commit),
        applicable(old, op),
        update_holds(commit, first, old, op),
        update_holds(commit, second, old, op),
    ensures
        same_dict(commit, first, second),
{
    law_update_predicate(commit, first, old, op);
    law_update_predicate(commit, second, old, op);
    let next = next_state(old, op);
    assert forall|k: Seq<char>| #[trigger] first.contains_key(k) implies commit(first[k]) == commit(
        second[k],
    ) by {
        assert(second.contains_key(k));
    }
}

/// Every operation that is recorded for a transition that is carried out holds of its values.
/// What the custom ones among them follow from is the subject of
/// [`record_laws`](crate::record_laws).
pub proof fn law_recorded_operations_hold(
    commit: Commit,
    predicates: Predicates,
    old: DictView,
    op: DictView,
    base: int,
    i: int,
)
    requires
        applicable(old, op),
        refusal(old, op) is None,
        0 <= i < update_steps(predicates, old, op, base).len(),
    ensures
        claim_holds(commit, update_steps(predicates, old, op, base)[i]),
{
    lemma_words();
    if !is_named(op, "init"@) {
        assert(identifies(commit, id_of(op), op["id"@]));
    }
}

/// The statements that an operation follows from are proved before it, within the same
/// transition.
pub proof fn law_statements_refer_back(
    predicates: Predicates,
    old: DictView,
    op: DictView,
    base: int,
    i: int,
    j: int,
)
    requires
        0 <= i < update_steps(predicates, old, op, base).len(),
        update_steps(predicates, old, op, base)[i] is Custom,
        0 <= j < update_steps(predicates, old, op, base)[i]->statements.len(),
    ensures
        update_steps(predicates, old, op, base)[i]->statements[j] matches Some(place) ==> base
            <= place < base + i,
{
}

/// A refused transition stops before the first operation that does not hold of its values, and
/// its error is the one that this operation is rejected with.
pub proof fn law_refusal_is_rejection(
    commit: Commit,
    predicates: Predicates,
    old: DictView,
    op: DictView,
    base: int,
    i: int,
)
    requires
        binding(commit),
        applicable(old, op),
        refusal(old, op) is Some,
        0 <= i < refused_step(op),
    ensures
        claim_holds(commit, branch_steps(predicates, old, op, base)[i]),
        !claim_holds(commit, branch_steps(predicates, old, op, base)[refused_step(op)]),
        rejection(branch_steps(predicates, old, op, base)[refused_step(op)]) == refusal(old, op),
{
    lemma_words();
    let steps = branch_steps(predicates, old, op, base);
    if is_named(op, "init"@) {
        if same_dict(commit, old, Map::empty()) {
            assert(old =~= Map::<Seq<char>, ValueView>::empty());
        }
    } else {
        let held = set_at(old, set_key(op));
        assert forall|id: Id| #[trigger] identifies(commit, id, op["id"@]) implies held.contains(
            id,
        ) by {
            assert(commit(ValueView::Raw(id)) == commit(ValueView::Raw(id_of(op))));
        }
        assert(steps[2] is SetInsert);
    }
}

/// No other operation of a transition is rejected with an error: that it fails would be a defect.
pub proof fn law_other_failures_are_defects(
    predicates: Predicates,
    old: DictView,
    op: DictView,
    base: int,
    i: int,
)
    requires
        applicable(old, op),
        0 <= i < update_steps(predicates, old, op, base).len(),
    ensures
        rejection(update_steps(predicates, old, op, base)[i]) is Some <==> i == if is_named(
            op,
            "init"@,
        ) {
            1int
        } else {
            2int
        },
{
    lemma_words();
}

/// A state stays a state, and the first one is a state too.
pub proof fn law_states_stay_states(old: DictView, op: DictView)
    requires
        applicable(old, op),
        refusal(old, op) is None,
        is_named(op, "init"@) || is_state(old),
    ensures
        is_state(next_state(old, op)),
{
    lemma_words();
    assert(next_state(old, op).dom() =~= set![IDS_STR@, NULLIFIERS_STR@]);
}

/// The dictionary of an operation carries its name and its identifier.
pub proof fn law_op_dict_reads_back(op: Op)
    ensures
        match op {
            Op::Init => is_named(op_dict(op), "init"@),
            Op::Append { id } => is_named(op_dict(op), "append"@) && holds_id(op_dict(op)) && id_of(
                op_dict(op),
            ) == id && set_key(op_dict(op)) == IDS_STR@,
            Op::Nullify { id } => is_named(op_dict(op), "nullify"@) && holds_id(op_dict(op))
                && id_of(op_dict(op)) == id && set_key(op_dict(op)) == NULLIFIERS_STR@,
        },
{
    lemma_words();
}

/// The dictionary of an operation holds the name, the identifier if there is one, and nothing else.
pub proof fn law_op_dict_holds_no_more(op: Op, key: Seq<char>)
    ensures
        op_dict(op).contains_key(key) <==> key == "name"@ || key == "id"@ && !(op is Init),
{
    lemma_words();
}

/// Different operations have different dictionaries.
pub proof fn law_op_dict_is_injective(a: Op, b: Op)
    requires
        op_dict(a) == op_dict(b),
    ensures
        a == b,
{
    lemma_words();
    law_op_dict_reads_back(a);
    law_op_dict_reads_back(b);
}

/// An operation can be tried exactly if it is an `init`, or if it is an `append` or a `nullify` with
/// an identifier and the state has the set of created or destroyed items that it is about.
pub proof fn law_what_can_be_tried(old: DictView, op: DictView)
    ensures
        applicable(old, op) <==> op.contains_key("name"@) && {
            ||| op["name"@] == ValueView::Text("init"@)
            ||| {
                &&& op["name"@] == ValueView::Text("append"@)
                &&& op.contains_key("id"@) && op["id"@] is Raw
                &&& old.contains_key("ids"@) && old["ids"@] is IdSet
            }
            ||| {
                &&& op["name"@] == ValueView::Text("nullify"@)
                &&& op.contains_key("id"@) && op["id"@] is Raw
                &&& old.contains_key("nullifiers"@) && old["nullifiers"@] is IdSet
            }
        },
{
    lemma_words();
}

/// An operation is refused exactly for two reasons: an `init` of a state that holds anything, and
/// an `append` or a `nullify` of an identifier that the set of created or destroyed items holds.
pub proof fn law_what_is_refused(old: DictView, op: DictView)
    requires
        applicable(old, op),
    ensures
        op["name"@] == ValueView::Text("init"@) ==> refusal(old, op) == if old.dom().is_empty() {
            None
        } else {
            Some(StateError::OldStateNotEmpty)
        },
        op["name"@] == ValueView::Text("append"@) ==> refusal(old, op)
            == if old["ids"@]->IdSet_0.contains(op["id"@]->Raw_0) {
            Some(StateError::AlreadyContainsId)
        } else {
            None
        },
        op["name"@] == ValueView::Text("nullify"@) ==> refusal(old, op)
            == if old["nullifiers"@]->IdSet_0.contains(op["id"@]->Raw_0) {
            Some(StateError::AlreadyContainsId)
        } else {
            None
        },
{
    lemma_words();
    if old.dom().is_empty() {
        assert(old =~= Map::<Seq<char>, ValueView>::empty());
    }
}

/// The state that an operation leads to: the two sets, empty, after an `init`; else the old state
/// with the identifier among the created or the destroyed items, and all else as it was.
pub proof fn law_what_is_reached(old: DictView, op: DictView, key: Seq<char>, id: Id)
    requires
        applicable(old, op),
        refusal(old, op) is None,
    ensures
        ({
            let new = next_state(old, op);
            let added = if op["name"@] == ValueView::Text("append"@) {
                "ids"@
            } else {
                "nullifiers"@
            };
            if op["name"@] == ValueView::Text("init"@) {
                &&& new.contains_key(key) <==> key == "ids"@ || key == "nullifiers"@
                &&& new.contains_key(key) ==> new[key] is IdSet && !new[key]->IdSet_0.contains(id)
            } else {
                &&& new.contains_key(key) <==> old.contains_key(key)
                &&& key != added && old.contains_key(key) ==> new[key] == old[key]
                &&& new[added] is IdSet
                &&& new[added]->IdSet_0.contains(id) <==> old[added]->IdSet_0.contains(id) || id
                    == op["id"@]->Raw_0
            }
        }),
{
    lemma_words();
}

/// Every operation can be tried on every state.
pub proof fn law_operations_apply_to_states(state: DictView, op: Op)
    requires
        is_state(state),
    ensures
        applicable(state, op_dict(op)),
{
    law_op_dict_reads_back(op);
}

/// An `append` or a `nullify` adds its identifier to its set, and changes nothing else.
pub proof fn law_growth_is_exact(old: DictView, op: DictView, key: Seq<char>)
    requires
        grows(old, op),
        old.contains_key(key),
    ensures
        next_state(old, op).dom() == old.dom(),
        key != set_key(op) ==> next_state(old, op)[key] == old[key],
        set_at(next_state(old, op), set_key(op)) == set_at(old, set_key(op)).insert(id_of(op)),
{
    lemma_words();
    assert(next_state(old, op).dom() =~= old.dom());
}

/// What was recorded stays recorded: no operation that is carried out takes an identifier away.
pub proof fn law_nothing_is_forgotten(old: DictView, op: DictView, key: Seq<char>, id: Id)
    requires
        applicable(old, op),
        refusal(old, op) is None,
        holds_set(old, key),
        set_at(old, key).contains(id),
    ensures
        holds_set(next_state(old, op), key),
        set_at(next_state(old, op), key).contains(id),
{
    lemma_words();
}

/// An operation that was carried out is refused when it is tried again.
pub proof fn law_no_operation_twice(old: DictView, op: DictView)
    requires
        applicable(old, op),
        refusal(old, op) is None,
    ensures
        applicable(next_state(old, op), op),
        refusal(next_state(old, op), op) == Some(
            if is_named(op, "init"@) {
                StateError::OldStateNotEmpty
            } else {
                StateError::AlreadyContainsId
            },
        ),
{
    lemma_words();
    if is_named(op, "init"@) {
        assert(empty_state().contains_key(IDS_STR@));
    }
}

/// A `nullify` is judged by the nullifiers alone: the identifiers of created items do not matter.
pub proof fn law_nullify_ignores_ids(old: DictView, op: DictView, ids: ValueView)
    requires
        grows(old, op),
        is_named(op, "nullify"@),
    ensures
        grows(old.insert(IDS_STR@, ids), op),
        refusal(old.insert(IDS_STR@, ids), op) == refusal(old, op),
{
    lemma_words();
}

/// Two operations that grow a set, of different sets or by different identifiers, can be carried
/// out in either order, with one outcome.
pub proof fn law_operations_commute(state: DictView, a: DictView, b: DictView)
    requires
        grows(state, a),
        grows(state, b),
        set_key(a) != set_key(b) || id_of(a) != id_of(b),
        refusal(state, a) is None,
        refusal(state, b) is None,
    ensures
        grows(next_state(state, a), b),
        grows(next_state(state, b), a),
        refusal(next_state(state, a), b) is None,
        refusal(next_state(state, b), a) is None,
        next_state(next_state(state, a), b) == next_state(next_state(state, b), a),
{
    lemma_words();
    let ab = next_state(next_state(state, a), b);
    let ba = next_state(next_state(state, b), a);
    let key = set_key(a);
    if key == set_key(b) {
        assert(set_at(state, key).insert(id_of(a)).insert(id_of(b)) =~= set_at(state, key).insert(
            id_of(b),
        ).insert(id_of(a)));
    }
    assert(ab =~= ba);
}

/// The state that a list of operations leads to, if each can be tried and none is refused.
pub open spec fn run(state: DictView, ops: Seq<DictView>) -> Option<DictView>
    decreases ops.len(),
{
    if ops.len() == 0 {
        Some(state)
    } else {
        match run(state, ops.drop_last()) {
            Some(before) => if applicable(before, ops.last()) && refusal(
                before,
                ops.last(),
            ) is None {
                Some(next_state(before, ops.last()))
            } else {
                None
            },
            None => None,
        }
    }
}

/// The dictionaries of a list of operations.
pub open spec fn op_dicts(ops: Seq<Op>) -> Seq<DictView> {
    ops.map_values(|op: Op| op_dict(op))
}

/// The identifiers that a list of operations appends.
pub open spec fn appended(ops: Seq<Op>) -> Set<Id> {
    Set::new(|id: Id| ops.contains(Op::Append { id }))
}

/// The identifiers that a list of operations nullifies.
pub open spec fn nullified(ops: Seq<Op>) -> Set<Id> {
    Set::new(|id: Id| ops.contains(Op::Nullify { id }))
}

/// What was recorded stays recorded, whatever is carried out afterwards.
proof fn lemma_run_keeps(state: DictView, ops: Seq<DictView>, key: Seq<char>, id: Id)
    requires
        holds_set(state, key),
        set_at(state, key).contains(id),
        run(state, ops) is Some,
    ensures
        holds_set(run(state, ops)->0, key),
        set_at(run(state, ops)->0, key).contains(id),
    decreases ops.len(),
{
    if ops.len() > 0 {
        lemma_run_keeps(state, ops.drop_last(), key, id);
        law_nothing_is_forgotten(run(state, ops.drop_last())->0, ops.last(), key, id);
    }
}

/// A state that is not empty stays so, whatever is carried out.
proof fn lemma_run_keeps_keys(state: DictView, ops: Seq<DictView>, key: Seq<char>)
    requires
        state.contains_key(key),
        run(state, ops) is Some,
    ensures
        run(state, ops)->0.contains_key(key),
    decreases ops.len(),
{
    if ops.len() > 0 {
        lemma_run_keeps_keys(state, ops.drop_last(), key);
    }
}

/// An operation that was carried out stays refused, whatever is carried out after it.
pub proof fn law_operations_stay_refused(old: DictView, op: DictView, later: Seq<DictView>)
    requires
        applicable(old, op),
        refusal(old, op) is None,
        run(next_state(old, op), later) is Some,
    ensures
        applicable(run(next_state(old, op), later)->0, op),
        refusal(run(next_state(old, op), later)->0, op) == Some(
            if is_named(op, "init"@) {
                StateError::OldStateNotEmpty
            } else {
                StateError::AlreadyContainsId
            },
        ),
{
    lemma_words();
    let next = next_state(old, op);
    if is_named(op, "init"@) {
        lemma_run_keeps_keys(next, later, IDS_STR@);
    } else {
        lemma_run_keeps(next, later, set_key(op), id_of(op));
    }
}

/// The state records the history: after an `init`, a list of operations is carried out if and
/// only if it holds no second `init` and no operation twice, and then one set holds the
/// identifiers of all created items and the other those of all destroyed ones.
pub proof fn law_state_records_history(ops: Seq<Op>)
    ensures
        run(empty_state(), op_dicts(ops)) is Some <==> !ops.contains(Op::Init)
            && ops.no_duplicates(),
        run(empty_state(), op_dicts(ops)) matches Some(state) ==> {
            &&& is_state(state)
            &&& set_at(state, IDS_STR@) == appended(ops)
            &&& set_at(state, NULLIFIERS_STR@) == nullified(ops)
        },
    decreases ops.len(),
{
    lemma_words();
    if ops.len() == 0 {
        assert(empty_state().dom() =~= set![IDS_STR@, NULLIFIERS_STR@]);
        assert(appended(ops) =~= Set::<Id>::empty());
        assert(nullified(ops) =~= Set::<Id>::empty());
    } else {
        let init = ops.drop_last();
        let last = ops.last();
        law_state_records_history(init);
        law_op_dict_reads_back(last);
        assert(op_dicts(ops).drop_last() =~= op_dicts(init));
        assert(op_dicts(ops).last() == op_dict(last));
        assert(ops =~= init.push(last));
        assert forall|op: Op| ops.contains(op) <==> init.contains(op) || op == last by {
            if init.contains(op) {
                let k = choose|k: int| 0 <= k < init.len() && init[k] == op;
                assert(ops[k] == op);
            }
            assert(ops[init.len() as int] == last);
        }
        assert(ops.no_duplicates() <==> init.no_duplicates() && !init.contains(last)) by {
            if ops.no_duplicates() {
                assert forall|i: int, j: int|
                    0 <= i < init.len() && 0 <= j < init.len() && i != j implies init[i]
                    != init[j] by {
                    assert(ops[i] != ops[j]);
                }
                if init.contains(last) {
                    let k = choose|k: int| 0 <= k < init.len() && init[k] == last;
                    assert(ops[k] == ops[init.len() as int]);
                }
            }
        }
        match run(empty_state(), op_dicts(init)) {
            Some(before) => {
                assert(before.contains_key(IDS_STR@));
                law_operations_apply_to_states(before, last);
                if refusal(before, op_dict(last)) is None {
                    law_states_stay_states(before, op_dict(last));
                    let state = next_state(before, op_dict(last));
                    assert(set_at(state, IDS_STR@) =~= appended(ops));
                    assert(set_at(state, NULLIFIERS_STR@) =~= nullified(ops));
                }
            },
            None => {},
        }
    }
}

/// A history starts with an `init` of the empty dictionary.
pub proof fn law_history_starts_with_init(ops: Seq<DictView>)
    ensures
        run(Map::empty(), seq![op_dict(Op::Init)] + ops) == run(empty_state(), ops),
    decreases ops.len(),
{
    let whole = seq![op_dict(Op::Init)] + ops;
    law_op_dict_reads_back(Op::Init);
    reveal_with_fuel(run, 2);
    if ops.len() == 0 {
        assert(whole.drop_last() =~= Seq::<DictView>::empty());
        assert(whole.last() == op_dict(Op::Init));
    } else {
        assert(whole.drop_last() =~= seq![op_dict(Op::Init)] + ops.drop_last());
        assert(whole.last() == ops.last());
        law_history_starts_with_init(ops.drop_last());
    }
}

} // verus!
