//! What a record of operations proves.
use vstd::prelude::*;
use crate::helper::update_steps;
use crate::predicates::Predicates;
use crate::script::{claim_holds, Commit, OperandView, OperationView};
use crate::state::{
    applicable, empty_state, id_of, is_named, lemma_words, next_state, refusal, set_at, set_key,
    IDS_STR, NULLIFIERS_STR,
};
use crate::state_laws::{
    append_holds, init_holds, law_recorded_operations_hold, nullify_holds, set_grows,
    update_holds,
};
use crate::values::{DictView, Id, ValueView};

verus! {

/// The operation at `place` concludes the custom predicate `name` from the statements.
pub open spec fn concludes(
    record: Seq<OperationView>,
    place: int,
    name: Seq<char>,
    statements: Seq<Option<int>>,
) -> bool {
    0 <= place < record.len() && record[place] == (OperationView::Custom {
        predicate: name,
        statements,
    })
}

/// The statement is that of an operation before `place`, which is `op`.
pub open spec fn cites(
    record: Seq<OperationView>,
    place: int,
    statement: Option<int>,
    op: OperationView,
) -> bool {
    statement matches Some(k) && 0 <= k < place && record[k] == op
}

/// The operation at `place` proves `init(new, old, op)` from the three conjuncts of the predicate.
pub open spec fn proves_init(
    predicates: Predicates,
    record: Seq<OperationView>,
    place: int,
    new: DictView,
    old: DictView,
    op: DictView,
) -> bool {
    exists|s: Seq<Option<int>>|
        {
            &&& #[trigger] concludes(record, place, predicates.init.name@, s)
            &&& s.len() == 3
            &&& cites(
                record,
                place,
                s[0],
                OperationView::DictContains {
                    dict: op,
                    key: "name"@,
                    value: ValueView::Text("init"@),
                },
            )
            &&& cites(
                record,
                place,
                s[1],
                OperationView::Equal { left: OperandView::Dict(old), right: OperandView::Empty },
            )
            &&& cites(
                record,
                place,
                s[2],
                OperationView::Equal {
                    left: OperandView::Dict(new),
                    right: OperandView::Dict(empty_state()),
                },
            )
        }
}

/// The statements are the four conjuncts of a predicate by which the set under `key` grows.
pub open spec fn cites_growth(
    record: Seq<OperationView>,
    place: int,
    s: Seq<Option<int>>,
    op_name: Seq<char>,
    key: Seq<char>,
    new: DictView,
    old: DictView,
    op: DictView,
    old_set: Set<Id>,
    new_set: Set<Id>,
) -> bool {
    &&& s.len() == 4
    &&& cites(
        record,
        place,
        s[0],
        OperationView::DictContains { dict: op, key: "name"@, value: ValueView::Text(op_name) },
    )
    &&& cites(
        record,
        place,
        s[1],
        OperationView::DictContains { dict: old, key, value: ValueView::IdSet(old_set) },
    )
    &&& cites(
        record,
        place,
        s[2],
        OperationView::SetInsert { new_set, old_set, dict: op, key: "id"@ },
    )
    &&& cites(record, place, s[3], OperationView::DictUpdate { new, old, key, set: new_set })
}

/// The operation at `place` proves `append(new, old, op)` from the four conjuncts of the
/// predicate.
pub open spec fn proves_append(
    predicates: Predicates,
    record: Seq<OperationView>,
    place: int,
    new: DictView,
    old: DictView,
    op: DictView,
) -> bool {
    exists|s: Seq<Option<int>>, old_set: Set<Id>, new_set: Set<Id>|
        {
            &&& #[trigger] concludes(record, place, predicates.append.name@, s)
            &&& #[trigger] cites_growth(
                record,
                place,
                s,
                "append"@,
                IDS_STR@,
                new,
                old,
                op,
                old_set,
                new_set,
            )
        }
}

/// The operation at `place` proves `nullify(new, old, op)` from the four conjuncts of the
/// predicate.
pub open spec fn proves_nullify(
    predicates: Predicates,
    record: Seq<OperationView>,
    place: int,
    new: DictView,
    old: DictView,
    op: DictView,
) -> bool {
    exists|s: Seq<Option<int>>, old_set: Set<Id>, new_set: Set<Id>|
        {
            &&& #[trigger] concludes(record, place, predicates.nullify.name@, s)
            &&& #[trigger] cites_growth(
                record,
                place,
                s,
                "nullify"@,
                NULLIFIERS_STR@,
                new,
                old,
                op,
                old_set,
                new_set,
            )
        }
}

/// The disjunct at `k` of the list proves its predicate, and the list holds no other.
pub open spec fn proves_disjunct(
    predicates: Predicates,
    record: Seq<OperationView>,
    s: Seq<Option<int>>,
    k: int,
    new: DictView,
    old: DictView,
    op: DictView,
) -> bool {
    ||| s == seq![Some(k), None, None] && proves_init(predicates, record, k, new, old, op)
    ||| s == seq![None, Some(k), None] && proves_append(predicates, record, k, new, old, op)
    ||| s == seq![None, None, Some(k)] && proves_nullify(predicates, record, k, new, old, op)
}

/// The operation at `place` proves `update(new, old, op)` from exactly one of the three disjuncts
/// of the predicate, which was proved before.
pub open spec fn proves_update(
    predicates: Predicates,
    record: Seq<OperationView>,
    place: int,
    new: DictView,
    old: DictView,
    op: DictView,
) -> bool {
    exists|s: Seq<Option<int>>, k: int|
        {
            &&& #[trigger] concludes(record, place, predicates.update.name@, s)
            &&& 0 <= k < place
            &&& #[trigger] proves_disjunct(predicates, record, s, k, new, old, op)
        }
}

/// The operation at `place` proves one of the predicates.
pub open spec fn proves_some(
    predicates: Predicates,
    record: Seq<OperationView>,
    place: int,
    new: DictView,
    old: DictView,
    op: DictView,
) -> bool {
    ||| proves_init(predicates, record, place, new, old, op)
    ||| proves_append(predicates, record, place, new, old, op)
    ||| proves_nullify(predicates, record, place, new, old, op)
    ||| proves_update(predicates, record, place, new, old, op)
}

/// The operation at `place` is in order: it holds of its values or, if it is a custom one, the
/// statements that it cites are those that its predicate asks for.
pub open spec fn step_holds(
    commit: Commit,
    predicates: Predicates,
    record: Seq<OperationView>,
    place: int,
) -> bool {
    if record[place] is Custom {
        exists|new: DictView, old: DictView, op: DictView|
            proves_some(predicates, record, place, new, old, op)
    } else {
        claim_holds(commit, record[place])
    }
}

/// Every operation of the record is in order.
pub open spec fn record_holds(
    commit: Commit,
    predicates: Predicates,
    record: Seq<OperationView>,
) -> bool {
    forall|i: int|
        0 <= i < record.len() ==> #[trigger] step_holds(commit, predicates, record, i)
}

/// What an operation proves, it proves in every longer record.
proof fn lemma_proof_stays(
    predicates: Predicates,
    record: Seq<OperationView>,
    longer: Seq<OperationView>,
    place: int,
    new: DictView,
    old: DictView,
    op: DictView,
)
    requires
        record.len() <= longer.len(),
        longer.take(record.len() as int) == record,
    ensures
        proves_init(predicates, record, place, new, old, op) ==> proves_init(
            predicates,
            longer,
            place,
            new,
            old,
            op,
        ),
        proves_append(predicates, record, place, new, old, op) ==> proves_append(
            predicates,
            longer,
            place,
            new,
            old,
            op,
        ),
        proves_nullify(predicates, record, place, new, old, op) ==> proves_nullify(
            predicates,
            longer,
            place,
            new,
            old,
            op,
        ),
        proves_update(predicates, record, place, new, old, op) ==> proves_update(
            predicates,
            longer,
            place,
            new,
            old,
            op,
        ),
    decreases place,
{
    assert forall|i: int| 0 <= i < record.len() implies #[trigger] longer[i] == record[i] by {
        assert(longer.take(record.len() as int)[i] == longer[i]);
    }
    if proves_init(predicates, record, place, new, old, op) {
        let s = choose|s: Seq<Option<int>>|
            {
                &&& #[trigger] concludes(record, place, predicates.init.name@, s)
                &&& s.len() == 3
                &&& cites(
                    record,
                    place,
                    s[0],
                    OperationView::DictContains {
                        dict: op,
                        key: "name"@,
                        value: ValueView::Text("init"@),
                    },
                )
                &&& cites(
                    record,
                    place,
                    s[1],
                    OperationView::Equal {
                        left: OperandView::Dict(old),
                        right: OperandView::Empty,
                    },
                )
                &&& cites(
                    record,
                    place,
                    s[2],
                    OperationView::Equal {
                        left: OperandView::Dict(new),
                        right: OperandView::Dict(empty_state()),
                    },
                )
            };
        assert(concludes(longer, place, predicates.init.name@, s));
    }
    if proves_append(predicates, record, place, new, old, op) {
        let (s, old_set, new_set) = choose|s: Seq<Option<int>>, old_set: Set<Id>, new_set: Set<Id>|
            {
                &&& #[trigger] concludes(record, place, predicates.append.name@, s)
                &&& #[trigger] cites_growth(
                    record, place, s, "append"@, IDS_STR@, new, old, op, old_set, new_set,
                )
            };
        assert(concludes(longer, place, predicates.append.name@, s));
        assert(cites_growth(
            longer, place, s, "append"@, IDS_STR@, new, old, op, old_set, new_set,
        ));
    }
    if proves_nullify(predicates, record, place, new, old, op) {
        let (s, old_set, new_set) = choose|s: Seq<Option<int>>, old_set: Set<Id>, new_set: Set<Id>|
            {
                &&& #[trigger] concludes(record, place, predicates.nullify.name@, s)
                &&& #[trigger] cites_growth(
                    record, place, s, "nullify"@, NULLIFIERS_STR@, new, old, op, old_set, new_set,
                )
            };
        assert(concludes(longer, place, predicates.nullify.name@, s));
        assert(cites_growth(
            longer, place, s, "nullify"@, NULLIFIERS_STR@, new, old, op, old_set, new_set,
        ));
    }
    if proves_update(predicates, record, place, new, old, op) {
        let (s, k) = choose|s: Seq<Option<int>>, k: int|
            {
                &&& #[trigger] concludes(record, place, predicates.update.name@, s)
                &&& 0 <= k < place
                &&& #[trigger] proves_disjunct(predicates, record, s, k, new, old, op)
            };
        lemma_proof_stays(predicates, record, longer, k, new, old, op);
        assert(concludes(longer, place, predicates.update.name@, s));
        assert(proves_disjunct(predicates, longer, s, k, new, old, op));
    }
}

/// The disjunct that an operation calls for is proved by the last operation but one.
proof fn lemma_branch_is_proved(
    predicates: Predicates,
    before: Seq<OperationView>,
    old: DictView,
    op: DictView,
)
    requires
        applicable(old, op),
        refusal(old, op) is None,
    ensures
        ({
            let steps = update_steps(predicates, old, op, before.len() as int);
            let record = before + steps;
            let k = record.len() - 2;
            let new = next_state(old, op);
            if is_named(op, "init"@) {
                proves_init(predicates, record, k, new, old, op)
            } else if is_named(op, "append"@) {
                proves_append(predicates, record, k, new, old, op)
            } else {
                proves_nullify(predicates, record, k, new, old, op)
            }
        }),
{
    lemma_words();
    let base = before.len() as int;
    let steps = update_steps(predicates, old, op, base);
    let record = before + steps;
    let k = record.len() - 2;
    let new = next_state(old, op);
    assert forall|i: int| 0 <= i < steps.len() implies #[trigger] record[base + i] == steps[i] by {}
    if is_named(op, "init"@) {
        let s = seq![Some(base), Some(base + 1), Some(base + 2)];
        assert(record[base + 0] == steps[0]);
        assert(record[base + 3] == steps[3]);
        assert(concludes(record, k, predicates.init.name@, s));
    } else {
        let s = seq![Some(base), Some(base + 1), Some(base + 2), Some(base + 3)];
        let old_set = set_at(old, set_key(op));
        let new_set = old_set.insert(id_of(op));
        assert(record[base + 0] == steps[0]);
        assert(record[base + 4] == steps[4]);
        if is_named(op, "append"@) {
            assert(concludes(record, k, predicates.append.name@, s));
            assert(cites_growth(
                record, k, s, "append"@, IDS_STR@, new, old, op, old_set, new_set,
            ));
        } else {
            assert(concludes(record, k, predicates.nullify.name@, s));
            assert(cites_growth(
                record, k, s, "nullify"@, NULLIFIERS_STR@, new, old, op, old_set, new_set,
            ));
        }
    }
}

/// The operations of a transition that is carried out prove `update(new, old, op)` of its states,
/// at the last place, from exactly one disjunct, whose own conjuncts are recorded before it.
pub proof fn law_record_proves_update(
    predicates: Predicates,
    before: Seq<OperationView>,
    old: DictView,
    op: DictView,
)
    requires
        applicable(old, op),
        refusal(old, op) is None,
    ensures
        ({
            let record = before + update_steps(predicates, old, op, before.len() as int);
            proves_update(
                predicates,
                record,
                record.len() - 1,
                next_state(old, op),
                old,
                op,
            )
        }),
{
    lemma_words();
    let base = before.len() as int;
    let steps = update_steps(predicates, old, op, base);
    let record = before + steps;
    let k = record.len() - 2;
    let new = next_state(old, op);
    lemma_branch_is_proved(predicates, before, old, op);
    let s = if is_named(op, "init"@) {
        seq![Some(k), None, None]
    } else if is_named(op, "append"@) {
        seq![None, Some(k), None]
    } else {
        seq![None, None, Some(k)]
    };
    assert(record[record.len() - 1] == steps.last());
    assert(concludes(record, record.len() - 1, predicates.update.name@, s));
    assert(proves_disjunct(predicates, record, s, k, new, old, op));
}

/// A record whose operations are in order stays so: every operation that a transition adds holds
/// of its values or cites the statements that its predicate asks for.
pub proof fn law_records_stay_in_order(
    commit: Commit,
    predicates: Predicates,
    before: Seq<OperationView>,
    old: DictView,
    op: DictView,
)
    requires
        record_holds(commit, predicates, before),
        applicable(old, op),
        refusal(old, op) is None,
    ensures
        record_holds(
            commit,
            predicates,
            before + update_steps(predicates, old, op, before.len() as int),
        ),
{
    lemma_words();
    let base = before.len() as int;
    let steps = update_steps(predicates, old, op, base);
    let record = before + steps;
    let new = next_state(old, op);
    assert(record.take(base) =~= before);
    assert forall|i: int| 0 <= i < record.len() implies #[trigger] step_holds(
        commit,
        predicates,
        record,
        i,
    ) by {
        if i < base {
            assert(record[i] == before[i]);
            assert(step_holds(commit, predicates, before, i));
            if before[i] is Custom {
                let (n, o, p) = choose|n: DictView, o: DictView, p: DictView|
                    proves_some(predicates, before, i, n, o, p);
                lemma_proof_stays(predicates, before, record, i, n, o, p);
                assert(proves_some(predicates, record, i, n, o, p));
            }
        } else {
            assert(record[i] == steps[i - base]);
            if i == record.len() - 1 {
                law_record_proves_update(predicates, before, old, op);
                assert(proves_some(predicates, record, i, new, old, op));
            } else if i == record.len() - 2 {
                lemma_branch_is_proved(predicates, before, old, op);
                assert(proves_some(predicates, record, i, new, old, op));
            } else {
                law_recorded_operations_hold(commit, predicates, old, op, base, i - base);
            }
        }
    }
}

/// What a record that is in order proves is so: where it proves `update(new, old, op)`, the
/// predicate holds of these values.
pub proof fn law_records_prove_what_holds(
    commit: Commit,
    predicates: Predicates,
    record: Seq<OperationView>,
    place: int,
    new: DictView,
    old: DictView,
    op: DictView,
)
    requires
        record_holds(commit, predicates, record),
        proves_update(predicates, record, place, new, old, op),
    ensures
        update_holds(commit, new, old, op),
{
    let (s, k) = choose|s: Seq<Option<int>>, k: int|
        {
            &&& #[trigger] concludes(record, place, predicates.update.name@, s)
            &&& 0 <= k < place
            &&& #[trigger] proves_disjunct(predicates, record, s, k, new, old, op)
        };
    assert forall|i: int| 0 <= i < record.len() && !(record[i] is Custom) implies claim_holds(
        commit,
        #[trigger] record[i],
    ) by {
        assert(step_holds(commit, predicates, record, i));
    }
    if proves_init(predicates, record, k, new, old, op) {
        assert(init_holds(commit, new, old, op));
    } else if proves_append(predicates, record, k, new, old, op) {
        let (t, old_set, new_set) = choose|t: Seq<Option<int>>, old_set: Set<Id>, new_set: Set<Id>|
            {
                &&& #[trigger] concludes(record, k, predicates.append.name@, t)
                &&& #[trigger] cites_growth(
                    record, k, t, "append"@, IDS_STR@, new, old, op, old_set, new_set,
                )
            };
        assert(set_grows(commit, new, old, op, IDS_STR@, old_set, new_set));
        assert(append_holds(commit, new, old, op));
    } else {
        let (t, old_set, new_set) = choose|t: Seq<Option<int>>, old_set: Set<Id>, new_set: Set<Id>|
            {
                &&& #[trigger] concludes(record, k, predicates.nullify.name@, t)
                &&& #[trigger] cites_growth(
                    record, k, t, "nullify"@, NULLIFIERS_STR@, new, old, op, old_set, new_set,
                )
            };
        assert(set_grows(commit, new, old, op, NULLIFIERS_STR@, old_set, new_set));
        assert(nullify_holds(commit, new, old, op));
    }
}

/// A transition is recorded with nothing to spare: one operation for each conjunct, one for the
/// disjunct and one for `update`.
pub proof fn law_records_hold_no_more(
    predicates: Predicates,
    old: DictView,
    op: DictView,
    base: int,
)
    requires
        applicable(old, op),
    ensures
        update_steps(predicates, old, op, base).len() == if is_named(op, "init"@) {
            5int
        } else {
            6int
        },
{
}

} // verus!
