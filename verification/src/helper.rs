//! Construction of the statements that prove state transitions.
use vstd::prelude::*;
use crate::predicates::Predicates;
use crate::script::{
    Operand, OperandView, Operation, OperationView, places, PodScript, Statement,
};
use crate::state::{
    applicable, empty_state, grows, id_of, init_state, is_named, lemma_words, next_state, refusal, set_at,
    set_key, StateError, IDS_STR, NULLIFIERS_STR,
};
use crate::text::same_text;
use crate::values::{DictView, Dictionary, Id, IdSet, Value, ValueView};

verus! {

/// The operations that prove `init(new, old, op)`; the first takes the place `base`.
pub open spec fn init_steps(predicates: Predicates, old: DictView, op: DictView, base: int) -> Seq<
    OperationView,
> {
    seq![
        OperationView::DictContains { dict: op, key: "name"@, value: ValueView::Text("init"@) },
        OperationView::Equal { left: OperandView::Dict(old), right: OperandView::Empty },
        OperationView::Equal {
            left: OperandView::Dict(empty_state()),
            right: OperandView::Dict(empty_state()),
        },
        OperationView::Custom {
            predicate: predicates.init.name@,
            statements: seq![Some(base), Some(base + 1), Some(base + 2)],
        },
    ]
}

/// The operations that prove `append(new, old, op)` or `nullify(new, old, op)`; the first takes
/// the place `base`.
pub open spec fn grow_steps(predicates: Predicates, old: DictView, op: DictView, base: int) -> Seq<
    OperationView,
> {
    let append = is_named(op, "append"@);
    let key = set_key(op);
    let old_set = set_at(old, key);
    let new_set = old_set.insert(id_of(op));
    seq![
        OperationView::DictContains {
            dict: op,
            key: "name"@,
            value: ValueView::Text(
                if append {
                    "append"@
                } else {
                    "nullify"@
                },
            ),
        },
        OperationView::DictContains { dict: old, key, value: ValueView::IdSet(old_set) },
        OperationView::SetInsert { new_set, old_set, dict: op, key: "id"@ },
        OperationView::DictUpdate { new: next_state(old, op), old, key, set: new_set },
        OperationView::Custom {
            predicate: if append {
                predicates.append.name@
            } else {
                predicates.nullify.name@
            },
            statements: seq![Some(base), Some(base + 1), Some(base + 2), Some(base + 3)],
        },
    ]
}

/// The operations that prove the disjunct of `update(new, old, op)` that `op` calls for.
pub open spec fn branch_steps(
    predicates: Predicates,
    old: DictView,
    op: DictView,
    base: int,
) -> Seq<OperationView> {
    if is_named(op, "init"@) {
        init_steps(predicates, old, op, base)
    } else {
        grow_steps(predicates, old, op, base)
    }
}

/// The place, among its operations, of the one that a refused transition fails at.
pub open spec fn refused_step(op: DictView) -> int {
    if is_named(op, "init"@) {
        1
    } else {
        2
    }
}

/// The disjuncts of `update`, the proved one at `place` and nothing for the others.
pub open spec fn disjuncts(op: DictView, place: int) -> Seq<Option<int>> {
    if is_named(op, "init"@) {
        seq![Some(place), None, None]
    } else if is_named(op, "append"@) {
        seq![None, Some(place), None]
    } else {
        seq![None, None, Some(place)]
    }
}

/// The operations that prove `update(new, old, op)`; the first takes the place `base`.
pub open spec fn update_steps(
    predicates: Predicates,
    old: DictView,
    op: DictView,
    base: int,
) -> Seq<OperationView> {
    let branch = branch_steps(predicates, old, op, base);
    branch.push(
        OperationView::Custom {
            predicate: predicates.update.name@,
            statements: disjuncts(op, base + branch.len() - 1),
        },
    )
}

/// The text under `key`.
fn text_at<'b>(dict: &'b Dictionary, key: &str) -> (r: &'b str)
    requires
        dict@.contains_key(key@),
        dict@[key@] is Text,
    ensures
        dict@[key@] == ValueView::Text(r@),
{
    match dict.get(key) {
        Some(Value::Text(s)) => s.as_str(),
        _ => "",
    }
}

/// The set under `key`.
fn set_under(dict: &Dictionary, key: &str) -> (r: IdSet)
    requires
        dict@.contains_key(key@),
        dict@[key@] is IdSet,
    ensures
        dict@[key@] == ValueView::IdSet(r@),
{
    match dict.get(key) {
        Some(Value::IdSet(s)) => s.clone(),
        _ => IdSet::new(),
    }
}

/// The identifier under `key`.
fn raw_at(dict: &Dictionary, key: &str) -> (r: Id)
    requires
        dict@.contains_key(key@),
        dict@[key@] is Raw,
    ensures
        dict@[key@] == ValueView::Raw(r),
{
    match dict.get(key) {
        Some(Value::Raw(h)) => *h,
        _ => crate::values::Digest(0, 0, 0, 0),
    }
}

/// A refused transition: the error, and the operation that does not hold of its values.
#[derive(Debug)]
pub struct Refused {
    pub error: StateError,
    pub operation: Operation,
}

/// Builds the statements of state transitions.
#[derive(Debug)]
pub struct Helper<'a> {
    pub builder: &'a mut PodScript,
    pub predicates: &'a Predicates,
}

impl<'a> Helper<'a> {
    pub fn new(pod_builder: &'a mut PodScript, predicates: &'a Predicates) -> (r: Self)
        ensures
            *r.builder == *old(pod_builder),
            *final(r.builder) == *final(pod_builder),
            r.predicates == predicates,
    {
        Self { builder: pod_builder, predicates }
    }

    /// Proves `init(new, old, op)` and gives the new state.
    ///
    /// A state that is not empty is refused, with the operations before the comparison recorded and
    /// the comparison handed back.
    pub fn st_init(&mut self, old_state: Dictionary, op: Dictionary) -> (r: Result<
        (Dictionary, Statement),
        Refused,
    >)
        requires
            is_named(op@, "init"@),
        ensures
            final(self).predicates == old(self).predicates,
            *final(final(self).builder) == *final(old(self).builder),
            ({
                let base = old(self).builder@.len() as int;
                let steps = init_steps(*old(self).predicates, old_state@, op@, base);
                match r {
                    Ok((new, st)) => {
                        &&& old_state@ == Map::<Seq<char>, ValueView>::empty()
                        &&& new@ == empty_state()
                        &&& final(self).builder@ == old(self).builder@ + steps
                        &&& st@ == Some(base + 3)
                    },
                    Err(e) => {
                        &&& e.error == StateError::OldStateNotEmpty
                        &&& e.operation@ == steps[1]
                        &&& old_state@ != Map::<Seq<char>, ValueView>::empty()
                        &&& final(self).builder@ == old(self).builder@ + steps.take(1)
                    },
                }
            }),
    {
        // DictContains(op, "name", "init")
        let st0 = self.builder.priv_op(
            Operation::DictContains {
                dict: op.clone(),
                key: "name",
                value: Value::Text("init".to_owned()),
            },
        );
        // Equal(old, EMPTY)
        let was_empty = old_state.is_empty();
        let operation = Operation::Equal { left: Operand::Dict(old_state), right: Operand::Empty };
        if !was_empty {
            return Err(Refused { error: StateError::OldStateNotEmpty, operation });
        }
        let st1 = self.builder.priv_op(operation);
        let new = init_state();
        // Equal(new, {"ids": EMPTY, "nullifiers": EMPTY})
        let st2 = self.builder.priv_op(
            Operation::Equal { left: Operand::Dict(new.clone()), right: Operand::Dict(new.clone()) },
        );
        let statements = vec![st0, st1, st2];
        assert(places(statements@) =~= seq![st0@, st1@, st2@]);
        // init(new, old, op)
        let st = self.builder.priv_op(
            Operation::Custom { predicate: self.predicates.init.clone(), statements },
        );
        Ok((new, st))
    }

    /// Proves `append(new, old, op)` or `nullify(new, old, op)` and gives the new state.
    ///
    /// An identifier that the set holds already is refused, with the operations before the
    /// insertion recorded and the insertion handed back. That a nullified item was ever created is
    /// not asked.
    pub fn st_append_nullify(&mut self, old_state: Dictionary, op: Dictionary) -> (r: Result<
        (Dictionary, Statement),
        Refused,
    >)
        requires
            grows(old_state@, op@),
        ensures
            final(self).predicates == old(self).predicates,
            *final(final(self).builder) == *final(old(self).builder),
            ({
                let base = old(self).builder@.len() as int;
                let steps = grow_steps(*old(self).predicates, old_state@, op@, base);
                let held = set_at(old_state@, set_key(op@)).contains(id_of(op@));
                match r {
                    Ok((new, st)) => {
                        &&& !held
                        &&& new@ == next_state(old_state@, op@)
                        &&& final(self).builder@ == old(self).builder@ + steps
                        &&& st@ == Some(base + 4)
                    },
                    Err(e) => {
                        &&& e.error == StateError::AlreadyContainsId
                        &&& e.operation@ == steps[2]
                        &&& held
                        &&& final(self).builder@ == old(self).builder@ + steps.take(2)
                    },
                }
            }),
    {
        proof {
            lemma_words();
        }
        let append = same_text(text_at(&op, "name"), "append");
        let set_name = if append {
            IDS_STR
        } else {
            NULLIFIERS_STR
        };
        // DictContains(op, "name", "append") or DictContains(op, "name", "nullify")
        let name = if append {
            "append".to_owned()
        } else {
            "nullify".to_owned()
        };
        let st0 = self.builder.priv_op(
            Operation::DictContains { dict: op.clone(), key: "name", value: Value::Text(name) },
        );
        let old_set = set_under(&old_state, set_name);
        // DictContains(old, set_name, old_set)
        let st1 = self.builder.priv_op(
            Operation::DictContains {
                dict: old_state.clone(),
                key: set_name,
                value: Value::IdSet(old_set.clone()),
            },
        );
        let id = raw_at(&op, "id");
        let held = old_set.contains(id);
        let mut new_set = old_set.clone();
        new_set.insert(id);
        // SetInsert(new_set, old_set, op.id)
        let operation = Operation::SetInsert {
            new_set: new_set.clone(),
            old_set,
            dict: op,
            key: "id",
        };
        if held {
            return Err(Refused { error: StateError::AlreadyContainsId, operation });
        }
        let st2 = self.builder.priv_op(operation);
        let mut new = old_state.clone();
        new.insert(set_name, Value::IdSet(new_set.clone()));
        // DictUpdate(new, old, set_name, new_set)
        let st3 = self.builder.priv_op(
            Operation::DictUpdate {
                new: new.clone(),
                old: old_state,
                key: set_name,
                set: new_set,
            },
        );
        let statements = vec![st0, st1, st2, st3];
        assert(places(statements@) =~= seq![st0@, st1@, st2@, st3@]);
        let predicate = if append {
            self.predicates.append.clone()
        } else {
            self.predicates.nullify.clone()
        };
        let st = self.builder.priv_op(Operation::Custom { predicate, statements });
        Ok((new, st))
    }

    /// Proves `update(new, old, op)` and gives the new state.
    pub fn st_update(&mut self, old_state: Dictionary, op: Dictionary) -> (r: Result<
        (Dictionary, Statement),
        Refused,
    >)
        requires
            applicable(old_state@, op@),
        ensures
            final(self).predicates == old(self).predicates,
            *final(final(self).builder) == *final(old(self).builder),
            ({
                let base = old(self).builder@.len() as int;
                let steps = update_steps(*old(self).predicates, old_state@, op@, base);
                match r {
                    Ok((new, st)) => {
                        &&& refusal(old_state@, op@) is None
                        &&& new@ == next_state(old_state@, op@)
                        &&& final(self).builder@ == old(self).builder@ + steps
                        &&& st@ == Some(base + steps.len() - 1)
                    },
                    Err(e) => {
                        &&& refusal(old_state@, op@) == Some(e.error)
                        &&& e.operation@ == steps[refused_step(op@)]
                        &&& final(self).builder@ == old(self).builder@ + steps.take(
                            refused_step(op@),
                        )
                    },
                }
            }),
    {
        proof {
            lemma_words();
        }
        let ghost before = self.builder@;
        let ghost ops = branch_steps(
            *self.predicates,
            old_state@,
            op@,
            self.builder@.len() as int,
        );
        let ghost whole = update_steps(
            *self.predicates,
            old_state@,
            op@,
            self.builder@.len() as int,
        );
        let ghost op_view = op@;
        let is_init = same_text(text_at(&op, "name"), "init");
        let is_append = same_text(text_at(&op, "name"), "append");
        let outcome = if is_init {
            self.st_init(old_state, op)
        } else {
            self.st_append_nullify(old_state, op)
        };
        let (new, branch) = match outcome {
            Ok(pair) => pair,
            Err(e) => {
                assert(ops.take(refused_step(op_view)) =~= whole.take(
                    refused_step(op_view),
                ));
                return Err(e);
            },
        };
        let statements = if is_init {
            vec![branch, Statement::Nothing, Statement::Nothing]
        } else if is_append {
            vec![Statement::Nothing, branch, Statement::Nothing]
        } else {
            vec![Statement::Nothing, Statement::Nothing, branch]
        };
        assert(places(statements@) =~= disjuncts(op_view, before.len() + ops.len() - 1));
        // update(new, old, op)
        let st = self.builder.priv_op(
            Operation::Custom { predicate: self.predicates.update.clone(), statements },
        );
        assert(self.builder@ =~= before + whole);
        Ok((new, st))
    }
}

} // verus!
