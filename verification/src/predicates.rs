//! The custom predicates of the state, as source text.
use vstd::prelude::*;
use vstd::string::*;
use crate::script::CustomPredicateRef;
use crate::state::{IDS_STR, NULLIFIERS_STR};

verus! {

/// The custom predicates of the state.
#[derive(Debug)]
pub struct Predicates {
    pub init: CustomPredicateRef,
    pub append: CustomPredicateRef,
    pub nullify: CustomPredicateRef,
    pub update: CustomPredicateRef,
}

impl Clone for Predicates {
    fn clone(&self) -> (r: Self)
        ensures
            r == *self,
    {
        Predicates {
            init: self.init.clone(),
            append: self.append.clone(),
            nullify: self.nullify.clone(),
            update: self.update.clone(),
        }
    }
}

/// The source of a batch of predicates, and the predicates to take from it.
#[derive(Debug)]
pub struct PredicateBatch {
    pub source: String,
    pub predicates: Predicates,
}

/// The source up to the empty value in `init`.
pub const INIT_TO_OLD: &'static str = r#"
        // State predicates
        init(new, old, op) = AND(
            // Input validation
            DictContains(op, "name", "init")
            // State transition
            Equal(old, "#;

/// The source from there to the empty state in `init`.
pub const INIT_TO_NEW: &'static str = r#")
            Equal(new, "#;

/// The source from there to the key of the identifiers in `append`.
pub const INIT_TO_APPEND: &'static str = r#")
        )

        append(new, old, op, private: old_set, new_set) = AND(
            // Input validation
            DictContains(op, "name", "append")
            // State transition
            DictContains(old, ""#;

/// The source between the two keys in `append`.
pub const APPEND_SETS: &'static str = r#"", old_set)
            SetInsert(new_set, old_set, op.id)
            DictUpdate(new, old, ""#;

/// The source from there to the note in `nullify`.
pub const APPEND_TO_NULLIFY: &'static str = r#"", new_set)
        )

        nullify(new, old, op, private: old_set, new_set) = AND(
            // Input validation
            DictContains(op, "name", "nullify")
            // TODO: Check existence of ID before nullifying
            // DictContains(old, ""#;

/// The source from there to the key of the nullifiers in `nullify`.
pub const NULLIFY_NOTE: &'static str = r#"", old_id_set)
            // SetContains(old_id_set, op.id)
            // State transition
            DictContains(old, ""#;

/// The source between the two keys in `nullify`.
pub const NULLIFY_SETS: &'static str = r#"", old_set)
            SetInsert(new_set, old_set, op.id)
            DictUpdate(new, old, ""#;

/// The rest of the source.
pub const NULLIFY_TO_END: &'static str = r#"", new_set)
        )

        update(new, old, op) = OR(
            init(new, old, op)
            append(new, old, op)
            nullify(new, old, op)
        )
    "#;

/// The text of the value that every empty container commits to; `zero` is its number.
pub open spec fn empty_text(zero: Seq<char>) -> Seq<char> {
    "Raw("@ + zero + ")"@
}

/// The text of the state without items.
pub open spec fn empty_state_text(zero: Seq<char>) -> Seq<char> {
    "{\""@ + IDS_STR@ + "\": "@ + empty_text(zero) + ", \""@ + NULLIFIERS_STR@ + "\": "@
        + empty_text(zero) + "}"@
}

/// The source of the predicates.
pub open spec fn source_text(zero: Seq<char>) -> Seq<char> {
    INIT_TO_OLD@
        + empty_text(zero) + INIT_TO_NEW@
        + empty_state_text(zero) + INIT_TO_APPEND@
        + IDS_STR@ + APPEND_SETS@
        + IDS_STR@ + APPEND_TO_NULLIFY@
        + IDS_STR@ + NULLIFY_NOTE@
        + NULLIFIERS_STR@ + NULLIFY_SETS@
        + NULLIFIERS_STR@ + NULLIFY_TO_END@
}

/// Writes the predicates of the state.
///
/// The state is a dictionary from `"ids"` to the identifiers of all created items and from
/// `"nullifiers"` to the nullifiers of all destroyed ones. `zero` is the number of the value that
/// every empty container commits to, as the predicate language writes it. That an item to nullify
/// was ever created is not part of the predicate: the text only holds a note of it.
pub fn build_predicates(zero: &str) -> (r: PredicateBatch)
    ensures
        r.source@ == source_text(zero@),
        r.predicates.init.name@ == "init"@,
        r.predicates.append.name@ == "append"@,
        r.predicates.nullify.name@ == "nullify"@,
        r.predicates.update.name@ == "update"@,
{
    let empty = "Raw(".to_owned().concat(zero).concat(")");
    let empty_state = "{\"".to_owned().concat(IDS_STR).concat("\": ").concat(empty.as_str()).concat(
        ", \"",
    ).concat(NULLIFIERS_STR).concat("\": ").concat(empty.as_str()).concat("}");
    let mut source = INIT_TO_OLD.to_owned();
    source.append(empty.as_str());
    source.append(INIT_TO_NEW);
    source.append(empty_state.as_str());
    source.append(INIT_TO_APPEND);
    source.append(IDS_STR);
    source.append(APPEND_SETS);
    source.append(IDS_STR);
    source.append(APPEND_TO_NULLIFY);
    source.append(IDS_STR);
    source.append(NULLIFY_NOTE);
    source.append(NULLIFIERS_STR);
    source.append(NULLIFY_SETS);
    source.append(NULLIFIERS_STR);
    source.append(NULLIFY_TO_END);
    PredicateBatch {
        source,
        predicates: Predicates {
            init: CustomPredicateRef { name: "init".to_owned() },
            append: CustomPredicateRef { name: "append".to_owned() },
            nullify: CustomPredicateRef { name: "nullify".to_owned() },
            update: CustomPredicateRef { name: "update".to_owned() },
        },
    }
}

} // verus!
