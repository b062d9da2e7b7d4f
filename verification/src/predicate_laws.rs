//! What the source of the predicates defines.
use vstd::prelude::*;
use vstd::string::*;
use crate::language::{
    arg_text, call_text, code, comma_list, definition_code, head_text, is_content, is_silent,
    lemma_code_of_line, lemma_code_of_nothing, lemma_content_goes_on, lemma_line_follows, lemma_line_goes_on, line,
    no_break, program_code, quoted, raw_text, with_line, Arg, Call, Definition,
};
use crate::predicates::{
    empty_state_text, empty_text, source_text, APPEND_SETS, APPEND_TO_NULLIFY, INIT_TO_APPEND,
    INIT_TO_NEW, INIT_TO_OLD, NULLIFY_NOTE, NULLIFY_SETS, NULLIFY_TO_END,
};
use crate::script::{claim_holds, Commit, OperandView, OperationView};
use crate::state::{empty_state, lemma_words, IDS_STR, NULLIFIERS_STR};
use crate::state_laws::{append_holds, init_holds, nullify_holds, set_grows, update_holds};
use crate::values::{DictView, Id, ValueView};

verus! {

/// The values that a definition is read for.
pub struct Reading {
    /// The number of the value that every empty container commits to.
    pub zero: Seq<char>,
    pub new: DictView,
    pub old: DictView,
    pub op: DictView,
    pub old_set: Set<Id>,
    pub new_set: Set<Id>,
}

impl Reading {
    /// The dictionary that a variable stands for.
    pub open spec fn dict(self, arg: Arg) -> Option<DictView> {
        match arg {
            Arg::Var(name) => if name == "new"@ {
                Some(self.new)
            } else if name == "old"@ {
                Some(self.old)
            } else if name == "op"@ {
                Some(self.op)
            } else {
                None
            },
            _ => None,
        }
    }

    /// The set that a variable stands for.
    pub open spec fn set(self, arg: Arg) -> Option<Set<Id>> {
        match arg {
            Arg::Var(name) => if name == "old_set"@ {
                Some(self.old_set)
            } else if name == "new_set"@ {
                Some(self.new_set)
            } else {
                None
            },
            _ => None,
        }
    }

    /// The value that an argument stands for.
    pub open spec fn value(self, arg: Arg) -> Option<ValueView> {
        match arg {
            Arg::Text(text) => Some(ValueView::Text(text)),
            _ => match self.set(arg) {
                Some(set) => Some(ValueView::IdSet(set)),
                None => None,
            },
        }
    }

    /// What an argument is compared with: the number of the empty value, or a dictionary whose
    /// values all have it.
    pub open spec fn operand(self, arg: Arg) -> Option<OperandView> {
        match arg {
            Arg::Raw(number) => if number == self.zero {
                Some(OperandView::Empty)
            } else {
                None
            },
            Arg::Dict(entries) => if forall|i: int|
                0 <= i < entries.len() ==> (#[trigger] entries[i]).1 == self.zero {
                Some(
                    OperandView::Dict(
                        Map::new(
                            |key: Seq<char>|
                                exists|i: int| 0 <= i < entries.len() && #[trigger] entries[i].0 == key,
                            |key: Seq<char>| ValueView::IdSet(Set::empty()),
                        ),
                    ),
                )
            } else {
                None
            },
            _ => match self.dict(arg) {
                Some(dict) => Some(OperandView::Dict(dict)),
                None => None,
            },
        }
    }

    /// What a predicate of the language claims.
    pub open spec fn operation(self, call: Call) -> Option<OperationView> {
        let args = call.args;
        if call.name == "DictContains"@ && args.len() == 3 {
            match (self.dict(args[0]), args[1], self.value(args[2])) {
                (Some(dict), Arg::Text(key), Some(value)) => Some(
                    OperationView::DictContains { dict, key, value },
                ),
                _ => None,
            }
        } else if call.name == "Equal"@ && args.len() == 2 {
            match (self.operand(args[0]), self.operand(args[1])) {
                (Some(left), Some(right)) => Some(OperationView::Equal { left, right }),
                _ => None,
            }
        } else if call.name == "SetInsert"@ && args.len() == 3 {
            match (self.set(args[0]), self.set(args[1]), args[2]) {
                (Some(new_set), Some(old_set), Arg::Field(name, key)) => match self.dict(
                    Arg::Var(name),
                ) {
                    Some(dict) => Some(OperationView::SetInsert { new_set, old_set, dict, key }),
                    None => None,
                },
                _ => None,
            }
        } else if call.name == "DictUpdate"@ && args.len() == 4 {
            match (self.dict(args[0]), self.dict(args[1]), args[2], self.set(args[3])) {
                (Some(new), Some(old), Arg::Text(key), Some(set)) => Some(
                    OperationView::DictUpdate { new, old, key, set },
                ),
                _ => None,
            }
        } else {
            None
        }
    }

    /// A predicate of the language holds.
    pub open spec fn holds(self, commit: Commit, call: Call) -> bool {
        self.operation(call) matches Some(op) && claim_holds(commit, op)
    }

    /// All predicates of a definition hold.
    pub open spec fn all_hold(self, commit: Commit, body: Seq<Call>) -> bool {
        forall|i: int| 0 <= i < body.len() ==> self.holds(commit, #[trigger] body[i])
    }
}

/// A conjunction holds of two states and an operation, for some values of its private variables.
pub open spec fn conjunction_holds(
    commit: Commit,
    zero: Seq<char>,
    definition: Definition,
    new: DictView,
    old: DictView,
    op: DictView,
) -> bool {
    &&& !definition.any
    &&& definition.params == seq!["new"@, "old"@, "op"@]
    &&& exists|old_set: Set<Id>, new_set: Set<Id>|
        (Reading { zero, new, old, op, old_set, new_set }).all_hold(commit, definition.body)
}

/// A disjunct of a definition is another definition, applied to the same values, that holds.
pub open spec fn disjunct_holds(
    commit: Commit,
    zero: Seq<char>,
    program: Seq<Definition>,
    call: Call,
    new: DictView,
    old: DictView,
    op: DictView,
) -> bool {
    &&& call.args == seq![Arg::Var("new"@), Arg::Var("old"@), Arg::Var("op"@)]
    &&& exists|k: int|
        0 <= k < program.len() && #[trigger] program[k].name == call.name && conjunction_holds(
            commit,
            zero,
            program[k],
            new,
            old,
            op,
        )
}

/// The predicate `name` of the program holds of two states and an operation.
pub open spec fn defined_holds(
    commit: Commit,
    zero: Seq<char>,
    program: Seq<Definition>,
    name: Seq<char>,
    new: DictView,
    old: DictView,
    op: DictView,
) -> bool {
    exists|k: int|
        {
            &&& 0 <= k < program.len()
            &&& #[trigger] program[k].name == name
            &&& if program[k].any {
                &&& program[k].params == seq!["new"@, "old"@, "op"@]
                &&& exists|i: int|
                    0 <= i < program[k].body.len() && disjunct_holds(
                        commit,
                        zero,
                        program,
                        #[trigger] program[k].body[i],
                        new,
                        old,
                        op,
                    )
            } else {
                conjunction_holds(commit, zero, program[k], new, old, op)
            }
        }
}

/// No two definitions have one name.
pub open spec fn distinct_definitions(program: Seq<Definition>) -> bool {
    forall|i: int, j: int|
        0 <= i < program.len() && 0 <= j < program.len() && #[trigger] program[i].name
            == #[trigger] program[j].name ==> i == j
}

/// The definition of `init`.
pub open spec fn init_definition(zero: Seq<char>) -> Definition {
    Definition {
        name: "init"@,
        params: seq!["new"@, "old"@, "op"@],
        private: seq![],
        any: false,
        body: seq![
            Call {
                name: "DictContains"@,
                args: seq![Arg::Var("op"@), Arg::Text("name"@), Arg::Text("init"@)],
            },
            Call { name: "Equal"@, args: seq![Arg::Var("old"@), Arg::Raw(zero)] },
            Call {
                name: "Equal"@,
                args: seq![
                    Arg::Var("new"@),
                    Arg::Dict(seq![(IDS_STR@, zero), (NULLIFIERS_STR@, zero)]),
                ],
            },
        ],
    }
}

/// The definition of a predicate by which the set under `key` grows.
pub open spec fn growth_definition(name: Seq<char>, key: Seq<char>) -> Definition {
    Definition {
        name,
        params: seq!["new"@, "old"@, "op"@],
        private: seq!["old_set"@, "new_set"@],
        any: false,
        body: seq![
            Call {
                name: "DictContains"@,
                args: seq![Arg::Var("op"@), Arg::Text("name"@), Arg::Text(name)],
            },
            Call {
                name: "DictContains"@,
                args: seq![Arg::Var("old"@), Arg::Text(key), Arg::Var("old_set"@)],
            },
            Call {
                name: "SetInsert"@,
                args: seq![Arg::Var("new_set"@), Arg::Var("old_set"@), Arg::Field("op"@, "id"@)],
            },
            Call {
                name: "DictUpdate"@,
                args: seq![
                    Arg::Var("new"@),
                    Arg::Var("old"@),
                    Arg::Text(key),
                    Arg::Var("new_set"@),
                ],
            },
        ],
    }
}

/// The predicate `name` of two states and an operation.
pub open spec fn transition_call(name: Seq<char>) -> Call {
    Call { name, args: seq![Arg::Var("new"@), Arg::Var("old"@), Arg::Var("op"@)] }
}

/// The definition of `update`.
pub open spec fn update_definition() -> Definition {
    Definition {
        name: "update"@,
        params: seq!["new"@, "old"@, "op"@],
        private: seq![],
        any: true,
        body: seq![
            transition_call("init"@),
            transition_call("append"@),
            transition_call("nullify"@),
        ],
    }
}

/// The definitions of the predicates of the state.
pub open spec fn state_program(zero: Seq<char>) -> Seq<Definition> {
    seq![
        init_definition(zero),
        growth_definition("append"@, IDS_STR@),
        growth_definition("nullify"@, NULLIFIERS_STR@),
        update_definition(),
    ]
}

/// How [`INIT_TO_OLD`] is read.
proof fn lemma_read_init_to_old() -> (next: Seq<char>)
    ensures
        INIT_TO_OLD@ == line(next, 12, "Equal(old, "@),
        code(next) == Seq::<Seq<char>>::empty() + seq![
            "init(new, old, op) = AND("@,
            "DictContains(op, \"name\", \"init\")"@,
        ],
{
    reveal_strlit(
        r#"
        // State predicates
        init(new, old, op) = AND(
            // Input validation
            DictContains(op, "name", "init")
            // State transition
            Equal(old, "#,
    );
    reveal_strlit("// State predicates");
    reveal_strlit("init(new, old, op) = AND(");
    reveal_strlit("// Input validation");
    reveal_strlit("DictContains(op, \"name\", \"init\")");
    reveal_strlit("// State transition");
    reveal_strlit("Equal(old, ");
    let k0 = Seq::<char>::empty();
    let k1 = line(k0, 8, "// State predicates"@);
    let k2 = line(k1, 8, "init(new, old, op) = AND("@);
    let k3 = line(k2, 12, "// Input validation"@);
    let k4 = line(k3, 12, "DictContains(op, \"name\", \"init\")"@);
    let k5 = line(k4, 12, "// State transition"@);
    let k6 = line(k5, 12, "Equal(old, "@);
    assert(INIT_TO_OLD@ =~= k6);
    lemma_code_of_nothing();
    assert(is_content("// State predicates"@) && is_silent("// State predicates"@));
    lemma_code_of_line(k0, 8, "// State predicates"@);
    assert(is_content("init(new, old, op) = AND("@) && !is_silent("init(new, old, op) = AND("@));
    lemma_code_of_line(k1, 8, "init(new, old, op) = AND("@);
    assert(is_content("// Input validation"@) && is_silent("// Input validation"@));
    lemma_code_of_line(k2, 12, "// Input validation"@);
    assert(is_content("DictContains(op, \"name\", \"init\")"@) && !is_silent("DictContains(op, \"name\", \"init\")"@));
    lemma_code_of_line(k3, 12, "DictContains(op, \"name\", \"init\")"@);
    assert(is_content("// State transition"@) && is_silent("// State transition"@));
    lemma_code_of_line(k4, 12, "// State transition"@);
    assert(code(k5) =~= Seq::<Seq<char>>::empty() + seq![
        "init(new, old, op) = AND("@,
        "DictContains(op, \"name\", \"init\")"@,
    ]);
    k5
}

/// How [`INIT_TO_NEW`] is read behind the line that it goes on with.
proof fn lemma_read_init_to_new(t: Seq<char>, n: nat, p: Seq<char>) -> (next: Seq<char>)
    requires
        is_content(p + ")"@),
    ensures
        line(t, n, p) + INIT_TO_NEW@ == line(next, 12, "Equal(new, "@),
        code(next) == with_line(code(t), p + ")"@),
{
    reveal_strlit(
        r#")
            Equal(new, "#,
    );
    reveal_strlit(")");
    reveal_strlit("Equal(new, ");
    let k0 = ")"@;
    let k1 = line(k0, 12, "Equal(new, "@);
    assert(INIT_TO_NEW@ =~= k1);
    let t0 = line(t, n, p + k0);
    lemma_line_goes_on(t, n, p, k0);
    lemma_code_of_line(t, n, p + k0);
    lemma_line_follows(line(t, n, p), k0, 12, "Equal(new, "@);
    t0
}

/// How [`INIT_TO_APPEND`] is read behind the line that it goes on with.
proof fn lemma_read_init_to_append(t: Seq<char>, n: nat, p: Seq<char>) -> (next: Seq<char>)
    requires
        is_content(p + ")"@),
    ensures
        line(t, n, p) + INIT_TO_APPEND@ == line(next, 12, "DictContains(old, \""@),
        code(next) == with_line(code(t), p + ")"@) + seq![
            ")"@,
            "append(new, old, op, private: old_set, new_set) = AND("@,
            "DictContains(op, \"name\", \"append\")"@,
        ],
{
    reveal_strlit(
        r#")
        )

        append(new, old, op, private: old_set, new_set) = AND(
            // Input validation
            DictContains(op, "name", "append")
            // State transition
            DictContains(old, ""#,
    );
    reveal_strlit(")");
    reveal_strlit("append(new, old, op, private: old_set, new_set) = AND(");
    reveal_strlit("// Input validation");
    reveal_strlit("DictContains(op, \"name\", \"append\")");
    reveal_strlit("// State transition");
    reveal_strlit("DictContains(old, \"");
    let k0 = ")"@;
    let k1 = line(k0, 8, ")"@);
    let k2 = line(k1, 0, Seq::empty());
    let k3 = line(k2, 8, "append(new, old, op, private: old_set, new_set) = AND("@);
    let k4 = line(k3, 12, "// Input validation"@);
    let k5 = line(k4, 12, "DictContains(op, \"name\", \"append\")"@);
    let k6 = line(k5, 12, "// State transition"@);
    let k7 = line(k6, 12, "DictContains(old, \""@);
    assert(INIT_TO_APPEND@ =~= k7);
    let t0 = line(t, n, p + k0);
    lemma_line_goes_on(t, n, p, k0);
    lemma_code_of_line(t, n, p + k0);
    let t1 = line(t0, 8, ")"@);
    let t2 = line(t1, 0, Seq::empty());
    let t3 = line(t2, 8, "append(new, old, op, private: old_set, new_set) = AND("@);
    let t4 = line(t3, 12, "// Input validation"@);
    let t5 = line(t4, 12, "DictContains(op, \"name\", \"append\")"@);
    let t6 = line(t5, 12, "// State transition"@);
    lemma_line_follows(line(t, n, p), k0, 8, ")"@);
    lemma_line_follows(line(t, n, p), k1, 0, Seq::empty());
    lemma_line_follows(line(t, n, p), k2, 8, "append(new, old, op, private: old_set, new_set) = AND("@);
    lemma_line_follows(line(t, n, p), k3, 12, "// Input validation"@);
    lemma_line_follows(line(t, n, p), k4, 12, "DictContains(op, \"name\", \"append\")"@);
    lemma_line_follows(line(t, n, p), k5, 12, "// State transition"@);
    lemma_line_follows(line(t, n, p), k6, 12, "DictContains(old, \""@);
    assert(is_content(")"@) && !is_silent(")"@));
    lemma_code_of_line(t0, 8, ")"@);
    lemma_code_of_line(t1, 0, Seq::empty());
    assert(is_content("append(new, old, op, private: old_set, new_set) = AND("@) && !is_silent("append(new, old, op, private: old_set, new_set) = AND("@));
    lemma_code_of_line(t2, 8, "append(new, old, op, private: old_set, new_set) = AND("@);
    assert(is_content("// Input validation"@) && is_silent("// Input validation"@));
    lemma_code_of_line(t3, 12, "// Input validation"@);
    assert(is_content("DictContains(op, \"name\", \"append\")"@) && !is_silent("DictContains(op, \"name\", \"append\")"@));
    lemma_code_of_line(t4, 12, "DictContains(op, \"name\", \"append\")"@);
    assert(is_content("// State transition"@) && is_silent("// State transition"@));
    lemma_code_of_line(t5, 12, "// State transition"@);
    assert(code(t6) =~= with_line(code(t), p + ")"@) + seq![
        ")"@,
        "append(new, old, op, private: old_set, new_set) = AND("@,
        "DictContains(op, \"name\", \"append\")"@,
    ]);
    t6
}

/// How [`APPEND_SETS`] is read behind the line that it goes on with.
proof fn lemma_read_append_sets(t: Seq<char>, n: nat, p: Seq<char>) -> (next: Seq<char>)
    requires
        is_content(p + "\", old_set)"@),
    ensures
        line(t, n, p) + APPEND_SETS@ == line(next, 12, "DictUpdate(new, old, \""@),
        code(next) == with_line(code(t), p + "\", old_set)"@) + seq![
            "SetInsert(new_set, old_set, op.id)"@,
        ],
{
    reveal_strlit(
        r#"", old_set)
            SetInsert(new_set, old_set, op.id)
            DictUpdate(new, old, ""#,
    );
    reveal_strlit("\", old_set)");
    reveal_strlit("SetInsert(new_set, old_set, op.id)");
    reveal_strlit("DictUpdate(new, old, \"");
    let k0 = "\", old_set)"@;
    let k1 = line(k0, 12, "SetInsert(new_set, old_set, op.id)"@);
    let k2 = line(k1, 12, "DictUpdate(new, old, \""@);
    assert(APPEND_SETS@ =~= k2);
    let t0 = line(t, n, p + k0);
    lemma_line_goes_on(t, n, p, k0);
    lemma_code_of_line(t, n, p + k0);
    let t1 = line(t0, 12, "SetInsert(new_set, old_set, op.id)"@);
    lemma_line_follows(line(t, n, p), k0, 12, "SetInsert(new_set, old_set, op.id)"@);
    lemma_line_follows(line(t, n, p), k1, 12, "DictUpdate(new, old, \""@);
    assert(is_content("SetInsert(new_set, old_set, op.id)"@) && !is_silent("SetInsert(new_set, old_set, op.id)"@));
    lemma_code_of_line(t0, 12, "SetInsert(new_set, old_set, op.id)"@);
    assert(code(t1) =~= with_line(code(t), p + "\", old_set)"@) + seq![
        "SetInsert(new_set, old_set, op.id)"@,
    ]);
    t1
}

/// How [`APPEND_TO_NULLIFY`] is read behind the line that it goes on with.
proof fn lemma_read_append_to_nullify(t: Seq<char>, n: nat, p: Seq<char>) -> (next: Seq<char>)
    requires
        is_content(p + "\", new_set)"@),
    ensures
        line(t, n, p) + APPEND_TO_NULLIFY@ == line(next, 12, "// DictContains(old, \""@),
        code(next) == with_line(code(t), p + "\", new_set)"@) + seq![
            ")"@,
            "nullify(new, old, op, private: old_set, new_set) = AND("@,
            "DictContains(op, \"name\", \"nullify\")"@,
        ],
{
    reveal_strlit(
        r#"", new_set)
        )

        nullify(new, old, op, private: old_set, new_set) = AND(
            // Input validation
            DictContains(op, "name", "nullify")
            // TODO: Check existence of ID before nullifying
            // DictContains(old, ""#,
    );
    reveal_strlit("\", new_set)");
    reveal_strlit(")");
    reveal_strlit("nullify(new, old, op, private: old_set, new_set) = AND(");
    reveal_strlit("// Input validation");
    reveal_strlit("DictContains(op, \"name\", \"nullify\")");
    reveal_strlit("// TODO: Check existence of ID before nullifying");
    reveal_strlit("// DictContains(old, \"");
    let k0 = "\", new_set)"@;
    let k1 = line(k0, 8, ")"@);
    let k2 = line(k1, 0, Seq::empty());
    let k3 = line(k2, 8, "nullify(new, old, op, private: old_set, new_set) = AND("@);
    let k4 = line(k3, 12, "// Input validation"@);
    let k5 = line(k4, 12, "DictContains(op, \"name\", \"nullify\")"@);
    let k6 = line(k5, 12, "// TODO: Check existence of ID before nullifying"@);
    let k7 = line(k6, 12, "// DictContains(old, \""@);
    assert(APPEND_TO_NULLIFY@ =~= k7);
    let t0 = line(t, n, p + k0);
    lemma_line_goes_on(t, n, p, k0);
    lemma_code_of_line(t, n, p + k0);
    let t1 = line(t0, 8, ")"@);
    let t2 = line(t1, 0, Seq::empty());
    let t3 = line(t2, 8, "nullify(new, old, op, private: old_set, new_set) = AND("@);
    let t4 = line(t3, 12, "// Input validation"@);
    let t5 = line(t4, 12, "DictContains(op, \"name\", \"nullify\")"@);
    let t6 = line(t5, 12, "// TODO: Check existence of ID before nullifying"@);
    lemma_line_follows(line(t, n, p), k0, 8, ")"@);
    lemma_line_follows(line(t, n, p), k1, 0, Seq::empty());
    lemma_line_follows(line(t, n, p), k2, 8, "nullify(new, old, op, private: old_set, new_set) = AND("@);
    lemma_line_follows(line(t, n, p), k3, 12, "// Input validation"@);
    lemma_line_follows(line(t, n, p), k4, 12, "DictContains(op, \"name\", \"nullify\")"@);
    lemma_line_follows(line(t, n, p), k5, 12, "// TODO: Check existence of ID before nullifying"@);
    lemma_line_follows(line(t, n, p), k6, 12, "// DictContains(old, \""@);
    assert(is_content(")"@) && !is_silent(")"@));
    lemma_code_of_line(t0, 8, ")"@);
    lemma_code_of_line(t1, 0, Seq::empty());
    assert(is_content("nullify(new, old, op, private: old_set, new_set) = AND("@) && !is_silent("nullify(new, old, op, private: old_set, new_set) = AND("@));
    lemma_code_of_line(t2, 8, "nullify(new, old, op, private: old_set, new_set) = AND("@);
    assert(is_content("// Input validation"@) && is_silent("// Input validation"@));
    lemma_code_of_line(t3, 12, "// Input validation"@);
    assert(is_content("DictContains(op, \"name\", \"nullify\")"@) && !is_silent("DictContains(op, \"name\", \"nullify\")"@));
    lemma_code_of_line(t4, 12, "DictContains(op, \"name\", \"nullify\")"@);
    assert(is_content("// TODO: Check existence of ID before nullifying"@) && is_silent("// TODO: Check existence of ID before nullifying"@));
    lemma_code_of_line(t5, 12, "// TODO: Check existence of ID before nullifying"@);
    assert(code(t6) =~= with_line(code(t), p + "\", new_set)"@) + seq![
        ")"@,
        "nullify(new, old, op, private: old_set, new_set) = AND("@,
        "DictContains(op, \"name\", \"nullify\")"@,
    ]);
    t6
}

/// How [`NULLIFY_NOTE`] is read behind the line that it goes on with.
proof fn lemma_read_nullify_note(t: Seq<char>, n: nat, p: Seq<char>) -> (next: Seq<char>)
    requires
        is_content(p + "\", old_id_set)"@),
    ensures
        line(t, n, p) + NULLIFY_NOTE@ == line(next, 12, "DictContains(old, \""@),
        code(next) == with_line(code(t), p + "\", old_id_set)"@),
{
    reveal_strlit(
        r#"", old_id_set)
            // SetContains(old_id_set, op.id)
            // State transition
            DictContains(old, ""#,
    );
    reveal_strlit("\", old_id_set)");
    reveal_strlit("// SetContains(old_id_set, op.id)");
    reveal_strlit("// State transition");
    reveal_strlit("DictContains(old, \"");
    let k0 = "\", old_id_set)"@;
    let k1 = line(k0, 12, "// SetContains(old_id_set, op.id)"@);
    let k2 = line(k1, 12, "// State transition"@);
    let k3 = line(k2, 12, "DictContains(old, \""@);
    assert(NULLIFY_NOTE@ =~= k3);
    let t0 = line(t, n, p + k0);
    lemma_line_goes_on(t, n, p, k0);
    lemma_code_of_line(t, n, p + k0);
    let t1 = line(t0, 12, "// SetContains(old_id_set, op.id)"@);
    let t2 = line(t1, 12, "// State transition"@);
    lemma_line_follows(line(t, n, p), k0, 12, "// SetContains(old_id_set, op.id)"@);
    lemma_line_follows(line(t, n, p), k1, 12, "// State transition"@);
    lemma_line_follows(line(t, n, p), k2, 12, "DictContains(old, \""@);
    assert(is_content("// SetContains(old_id_set, op.id)"@) && is_silent("// SetContains(old_id_set, op.id)"@));
    lemma_code_of_line(t0, 12, "// SetContains(old_id_set, op.id)"@);
    assert(is_content("// State transition"@) && is_silent("// State transition"@));
    lemma_code_of_line(t1, 12, "// State transition"@);
    t2
}

/// How [`NULLIFY_SETS`] is read behind the line that it goes on with.
proof fn lemma_read_nullify_sets(t: Seq<char>, n: nat, p: Seq<char>) -> (next: Seq<char>)
    requires
        is_content(p + "\", old_set)"@),
    ensures
        line(t, n, p) + NULLIFY_SETS@ == line(next, 12, "DictUpdate(new, old, \""@),
        code(next) == with_line(code(t), p + "\", old_set)"@) + seq![
            "SetInsert(new_set, old_set, op.id)"@,
        ],
{
    reveal_strlit(
        r#"", old_set)
            SetInsert(new_set, old_set, op.id)
            DictUpdate(new, old, ""#,
    );
    reveal_strlit("\", old_set)");
    reveal_strlit("SetInsert(new_set, old_set, op.id)");
    reveal_strlit("DictUpdate(new, old, \"");
    let k0 = "\", old_set)"@;
    let k1 = line(k0, 12, "SetInsert(new_set, old_set, op.id)"@);
    let k2 = line(k1, 12, "DictUpdate(new, old, \""@);
    assert(NULLIFY_SETS@ =~= k2);
    let t0 = line(t, n, p + k0);
    lemma_line_goes_on(t, n, p, k0);
    lemma_code_of_line(t, n, p + k0);
    let t1 = line(t0, 12, "SetInsert(new_set, old_set, op.id)"@);
    lemma_line_follows(line(t, n, p), k0, 12, "SetInsert(new_set, old_set, op.id)"@);
    lemma_line_follows(line(t, n, p), k1, 12, "DictUpdate(new, old, \""@);
    assert(is_content("SetInsert(new_set, old_set, op.id)"@) && !is_silent("SetInsert(new_set, old_set, op.id)"@));
    lemma_code_of_line(t0, 12, "SetInsert(new_set, old_set, op.id)"@);
    assert(code(t1) =~= with_line(code(t), p + "\", old_set)"@) + seq![
        "SetInsert(new_set, old_set, op.id)"@,
    ]);
    t1
}

/// How [`NULLIFY_TO_END`] is read behind the line that it goes on with.
proof fn lemma_read_nullify_to_end(t: Seq<char>, n: nat, p: Seq<char>) -> (next: Seq<char>)
    requires
        is_content(p + "\", new_set)"@),
    ensures
        line(t, n, p) + NULLIFY_TO_END@ == line(next, 4, Seq::empty()),
        code(next) == with_line(code(t), p + "\", new_set)"@) + seq![
            ")"@,
            "update(new, old, op) = OR("@,
            "init(new, old, op)"@,
            "append(new, old, op)"@,
            "nullify(new, old, op)"@,
            ")"@,
        ],
{
    reveal_strlit(
        r#"", new_set)
        )

        update(new, old, op) = OR(
            init(new, old, op)
            append(new, old, op)
            nullify(new, old, op)
        )
    "#,
    );
    reveal_strlit("\", new_set)");
    reveal_strlit(")");
    reveal_strlit("update(new, old, op) = OR(");
    reveal_strlit("init(new, old, op)");
    reveal_strlit("append(new, old, op)");
    reveal_strlit("nullify(new, old, op)");
    let k0 = "\", new_set)"@;
    let k1 = line(k0, 8, ")"@);
    let k2 = line(k1, 0, Seq::empty());
    let k3 = line(k2, 8, "update(new, old, op) = OR("@);
    let k4 = line(k3, 12, "init(new, old, op)"@);
    let k5 = line(k4, 12, "append(new, old, op)"@);
    let k6 = line(k5, 12, "nullify(new, old, op)"@);
    let k7 = line(k6, 8, ")"@);
    let k8 = line(k7, 4, Seq::empty());
    assert(NULLIFY_TO_END@ =~= k8);
    let t0 = line(t, n, p + k0);
    lemma_line_goes_on(t, n, p, k0);
    lemma_code_of_line(t, n, p + k0);
    let t1 = line(t0, 8, ")"@);
    let t2 = line(t1, 0, Seq::empty());
    let t3 = line(t2, 8, "update(new, old, op) = OR("@);
    let t4 = line(t3, 12, "init(new, old, op)"@);
    let t5 = line(t4, 12, "append(new, old, op)"@);
    let t6 = line(t5, 12, "nullify(new, old, op)"@);
    let t7 = line(t6, 8, ")"@);
    lemma_line_follows(line(t, n, p), k0, 8, ")"@);
    lemma_line_follows(line(t, n, p), k1, 0, Seq::empty());
    lemma_line_follows(line(t, n, p), k2, 8, "update(new, old, op) = OR("@);
    lemma_line_follows(line(t, n, p), k3, 12, "init(new, old, op)"@);
    lemma_line_follows(line(t, n, p), k4, 12, "append(new, old, op)"@);
    lemma_line_follows(line(t, n, p), k5, 12, "nullify(new, old, op)"@);
    lemma_line_follows(line(t, n, p), k6, 8, ")"@);
    lemma_line_follows(line(t, n, p), k7, 4, Seq::empty());
    assert(is_content(")"@) && !is_silent(")"@));
    lemma_code_of_line(t0, 8, ")"@);
    lemma_code_of_line(t1, 0, Seq::empty());
    assert(is_content("update(new, old, op) = OR("@) && !is_silent("update(new, old, op) = OR("@));
    lemma_code_of_line(t2, 8, "update(new, old, op) = OR("@);
    assert(is_content("init(new, old, op)"@) && !is_silent("init(new, old, op)"@));
    lemma_code_of_line(t3, 12, "init(new, old, op)"@);
    assert(is_content("append(new, old, op)"@) && !is_silent("append(new, old, op)"@));
    lemma_code_of_line(t4, 12, "append(new, old, op)"@);
    assert(is_content("nullify(new, old, op)"@) && !is_silent("nullify(new, old, op)"@));
    lemma_code_of_line(t5, 12, "nullify(new, old, op)"@);
    assert(is_content(")"@) && !is_silent(")"@));
    lemma_code_of_line(t6, 8, ")"@);
    assert(code(t7) =~= with_line(code(t), p + "\", new_set)"@) + seq![
        ")"@,
        "update(new, old, op) = OR("@,
        "init(new, old, op)"@,
        "append(new, old, op)"@,
        "nullify(new, old, op)"@,
        ")"@,
    ]);
    t7
}

/// The pieces of lines are free of line breaks, and start lines where they do.
proof fn lemma_pieces()
    ensures
        is_content("Equal(old, "@) && !is_silent("Equal(old, "@) && "Equal(old, "@.len() > 1,
        is_content("Equal(new, "@) && !is_silent("Equal(new, "@) && "Equal(new, "@.len() > 1,
        is_content("DictContains(old, \""@) && !is_silent("DictContains(old, \""@)
            && "DictContains(old, \""@.len() > 1,
        is_content("DictUpdate(new, old, \""@) && !is_silent("DictUpdate(new, old, \""@)
            && "DictUpdate(new, old, \""@.len() > 1,
        is_content("// DictContains(old, \""@) && is_silent("// DictContains(old, \""@)
            && "// DictContains(old, \""@.len() > 1,
        no_break(")"@),
        no_break("\", old_set)"@),
        no_break("\", new_set)"@),
        no_break("\", old_id_set)"@),
        no_break(IDS_STR@),
        no_break(NULLIFIERS_STR@),
{
    reveal_strlit("Equal(old, ");
    reveal_strlit("Equal(new, ");
    reveal_strlit("DictContains(old, \"");
    reveal_strlit("DictUpdate(new, old, \"");
    reveal_strlit("// DictContains(old, \"");
    reveal_strlit(")");
    reveal_strlit("\", old_set)");
    reveal_strlit("\", new_set)");
    reveal_strlit("\", old_id_set)");
    reveal_strlit("ids");
    reveal_strlit("nullifiers");
}

/// The texts of the empty value and of the empty state are free of line breaks.
proof fn lemma_empty_texts(zero: Seq<char>)
    requires
        no_break(zero),
    ensures
        no_break(empty_text(zero)),
        no_break(empty_state_text(zero)),
{
    reveal_strlit("Raw(");
    reveal_strlit(")");
    reveal_strlit("{\"");
    reveal_strlit("\": ");
    reveal_strlit(", \"");
    reveal_strlit("}");
    lemma_pieces();
    lemma_no_break("Raw("@, zero);
    lemma_no_break("Raw("@ + zero, ")"@);
    let empty = empty_text(zero);
    let a = "{\""@ + IDS_STR@;
    let b = a + "\": "@;
    let c = b + empty;
    let d = c + ", \""@;
    let e = d + NULLIFIERS_STR@;
    let f = e + "\": "@;
    let g = f + empty;
    lemma_no_break("{\""@, IDS_STR@);
    lemma_no_break(a, "\": "@);
    lemma_no_break(b, empty);
    lemma_no_break(c, ", \""@);
    lemma_no_break(d, NULLIFIERS_STR@);
    lemma_no_break(e, "\": "@);
    lemma_no_break(f, empty);
    lemma_no_break(g, "}"@);
}

proof fn lemma_no_break(a: Seq<char>, b: Seq<char>)
    requires
        no_break(a),
        no_break(b),
    ensures
        no_break(a + b),
{
    assert forall|i: int| 0 <= i < (a + b).len() implies #[trigger] (a + b)[i] != '\n' by {
        if i < a.len() {
            assert((a + b)[i] == a[i]);
        } else {
            assert((a + b)[i] == b[i - a.len()]);
        }
    }
}

/// The lines of the source.
proof fn lemma_source_is_read(zero: Seq<char>)
    requires
        no_break(zero),
    ensures
        code(source_text(zero)) == seq![
            "init(new, old, op) = AND("@,
            "DictContains(op, \"name\", \"init\")"@,
            "Equal(old, "@ + empty_text(zero) + ")"@,
            "Equal(new, "@ + empty_state_text(zero) + ")"@,
            ")"@,
            "append(new, old, op, private: old_set, new_set) = AND("@,
            "DictContains(op, \"name\", \"append\")"@,
            "DictContains(old, \""@ + IDS_STR@ + "\", old_set)"@,
            "SetInsert(new_set, old_set, op.id)"@,
            "DictUpdate(new, old, \""@ + IDS_STR@ + "\", new_set)"@,
            ")"@,
            "nullify(new, old, op, private: old_set, new_set) = AND("@,
            "DictContains(op, \"name\", \"nullify\")"@,
            "DictContains(old, \""@ + NULLIFIERS_STR@ + "\", old_set)"@,
            "SetInsert(new_set, old_set, op.id)"@,
            "DictUpdate(new, old, \""@ + NULLIFIERS_STR@ + "\", new_set)"@,
            ")"@,
            "update(new, old, op) = OR("@,
            "init(new, old, op)"@,
            "append(new, old, op)"@,
            "nullify(new, old, op)"@,
            ")"@,
        ],
{
    let empty = empty_text(zero);
    let state = empty_state_text(zero);
    lemma_pieces();
    lemma_empty_texts(zero);
    let p0 = "Equal(old, "@ + empty;
    lemma_content_goes_on("Equal(old, "@, empty);
    lemma_content_goes_on(p0, ")"@);
    let p1 = "Equal(new, "@ + state;
    lemma_content_goes_on("Equal(new, "@, state);
    lemma_content_goes_on(p1, ")"@);
    let p2 = "DictContains(old, \""@ + IDS_STR@;
    lemma_content_goes_on("DictContains(old, \""@, IDS_STR@);
    lemma_content_goes_on(p2, "\", old_set)"@);
    let p3 = "DictUpdate(new, old, \""@ + IDS_STR@;
    lemma_content_goes_on("DictUpdate(new, old, \""@, IDS_STR@);
    lemma_content_goes_on(p3, "\", new_set)"@);
    let p4 = "// DictContains(old, \""@ + IDS_STR@;
    lemma_content_goes_on("// DictContains(old, \""@, IDS_STR@);
    lemma_content_goes_on(p4, "\", old_id_set)"@);
    let p5 = "DictContains(old, \""@ + NULLIFIERS_STR@;
    lemma_content_goes_on("DictContains(old, \""@, NULLIFIERS_STR@);
    lemma_content_goes_on(p5, "\", old_set)"@);
    let p6 = "DictUpdate(new, old, \""@ + NULLIFIERS_STR@;
    lemma_content_goes_on("DictUpdate(new, old, \""@, NULLIFIERS_STR@);
    lemma_content_goes_on(p6, "\", new_set)"@);

    let t0 = lemma_read_init_to_old();
    lemma_line_goes_on(t0, 12, "Equal(old, "@, empty);
    let t1 = lemma_read_init_to_new(t0, 12, p0);
    lemma_line_goes_on(t1, 12, "Equal(new, "@, state);
    let t2 = lemma_read_init_to_append(t1, 12, p1);
    lemma_line_goes_on(t2, 12, "DictContains(old, \""@, IDS_STR@);
    let t3 = lemma_read_append_sets(t2, 12, p2);
    lemma_line_goes_on(t3, 12, "DictUpdate(new, old, \""@, IDS_STR@);
    let t4 = lemma_read_append_to_nullify(t3, 12, p3);
    lemma_line_goes_on(t4, 12, "// DictContains(old, \""@, IDS_STR@);
    let t5 = lemma_read_nullify_note(t4, 12, p4);
    lemma_line_goes_on(t5, 12, "DictContains(old, \""@, NULLIFIERS_STR@);
    let t6 = lemma_read_nullify_sets(t5, 12, p5);
    lemma_line_goes_on(t6, 12, "DictUpdate(new, old, \""@, NULLIFIERS_STR@);
    let t7 = lemma_read_nullify_to_end(t6, 12, p6);
    lemma_code_of_line(t7, 4, Seq::empty());
    assert(source_text(zero) == line(t7, 4, Seq::empty()));
    assert(code(t7) =~= seq![
        "init(new, old, op) = AND("@,
        "DictContains(op, \"name\", \"init\")"@,
        "Equal(old, "@ + empty + ")"@,
        "Equal(new, "@ + state + ")"@,
        ")"@,
        "append(new, old, op, private: old_set, new_set) = AND("@,
        "DictContains(op, \"name\", \"append\")"@,
        "DictContains(old, \""@ + IDS_STR@ + "\", old_set)"@,
        "SetInsert(new_set, old_set, op.id)"@,
        "DictUpdate(new, old, \""@ + IDS_STR@ + "\", new_set)"@,
        ")"@,
        "nullify(new, old, op, private: old_set, new_set) = AND("@,
        "DictContains(op, \"name\", \"nullify\")"@,
        "DictContains(old, \""@ + NULLIFIERS_STR@ + "\", old_set)"@,
        "SetInsert(new_set, old_set, op.id)"@,
        "DictUpdate(new, old, \""@ + NULLIFIERS_STR@ + "\", new_set)"@,
        ")"@,
        "update(new, old, op) = OR("@,
        "init(new, old, op)"@,
        "append(new, old, op)"@,
        "nullify(new, old, op)"@,
        ")"@,
    ]);
}

proof fn lemma_two_words(a: Seq<char>, b: Seq<char>)
    ensures
        comma_list(seq![a, b]) == a + ", "@ + b,
{
    reveal_with_fuel(comma_list, 2);
    assert(seq![a, b].drop_last() =~= seq![a]);
}

proof fn lemma_three_words(a: Seq<char>, b: Seq<char>, c: Seq<char>)
    ensures
        comma_list(seq![a, b, c]) == a + ", "@ + b + ", "@ + c,
{
    lemma_two_words(a, b);
    assert(seq![a, b, c].drop_last() =~= seq![a, b]);
}

proof fn lemma_four_words(a: Seq<char>, b: Seq<char>, c: Seq<char>, d: Seq<char>)
    ensures
        comma_list(seq![a, b, c, d]) == a + ", "@ + b + ", "@ + c + ", "@ + d,
{
    lemma_three_words(a, b, c);
    assert(seq![a, b, c, d].drop_last() =~= seq![a, b, c]);
}

/// How a predicate with two arguments is written.
proof fn lemma_call_of_two(name: Seq<char>, a: Arg, b: Arg)
    ensures
        call_text(Call { name, args: seq![a, b] }) == name + "("@ + (arg_text(a) + ", "@ + arg_text(
            b,
        )) + ")"@,
{
    lemma_two_words(arg_text(a), arg_text(b));
    assert(seq![a, b].map_values(|arg: Arg| arg_text(arg)) =~= seq![arg_text(a), arg_text(b)]);
}

/// How a predicate with three arguments is written.
proof fn lemma_call_of_three(name: Seq<char>, a: Arg, b: Arg, c: Arg)
    ensures
        call_text(Call { name, args: seq![a, b, c] }) == name + "("@ + (arg_text(a) + ", "@
            + arg_text(b) + ", "@ + arg_text(c)) + ")"@,
{
    lemma_three_words(arg_text(a), arg_text(b), arg_text(c));
    assert(seq![a, b, c].map_values(|arg: Arg| arg_text(arg)) =~= seq![
        arg_text(a),
        arg_text(b),
        arg_text(c),
    ]);
}

/// How a predicate with four arguments is written.
proof fn lemma_call_of_four(name: Seq<char>, a: Arg, b: Arg, c: Arg, d: Arg)
    ensures
        call_text(Call { name, args: seq![a, b, c, d] }) == name + "("@ + (arg_text(a) + ", "@
            + arg_text(b) + ", "@ + arg_text(c) + ", "@ + arg_text(d)) + ")"@,
{
    lemma_four_words(arg_text(a), arg_text(b), arg_text(c), arg_text(d));
    assert(seq![a, b, c, d].map_values(|arg: Arg| arg_text(arg)) =~= seq![
        arg_text(a),
        arg_text(b),
        arg_text(c),
        arg_text(d),
    ]);
}

/// How `init` is written.
proof fn lemma_init_is_written(zero: Seq<char>)
    ensures
        definition_code(init_definition(zero)) == seq![
            "init(new, old, op) = AND("@,
            "DictContains(op, \"name\", \"init\")"@,
            "Equal(old, "@ + empty_text(zero) + ")"@,
            "Equal(new, "@ + empty_state_text(zero) + ")"@,
            ")"@,
        ],
{
    reveal_strlit("init");
    reveal_strlit("new");
    reveal_strlit("old");
    reveal_strlit("op");
    reveal_strlit("name");
    reveal_strlit(", ");
    reveal_strlit("(");
    reveal_strlit(")");
    reveal_strlit(") = ");
    reveal_strlit("AND");
    reveal_strlit("\"");
    reveal_strlit("{");
    reveal_strlit("{\"");
    reveal_strlit("\": ");
    reveal_strlit(": ");
    reveal_strlit(", \"");
    reveal_strlit("DictContains");
    reveal_strlit("Equal");
    reveal_strlit("init(new, old, op) = AND(");
    reveal_strlit("DictContains(op, \"name\", \"init\")");
    reveal_strlit("Equal(old, ");
    reveal_strlit("Equal(new, ");
    let d = init_definition(zero);
    let entries = seq![(IDS_STR@, zero), (NULLIFIERS_STR@, zero)];
    let written = |e: (Seq<char>, Seq<char>)| quoted(e.0) + ": "@ + raw_text(e.1);
    lemma_three_words("new"@, "old"@, "op"@);
    lemma_call_of_three("DictContains"@, Arg::Var("op"@), Arg::Text("name"@), Arg::Text("init"@));
    lemma_call_of_two("Equal"@, Arg::Var("old"@), Arg::Raw(zero));
    lemma_call_of_two("Equal"@, Arg::Var("new"@), Arg::Dict(entries));
    lemma_two_words(written(entries[0]), written(entries[1]));
    assert(entries.map_values(written) =~= seq![written(entries[0]), written(entries[1])]);
    assert(head_text(d) =~= "init(new, old, op) = AND("@);
    assert(call_text(d.body[0]) =~= "DictContains(op, \"name\", \"init\")"@);
    assert(call_text(d.body[1]) =~= "Equal(old, "@ + empty_text(zero) + ")"@);
    assert(arg_text(Arg::Dict(entries)) =~= empty_state_text(zero));
    assert(call_text(d.body[2]) =~= "Equal(new, "@ + empty_state_text(zero) + ")"@);
    assert(definition_code(d) =~= seq![
        "init(new, old, op) = AND("@,
        "DictContains(op, \"name\", \"init\")"@,
        "Equal(old, "@ + empty_text(zero) + ")"@,
        "Equal(new, "@ + empty_state_text(zero) + ")"@,
        ")"@,
    ]);
}

/// How a predicate is written by which the set under `key` grows.
proof fn lemma_growth_is_written(name: Seq<char>, key: Seq<char>)
    ensures
        definition_code(growth_definition(name, key)) == seq![
            name + "(new, old, op, private: old_set, new_set) = AND("@,
            "DictContains(op, \"name\", \""@ + name + "\")"@,
            "DictContains(old, \""@ + key + "\", old_set)"@,
            "SetInsert(new_set, old_set, op.id)"@,
            "DictUpdate(new, old, \""@ + key + "\", new_set)"@,
            ")"@,
        ],
{
    reveal_strlit("new");
    reveal_strlit("old");
    reveal_strlit("op");
    reveal_strlit("id");
    reveal_strlit("old_set");
    reveal_strlit("new_set");
    reveal_strlit("name");
    reveal_strlit(".");
    reveal_strlit(", ");
    reveal_strlit("(");
    reveal_strlit(")");
    reveal_strlit(") = ");
    reveal_strlit(", private: ");
    reveal_strlit("AND");
    reveal_strlit("\"");
    reveal_strlit("\")");
    reveal_strlit("DictContains");
    reveal_strlit("SetInsert");
    reveal_strlit("DictUpdate");
    reveal_strlit("(new, old, op, private: old_set, new_set) = AND(");
    reveal_strlit("DictContains(op, \"name\", \"");
    reveal_strlit("DictContains(old, \"");
    reveal_strlit("\", old_set)");
    reveal_strlit("SetInsert(new_set, old_set, op.id)");
    reveal_strlit("DictUpdate(new, old, \"");
    reveal_strlit("\", new_set)");
    let d = growth_definition(name, key);
    lemma_three_words("new"@, "old"@, "op"@);
    lemma_two_words("old_set"@, "new_set"@);
    lemma_call_of_three("DictContains"@, Arg::Var("op"@), Arg::Text("name"@), Arg::Text(name));
    lemma_call_of_three("DictContains"@, Arg::Var("old"@), Arg::Text(key), Arg::Var("old_set"@));
    lemma_call_of_three(
        "SetInsert"@,
        Arg::Var("new_set"@),
        Arg::Var("old_set"@),
        Arg::Field("op"@, "id"@),
    );
    lemma_call_of_four(
        "DictUpdate"@,
        Arg::Var("new"@),
        Arg::Var("old"@),
        Arg::Text(key),
        Arg::Var("new_set"@),
    );
    assert(head_text(d) =~= name + "(new, old, op, private: old_set, new_set) = AND("@);
    assert(call_text(d.body[0]) =~= "DictContains(op, \"name\", \""@ + name + "\")"@);
    assert(call_text(d.body[1]) =~= "DictContains(old, \""@ + key + "\", old_set)"@);
    assert(call_text(d.body[2]) =~= "SetInsert(new_set, old_set, op.id)"@);
    assert(call_text(d.body[3]) =~= "DictUpdate(new, old, \""@ + key + "\", new_set)"@);
    assert(definition_code(d) =~= seq![
        name + "(new, old, op, private: old_set, new_set) = AND("@,
        "DictContains(op, \"name\", \""@ + name + "\")"@,
        "DictContains(old, \""@ + key + "\", old_set)"@,
        "SetInsert(new_set, old_set, op.id)"@,
        "DictUpdate(new, old, \""@ + key + "\", new_set)"@,
        ")"@,
    ]);
}

/// How `update` is written.
proof fn lemma_update_is_written()
    ensures
        definition_code(update_definition()) == seq![
            "update(new, old, op) = OR("@,
            "init(new, old, op)"@,
            "append(new, old, op)"@,
            "nullify(new, old, op)"@,
            ")"@,
        ],
{
    reveal_strlit("update");
    reveal_strlit("init");
    reveal_strlit("append");
    reveal_strlit("nullify");
    reveal_strlit("new");
    reveal_strlit("old");
    reveal_strlit("op");
    reveal_strlit(", ");
    reveal_strlit("(");
    reveal_strlit(")");
    reveal_strlit(") = ");
    reveal_strlit("OR");
    reveal_strlit("update(new, old, op) = OR(");
    reveal_strlit("init(new, old, op)");
    reveal_strlit("append(new, old, op)");
    reveal_strlit("nullify(new, old, op)");
    let d = update_definition();
    let (new, old, op) = (Arg::Var("new"@), Arg::Var("old"@), Arg::Var("op"@));
    lemma_three_words("new"@, "old"@, "op"@);
    lemma_call_of_three("init"@, new, old, op);
    lemma_call_of_three("append"@, new, old, op);
    lemma_call_of_three("nullify"@, new, old, op);
    assert(head_text(d) =~= "update(new, old, op) = OR("@);
    assert(call_text(d.body[0]) =~= "init(new, old, op)"@);
    assert(call_text(d.body[1]) =~= "append(new, old, op)"@);
    assert(call_text(d.body[2]) =~= "nullify(new, old, op)"@);
    assert(definition_code(d) =~= seq![
        "update(new, old, op) = OR("@,
        "init(new, old, op)"@,
        "append(new, old, op)"@,
        "nullify(new, old, op)"@,
        ")"@,
    ]);
}

/// How the lines that name `append` and `nullify` are written.
proof fn lemma_names_are_written()
    ensures
        "append"@ + "(new, old, op, private: old_set, new_set) = AND("@
            == "append(new, old, op, private: old_set, new_set) = AND("@,
        "nullify"@ + "(new, old, op, private: old_set, new_set) = AND("@
            == "nullify(new, old, op, private: old_set, new_set) = AND("@,
        "DictContains(op, \"name\", \""@ + "append"@ + "\")"@
            == "DictContains(op, \"name\", \"append\")"@,
        "DictContains(op, \"name\", \""@ + "nullify"@ + "\")"@
            == "DictContains(op, \"name\", \"nullify\")"@,
{
    reveal_strlit("append");
    reveal_strlit("nullify");
    reveal_strlit("(new, old, op, private: old_set, new_set) = AND(");
    reveal_strlit("DictContains(op, \"name\", \"");
    reveal_strlit("\")");
    reveal_strlit("append(new, old, op, private: old_set, new_set) = AND(");
    reveal_strlit("nullify(new, old, op, private: old_set, new_set) = AND(");
    reveal_strlit("DictContains(op, \"name\", \"append\")");
    reveal_strlit("DictContains(op, \"name\", \"nullify\")");
    assert("append"@ + "(new, old, op, private: old_set, new_set) = AND("@
        =~= "append(new, old, op, private: old_set, new_set) = AND("@);
    assert("nullify"@ + "(new, old, op, private: old_set, new_set) = AND("@
        =~= "nullify(new, old, op, private: old_set, new_set) = AND("@);
    assert("DictContains(op, \"name\", \""@ + "append"@ + "\")"@
        =~= "DictContains(op, \"name\", \"append\")"@);
    assert("DictContains(op, \"name\", \""@ + "nullify"@ + "\")"@
        =~= "DictContains(op, \"name\", \"nullify\")"@);
}

/// The lines of four definitions.
proof fn lemma_program_of_four(a: Definition, b: Definition, c: Definition, d: Definition)
    ensures
        program_code(seq![a, b, c, d]) == definition_code(a) + definition_code(b) + definition_code(
            c,
        ) + definition_code(d),
{
    reveal_with_fuel(program_code, 5);
    assert(seq![a, b, c, d].drop_last() =~= seq![a, b, c]);
    assert(seq![a, b, c].drop_last() =~= seq![a, b]);
    assert(seq![a, b].drop_last() =~= seq![a]);
    assert(seq![a].drop_last() =~= Seq::<Definition>::empty());
    assert(Seq::<Seq<char>>::empty() + definition_code(a) =~= definition_code(a));
}

/// The source is how the definitions of the state are written.
#[verifier::spinoff_prover]
#[verifier::rlimit(50)]
proof fn lemma_source_is_program(zero: Seq<char>)
    requires
        no_break(zero),
    ensures
        code(source_text(zero)) == program_code(state_program(zero)),
{
    let program = state_program(zero);
    lemma_source_is_read(zero);
    lemma_init_is_written(zero);
    lemma_growth_is_written("append"@, IDS_STR@);
    lemma_growth_is_written("nullify"@, NULLIFIERS_STR@);
    lemma_update_is_written();
    lemma_names_are_written();
    lemma_program_of_four(program[0], program[1], program[2], program[3]);
    assert(code(source_text(zero)) =~= definition_code(program[0]) + definition_code(program[1])
        + definition_code(program[2]) + definition_code(program[3]));
}

/// The words of the language differ from each other.
proof fn lemma_language_words()
    ensures
        "DictContains"@ != "Equal"@,
        "DictContains"@ != "SetInsert"@,
        "DictContains"@ != "DictUpdate"@,
        "Equal"@ != "SetInsert"@,
        "Equal"@ != "DictUpdate"@,
        "SetInsert"@ != "DictUpdate"@,
        "new"@ != "old"@,
        "new"@ != "op"@,
        "old"@ != "op"@,
        "old_set"@ != "new_set"@,
        "update"@ != "init"@,
        "update"@ != "append"@,
        "update"@ != "nullify"@,
{
    reveal_strlit("DictContains");
    reveal_strlit("Equal");
    reveal_strlit("SetInsert");
    reveal_strlit("DictUpdate");
    reveal_strlit("new");
    reveal_strlit("old");
    reveal_strlit("op");
    reveal_strlit("old_set");
    reveal_strlit("new_set");
    reveal_strlit("update");
    reveal_strlit("init");
    reveal_strlit("append");
    reveal_strlit("nullify");
    assert("DictContains"@.len() == 12 && "Equal"@.len() == 5 && "SetInsert"@.len() == 9
        && "DictUpdate"@.len() == 10);
    assert("new"@[0] == 'n' && "old"@[0] == 'o' && "op"@.len() == 2 && "old"@.len() == 3);
    assert("old_set"@[0] == 'o' && "new_set"@[0] == 'n');
    assert("update"@[0] == 'u' && "init"@[0] == 'i' && "append"@[0] == 'a' && "nullify"@[0] == 'n');
}

/// What the definition of `init` says.
proof fn lemma_init_means(
    commit: Commit,
    zero: Seq<char>,
    new: DictView,
    old: DictView,
    op: DictView,
)
    ensures
        conjunction_holds(commit, zero, init_definition(zero), new, old, op) <==> init_holds(
            commit,
            new,
            old,
            op,
        ),
{
    lemma_language_words();
    let d = init_definition(zero);
    let entries = seq![(IDS_STR@, zero), (NULLIFIERS_STR@, zero)];
    assert forall|old_set: Set<Id>, new_set: Set<Id>| #[trigger]
        (Reading { zero, new, old, op, old_set, new_set }).all_hold(commit, d.body)
            == init_holds(commit, new, old, op) by {
        let r = Reading { zero, new, old, op, old_set, new_set };
        assert(entries[0].0 == IDS_STR@ && entries[1].0 == NULLIFIERS_STR@);
        let dict: DictView = Map::new(
            |key: Seq<char>| exists|i: int| 0 <= i < entries.len() && #[trigger] entries[i].0 == key,
            |key: Seq<char>| ValueView::IdSet(Set::empty()),
        );
        assert(dict =~= empty_state());
        assert(r.operand(Arg::Dict(entries)) == Some(OperandView::Dict(empty_state())));
        assert(r.holds(commit, d.body[0]) == claim_holds(
            commit,
            OperationView::DictContains { dict: op, key: "name"@, value: ValueView::Text("init"@) },
        ));
        assert(r.holds(commit, d.body[1]) == claim_holds(
            commit,
            OperationView::Equal { left: OperandView::Dict(old), right: OperandView::Empty },
        ));
        assert(r.holds(commit, d.body[2]) == claim_holds(
            commit,
            OperationView::Equal {
                left: OperandView::Dict(new),
                right: OperandView::Dict(empty_state()),
            },
        ));
        if init_holds(commit, new, old, op) {
            assert forall|i: int| 0 <= i < d.body.len() implies r.holds(
                commit,
                #[trigger] d.body[i],
            ) by {
                assert(i == 0 || i == 1 || i == 2);
            }
        }
    }
    let empty = Set::<Id>::empty();
    assert((Reading { zero, new, old, op, old_set: empty, new_set: empty }).all_hold(commit, d.body)
        == init_holds(commit, new, old, op));
}

/// What the definition of a predicate says by which the set under `key` grows.
proof fn lemma_growth_means(
    commit: Commit,
    zero: Seq<char>,
    name: Seq<char>,
    key: Seq<char>,
    new: DictView,
    old: DictView,
    op: DictView,
)
    ensures
        conjunction_holds(commit, zero, growth_definition(name, key), new, old, op) <==> {
            &&& claim_holds(
                commit,
                OperationView::DictContains { dict: op, key: "name"@, value: ValueView::Text(name) },
            )
            &&& exists|old_set: Set<Id>, new_set: Set<Id>|
                set_grows(commit, new, old, op, key, old_set, new_set)
        },
{
    lemma_language_words();
    let d = growth_definition(name, key);
    let named = claim_holds(
        commit,
        OperationView::DictContains { dict: op, key: "name"@, value: ValueView::Text(name) },
    );
    assert forall|old_set: Set<Id>, new_set: Set<Id>| #[trigger]
        (Reading { zero, new, old, op, old_set, new_set }).all_hold(commit, d.body) == (named
            && set_grows(commit, new, old, op, key, old_set, new_set)) by {
        let r = Reading { zero, new, old, op, old_set, new_set };
        assert(r.holds(commit, d.body[0]) == named);
        assert(r.holds(commit, d.body[1]) == claim_holds(
            commit,
            OperationView::DictContains { dict: old, key, value: ValueView::IdSet(old_set) },
        ));
        assert(r.holds(commit, d.body[2]) == claim_holds(
            commit,
            OperationView::SetInsert { new_set, old_set, dict: op, key: "id"@ },
        ));
        assert(r.holds(commit, d.body[3]) == claim_holds(
            commit,
            OperationView::DictUpdate { new, old, key, set: new_set },
        ));
        if named && set_grows(commit, new, old, op, key, old_set, new_set) {
            assert forall|i: int| 0 <= i < d.body.len() implies r.holds(
                commit,
                #[trigger] d.body[i],
            ) by {
                assert(i == 0 || i == 1 || i == 2 || i == 3);
            }
        }
    }
    if named {
        assert forall|old_set: Set<Id>, new_set: Set<Id>| #[trigger]
            set_grows(commit, new, old, op, key, old_set, new_set) implies (Reading {
            zero,
            new,
            old,
            op,
            old_set,
            new_set,
        }).all_hold(commit, d.body) by {
            let r = Reading { zero, new, old, op, old_set, new_set };
            assert(r.all_hold(commit, d.body) == (named && set_grows(
                commit, new, old, op, key, old_set, new_set,
            )));
        }
    }
}

/// The source defines the predicates of the state: read in the language that it is written in, it
/// is a list of definitions by which `init`, `append`, `nullify` and `update` hold of exactly the
/// values that they are to hold of.
pub proof fn law_source_defines_predicates(
    commit: Commit,
    zero: Seq<char>,
    new: DictView,
    old: DictView,
    op: DictView,
)
    requires
        no_break(zero),
    ensures
        ({
            let program = state_program(zero);
            &&& code(source_text(zero)) == program_code(program)
            &&& distinct_definitions(program)
            &&& defined_holds(commit, zero, program, "init"@, new, old, op) <==> init_holds(
                commit,
                new,
                old,
                op,
            )
            &&& defined_holds(commit, zero, program, "append"@, new, old, op) <==> append_holds(
                commit,
                new,
                old,
                op,
            )
            &&& defined_holds(commit, zero, program, "nullify"@, new, old, op) <==> nullify_holds(
                commit,
                new,
                old,
                op,
            )
            &&& defined_holds(commit, zero, program, "update"@, new, old, op) <==> update_holds(
                commit,
                new,
                old,
                op,
            )
        }),
{
    let program = state_program(zero);
    lemma_words();
    lemma_language_words();
    lemma_source_is_program(zero);
    lemma_init_means(commit, zero, new, old, op);
    lemma_growth_means(commit, zero, "append"@, IDS_STR@, new, old, op);
    lemma_growth_means(commit, zero, "nullify"@, NULLIFIERS_STR@, new, old, op);
    assert(program[0].name == "init"@ && program[1].name == "append"@ && program[2].name
        == "nullify"@ && program[3].name == "update"@);
    let body = program[3].body;
    assert(body[0] == transition_call("init"@) && body[1] == transition_call("append"@) && body[2]
        == transition_call("nullify"@));
    assert(disjunct_holds(commit, zero, program, body[0], new, old, op) == init_holds(
        commit,
        new,
        old,
        op,
    ));
    assert(disjunct_holds(commit, zero, program, body[1], new, old, op) == append_holds(
        commit,
        new,
        old,
        op,
    ));
    assert(disjunct_holds(commit, zero, program, body[2], new, old, op) == nullify_holds(
        commit,
        new,
        old,
        op,
    ));
}

/// The parts of the source between the places of the number, with the number at these places.
pub open spec fn filled_in(parts: Seq<Seq<char>>, zero: Seq<char>) -> Seq<char>
    decreases parts.len(),
{
    if parts.len() == 0 {
        Seq::empty()
    } else if parts.len() == 1 {
        parts[0]
    } else {
        filled_in(parts.drop_last(), zero) + zero + parts.last()
    }
}

proof fn lemma_place_follows(x: Seq<char>, u: Seq<char>, zero: Seq<char>, v: Seq<char>)
    ensures
        x + (u + zero + v) == (x + u) + zero + v,
{
    assert(x + (u + zero + v) =~= (x + u) + zero + v);
}

proof fn lemma_part_follows(x: Seq<char>, zero: Seq<char>, v: Seq<char>, w: Seq<char>)
    ensures
        x + zero + v + w == x + zero + (v + w),
{
    assert(x + zero + v + w =~= x + zero + (v + w));
}

/// The text of the empty state has two open places.
proof fn lemma_empty_state_is_uniform(zero: Seq<char>)
    ensures
        empty_state_text(zero) == "{\""@ + IDS_STR@ + "\": "@ + "Raw("@ + zero + (")"@ + ", \""@
            + NULLIFIERS_STR@ + "\": "@ + "Raw("@) + zero + (")"@ + "}"@),
{
    let q = "{\""@ + IDS_STR@ + "\": "@;
    let u = "Raw("@;
    lemma_place_follows(q, u, zero, ")"@);
    let x = q + u;
    lemma_part_follows(x, zero, ")"@, ", \""@);
    lemma_part_follows(x, zero, ")"@ + ", \""@, NULLIFIERS_STR@);
    lemma_part_follows(x, zero, ")"@ + ", \""@ + NULLIFIERS_STR@, "\": "@);
    let m = ")"@ + ", \""@ + NULLIFIERS_STR@ + "\": "@;
    lemma_place_follows(x + zero + m, u, zero, ")"@);
    lemma_part_follows(x, zero, m, u);
    lemma_part_follows(x + zero + (m + u), zero, ")"@, "}"@);
}

/// The source depends on the number of the empty value in nothing but the number itself: one text
/// with three open places gives the source of every number.
pub proof fn law_source_is_uniform()
    ensures
        exists|parts: Seq<Seq<char>>|
            {
                &&& #[trigger] parts.len() == 4
                &&& forall|zero: Seq<char>| #[trigger] source_text(zero) == filled_in(parts, zero)
            },
{
    let a = INIT_TO_OLD@ + "Raw("@;
    let b = ")"@ + INIT_TO_NEW@ + ("{\""@ + IDS_STR@ + "\": "@ + "Raw("@);
    let c = ")"@ + ", \""@ + NULLIFIERS_STR@ + "\": "@ + "Raw("@;
    let d0 = ")"@ + "}"@;
    let d1 = d0 + INIT_TO_APPEND@;
    let d2 = d1 + IDS_STR@;
    let d3 = d2 + APPEND_SETS@;
    let d4 = d3 + IDS_STR@;
    let d5 = d4 + APPEND_TO_NULLIFY@;
    let d6 = d5 + IDS_STR@;
    let d7 = d6 + NULLIFY_NOTE@;
    let d8 = d7 + NULLIFIERS_STR@;
    let d9 = d8 + NULLIFY_SETS@;
    let d10 = d9 + NULLIFIERS_STR@;
    let d = d10 + NULLIFY_TO_END@;
    let parts = seq![a, b, c, d];
    assert forall|zero: Seq<char>| #[trigger] source_text(zero) == filled_in(parts, zero) by {
        reveal_with_fuel(filled_in, 4);
        assert(parts.drop_last() =~= seq![a, b, c]);
        assert(seq![a, b, c].drop_last() =~= seq![a, b]);
        assert(seq![a, b].drop_last() =~= seq![a]);
        lemma_place_follows(INIT_TO_OLD@, "Raw("@, zero, ")"@);
        lemma_part_follows(a, zero, ")"@, INIT_TO_NEW@);
        let v = ")"@ + INIT_TO_NEW@;
        let q = "{\""@ + IDS_STR@ + "\": "@ + "Raw("@;
        lemma_empty_state_is_uniform(zero);
        lemma_state_follows(a + zero + v, q, zero, c, d0);
        lemma_part_follows(a, zero, v, q);
        let x = a + zero + b + zero + c;
        lemma_part_follows(x, zero, d0, INIT_TO_APPEND@);
        lemma_part_follows(x, zero, d1, IDS_STR@);
        lemma_part_follows(x, zero, d2, APPEND_SETS@);
        lemma_part_follows(x, zero, d3, IDS_STR@);
        lemma_part_follows(x, zero, d4, APPEND_TO_NULLIFY@);
        lemma_part_follows(x, zero, d5, IDS_STR@);
        lemma_part_follows(x, zero, d6, NULLIFY_NOTE@);
        lemma_part_follows(x, zero, d7, NULLIFIERS_STR@);
        lemma_part_follows(x, zero, d8, NULLIFY_SETS@);
        lemma_part_follows(x, zero, d9, NULLIFIERS_STR@);
        lemma_part_follows(x, zero, d10, NULLIFY_TO_END@);
    }
    assert(parts.len() == 4);
}

proof fn lemma_state_follows(
    x: Seq<char>,
    q: Seq<char>,
    zero: Seq<char>,
    c: Seq<char>,
    d: Seq<char>,
)
    ensures
        x + (q + zero + c + zero + d) == x + q + zero + c + zero + d,
{
    assert(x + (q + zero + c + zero + d) =~= x + q + zero + c + zero + d);
}

} // verus!
