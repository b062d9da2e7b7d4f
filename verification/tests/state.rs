use pod_craft::helper::Helper;
use pod_craft::predicates::{build_predicates, Predicates};
use pod_craft::script::{Operand, Operation, PodScript, Statement, StepAction};
use pod_craft::state::{can_apply, init_state, Op, StateError, IDS_STR, NULLIFIERS_STR};
use pod_craft::values::{Dictionary, Digest, IdSet, Value};

const ID_33: Digest = Digest(33, 3, 303, 30303);
const OTHER: Digest = Digest(33, 3, 303, 30304);

fn predicates() -> Predicates {
    build_predicates("0x00").predicates
}

fn text(dict: &Dictionary, key: &str) -> String {
    match dict.get(key) {
        Some(Value::Text(s)) => s.clone(),
        other => panic!("no text: {:?}", other),
    }
}

fn set(dict: &Dictionary, key: &str) -> IdSet {
    match dict.get(key) {
        Some(Value::IdSet(s)) => s.clone(),
        other => panic!("no set: {:?}", other),
    }
}

fn members(dict: &Dictionary, key: &str) -> Vec<Digest> {
    set(dict, key).elements()
}

fn update(predicates: &Predicates, state: Dictionary, op: Op) -> Dictionary {
    let mut builder = PodScript::new();
    let mut helper = Helper::new(&mut builder, predicates);
    let (state, st_update) = helper.st_update(state, Dictionary::from(op.clone())).unwrap();
    let last = builder.operations().len() - 1;
    assert_eq!(st_update, Statement::Step(last));
    println!("# state\n:{:?}", state);
    state
}

#[test]
fn test_app() {
    let state_predicates = predicates();

    // Initial state
    let mut state = Dictionary::new();
    println!("# state\n:{:?}", state);
    for op in [
        Op::Init,
        Op::Append { id: ID_33 },
        Op::Nullify { id: ID_33 },
    ] {
        state = update(&state_predicates, state, op);
    }
    assert_eq!(members(&state, IDS_STR), vec![ID_33]);
    assert_eq!(members(&state, NULLIFIERS_STR), vec![ID_33]);
}

#[test]
fn op_dictionaries() {
    let init = Dictionary::from(Op::Init);
    assert_eq!(text(&init, "name"), "init");
    assert!(init.get("id").is_none());
    let append = Dictionary::from(Op::Append { id: ID_33 });
    assert_eq!(text(&append, "name"), "append");
    assert!(matches!(append.get("id"), Some(Value::Raw(h)) if *h == ID_33));
    let nullify = Dictionary::from(Op::Nullify { id: OTHER });
    assert_eq!(text(&nullify, "name"), "nullify");
    assert!(matches!(nullify.get("id"), Some(Value::Raw(h)) if *h == OTHER));
    assert_eq!(nullify.entries().len(), 2);
}

#[test]
fn id_sets_hold_each_id_once() {
    let mut s = IdSet::new();
    assert!(!s.contains(ID_33));
    s.insert(ID_33);
    s.insert(OTHER);
    s.insert(ID_33);
    assert!(s.contains(ID_33) && s.contains(OTHER));
    assert_eq!(s.elements().len(), 2);
    assert_eq!(s.clone().elements(), s.elements());
}

#[test]
fn dictionaries_replace_values() {
    let mut d = Dictionary::new();
    assert!(d.is_empty());
    d.insert("a", Value::Raw(ID_33));
    d.insert("b", Value::Text("x".to_string()));
    d.insert("a", Value::Raw(OTHER));
    assert!(!d.is_empty());
    assert_eq!(d.entries().len(), 2);
    let copy = d.clone();
    assert!(matches!(copy.get("a"), Some(Value::Raw(h)) if *h == OTHER));
    assert_eq!(text(&copy, "b"), "x");
    assert!(copy.get("c").is_none());
}

#[test]
fn init_needs_the_empty_state() {
    let p = predicates();
    let mut builder = PodScript::new();
    let mut helper = Helper::new(&mut builder, &p);
    let r = helper.st_update(init_state(), Dictionary::from(Op::Init));
    let refused = r.unwrap_err();
    assert_eq!(refused.error, StateError::OldStateNotEmpty);
    assert!(matches!(
        &refused.operation,
        Operation::Equal { left: Operand::Dict(old), right: Operand::Empty } if !old.is_empty()
    ));
    // Only the check of the name is recorded.
    assert_eq!(builder.operations().len(), 1);
    assert!(matches!(&builder.operations()[0], Operation::DictContains { key: "name", .. }));
    assert_eq!(StateError::OldStateNotEmpty.message(), "old state is not empty");
}

#[test]
fn init_steps_are_recorded_in_order() {
    let p = predicates();
    let mut builder = PodScript::new();
    let mut helper = Helper::new(&mut builder, &p);
    let (new, st) = helper.st_init(Dictionary::new(), Dictionary::from(Op::Init)).unwrap();
    assert_eq!(st, Statement::Step(3));
    assert!(members(&new, IDS_STR).is_empty());
    assert!(members(&new, NULLIFIERS_STR).is_empty());
    let ops = builder.operations();
    assert!(matches!(&ops[1], Operation::Equal { left: Operand::Dict(_), right: Operand::Empty }));
    assert!(matches!(&ops[2], Operation::Equal { left: Operand::Dict(_), right: Operand::Dict(_) }));
    match &ops[3] {
        Operation::Custom { predicate, statements } => {
            assert_eq!(predicate.name, "init");
            assert_eq!(
                *statements,
                vec![Statement::Step(0), Statement::Step(1), Statement::Step(2)]
            );
        }
        other => panic!("unexpected {:?}", other),
    }
}

#[test]
fn append_and_nullify_fill_their_own_set() {
    let p = predicates();
    let mut builder = PodScript::new();
    let mut helper = Helper::new(&mut builder, &p);
    let (s1, _) = helper
        .st_append_nullify(init_state(), Dictionary::from(Op::Append { id: ID_33 }))
        .unwrap();
    assert_eq!(members(&s1, IDS_STR), vec![ID_33]);
    assert!(members(&s1, NULLIFIERS_STR).is_empty());
    // An item that was never created can be nullified.
    let (s2, st) = helper
        .st_append_nullify(s1, Dictionary::from(Op::Nullify { id: OTHER }))
        .unwrap();
    assert_eq!(st, Statement::Step(9));
    assert_eq!(members(&s2, IDS_STR), vec![ID_33]);
    assert_eq!(members(&s2, NULLIFIERS_STR), vec![OTHER]);
    match &builder.operations()[7] {
        Operation::SetInsert { new_set, old_set, dict, key } => {
            assert!(new_set.contains(OTHER) && !old_set.contains(OTHER));
            assert_eq!(text(dict, "name"), "nullify");
            assert_eq!(*key, "id");
        }
        other => panic!("unexpected {:?}", other),
    }
    match &builder.operations()[8] {
        Operation::DictUpdate { key, set, .. } => {
            assert_eq!(*key, "nullifiers");
            assert!(set.contains(OTHER));
        }
        other => panic!("unexpected {:?}", other),
    }
}

#[test]
fn an_id_is_recorded_once() {
    let p = predicates();
    let mut state = update(&p, Dictionary::new(), Op::Init);
    state = update(&p, state, Op::Append { id: ID_33 });
    state = update(&p, state, Op::Append { id: OTHER });
    let mut builder = PodScript::new();
    let mut helper = Helper::new(&mut builder, &p);
    let again = helper.st_update(state.clone(), Dictionary::from(Op::Append { id: ID_33 }));
    let refused = again.unwrap_err();
    assert_eq!(refused.error, StateError::AlreadyContainsId);
    match &refused.operation {
        Operation::SetInsert { new_set, old_set, dict, key } => {
            assert_eq!(new_set.elements(), old_set.elements());
            assert!(old_set.contains(ID_33) && old_set.contains(OTHER));
            assert!(matches!(dict.get(key), Some(Value::Raw(h)) if *h == ID_33));
        }
        other => panic!("unexpected {:?}", other),
    }
    assert_eq!(builder.operations().len(), 2);
    assert_eq!(StateError::AlreadyContainsId.message(), "old_set already contains id");
    state = update(&p, state, Op::Nullify { id: ID_33 });
    let mut builder = PodScript::new();
    let mut helper = Helper::new(&mut builder, &p);
    let again = helper.st_update(state, Dictionary::from(Op::Nullify { id: ID_33 }));
    assert_eq!(again.unwrap_err().error, StateError::AlreadyContainsId);
}

#[test]
fn operations_stay_refused() {
    let p = predicates();
    let mut state = update(&p, Dictionary::new(), Op::Init);
    state = update(&p, state, Op::Append { id: ID_33 });
    state = update(&p, state, Op::Nullify { id: ID_33 });
    for op in [Op::Append { id: OTHER }, Op::Nullify { id: OTHER }] {
        state = update(&p, state, op);
        for again in [Op::Append { id: ID_33 }, Op::Nullify { id: ID_33 }] {
            let mut builder = PodScript::new();
            let mut helper = Helper::new(&mut builder, &p);
            let r = helper.st_update(state.clone(), Dictionary::from(again));
            assert_eq!(r.unwrap_err().error, StateError::AlreadyContainsId);
        }
    }
}

#[test]
fn updates_cite_one_disjunct() {
    let p = predicates();
    let mut builder = PodScript::new();
    let mut helper = Helper::new(&mut builder, &p);
    let (s0, _) = helper.st_update(Dictionary::new(), Dictionary::from(Op::Init)).unwrap();
    let (s1, _) = helper.st_update(s0, Dictionary::from(Op::Append { id: ID_33 })).unwrap();
    let (_, last) = helper.st_update(s1, Dictionary::from(Op::Nullify { id: ID_33 })).unwrap();
    assert_eq!(last, Statement::Step(16));
    let step = |place| Statement::Step(place);
    let expected = [
        (3, "init", vec![step(0), step(1), step(2)]),
        (4, "update", vec![step(3), Statement::Nothing, Statement::Nothing]),
        (9, "append", vec![step(5), step(6), step(7), step(8)]),
        (10, "update", vec![Statement::Nothing, step(9), Statement::Nothing]),
        (15, "nullify", vec![step(11), step(12), step(13), step(14)]),
        (16, "update", vec![Statement::Nothing, Statement::Nothing, step(15)]),
    ];
    for (place, name, cited) in expected {
        match &builder.operations()[place] {
            Operation::Custom { predicate, statements } => {
                assert_eq!(predicate.name, name);
                assert_eq!(*statements, cited);
            }
            other => panic!("unexpected {:?}", other),
        }
    }
}

#[test]
fn operations_commute() {
    let p = predicates();
    let mut a = update(&p, Dictionary::new(), Op::Init);
    let mut b = a.clone();
    a = update(&p, a, Op::Append { id: ID_33 });
    a = update(&p, a, Op::Nullify { id: ID_33 });
    b = update(&p, b, Op::Nullify { id: ID_33 });
    b = update(&p, b, Op::Append { id: ID_33 });
    assert_eq!(members(&a, IDS_STR), members(&b, IDS_STR));
    assert_eq!(members(&a, NULLIFIERS_STR), members(&b, NULLIFIERS_STR));
}

#[test]
fn update_marks_the_proved_disjunct() {
    let p = predicates();
    let none = Statement::Nothing;
    let cases = [
        (Dictionary::new(), Op::Init, 0),
        (init_state(), Op::Append { id: ID_33 }, 1),
        (init_state(), Op::Nullify { id: ID_33 }, 2),
    ];
    for (state, op, place) in cases {
        let mut builder = PodScript::new();
        let mut helper = Helper::new(&mut builder, &p);
        helper.st_update(state, Dictionary::from(op)).unwrap();
        let ops = builder.operations();
        let n = ops.len();
        let mut expected = vec![none, none, none];
        expected[place] = Statement::Step(n - 2);
        match &ops[n - 1] {
            Operation::Custom { predicate, statements } => {
                assert_eq!(predicate.name, "update");
                assert_eq!(*statements, expected);
            }
            other => panic!("unexpected {:?}", other),
        }
    }
}

#[test]
fn records_are_carried_out_step_by_step() {
    let p = predicates();
    let mut builder = PodScript::new();
    assert_eq!(builder.first_step(), StepAction::Finish);
    let mut helper = Helper::new(&mut builder, &p);
    helper.st_update(Dictionary::new(), Dictionary::from(Op::Init)).unwrap();
    helper.st_update(init_state(), Dictionary::from(Op::Append { id: ID_33 })).unwrap();
    assert_eq!(builder.first_step(), StepAction::Perform(0));
    assert_eq!(builder.next_step(0, true), StepAction::Perform(1));
    assert_eq!(builder.next_step(0, false), StepAction::Abort);
    assert_eq!(builder.next_step(1, false), StepAction::Refuse(StateError::OldStateNotEmpty));
    assert_eq!(builder.next_step(2, false), StepAction::Abort);
    assert_eq!(builder.next_step(7, false), StepAction::Refuse(StateError::AlreadyContainsId));
    assert_eq!(builder.next_step(10, true), StepAction::Finish);
}

#[test]
fn predicate_source() {
    let batch = build_predicates("0x00");
    let empty = "Raw(0x00)";
    let expected = format!(
        r#"
        // State predicates
        init(new, old, op) = AND(
            // Input validation
            DictContains(op, "name", "init")
            // State transition
            Equal(old, {empty})
            Equal(new, {{"ids": {empty}, "nullifiers": {empty}}})
        )

        append(new, old, op, private: old_set, new_set) = AND(
            // Input validation
            DictContains(op, "name", "append")
            // State transition
            DictContains(old, "ids", old_set)
            SetInsert(new_set, old_set, op.id)
            DictUpdate(new, old, "ids", new_set)
        )

        nullify(new, old, op, private: old_set, new_set) = AND(
            // Input validation
            DictContains(op, "name", "nullify")
            // TODO: Check existence of ID before nullifying
            // DictContains(old, "ids", old_id_set)
            // SetContains(old_id_set, op.id)
            // State transition
            DictContains(old, "nullifiers", old_set)
            SetInsert(new_set, old_set, op.id)
            DictUpdate(new, old, "nullifiers", new_set)
        )

        update(new, old, op) = OR(
            init(new, old, op)
            append(new, old, op)
            nullify(new, old, op)
        )
    "#
    );
    assert_eq!(batch.source, expected);
    assert_eq!(batch.predicates.init.name, "init");
    assert_eq!(batch.predicates.append.name, "append");
    assert_eq!(batch.predicates.nullify.name, "nullify");
    assert_eq!(batch.predicates.update.name, "update");
}

#[test]
fn operations_need_their_values() {
    let init = Dictionary::from(Op::Init);
    let append = Dictionary::from(Op::Append { id: ID_33 });
    assert!(can_apply(&Dictionary::new(), &init));
    assert!(can_apply(&init_state(), &init));
    assert!(!can_apply(&Dictionary::new(), &append));
    assert!(can_apply(&init_state(), &append));
    let mut no_id = Dictionary::new();
    no_id.insert("name", Value::Text("nullify".to_string()));
    assert!(!can_apply(&init_state(), &no_id));
    no_id.insert("id", Value::Text("33".to_string()));
    assert!(!can_apply(&init_state(), &no_id));
    no_id.insert("id", Value::Raw(ID_33));
    assert!(can_apply(&init_state(), &no_id));
    no_id.insert("name", Value::Text("remove".to_string()));
    assert!(!can_apply(&init_state(), &no_id));
    assert!(!can_apply(&init_state(), &Dictionary::new()));
    let mut only_ids = Dictionary::new();
    only_ids.insert(IDS_STR, Value::IdSet(IdSet::new()));
    assert!(can_apply(&only_ids, &append));
    assert!(!can_apply(&only_ids, &Dictionary::from(Op::Nullify { id: ID_33 })));
}

#[test]
fn state_records_history() {
    let p = predicates();
    let mut state = update(&p, Dictionary::new(), Op::Init);
    for n in 0..5 {
        state = update(&p, state, Op::Append { id: Digest(n, 0, 0, 0) });
    }
    for n in 1..3 {
        state = update(&p, state, Op::Nullify { id: Digest(n, 0, 0, 0) });
    }
    let ids = set(&state, IDS_STR);
    let nullifiers = set(&state, NULLIFIERS_STR);
    for n in 0..7 {
        assert_eq!(ids.contains(Digest(n, 0, 0, 0)), n < 5);
        assert_eq!(nullifiers.contains(Digest(n, 0, 0, 0)), n == 1 || n == 2);
    }
    assert_eq!(state.entries().len(), 2);
}
