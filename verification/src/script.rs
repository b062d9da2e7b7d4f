//! Records of the private operations that a pod is proved from.
use vstd::prelude::*;
use crate::state::StateError;
use crate::values::{DictView, Dictionary, IdSet, ValueView, Value, Id};

verus! {

/// A statement of a pod under construction.
#[derive(Clone, Copy, PartialEq, Eq, Structural, Debug)]
pub enum Statement {
    /// The statement that says nothing.
    Nothing,
    /// What the operation at this place of the record proves.
    Step(usize),
}

impl View for Statement {
    type V = Option<int>;

    open spec fn view(&self) -> Option<int> {
        match self {
            Statement::Nothing => None,
            Statement::Step(i) => Some(*i as int),
        }
    }
}

/// The places that a list of statements refers to.
pub open spec fn places(statements: Seq<Statement>) -> Seq<Option<int>> {
    statements.map_values(|s: Statement| s@)
}

/// One side of an equality.
#[derive(Debug)]
pub enum Operand {
    Dict(Dictionary),
    /// The value that every empty container commits to.
    Empty,
}

pub enum OperandView {
    Dict(DictView),
    Empty,
}

impl View for Operand {
    type V = OperandView;

    open spec fn view(&self) -> OperandView {
        match self {
            Operand::Dict(d) => OperandView::Dict(d@),
            Operand::Empty => OperandView::Empty,
        }
    }
}

/// A reference to a custom predicate of a batch, by its name.
#[derive(Debug)]
pub struct CustomPredicateRef {
    pub name: String,
}

impl Clone for CustomPredicateRef {
    fn clone(&self) -> (r: Self)
        ensures
            r == *self,
    {
        CustomPredicateRef { name: self.name.clone() }
    }
}

/// A private operation of a pod under construction.
#[derive(Debug)]
pub enum Operation {
    /// `dict` has `value` under `key`.
    DictContains { dict: Dictionary, key: &'static str, value: Value },
    /// `left` and `right` are equal.
    Equal { left: Operand, right: Operand },
    /// `new_set` is `old_set` with the entry of `dict` under `key` added, which `old_set` lacks.
    SetInsert { new_set: IdSet, old_set: IdSet, dict: Dictionary, key: &'static str },
    /// `new` is `old` with `set` in place of the entry under `key`.
    DictUpdate { new: Dictionary, old: Dictionary, key: &'static str, set: IdSet },
    /// The custom predicate follows from the statements.
    Custom { predicate: CustomPredicateRef, statements: Vec<Statement> },
}

/// What an [`Operation`] stands for.
pub enum OperationView {
    DictContains { dict: DictView, key: Seq<char>, value: ValueView },
    Equal { left: OperandView, right: OperandView },
    SetInsert { new_set: Set<Id>, old_set: Set<Id>, dict: DictView, key: Seq<char> },
    DictUpdate { new: DictView, old: DictView, key: Seq<char>, set: Set<Id> },
    Custom { predicate: Seq<char>, statements: Seq<Option<int>> },
}

impl View for Operation {
    type V = OperationView;

    open spec fn view(&self) -> OperationView {
        match self {
            Operation::DictContains { dict, key, value } => OperationView::DictContains {
                dict: dict@,
                key: key@,
                value: value@,
            },
            Operation::Equal { left, right } => OperationView::Equal { left: left@, right: right@ },
            Operation::SetInsert { new_set, old_set, dict, key } => OperationView::SetInsert {
                new_set: new_set@,
                old_set: old_set@,
                dict: dict@,
                key: key@,
            },
            Operation::DictUpdate { new, old, key, set } => OperationView::DictUpdate {
                new: new@,
                old: old@,
                key: key@,
                set: set@,
            },
            Operation::Custom { predicate, statements } => OperationView::Custom {
                predicate: predicate.name@,
                statements: places(statements@),
            },
        }
    }
}

/// A way of committing to values: what is told apart of two values is their commitments.
pub type Commit = spec_fn(ValueView) -> int;

/// Different values of one kind have different commitments. A value and a number, or a text and a
/// set, may share theirs: so does an empty set with the number that every empty container commits
/// to.
pub open spec fn binding(commit: Commit) -> bool {
    &&& forall|a: Id, b: Id| #[trigger]
        commit(ValueView::Raw(a)) == #[trigger] commit(ValueView::Raw(b)) ==> a == b
    &&& forall|a: Seq<char>, b: Seq<char>| #[trigger]
        commit(ValueView::Text(a)) == #[trigger] commit(ValueView::Text(b)) ==> a == b
    &&& forall|a: Set<Id>, b: Set<Id>| #[trigger]
        commit(ValueView::IdSet(a)) == #[trigger] commit(ValueView::IdSet(b)) ==> a == b
}

/// The dictionaries have the same keys, and values of the same commitments.
pub open spec fn same_dict(commit: Commit, a: DictView, b: DictView) -> bool {
    &&& a.dom() == b.dom()
    &&& forall|key: Seq<char>| #[trigger]
        a.contains_key(key) ==> commit(a[key]) == commit(b[key])
}

/// `id` is the identifier of `value`: they have the same commitment.
pub open spec fn identifies(commit: Commit, id: Id, value: ValueView) -> bool {
    commit(ValueView::Raw(id)) == commit(value)
}

/// What an operation claims of the values it speaks of, which it compares by their commitments.
/// A custom operation speaks of statements, not of values, and claims nothing here.
pub open spec fn claim_holds(commit: Commit, op: OperationView) -> bool {
    match op {
        OperationView::DictContains { dict, key, value } => dict.contains_key(key) && commit(
            dict[key],
        ) == commit(value),
        OperationView::Equal { left, right } => same_dict(commit, as_dict(left), as_dict(right)),
        OperationView::SetInsert { new_set, old_set, dict, key } => {
            &&& dict.contains_key(key)
            &&& exists|id: Id|
                {
                    &&& #[trigger] identifies(commit, id, dict[key])
                    &&& !old_set.contains(id)
                    &&& new_set == old_set.insert(id)
                }
        },
        OperationView::DictUpdate { new, old, key, set } => old.contains_key(key) && same_dict(
            commit,
            new,
            old.insert(key, ValueView::IdSet(set)),
        ),
        OperationView::Custom { predicate, statements } => true,
    }
}

/// The dictionary that an operand commits to.
pub open spec fn as_dict(operand: OperandView) -> DictView {
    match operand {
        OperandView::Dict(d) => d,
        OperandView::Empty => Map::empty(),
    }
}

/// The error of a failed operation that the caller is told of; any other failure is a defect.
pub open spec fn rejection(op: OperationView) -> Option<StateError> {
    match op {
        OperationView::Equal { left, right: OperandView::Empty } => Some(StateError::OldStateNotEmpty),
        OperationView::SetInsert { .. } => Some(StateError::AlreadyContainsId),
        _ => None,
    }
}

/// What to do next to carry a record out.
#[derive(Clone, Copy, PartialEq, Eq, Structural, Debug)]
pub enum StepAction {
    /// Carry out the operation at this place.
    Perform(usize),
    /// All operations were carried out.
    Finish,
    /// Tell the caller that the transition is refused.
    Refuse(StateError),
    /// Give up: the record should not have failed here.
    Abort,
}

/// What to do first to carry a record out.
pub open spec fn action_first(record: Seq<OperationView>) -> StepAction {
    if record.len() == 0 {
        StepAction::Finish
    } else {
        StepAction::Perform(0)
    }
}

/// What to do once the operation at `place` was carried out or, if `accepted` is false, could not
/// be.
pub open spec fn action_after(
    record: Seq<OperationView>,
    place: int,
    accepted: bool,
) -> StepAction {
    if accepted {
        if place + 1 < record.len() {
            StepAction::Perform((place + 1) as usize)
        } else {
            StepAction::Finish
        }
    } else {
        match rejection(record[place]) {
            Some(e) => StepAction::Refuse(e),
            None => StepAction::Abort,
        }
    }
}

/// The places of the operations that are tried from `place` on, and what comes of it, where
/// `accepts` tells which operations can be carried out.
pub open spec fn tried_from(
    record: Seq<OperationView>,
    place: int,
    accepts: spec_fn(int) -> bool,
) -> (Seq<int>, StepAction)
    decreases record.len() - place,
{
    match action_after(record, place, accepts(place)) {
        StepAction::Perform(next) => if place < next < record.len() {
            let (rest, end) = tried_from(record, next as int, accepts);
            (seq![place] + rest, end)
        } else {
            (seq![place], StepAction::Perform(next))
        },
        end => (seq![place], end),
    }
}

proof fn lemma_tried_from(
    record: Seq<OperationView>,
    place: int,
    accepts: spec_fn(int) -> bool,
    n: int,
)
    requires
        record.len() <= usize::MAX,
        0 <= place < record.len(),
        place <= n <= record.len(),
        forall|i: int| place <= i < n ==> #[trigger] accepts(i),
        n < record.len() ==> !accepts(n),
    ensures
        ({
            let last = if n < record.len() { n } else { n - 1 };
            tried_from(record, place, accepts).0 == Seq::new(
                (last + 1 - place) as nat,
                |i: int| place + i,
            )
        }),
        tried_from(record, place, accepts).1 == if n == record.len() {
            StepAction::Finish
        } else {
            match rejection(record[n]) {
                Some(e) => StepAction::Refuse(e),
                None => StepAction::Abort,
            }
        },
    decreases record.len() - place,
{
    let last = if n < record.len() { n } else { n - 1 };
    let want = Seq::new((last + 1 - place) as nat, |i: int| place + i);
    if place < n && place + 1 < record.len() {
        assert(accepts(place));
        lemma_tried_from(record, place + 1, accepts, n);
        assert(seq![place] + Seq::new((last - place) as nat, |i: int| place + 1 + i) =~= want);
    } else {
        if place < n {
            assert(accepts(place));
        }
        assert(seq![place] =~= want);
    }
}

/// A record is carried out from its first operation on, each operation once and in order, up to
/// the first that is not accepted, which is `n`: if there is none all is done, else the error is
/// the one that the operation is rejected with, and without such an error it is given up.
pub proof fn law_records_are_carried_out_in_order(
    record: Seq<OperationView>,
    accepts: spec_fn(int) -> bool,
    n: int,
)
    requires
        0 < record.len() <= usize::MAX,
        0 <= n <= record.len(),
        forall|i: int| 0 <= i < n ==> #[trigger] accepts(i),
        n < record.len() ==> !accepts(n),
    ensures
        action_first(record) == StepAction::Perform(0),
        tried_from(record, 0, accepts).0.len() == if n < record.len() { n + 1 } else { n },
        forall|i: int|
            0 <= i < tried_from(record, 0, accepts).0.len() ==> #[trigger] tried_from(
                record,
                0,
                accepts,
            ).0[i] == i,
        tried_from(record, 0, accepts).1 == if n == record.len() {
            StepAction::Finish
        } else {
            match rejection(record[n]) {
                Some(e) => StepAction::Refuse(e),
                None => StepAction::Abort,
            }
        },
{
    lemma_tried_from(record, 0, accepts, n);
}

/// A record of private operations, in the order in which a pod is built from them.
#[derive(Debug)]
pub struct PodScript {
    ops: Vec<Operation>,
}

impl View for PodScript {
    type V = Seq<OperationView>;

    closed spec fn view(&self) -> Seq<OperationView> {
        self.ops@.map_values(|op: Operation| op@)
    }
}

impl PodScript {
    pub fn new() -> (r: PodScript)
        ensures
            r@ == Seq::<OperationView>::empty(),
    {
        let r = PodScript { ops: Vec::new() };
        assert(r@ =~= Seq::<OperationView>::empty());
        r
    }

    /// Records `op` and names the statement that it proves.
    pub fn priv_op(&mut self, op: Operation) -> (r: Statement)
        ensures
            final(self)@ == old(self)@.push(op@),
            r@ == Some(old(self)@.len() as int),
    {
        let place = self.ops.len();
        self.ops.push(op);
        assert(self@ =~= old(self)@.push(op@));
        Statement::Step(place)
    }

    /// The recorded operations.
    pub fn operations(&self) -> (r: &Vec<Operation>)
        ensures
            r@.map_values(|op: Operation| op@) == self@,
    {
        &self.ops
    }

    /// What to do first to carry the record out.
    pub fn first_step(&self) -> (r: StepAction)
        ensures
            r == if self@.len() == 0 {
                StepAction::Finish
            } else {
                StepAction::Perform(0)
            },
            r == action_first(self@),
    {
        if self.ops.len() == 0 {
            StepAction::Finish
        } else {
            StepAction::Perform(0)
        }
    }

    /// What to do once the operation at `place` was carried out, or, if `accepted` is false, could
    /// not be carried out.
    pub fn next_step(&self, place: usize, accepted: bool) -> (r: StepAction)
        requires
            place < self@.len(),
        ensures
            r == if accepted {
                if place + 1 < self@.len() {
                    StepAction::Perform((place + 1) as usize)
                } else {
                    StepAction::Finish
                }
            } else {
                match rejection(self@[place as int]) {
                    Some(e) => StepAction::Refuse(e),
                    None => StepAction::Abort,
                }
            },
            r == action_after(self@, place as int, accepted),
    {
        if accepted {
            if place < self.ops.len() - 1 {
                StepAction::Perform(place + 1)
            } else {
                StepAction::Finish
            }
        } else {
            match &self.ops[place] {
                Operation::Equal { left: _, right } => match right {
                    Operand::Empty => StepAction::Refuse(StateError::OldStateNotEmpty),
                    Operand::Dict(_) => StepAction::Abort,
                },
                Operation::SetInsert { .. } => StepAction::Refuse(StateError::AlreadyContainsId),
                _ => StepAction::Abort,
            }
        }
    }
}

/// A failure is an error of the caller where a state is compared with the empty value, and where an
/// identifier is inserted into a set; any other failure is a defect.
pub proof fn law_callers_are_told_of_two_failures(op: OperationView)
    ensures
        rejection(op) == Some(StateError::OldStateNotEmpty) <==> op is Equal && op->right is Empty,
        rejection(op) == Some(StateError::AlreadyContainsId) <==> op is SetInsert,
{
}

/// What is said of an operation is said of the very values that it holds.
pub proof fn law_operations_stand_for_their_values(op: Operation)
    ensures
        match op {
            Operation::DictContains { dict, key, value } => op@ == (OperationView::DictContains {
                dict: dict@,
                key: key@,
                value: value@,
            }),
            Operation::Equal { left, right } => {
                &&& op@ is Equal
                &&& left matches Operand::Dict(d) ==> op@->left == OperandView::Dict(d@)
                &&& left is Empty ==> op@->left is Empty
                &&& right matches Operand::Dict(d) ==> op@->right == OperandView::Dict(d@)
                &&& right is Empty ==> op@->right is Empty
            },
            Operation::SetInsert { new_set, old_set, dict, key } => op@
                == (OperationView::SetInsert {
                new_set: new_set@,
                old_set: old_set@,
                dict: dict@,
                key: key@,
            }),
            Operation::DictUpdate { new, old, key, set } => op@ == (OperationView::DictUpdate {
                new: new@,
                old: old@,
                key: key@,
                set: set@,
            }),
            Operation::Custom { predicate, statements } => {
                &&& op@ is Custom
                &&& op@->predicate == predicate.name@
                &&& op@->statements.len() == statements@.len()
                &&& forall|i: int|
                    0 <= i < statements@.len() ==> #[trigger] op@->statements[i] == match statements@[i] {
                        Statement::Nothing => None,
                        Statement::Step(place) => Some(place as int),
                    }
            },
        },
{
}

} // verus!
