//! The verbs under which processes are offered.
use vstd::prelude::*;
use crate::process::{has_data, Process, ProcessView};

verus! {

/// A kind of work.
#[derive(Clone, Copy, PartialEq, Eq, Structural, Debug)]
pub enum Verb {
    Gather,
    Mine,
    Refine,
    Craft,
    Produce,
    Disassemble,
    Destroy,
}

/// The name of a verb.
pub open spec fn verb_name(verb: Verb) -> Seq<char> {
    match verb {
        Verb::Gather => "Gather"@,
        Verb::Mine => "Mine"@,
        Verb::Refine => "Refine"@,
        Verb::Craft => "Craft"@,
        Verb::Produce => "Produce"@,
        Verb::Disassemble => "Disassemble"@,
        Verb::Destroy => "Destroy"@,
    }
}

/// All verbs, in the order in which they are listed.
pub open spec fn all_verbs() -> Seq<Verb> {
    seq![
        Verb::Gather,
        Verb::Mine,
        Verb::Refine,
        Verb::Craft,
        Verb::Produce,
        Verb::Disassemble,
        Verb::Destroy,
    ]
}

/// The processes that a verb offers, in order.
pub open spec fn offered(verb: Verb) -> Seq<ProcessView> {
    match verb {
        Verb::Mine => seq![ProcessView::Mock("Stone"@)],
        Verb::Gather => seq![ProcessView::Stone, ProcessView::Stick, ProcessView::Wood],
        Verb::Refine => seq![ProcessView::Mock("Refine-Uranium"@)],
        Verb::Craft => seq![ProcessView::Axe, ProcessView::BronzeAxe],
        Verb::Produce => seq![ProcessView::Mock("Tomato"@), ProcessView::Mock("Steel Sword"@)],
        Verb::Disassemble => seq![ProcessView::Mock("Disassemble-H2O"@)],
        Verb::Destroy => seq![ProcessView::Mock("Destroy"@)],
    }
}

/// The process that is chosen with a verb, if there is one.
pub open spec fn default_of(verb: Verb) -> Option<ProcessView> {
    match verb {
        Verb::Destroy => Some(ProcessView::Mock("Destroy"@)),
        _ => None,
    }
}

/// The choice of a process is hidden.
pub open spec fn hides_choice(verb: Verb) -> bool {
    verb == Verb::Destroy
}

/// The views of a list of processes.
pub open spec fn process_views(list: Seq<Process>) -> Seq<ProcessView> {
    list.map_values(|p: Process| p@)
}

impl Verb {
    /// The name of the verb.
    pub fn as_str(&self) -> (r: &'static str)
        ensures
            r@ == verb_name(*self),
    {
        match self {
            Verb::Gather => "Gather",
            Verb::Mine => "Mine",
            Verb::Refine => "Refine",
            Verb::Craft => "Craft",
            Verb::Produce => "Produce",
            Verb::Disassemble => "Disassemble",
            Verb::Destroy => "Destroy",
        }
    }

    /// All verbs.
    pub fn list() -> (r: Vec<Verb>)
        ensures
            r@ == all_verbs(),
    {
        let r = vec![
            Verb::Gather,
            Verb::Mine,
            Verb::Refine,
            Verb::Craft,
            Verb::Produce,
            Verb::Disassemble,
            Verb::Destroy,
        ];
        assert(r@ =~= all_verbs());
        r
    }

    /// The processes that the verb offers.
    pub fn processes(&self) -> (r: Vec<Process>)
        ensures
            process_views(r@) == offered(*self),
    {
        let r = match self {
            Verb::Mine => vec![Process::Mock("Stone")],
            Verb::Gather => vec![Process::Stone, Process::Stick, Process::Wood],
            Verb::Refine => vec![Process::Mock("Refine-Uranium")],
            Verb::Craft => vec![Process::Axe, Process::BronzeAxe],
            Verb::Produce => vec![Process::Mock("Tomato"), Process::Mock("Steel Sword")],
            Verb::Disassemble => vec![Process::Mock("Disassemble-H2O")],
            Verb::Destroy => vec![Process::Mock("Destroy")],
        };
        assert(process_views(r@) =~= offered(*self));
        r
    }

    /// The process that is chosen with the verb, if there is one.
    pub fn default_process(&self) -> (r: Option<Process>)
        ensures
            match (r, default_of(*self)) {
                (Some(p), Some(view)) => p@ == view,
                (None, None) => true,
                _ => false,
            },
    {
        match self {
            Verb::Destroy => Some(Process::Mock("Destroy")),
            _ => None,
        }
    }

    /// Whether the choice of a process is hidden.
    pub fn hide_process(&self) -> (r: bool)
        ensures
            r == hides_choice(*self),
    {
        match self {
            Verb::Destroy => true,
            _ => false,
        }
    }
}

/// Every verb is listed, and none twice.
pub proof fn law_every_verb_listed_once(verb: Verb)
    ensures
        all_verbs().contains(verb),
        all_verbs().no_duplicates(),
{
    let i: int = match verb {
        Verb::Gather => 0,
        Verb::Mine => 1,
        Verb::Refine => 2,
        Verb::Craft => 3,
        Verb::Produce => 4,
        Verb::Disassemble => 5,
        Verb::Destroy => 6,
    };
    assert(all_verbs()[i] == verb);
}

/// Every process that a verb offers has data.
pub proof fn law_offered_processes_have_data(verb: Verb, i: int)
    requires
        0 <= i < offered(verb).len(),
    ensures
        has_data(offered(verb)[i]),
{
}

/// Every verb offers a process, and no process twice.
pub proof fn law_offers_are_distinct(verb: Verb)
    ensures
        offered(verb).len() > 0,
        offered(verb).no_duplicates(),
{
    reveal_strlit("Tomato");
    reveal_strlit("Steel Sword");
    assert("Tomato"@.len() == 6 && "Steel Sword"@.len() == 11);
}

/// The choice is hidden where a process is chosen with the verb, which is then the only one that
/// the verb offers.
pub proof fn law_hidden_choice_is_made(verb: Verb)
    ensures
        hides_choice(verb) <==> default_of(verb) is Some,
        default_of(verb) matches Some(p) ==> offered(verb) == seq![p],
{
}

/// A list of processes is seen one process at a time, each in its place.
pub proof fn law_processes_are_seen_in_place(list: Seq<Process>, i: int)
    ensures
        process_views(list).len() == list.len(),
        0 <= i < list.len() ==> process_views(list)[i] == list[i]@,
{
}

} // verus!
