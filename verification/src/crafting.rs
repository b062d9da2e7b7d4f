//! The choices that a process is executed by.
use vstd::prelude::*;
use vstd::std_specs::hash::*;
use std::collections::HashMap;
use crate::process::{Process, ProcessView, Recipe};
use crate::verb::Verb;

verus! {

/// Why a process was not executed.
#[derive(Debug)]
pub enum CraftError {
    /// The result has no file name.
    NoFilename,
    /// An input is missing.
    MissingInputs,
    /// The work failed, for this reason.
    Failed(String),
}

impl CraftError {
    /// The text of the error.
    pub fn message(&self) -> (r: &str)
        ensures
            r@ == match self {
                CraftError::NoFilename => "Please enter a filename."@,
                CraftError::MissingInputs => "Please provide all inputs."@,
                CraftError::Failed(reason) => reason@,
            },
    {
        match self {
            CraftError::NoFilename => "Please enter a filename.",
            CraftError::MissingInputs => "Please provide all inputs.",
            CraftError::Failed(reason) => reason.as_str(),
        }
    }
}

/// What was chosen so far, and what came of it.
#[derive(Debug)]
pub struct Crafting {
    pub selected_verb: Option<Verb>,
    pub selected_process: Option<Process>,
    pub selected_recipe: Option<Recipe>,
    /// Input index to item index.
    pub input_items: HashMap<usize, usize>,
    pub output_filename: String,
    /// The path of the crafted item, or why there is none.
    pub craft_result: Option<Result<String, CraftError>>,
    /// The path of the committed item, or why there is none.
    pub commit_result: Option<Result<String, CraftError>>,
}

/// Apart from the verb and the process, nothing is chosen.
pub open spec fn nothing_else_chosen(crafting: Crafting) -> bool {
    &&& crafting.selected_recipe is None
    &&& crafting.input_items@ == Map::<usize, usize>::empty()
    &&& crafting.output_filename@ == Seq::<char>::empty()
    &&& crafting.craft_result is None
    &&& crafting.commit_result is None
}

/// The process `process` is the selected one.
pub open spec fn is_selected(crafting: Crafting, process: ProcessView) -> bool {
    crafting.selected_process matches Some(p) && p@ == process
}

/// `after` is `before` once `process` has been selected: as it was if that was the selected
/// process, else with the verb kept and all other choices dropped.
pub open spec fn after_select(after: Crafting, before: Crafting, process: ProcessView) -> bool {
    if is_selected(before, process) {
        after == before
    } else {
        &&& after.selected_verb == before.selected_verb
        &&& is_selected(after, process)
        &&& nothing_else_chosen(after)
    }
}

impl Default for Crafting {
    fn default() -> (r: Self)
        ensures
            r.selected_verb is None,
            r.selected_process is None,
            nothing_else_chosen(r),
    {
        Crafting {
            selected_verb: None,
            selected_process: None,
            selected_recipe: None,
            input_items: HashMap::new(),
            output_filename: String::new(),
            craft_result: None,
            commit_result: None,
        }
    }
}

impl Crafting {
    /// Selects `process`. Another process than before starts with no choices but the verb.
    pub fn select(&mut self, process: Process)
        ensures
            after_select(*final(self), *old(self), process@),
    {
        let same = match self.selected_process {
            Some(p) => p == process,
            None => false,
        };
        if !same {
            let verb = self.selected_verb;
            *self = Crafting::default();
            self.selected_verb = verb;
            self.selected_process = Some(process);
        }
    }

    /// Puts the item at `item_index` of the list of all items into the slot `input_index`.
    pub fn place_input(&mut self, input_index: usize, item_index: usize)
        ensures
            final(self).input_items@ == old(self).input_items@.insert(input_index, item_index),
            *final(self) == (Crafting { input_items: final(self).input_items, ..*old(self) }),
    {
        broadcast use group_hash_axioms;

        self.input_items.insert(input_index, item_index);
    }
}

/// To select a process twice is to select it once.
pub proof fn law_select_twice(
    before: Crafting,
    once: Crafting,
    twice: Crafting,
    process: ProcessView,
)
    requires
        after_select(once, before, process),
        after_select(twice, once, process),
    ensures
        twice == once,
{
}

/// Whatever is selected, the verb stays and the process is the selected one.
pub proof fn law_select_keeps_verb(before: Crafting, after: Crafting, process: ProcessView)
    requires
        after_select(after, before, process),
    ensures
        after.selected_verb == before.selected_verb,
        is_selected(after, process),
{
}

/// Inputs that were placed for one process are not taken over to another.
pub proof fn law_inputs_belong_to_a_process(
    before: Crafting,
    after: Crafting,
    process: ProcessView,
    input_index: usize,
)
    requires
        after_select(after, before, process),
        !is_selected(before, process),
    ensures
        !after.input_items@.contains_key(input_index),
{
}

/// To select the process that is selected changes nothing, whatever was chosen and whatever came
/// of it.
pub proof fn law_selecting_again_changes_nothing(
    before: Crafting,
    after: Crafting,
    selected: Process,
)
    requires
        before.selected_process == Some(selected),
        after_select(after, before, selected@),
    ensures
        after == before,
{
}

/// To select another process, or a first one, starts afresh: the verb stays, the process is the
/// selected one, and there is no recipe, no input, no file name and no result.
pub proof fn law_selecting_another_starts_afresh(
    before: Crafting,
    after: Crafting,
    process: ProcessView,
    input_index: usize,
)
    requires
        before.selected_process matches Some(p) ==> p@ != process,
        after_select(after, before, process),
    ensures
        after.selected_verb == before.selected_verb,
        after.selected_process is Some,
        after.selected_process->0@ == process,
        after.selected_recipe is None,
        !after.input_items@.contains_key(input_index),
        after.output_filename@.len() == 0,
        after.craft_result is None,
        after.commit_result is None,
{
}

} // verus!
