//! What a user sees of the choices and does with them.
use vstd::prelude::*;
use vstd::string::*;
use vstd::std_specs::hash::*;
use crate::app::App;
use crate::catalog::texts;
use crate::crafting::{after_select, CraftError, Crafting};
use crate::items::Item;
use crate::panel::{law_output_name_is_not_empty, output_name, section_views, sections_of, string_views, Section};
use crate::paths::{adjoined, join_path};
use crate::process::{
    data_of, has_data, recipe_of, shown_name, Process, ProcessView, Recipe,
};
use crate::text::trimmed_start;
use crate::verb::{hides_choice, offered, process_views, verb_name, Verb};

verus! {

/// Work for the background task. Items are given by the paths of their files.
#[derive(Debug)]
pub enum Request {
    /// Craft an item into the file `output`.
    Craft { pods_path: String, recipe: Recipe, output: String, input_paths: Vec<String> },
    /// Commit the item of the file `input`.
    Commit { pods_path: String, input: String },
    /// Craft an item into the file `output` and commit it.
    CraftAndCommit { pods_path: String, recipe: Recipe, output: String, input_paths: Vec<String> },
    /// End the task.
    Exit,
}

/// What a [`Request`] stands for.
pub enum RequestView {
    Craft { pods_path: Seq<char>, recipe: Recipe, output: Seq<char>, input_paths: Seq<Seq<char>> },
    Commit { pods_path: Seq<char>, input: Seq<char> },
    CraftAndCommit {
        pods_path: Seq<char>,
        recipe: Recipe,
        output: Seq<char>,
        input_paths: Seq<Seq<char>>,
    },
    Exit,
}

impl View for Request {
    type V = RequestView;

    open spec fn view(&self) -> RequestView {
        match self {
            Request::Craft { pods_path, recipe, output, input_paths } => RequestView::Craft {
                pods_path: pods_path@,
                recipe: *recipe,
                output: output@,
                input_paths: string_views(input_paths@),
            },
            Request::Commit { pods_path, input } => RequestView::Commit {
                pods_path: pods_path@,
                input: input@,
            },
            Request::CraftAndCommit { pods_path, recipe, output, input_paths } => {
                RequestView::CraftAndCommit {
                    pods_path: pods_path@,
                    recipe: *recipe,
                    output: output@,
                    input_paths: string_views(input_paths@),
                }
            },
            Request::Exit => RequestView::Exit,
        }
    }
}

/// The view of a request, if there is one.
pub open spec fn request_view(request: Option<Request>) -> Option<RequestView> {
    match request {
        Some(r) => Some(r@),
        None => None,
    }
}

/// What the background task does next.
#[derive(Clone, Copy, PartialEq, Eq, Structural, Debug)]
pub enum TaskAction {
    /// Handle the request and send the response.
    Handle,
    /// End.
    Stop,
    /// Report that no request can come any more, and end.
    ReportAndStop,
}

/// What the background task does on what it received; `None` if no request can come any more.
pub open spec fn action_on(received: Option<RequestView>) -> TaskAction {
    match received {
        Some(request) => if request is Exit {
            TaskAction::Stop
        } else {
            TaskAction::Handle
        },
        None => TaskAction::ReportAndStop,
    }
}

/// What the background task does on what it received; `None` if no request can come any more.
pub fn task_action(received: Option<&Request>) -> (r: TaskAction)
    ensures
        r == action_on(
            match received {
                Some(request) => Some(request@),
                None => None,
            },
        ),
{
    match received {
        Some(Request::Exit) => TaskAction::Stop,
        Some(_) => TaskAction::Handle,
        None => TaskAction::ReportAndStop,
    }
}

/// The responses of the background task to the requests from the place `at` on, where `handle`
/// gives the response to the request at a place.
pub open spec fn responses_from<R>(
    received: Seq<RequestView>,
    at: int,
    handle: spec_fn(int, RequestView) -> R,
) -> Seq<R>
    decreases received.len() - at,
{
    if at < 0 || at >= received.len() {
        Seq::empty()
    } else {
        match action_on(Some(received[at])) {
            TaskAction::Handle => seq![handle(at, received[at])] + responses_from(
                received,
                at + 1,
                handle,
            ),
            _ => Seq::empty(),
        }
    }
}

/// The responses of the background task to the requests that it receives, one after the other.
pub open spec fn responses<R>(
    received: Seq<RequestView>,
    handle: spec_fn(int, RequestView) -> R,
) -> Seq<R> {
    responses_from(received, 0, handle)
}

/// The requests that the background task handles of those that it receives.
pub open spec fn handled(received: Seq<RequestView>) -> Seq<RequestView> {
    responses(received, |at: int, request: RequestView| request)
}

proof fn lemma_responses_from<R>(
    received: Seq<RequestView>,
    handle: spec_fn(int, RequestView) -> R,
    n: int,
    at: int,
)
    requires
        0 <= at <= n <= received.len(),
        forall|i: int| at <= i < n ==> !((#[trigger] received[i]) is Exit),
        n < received.len() ==> received[n] is Exit,
    ensures
        responses_from(received, at, handle) == Seq::new(
            (n - at) as nat,
            |i: int| handle(at + i, received[at + i]),
        ),
    decreases n - at,
{
    let want = Seq::new((n - at) as nat, |i: int| handle(at + i, received[at + i]));
    if at < n {
        lemma_responses_from(received, handle, n, at + 1);
        assert(!(received[at] is Exit));
        assert(responses_from(received, at, handle) =~= want);
    } else {
        assert(responses_from(received, at, handle) =~= want);
    }
}

/// The requests before the first `Exit`, which stands at the place `n` if there is one, are handled
/// and answered, once each and in their order. `Exit` is not answered, and nothing after it is
/// handled.
pub proof fn law_requests_before_exit_are_answered<R>(
    received: Seq<RequestView>,
    handle: spec_fn(int, RequestView) -> R,
    n: int,
)
    requires
        0 <= n <= received.len(),
        forall|i: int| 0 <= i < n ==> !((#[trigger] received[i]) is Exit),
        n < received.len() ==> received[n] is Exit,
    ensures
        handled(received) == received.take(n),
        responses(received, handle).len() == n,
        forall|i: int|
            0 <= i < n ==> #[trigger] responses(received, handle)[i] == handle(i, received[i]),
{
    lemma_responses_from(received, handle, n, 0);
    lemma_responses_from(received, |at: int, request: RequestView| request, n, 0);
}

/// A button.
#[derive(Clone, Copy, PartialEq, Eq, Structural, Debug)]
pub enum Button {
    Commit,
    Craft,
    CraftAndCommit,
}

impl Button {
    /// The text on the button.
    pub fn label(&self) -> (r: &'static str)
        ensures
            r@ == match self {
                Button::Commit => "Commit"@,
                Button::Craft => "Craft (without Commit)"@,
                Button::CraftAndCommit => "Execute process"@,
            },
    {
        match self {
            Button::Commit => "Commit",
            Button::Craft => "Craft (without Commit)",
            Button::CraftAndCommit => "Execute process",
        }
    }
}

/// What is shown of the verb and its processes.
#[derive(Debug)]
pub struct VerbPanel {
    pub heading: &'static str,
    pub selected_text: &'static str,
    /// The processes to choose from; `None` if the choice is hidden.
    pub choices: Option<Vec<Process>>,
}

/// What is shown of the selected process.
#[derive(Debug)]
pub struct ProcessPanel {
    pub description: &'static str,
    pub sections: Vec<Section>,
    pub outputs: &'static [&'static str],
    pub predicate: &'static str,
}

/// The slots before `n` are filled.
pub open spec fn filled(slots: Map<usize, usize>, n: int) -> bool {
    forall|i: usize| i < n ==> #[trigger] slots.contains_key(i)
}

/// Every slot that is looked at, which is each up to the first empty one, holds the place of an
/// item.
pub open spec fn slots_in_range(slots: Map<usize, usize>, n: int, items: Seq<Item>) -> bool {
    forall|i: usize| i < n && filled(slots, i + 1) ==> #[trigger] slots[i] < items.len()
}

/// The paths of the items in the slots.
pub open spec fn slot_paths(slots: Map<usize, usize>, n: int, items: Seq<Item>) -> Seq<Seq<char>> {
    Seq::new(n as nat, |i: int| items[slots[i as usize] as int].path@)
}

/// The name of the item in a slot, if it is filled.
pub open spec fn shown_in_slot(app: App, input_index: usize) -> Option<Seq<char>> {
    if app.crafting.input_items@.contains_key(input_index) {
        Some(app.all()[app.crafting.input_items@[input_index] as int].name@)
    } else {
        None
    }
}

/// What comes of the wish to execute the selected process.
pub enum Attempt {
    NoFilename,
    MissingInputs,
    /// A mock process is not executed.
    NotExecutable,
    Ready { recipe: Recipe, input_paths: Seq<Seq<char>> },
}

/// What is shown for the selected process.
pub open spec fn selected_name(process: Option<Process>) -> Seq<char> {
    match process {
        Some(p) => shown_name(p@),
        None => ""@,
    }
}

/// The result of a button that could not be followed.
pub open spec fn attempt_error(attempt: Attempt) -> Option<CraftError> {
    match attempt {
        Attempt::NoFilename => Some(CraftError::NoFilename),
        Attempt::MissingInputs => Some(CraftError::MissingInputs),
        _ => None,
    }
}

/// What a button asks for, where `output` is the path of the file that the user named.
pub open spec fn requested(
    app: App,
    process: ProcessView,
    button: Button,
    output: Seq<char>,
) -> Option<RequestView> {
    let pods_path = app.pods_path@;
    match button {
        Button::Commit => if app.crafting.output_filename@.len() == 0 {
            None
        } else {
            Some(RequestView::Commit { pods_path, input: output })
        },
        Button::Craft => match app.attempt(process) {
            Attempt::Ready { recipe, input_paths } => Some(
                RequestView::Craft { pods_path, recipe, output, input_paths },
            ),
            _ => None,
        },
        Button::CraftAndCommit => match app.attempt(process) {
            Attempt::Ready { recipe, input_paths } => Some(
                RequestView::CraftAndCommit { pods_path, recipe, output, input_paths },
            ),
            _ => None,
        },
    }
}

/// The choices after a button: an error is noted, nothing else changes.
pub open spec fn after_press(app: App, process: ProcessView, button: Button) -> Crafting {
    match button {
        Button::Commit => if app.crafting.output_filename@.len() == 0 {
            Crafting { commit_result: Some(Err(CraftError::NoFilename)), ..app.crafting }
        } else {
            app.crafting
        },
        _ => match attempt_error(app.attempt(process)) {
            Some(e) => Crafting { craft_result: Some(Err(e)), ..app.crafting },
            None => app.crafting,
        },
    }
}

/// What executing a process takes.
enum Ready {
    Yes(Recipe, Vec<String>),
    No,
}

impl App {
    /// The number of ingredients of a process.
    pub open spec fn slots_needed(process: ProcessView) -> int {
        data_of(process).input_ingredients.len() as int
    }

    /// What comes of the wish to execute `process`.
    pub open spec fn attempt(self, process: ProcessView) -> Attempt {
        let slots = self.crafting.input_items@;
        let n = App::slots_needed(process);
        if self.crafting.output_filename@.len() == 0 {
            Attempt::NoFilename
        } else if !filled(slots, n) {
            Attempt::MissingInputs
        } else {
            match recipe_of(process) {
                Some(recipe) => Attempt::Ready {
                    recipe,
                    input_paths: slot_paths(slots, n, self.all()),
                },
                None => Attempt::NotExecutable,
            }
        }
    }

    /// A process with data is selected, and the slots that the button looks at are in range.
    pub open spec fn pressable(self, button: Button) -> bool {
        &&& self.crafting.selected_process matches Some(p)
        &&& has_data(p@)
        &&& button != Button::Commit && self.crafting.output_filename@.len() > 0 ==> slots_in_range(
            self.crafting.input_items@,
            App::slots_needed(p@),
            self.all(),
        )
    }

    /// What is shown of the selected verb and its processes.
    pub fn verb_panel(&self) -> (r: Option<VerbPanel>)
        ensures
            match self.crafting.selected_verb {
                None => r is None,
                Some(verb) => {
                    &&& r is Some
                    &&& r->0.heading@ == verb_name(verb)
                    &&& r->0.selected_text@ == selected_name(self.crafting.selected_process)
                    &&& match r->0.choices {
                        Some(list) => !hides_choice(verb) && process_views(list@) == offered(verb),
                        None => hides_choice(verb),
                    }
                },
            },
    {
        let verb = match self.crafting.selected_verb {
            None => return None,
            Some(verb) => verb,
        };
        let selected_text = match self.crafting.selected_process {
            Some(process) => process.as_str(),
            None => "",
        };
        let choices = if verb.hide_process() {
            None
        } else {
            Some(verb.processes())
        };
        Some(VerbPanel { heading: verb.as_str(), selected_text, choices })
    }

    /// Selects the process that the user points at, if any.
    pub fn choose_process(&mut self, process: Option<Process>)
        ensures
            match process {
                Some(p) => after_select(final(self).crafting, old(self).crafting, p@),
                None => final(self).crafting == old(self).crafting,
            },
            *final(self) == (App { crafting: final(self).crafting, ..*old(self) }),
    {
        match process {
            Some(p) => {
                self.crafting.select(p);
            },
            None => {},
        }
    }

    /// What is shown of the selected process, if a verb and a process are selected.
    pub fn process_panel(&self) -> (r: Option<ProcessPanel>)
        requires
            self.crafting.selected_verb is Some && self.crafting.selected_process is Some
                ==> has_data(self.crafting.selected_process->0@),
        ensures
            match (self.crafting.selected_verb, self.crafting.selected_process) {
                (Some(_), Some(p)) => {
                    &&& r is Some
                    &&& r->0.description@ == data_of(p@).description
                    &&& section_views(r->0.sections@) == sections_of(data_of(p@))
                    &&& texts(r->0.outputs@) == data_of(p@).outputs
                    &&& r->0.predicate@ == trimmed_start(data_of(p@).predicate)
                },
                _ => r is None,
            },
    {
        if self.crafting.selected_verb.is_none() {
            return None;
        }
        match self.crafting.selected_process {
            None => None,
            Some(process) => {
                let data = process.data();
                Some(
                    ProcessPanel {
                        description: data.description,
                        sections: data.input_sections(),
                        outputs: data.outputs,
                        predicate: data.predicate_text(),
                    },
                )
            },
        }
    }

    /// The name of the item in the slot of an input; `None` if the slot is empty.
    pub fn slot_item_name(&self, input_index: usize) -> (r: Option<String>)
        requires
            self.crafting.input_items@.contains_key(input_index)
                ==> self.crafting.input_items@[input_index] < self.all().len(),
        ensures
            match r {
                Some(name) => {
                    &&& self.crafting.input_items@.contains_key(input_index)
                    &&& name@ == self.all()[self.crafting.input_items@[input_index] as int].name@
                },
                None => !self.crafting.input_items@.contains_key(input_index),
            },
            match r {
                Some(name) => shown_in_slot(*self, input_index) == Some(name@),
                None => shown_in_slot(*self, input_index) is None,
            },
    {
        broadcast use group_hash_axioms;

        match self.crafting.input_items.get(&input_index) {
            Some(index) => {
                let all = self.all_items();
                Some(all[*index].name.clone())
            },
            None => None,
        }
    }

    /// Names the file that the selected process writes, after the process and the number of
    /// items.
    pub fn name_output(&mut self)
        requires
            old(self).crafting.selected_process matches Some(p) ==> has_data(p@),
            old(self).all().len() <= usize::MAX,
        ensures
            match old(self).crafting.selected_process {
                Some(p) => {
                    &&& final(self).crafting.output_filename@ == output_name(
                        p@,
                        old(self).all().len(),
                    )
                    &&& *final(self) == (App {
                        crafting: Crafting {
                            output_filename: final(self).crafting.output_filename,
                            ..old(self).crafting
                        },
                        ..*old(self)
                    })
                },
                None => *final(self) == *old(self),
            },
    {
        match self.crafting.selected_process {
            Some(process) => {
                let count = self.items.len() + self.used_items.len();
                self.crafting.output_filename = process.output_filename(count);
            },
            None => {},
        }
    }

    /// The buttons that are shown, from the bottom up.
    pub fn buttons(&self) -> (r: Vec<Button>)
        ensures
            r@ == if self.dev_mode {
                seq![Button::Commit, Button::Craft]
            } else {
                seq![Button::CraftAndCommit]
            },
    {
        if self.dev_mode {
            let r = vec![Button::Commit, Button::Craft];
            assert(r@ =~= seq![Button::Commit, Button::Craft]);
            r
        } else {
            let r = vec![Button::CraftAndCommit];
            assert(r@ =~= seq![Button::CraftAndCommit]);
            r
        }
    }

    /// The result that is shown beside a button.
    pub fn shown_result(&self, button: Button) -> (r: &Option<Result<String, CraftError>>)
        ensures
            *r == match button {
                Button::Craft => self.crafting.craft_result,
                Button::Commit | Button::CraftAndCommit => self.crafting.commit_result,
            },
    {
        match button {
            Button::Craft => &self.crafting.craft_result,
            Button::Commit | Button::CraftAndCommit => &self.crafting.commit_result,
        }
    }

    /// Whether the slot of an input is empty or holds the place of an item.
    pub fn can_show_slot(&self, input_index: usize) -> (r: bool)
        ensures
            r == (self.crafting.input_items@.contains_key(input_index)
                ==> self.crafting.input_items@[input_index] < self.all().len()),
    {
        broadcast use group_hash_axioms;

        match self.crafting.input_items.get(&input_index) {
            Some(index) => *index < self.all_items().len(),
            None => true,
        }
    }

    /// Whether the selected process has data and the slots that a button looks at are in order.
    pub fn can_press(&self, button: Button) -> (r: bool)
        ensures
            r == self.pressable(button),
    {
        broadcast use group_hash_axioms;

        let process = match self.crafting.selected_process {
            Some(process) => process,
            None => return false,
        };
        if !process.has_data() {
            return false;
        }
        if self.crafting.output_filename.as_str().is_empty() {
            return true;
        }
        match button {
            Button::Commit => {
                return true;
            },
            _ => {},
        }
        let ghost slots = self.crafting.input_items@;
        let n = process.data().input_ingredients.len();
        let len = self.all_items().len();
        let mut i: usize = 0;
        while i < n
            invariant
                slots == self.crafting.input_items@,
                len == self.all().len(),
                i <= n,
                filled(slots, i as int),
                slots_in_range(slots, i as int, self.all()),
                self.pressable(button) == slots_in_range(slots, n as int, self.all()),
            decreases n - i,
        {
            match self.crafting.input_items.get(&i) {
                Some(index) => {
                    assert(filled(slots, i + 1));
                    if *index >= len {
                        assert(slots[i] >= self.all().len());
                        return false;
                    }
                },
                None => {
                    assert forall|k: usize| k < n && filled(slots, k + 1) implies #[trigger] slots[k]
                        < self.all().len() by {
                        assert(!slots.contains_key(i));
                        assert(k < i);
                    }
                    return true;
                },
            }
            i = i + 1;
        }
        true
    }

    /// The paths of the items in the first `n` slots; `None` if a slot is empty.
    fn input_paths(&self, n: usize) -> (r: Option<Vec<String>>)
        requires
            slots_in_range(self.crafting.input_items@, n as int, self.all()),
        ensures
            match r {
                Some(paths) => {
                    &&& filled(self.crafting.input_items@, n as int)
                    &&& string_views(paths@) == slot_paths(
                        self.crafting.input_items@,
                        n as int,
                        self.all(),
                    )
                },
                None => !filled(self.crafting.input_items@, n as int),
            },
    {
        broadcast use group_hash_axioms;

        let ghost slots = self.crafting.input_items@;
        let all = self.all_items();
        let mut paths: Vec<String> = Vec::new();
        let mut i: usize = 0;
        while i < n
            invariant
                slots == self.crafting.input_items@,
                all@ == self.all(),
                slots_in_range(slots, n as int, all@),
                i <= n,
                filled(slots, i as int),
                paths@.len() == i,
                forall|j: int|
                    0 <= j < i ==> (#[trigger] paths@[j])@ == all@[slots[j as usize] as int].path@,
            decreases n - i,
        {
            match self.crafting.input_items.get(&i) {
                Some(index) => {
                    assert(filled(slots, i + 1));
                    assert(slots[i] < all@.len());
                    paths.push(all[*index].path.clone());
                },
                None => {
                    assert(!slots.contains_key(i));
                    return None;
                },
            }
            i = i + 1;
        }
        assert(string_views(paths@) =~= slot_paths(slots, n as int, all@));
        Some(paths)
    }

    /// Looks whether `process` can be executed, and notes what it lacks.
    fn prepare(&mut self, process: Process) -> (r: Ready)
        requires
            has_data(process@),
            old(self).crafting.output_filename@.len() > 0 ==> slots_in_range(
                old(self).crafting.input_items@,
                App::slots_needed(process@),
                old(self).all(),
            ),
        ensures
            match r {
                Ready::Yes(recipe, paths) => old(self).attempt(process@) == (Attempt::Ready {
                    recipe,
                    input_paths: string_views(paths@),
                }),
                Ready::No => !(old(self).attempt(process@) is Ready),
            },
            *final(self) == (App {
                crafting: after_press(*old(self), process@, Button::Craft),
                ..*old(self)
            }),
    {
        if self.crafting.output_filename.as_str().is_empty() {
            self.crafting.craft_result = Some(Err(CraftError::NoFilename));
            return Ready::No;
        }
        match self.input_paths(process.data().input_ingredients.len()) {
            None => {
                self.crafting.craft_result = Some(Err(CraftError::MissingInputs));
                Ready::No
            },
            Some(paths) => match process.recipe() {
                Some(recipe) => Ready::Yes(recipe, paths),
                None => Ready::No,
            },
        }
    }

    /// The path of the file that the user named, in the directory of pods.
    pub fn output_path(&self) -> (r: String)
        ensures
            adjoined(r@, self.pods_path@, self.crafting.output_filename@),
    {
        join_path(self.pods_path.as_str(), self.crafting.output_filename.as_str())
    }

    /// Follows a button: gives the request that it makes, or notes what is missing.
    pub fn press(&mut self, button: Button) -> (r: Option<Request>)
        requires
            old(self).pressable(button),
        ensures
            exists|output: Seq<char>|
                {
                    &&& #[trigger] adjoined(
                        output,
                        old(self).pods_path@,
                        old(self).crafting.output_filename@,
                    )
                    &&& request_view(r) == requested(
                        *old(self),
                        old(self).crafting.selected_process->0@,
                        button,
                        output,
                    )
                },
            *final(self) == (App {
                crafting: after_press(
                    *old(self),
                    old(self).crafting.selected_process->0@,
                    button,
                ),
                ..*old(self)
            }),
    {
        let output = self.output_path();
        self.press_with(button, output)
    }

    /// Follows a button, where `output` is the path of the file that the user named: gives the
    /// request that it makes, or notes what is missing.
    ///
    /// Only a process that is no mock is crafted.
    pub fn press_with(&mut self, button: Button, output: String) -> (r: Option<Request>)
        requires
            old(self).pressable(button),
        ensures
            request_view(r) == requested(
                *old(self),
                old(self).crafting.selected_process->0@,
                button,
                output@,
            ),
            *final(self) == (App {
                crafting: after_press(
                    *old(self),
                    old(self).crafting.selected_process->0@,
                    button,
                ),
                ..*old(self)
            }),
    {
        let process = match self.crafting.selected_process {
            Some(process) => process,
            None => return None,
        };
        let pods_path = self.pods_path.clone();
        match button {
            Button::Commit => {
                if self.crafting.output_filename.as_str().is_empty() {
                    self.crafting.commit_result = Some(Err(CraftError::NoFilename));
                    None
                } else {
                    Some(Request::Commit { pods_path, input: output })
                }
            },
            Button::Craft => match self.prepare(process) {
                Ready::Yes(recipe, input_paths) => Some(
                    Request::Craft { pods_path, recipe, output, input_paths },
                ),
                Ready::No => None,
            },
            Button::CraftAndCommit => match self.prepare(process) {
                Ready::Yes(recipe, input_paths) => Some(
                    Request::CraftAndCommit { pods_path, recipe, output, input_paths },
                ),
                Ready::No => None,
            },
        }
    }
}

/// The buttons that were clicked.
#[derive(Clone, Copy, PartialEq, Eq, Structural, Debug)]
pub struct Clicks {
    pub craft: bool,
    pub commit: bool,
    pub craft_and_commit: bool,
}

impl Clicks {
    /// The button was clicked.
    pub open spec fn has(self, button: Button) -> bool {
        match button {
            Button::Craft => self.craft,
            Button::Commit => self.commit,
            Button::CraftAndCommit => self.craft_and_commit,
        }
    }
}

/// What a button asks for if it was clicked.
pub open spec fn requested_if(
    app: App,
    process: ProcessView,
    clicks: Clicks,
    button: Button,
    output: Seq<char>,
) -> Seq<RequestView> {
    if clicks.has(button) {
        match requested(app, process, button, output) {
            Some(r) => seq![r],
            None => Seq::empty(),
        }
    } else {
        Seq::empty()
    }
}

/// The application after a button if it was clicked.
pub open spec fn after_press_if(
    app: App,
    process: ProcessView,
    clicks: Clicks,
    button: Button,
) -> App {
    if clicks.has(button) {
        App { crafting: after_press(app, process, button), ..app }
    } else {
        app
    }
}

/// What the buttons ask for that were clicked: first to craft, then to commit, then to do both.
pub open spec fn requested_by(
    app: App,
    process: ProcessView,
    clicks: Clicks,
    output: Seq<char>,
) -> Seq<RequestView> {
    requested_if(app, process, clicks, Button::Craft, output) + requested_if(
        app,
        process,
        clicks,
        Button::Commit,
        output,
    ) + requested_if(app, process, clicks, Button::CraftAndCommit, output)
}

/// The application after the buttons that were clicked.
pub open spec fn after_clicks(app: App, process: ProcessView, clicks: Clicks) -> App {
    after_press_if(
        after_press_if(
            after_press_if(app, process, clicks, Button::Craft),
            process,
            clicks,
            Button::Commit,
        ),
        process,
        clicks,
        Button::CraftAndCommit,
    )
}

/// The views of a list of requests.
pub open spec fn request_views(list: Seq<Request>) -> Seq<RequestView> {
    list.map_values(|r: Request| r@)
}

impl App {
    /// Follows one button if it was clicked, and adds the request that it makes.
    fn press_if(
        &mut self,
        clicks: Clicks,
        button: Button,
        output: &String,
        requests: &mut Vec<Request>,
    )
        requires
            old(self).crafting.selected_process is Some,
            clicks.has(button) ==> old(self).pressable(button),
        ensures
            request_views(final(requests)@) == request_views(old(requests)@) + requested_if(
                *old(self),
                old(self).crafting.selected_process->0@,
                clicks,
                button,
                output@,
            ),
            *final(self) == after_press_if(
                *old(self),
                old(self).crafting.selected_process->0@,
                clicks,
                button,
            ),
    {
        let clicked = match button {
            Button::Craft => clicks.craft,
            Button::Commit => clicks.commit,
            Button::CraftAndCommit => clicks.craft_and_commit,
        };
        let ghost before = requests@;
        if clicked {
            match self.press_with(button, output.clone()) {
                Some(request) => {
                    requests.push(request);
                    assert(request_views(requests@) =~= request_views(before).push(request@));
                },
                None => {},
            }
        }
        assert(request_views(before) + Seq::<RequestView>::empty() =~= request_views(before));
    }

    /// Follows the buttons that were clicked: first to craft, then to commit, then to do both.
    pub fn press_clicked(&mut self, clicks: Clicks) -> (r: Vec<Request>)
        requires
            old(self).crafting.selected_process is Some,
            forall|button: Button| #[trigger] clicks.has(button) ==> old(self).pressable(button),
        ensures
            exists|output: Seq<char>|
                {
                    &&& #[trigger] adjoined(
                        output,
                        old(self).pods_path@,
                        old(self).crafting.output_filename@,
                    )
                    &&& request_views(r@) == requested_by(
                        *old(self),
                        old(self).crafting.selected_process->0@,
                        clicks,
                        output,
                    )
                },
            *final(self) == after_clicks(
                *old(self),
                old(self).crafting.selected_process->0@,
                clicks,
            ),
    {
        let output = self.output_path();
        self.press_clicked_with(clicks, output)
    }

    /// Follows the buttons that were clicked, where `output` is the path of the file that the user
    /// named.
    pub fn press_clicked_with(&mut self, clicks: Clicks, output: String) -> (r: Vec<Request>)
        requires
            old(self).crafting.selected_process is Some,
            forall|button: Button| #[trigger] clicks.has(button) ==> old(self).pressable(button),
        ensures
            request_views(r@) == requested_by(
                *old(self),
                old(self).crafting.selected_process->0@,
                clicks,
                output@,
            ),
            *final(self) == after_clicks(
                *old(self),
                old(self).crafting.selected_process->0@,
                clicks,
            ),
    {
        let ghost start = *self;
        let ghost process = self.crafting.selected_process->0@;
        let mut requests: Vec<Request> = Vec::new();
        assert(clicks.has(Button::Craft) ==> self.pressable(Button::Craft));
        self.press_if(clicks, Button::Craft, &output, &mut requests);
        let ghost second = *self;
        proof {
            law_pressing_again_asks_the_same(
                start,
                process,
                Button::Craft,
                Button::Commit,
                output@,
            );
            law_pressing_again_asks_the_same(
                start,
                process,
                Button::Craft,
                Button::CraftAndCommit,
                output@,
            );
            assert(second.all() == start.all());
            assert(clicks.has(Button::Commit) ==> start.pressable(Button::Commit));
        }
        self.press_if(clicks, Button::Commit, &output, &mut requests);
        proof {
            law_pressing_again_asks_the_same(
                second,
                process,
                Button::Commit,
                Button::CraftAndCommit,
                output@,
            );
            assert(self.all() == start.all());
            assert(clicks.has(Button::CraftAndCommit) ==> start.pressable(Button::CraftAndCommit));
        }
        self.press_if(clicks, Button::CraftAndCommit, &output, &mut requests);
        assert(request_views(requests@) =~= requested_by(start, process, clicks, output@));
        requests
    }
}

/// A mock process is never crafted.
pub proof fn law_mock_is_never_crafted(
    app: App,
    process: ProcessView,
    button: Button,
    output: Seq<char>,
)
    requires
        process is Mock,
        button != Button::Commit,
    ensures
        requested(app, process, button, output) is None,
{
}

/// A file that was named after its process is no obstacle: no button complains of a missing name,
/// and to commit always makes a request.
pub proof fn law_named_output_is_no_obstacle(
    app: App,
    process: ProcessView,
    count: nat,
    output: Seq<char>,
)
    requires
        app.crafting.output_filename@ == output_name(process, count),
    ensures
        !(app.attempt(process) is NoFilename),
        requested(app, process, Button::Commit, output) is Some,
        after_press(app, process, Button::Commit) == app.crafting,
{
    law_output_name_is_not_empty(process, count);
}

/// With a named file and all slots filled, a process that is no mock is crafted from the items in
/// its slots.
pub proof fn law_complete_process_is_crafted(app: App, process: ProcessView, output: Seq<char>)
    requires
        app.crafting.output_filename@.len() > 0,
        filled(app.crafting.input_items@, App::slots_needed(process)),
        !(process is Mock),
    ensures
        requested(app, process, Button::CraftAndCommit, output) == Some(
            RequestView::CraftAndCommit {
                pods_path: app.pods_path@,
                recipe: recipe_of(process)->0,
                output,
                input_paths: slot_paths(
                    app.crafting.input_items@,
                    App::slots_needed(process),
                    app.all(),
                ),
            },
        ),
{
}

/// Nothing is crafted while an input is missing, and the user is told so.
pub proof fn law_missing_input_is_noted(
    app: App,
    process: ProcessView,
    button: Button,
    input_index: usize,
    output: Seq<char>,
)
    requires
        app.crafting.output_filename@.len() > 0,
        input_index < App::slots_needed(process),
        !app.crafting.input_items@.contains_key(input_index),
        button != Button::Commit,
    ensures
        requested(app, process, button, output) is None,
        after_press(app, process, button).craft_result == Some(
            Err::<String, CraftError>(CraftError::MissingInputs),
        ),
{
}

/// A process without ingredients lacks no input.
pub proof fn law_gathering_needs_no_input(app: App, i: int)
    requires
        0 <= i < offered(Verb::Gather).len(),
    ensures
        filled(app.crafting.input_items@, App::slots_needed(offered(Verb::Gather)[i])),
{
}

/// To craft with or without a commit asks the same of the user.
pub proof fn law_commit_adds_no_condition(app: App, process: ProcessView, output: Seq<char>)
    ensures
        requested(app, process, Button::Craft, output) is Some <==> requested(
            app,
            process,
            Button::CraftAndCommit,
            output,
        ) is Some,
        after_press(app, process, Button::Craft) == after_press(
            app,
            process,
            Button::CraftAndCommit,
        ),
{
}

/// A button changes none of the choices: pressed again, it asks for the same.
pub proof fn law_pressing_again_asks_the_same(
    app: App,
    process: ProcessView,
    button: Button,
    again: Button,
    output: Seq<char>,
)
    ensures
        requested(
            App { crafting: after_press(app, process, button), ..app },
            process,
            again,
            output,
        ) == requested(app, process, again, output),
{
    let next = App { crafting: after_press(app, process, button), ..app };
    assert(next.all() == app.all());
    assert(next.attempt(process) == app.attempt(process));
}

} // verus!
