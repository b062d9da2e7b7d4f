//! What holds of the buttons, the slots and the requests as a whole.
use vstd::prelude::*;
use vstd::string::*;
use crate::actions::{
    action_on, after_clicks, after_press, filled, request_view, request_views, requested,
    requested_by, selected_name, shown_in_slot, slots_in_range, Button, Clicks, Request,
    RequestView, TaskAction,
};
use crate::app::App;
use crate::crafting::{CraftError, Crafting};
use crate::process::{data_of, has_data, recipe_of, shown_name, Process, ProcessView};

verus! {

/// The paths of the inputs that a request to craft names.
pub open spec fn paths_in(request: RequestView) -> Seq<Seq<char>> {
    match request {
        RequestView::Craft { input_paths, .. } => input_paths,
        RequestView::CraftAndCommit { input_paths, .. } => input_paths,
        _ => Seq::empty(),
    }
}

/// In a request to craft, the path at the number of a slot is that of the item whose place was put
/// into this slot: an item, or a used item if the place lies behind the items. There are as many
/// paths as ingredients.
pub proof fn law_each_slot_gives_its_path(
    app: App,
    process: ProcessView,
    button: Button,
    output: Seq<char>,
    i: usize,
)
    requires
        button != Button::Commit,
        requested(app, process, button, output) is Some,
        i < data_of(process).input_ingredients.len(),
    ensures
        ({
            let paths = paths_in(requested(app, process, button, output)->0);
            let place = app.crafting.input_items@[i] as int;
            let here = app.items@.len();
            &&& paths.len() == data_of(process).input_ingredients.len()
            &&& app.crafting.input_items@.contains_key(i)
            &&& place < here ==> paths[i as int] == app.items@[place].path@
            &&& here <= place < here + app.used_items@.len() ==> paths[i as int]
                == app.used_items@[place - here].path@
        }),
{
    assert(filled(app.crafting.input_items@, data_of(process).input_ingredients.len() as int));
}

/// To put another item into one slot changes no path of the request but the one at the number of
/// this slot.
pub proof fn law_slots_are_independent(
    app: App,
    other: App,
    process: ProcessView,
    button: Button,
    output: Seq<char>,
    slot: usize,
    place: usize,
    i: int,
)
    requires
        button != Button::Commit,
        requested(app, process, button, output) is Some,
        other.crafting.input_items@ == app.crafting.input_items@.insert(slot, place),
        other == (App {
            crafting: Crafting { input_items: other.crafting.input_items, ..app.crafting },
            ..app
        }),
        0 <= i < data_of(process).input_ingredients.len(),
        i != slot,
    ensures
        requested(other, process, button, output) is Some,
        paths_in(requested(other, process, button, output)->0)[i] == paths_in(
            requested(app, process, button, output)->0,
        )[i],
{
    let n = data_of(process).input_ingredients.len() as int;
    assert(filled(app.crafting.input_items@, n));
    assert(filled(other.crafting.input_items@, n));
    assert(other.all() == app.all());
}

/// A request is of the kind of its button, and carries the directory of pods, the path of the file
/// that the user named and, to craft, the recipe of the process.
pub proof fn law_requests_carry_the_choices(
    app: App,
    process: ProcessView,
    button: Button,
    output: Seq<char>,
)
    requires
        requested(app, process, button, output) is Some,
    ensures
        match requested(app, process, button, output)->0 {
            RequestView::Craft { pods_path, recipe, output: written, .. } => {
                &&& button == Button::Craft
                &&& pods_path == app.pods_path@
                &&& written == output
                &&& recipe_of(process) == Some(recipe)
            },
            RequestView::Commit { pods_path, input } => {
                &&& button == Button::Commit
                &&& pods_path == app.pods_path@
                &&& input == output
            },
            RequestView::CraftAndCommit { pods_path, recipe, output: written, .. } => {
                &&& button == Button::CraftAndCommit
                &&& pods_path == app.pods_path@
                &&& written == output
                &&& recipe_of(process) == Some(recipe)
            },
            RequestView::Exit => false,
        },
{
}

/// A slot of the process is empty.
pub open spec fn lacks_input(app: App, process: ProcessView) -> bool {
    exists|i: usize|
        i < data_of(process).input_ingredients.len()
            && !#[trigger] app.crafting.input_items@.contains_key(i)
}

/// To commit makes a request exactly if a file is named. To craft makes one exactly if a file is
/// named, no slot is empty and the process is no mock. What is missing is noted beside the button,
/// the file name before the inputs, and nothing else changes.
pub proof fn law_buttons_do_or_say_why_not(
    app: App,
    process: ProcessView,
    button: Button,
    output: Seq<char>,
)
    ensures
        ({
            let named = app.crafting.output_filename@.len() > 0;
            let lacks = lacks_input(app, process);
            let asks = requested(app, process, button, output) is Some;
            let before = app.crafting;
            let after = after_press(app, process, button);
            &&& asks <==> named && (button == Button::Commit || !lacks && !(process is Mock))
            &&& after.craft_result == if button == Button::Commit || named && !lacks {
                before.craft_result
            } else if named {
                Some(Err(CraftError::MissingInputs))
            } else {
                Some(Err(CraftError::NoFilename))
            }
            &&& after.commit_result == if button != Button::Commit || named {
                before.commit_result
            } else {
                Some(Err(CraftError::NoFilename))
            }
            &&& after == (Crafting {
                craft_result: after.craft_result,
                commit_result: after.commit_result,
                ..before
            })
        }),
{
    let n = data_of(process).input_ingredients.len() as int;
    let slots = app.crafting.input_items@;
    if !filled(slots, n) {
        let i = choose|i: usize| i < n && !#[trigger] slots.contains_key(i);
        assert(lacks_input(app, process));
    } else if lacks_input(app, process) {
        let i = choose|i: usize| i < n && !#[trigger] slots.contains_key(i);
        assert(slots.contains_key(i));
    }
}

/// A button can be pressed exactly if a process with data is selected and, to craft into a named
/// file, each slot up to the first empty one holds the place of an item or of a used item.
pub proof fn law_what_can_be_pressed(app: App, button: Button)
    ensures
        app.pressable(button) <==> app.crafting.selected_process is Some && has_data(
            app.crafting.selected_process->0@,
        ) && (button == Button::Commit || app.crafting.output_filename@.len() == 0 || forall|i: usize|
            {
                &&& i < data_of(app.crafting.selected_process->0@).input_ingredients.len()
                &&& forall|j: usize| j <= i ==> #[trigger] app.crafting.input_items@.contains_key(j)
            } ==> #[trigger] app.crafting.input_items@[i] < app.items@.len()
                + app.used_items@.len()),
{
    if app.crafting.selected_process is Some {
        let slots = app.crafting.input_items@;
        let n = data_of(app.crafting.selected_process->0@).input_ingredients.len();
        assert forall|i: usize| #[trigger] filled(slots, i + 1) <==> (forall|j: usize|
            j <= i ==> #[trigger] slots.contains_key(j)) by {}
        assert(slots_in_range(slots, n as int, app.all()) <==> forall|i: usize|
            {
                &&& i < n
                &&& forall|j: usize| j <= i ==> #[trigger] slots.contains_key(j)
            } ==> #[trigger] slots[i] < app.items@.len() + app.used_items@.len()) by {
            if slots_in_range(slots, n as int, app.all()) {
                assert forall|i: usize|
                    {
                        &&& i < n
                        &&& forall|j: usize| j <= i ==> #[trigger] slots.contains_key(j)
                    } implies #[trigger] slots[i] < app.items@.len() + app.used_items@.len() by {
                    assert(filled(slots, i + 1));
                }
            } else {
                let i = choose|i: usize|
                    i < n && filled(slots, i + 1) && !(#[trigger] slots[i] < app.all().len());
                assert(slots.contains_key(i));
                assert(slots[i] >= app.items@.len() + app.used_items@.len());
            }
        }
    }
}

/// What can be pressed names items only: where to craft makes a request, every slot of the process
/// holds the place of an item or of a used item.
pub proof fn law_pressed_slots_hold_items(app: App, button: Button, output: Seq<char>, i: usize)
    requires
        button != Button::Commit,
        app.pressable(button),
        requested(app, app.crafting.selected_process->0@, button, output) is Some,
        i < data_of(app.crafting.selected_process->0@).input_ingredients.len(),
    ensures
        app.crafting.input_items@[i] < app.items@.len() + app.used_items@.len(),
{
    let slots = app.crafting.input_items@;
    let n = App::slots_needed(app.crafting.selected_process->0@);
    assert(filled(slots, n));
    assert(filled(slots, i + 1)) by {
        assert forall|j: usize| j < i + 1 implies #[trigger] slots.contains_key(j) by {
            assert(filled(slots, n));
        }
    }
}

/// The name that is shown in a slot and the path that is asked for are those of one item.
pub proof fn law_shown_items_are_used(
    app: App,
    process: ProcessView,
    button: Button,
    output: Seq<char>,
    i: usize,
)
    requires
        button != Button::Commit,
        requested(app, process, button, output) is Some,
        i < data_of(process).input_ingredients.len(),
        app.crafting.input_items@[i] < app.items@.len() + app.used_items@.len(),
    ensures
        exists|k: int|
            {
                &&& 0 <= k < app.items@.len() + app.used_items@.len()
                &&& shown_in_slot(app, i) == Some((#[trigger] (app.items@ + app.used_items@)[k]).name@)
                &&& paths_in(requested(app, process, button, output)->0)[i as int] == (app.items@
                    + app.used_items@)[k].path@
            },
{
    let k = app.crafting.input_items@[i] as int;
    assert(filled(app.crafting.input_items@, data_of(process).input_ingredients.len() as int));
    assert((app.items@ + app.used_items@)[k] == app.all()[k]);
}

/// A slot shows an item exactly if one was put into it.
pub proof fn law_filled_slots_show(app: App, i: usize)
    ensures
        shown_in_slot(app, i) is Some <==> app.crafting.input_items@.contains_key(i),
{
}

/// One button that is clicked alone asks for what it asks for, and no click asks for nothing.
pub proof fn law_one_click_is_one_press(
    app: App,
    process: ProcessView,
    clicks: Clicks,
    button: Button,
    output: Seq<char>,
)
    requires
        forall|b: Button| #[trigger] clicks.has(b) ==> b == button,
    ensures
        requested_by(app, process, clicks, output) == match requested(
            app,
            process,
            button,
            output,
        ) {
            Some(request) => if clicks.has(button) {
                seq![request]
            } else {
                Seq::empty()
            },
            None => Seq::empty(),
        },
        after_clicks(app, process, clicks) == if clicks.has(button) {
            App { crafting: after_press(app, process, button), ..app }
        } else {
            app
        },
{
    assert(clicks.has(Button::Craft) ==> button == Button::Craft);
    assert(clicks.has(Button::Commit) ==> button == Button::Commit);
    assert(clicks.has(Button::CraftAndCommit) ==> button == Button::CraftAndCommit);
    let want = match requested(app, process, button, output) {
        Some(request) => if clicks.has(button) {
            seq![request]
        } else {
            Seq::empty()
        },
        None => Seq::empty(),
    };
    assert(requested_by(app, process, clicks, output) =~= want);
}

/// Of several clicks, that to craft is followed first, then that to commit, then that to do both,
/// each as if it was the only one.
pub proof fn law_clicks_are_followed_in_order(
    app: App,
    process: ProcessView,
    clicks: Clicks,
    output: Seq<char>,
)
    ensures
        requested_by(app, process, clicks, output) == requested_by(
            app,
            process,
            Clicks { craft: clicks.craft, commit: false, craft_and_commit: false },
            output,
        ) + requested_by(
            app,
            process,
            Clicks { craft: false, commit: clicks.commit, craft_and_commit: false },
            output,
        ) + requested_by(
            app,
            process,
            Clicks { craft: false, commit: false, craft_and_commit: clicks.craft_and_commit },
            output,
        ),
{
    assert(requested_by(app, process, clicks, output) =~= requested_by(
        app,
        process,
        Clicks { craft: clicks.craft, commit: false, craft_and_commit: false },
        output,
    ) + requested_by(
        app,
        process,
        Clicks { craft: false, commit: clicks.commit, craft_and_commit: false },
        output,
    ) + requested_by(
        app,
        process,
        Clicks { craft: false, commit: false, craft_and_commit: clicks.craft_and_commit },
        output,
    ));
}

/// To click a button is to press it: the flag of the button decides.
pub proof fn law_clicks_name_their_buttons(clicks: Clicks)
    ensures
        clicks.has(Button::Craft) == clicks.craft,
        clicks.has(Button::Commit) == clicks.commit,
        clicks.has(Button::CraftAndCommit) == clicks.craft_and_commit,
{
}

/// Several clicks leave what they leave one after the other.
pub proof fn law_clicks_leave_what_presses_leave(app: App, process: ProcessView, clicks: Clicks)
    ensures
        ({
            let first = after_clicks(
                app,
                process,
                Clicks { craft: clicks.craft, commit: false, craft_and_commit: false },
            );
            let second = after_clicks(
                first,
                process,
                Clicks { craft: false, commit: clicks.commit, craft_and_commit: false },
            );
            after_clicks(app, process, clicks) == after_clicks(
                second,
                process,
                Clicks { craft: false, commit: false, craft_and_commit: clicks.craft_and_commit },
            )
        }),
{
}

/// What is said of a request is said of its own values, the paths each in its place.
pub proof fn law_requests_stand_for_their_values(request: Request, i: int)
    ensures
        match request {
            Request::Craft { pods_path, recipe, output, input_paths } => {
                &&& request@ is Craft
                &&& request@->Craft_pods_path == pods_path@
                &&& request@->Craft_recipe == recipe
                &&& request@->Craft_output == output@
                &&& paths_in(request@).len() == input_paths@.len()
                &&& 0 <= i < input_paths@.len() ==> paths_in(request@)[i] == input_paths@[i]@
            },
            Request::Commit { pods_path, input } => request@ == (RequestView::Commit {
                pods_path: pods_path@,
                input: input@,
            }),
            Request::CraftAndCommit { pods_path, recipe, output, input_paths } => {
                &&& request@ is CraftAndCommit
                &&& request@->CraftAndCommit_pods_path == pods_path@
                &&& request@->CraftAndCommit_recipe == recipe
                &&& request@->CraftAndCommit_output == output@
                &&& paths_in(request@).len() == input_paths@.len()
                &&& 0 <= i < input_paths@.len() ==> paths_in(request@)[i] == input_paths@[i]@
            },
            Request::Exit => request@ is Exit,
        },
        request_view(Some(request)) == Some(request@),
        request_view(None) is None,
{
}

/// A list of requests is seen one request at a time, each in its place.
pub proof fn law_requests_are_seen_in_place(list: Seq<Request>, i: int)
    ensures
        request_views(list).len() == list.len(),
        0 <= i < list.len() ==> request_views(list)[i] == list[i]@,
{
}

/// What is shown for the selected process is the name under which it is shown, and nothing if none
/// is selected.
pub proof fn law_selected_process_is_shown(process: Process)
    ensures
        selected_name(Some(process)) == shown_name(process@),
        selected_name(None).len() == 0,
{
    reveal_strlit("");
}

/// The task ends without a word on `Exit`, with a report if no request can come any more, and goes
/// on otherwise.
pub proof fn law_task_goes_on_until_exit(request: RequestView)
    ensures
        action_on(Some(request)) == TaskAction::Stop <==> request == RequestView::Exit,
        action_on(Some(request)) == TaskAction::Handle <==> request != RequestView::Exit,
        action_on(None) == TaskAction::ReportAndStop,
{
}

} // verus!
