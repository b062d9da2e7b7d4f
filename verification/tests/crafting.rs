use pod_craft::actions::{task_action, Button, Clicks, Request, TaskAction};
use pod_craft::app::{App, LoadError, SAMPLE_PREDICATE};
use pod_craft::crafting::{CraftError, Crafting};
use pod_craft::items::{sort_by_name, Entry, Item};
use pod_craft::process::{Process, Recipe};
use pod_craft::text::{is_text_le, to_decimal, trim_start};
use pod_craft::values::Digest;
use pod_craft::verb::Verb;

fn item(name: &str, n: u64) -> Item {
    Item {
        name: name.to_string(),
        id: Digest(n, 0, 0, 0),
        crafted_item: n as usize,
        path: format!("pods/{}", name),
    }
}

fn file(name: &str, n: u64) -> Entry {
    Entry::File(item(name, n))
}

fn names(items: &Vec<Item>) -> Vec<String> {
    items.iter().map(|i| i.name.clone()).collect()
}

fn app() -> App {
    App::new(
        "pods".to_string(),
        vec![file("Stone_1", 1), Entry::Dir, file("Stick_0", 2)],
        vec![file("Wood_2", 3)],
    )
    .unwrap()
}

#[test]
fn app_starts_with_the_axe() {
    let app = app();
    assert_eq!(names(&app.items), vec!["Stick_0", "Stone_1"]);
    assert_eq!(names(&app.used_items), vec!["Wood_2"]);
    assert_eq!(app.crafting.selected_verb, Some(Verb::Craft));
    assert!(app.crafting.selected_process == Some(Process::Axe));
    assert!(app.crafting.input_items.is_empty());
    assert_eq!(app.code_editor_content, SAMPLE_PREDICATE);
    assert!(app.code_editor_content.starts_with("\nIsTinPremium(item,"));
    assert_eq!(app.selected_tab, 0);
    assert!(!app.modal_new_predicates && !app.dev_mode && !app.danger);
    assert_eq!(app.used_dir(), "pods/used");
}

#[test]
fn app_reports_the_first_unreadable_entry() {
    let r = App::new(
        "pods".to_string(),
        vec![file("a", 1), Entry::Unreadable, Entry::Unreadable],
        vec![Entry::Unreadable],
    );
    assert_eq!(r.unwrap_err(), LoadError { used: false, index: 1 });
    let mut app = app();
    let r = app.refresh_items(vec![file("b", 1)], vec![Entry::Dir, file("c", 2), Entry::Unreadable]);
    assert_eq!(r.unwrap_err(), LoadError { used: true, index: 2 });
    assert_eq!(names(&app.items), vec!["b"]);
    assert_eq!(names(&app.used_items), vec!["c"]);
}

#[test]
fn refresh_forgets_what_was_there() {
    let mut app = app();
    app.refresh_items(vec![file("z", 1), file("y", 2)], vec![]).unwrap();
    assert_eq!(names(&app.items), vec!["y", "z"]);
    assert!(app.used_items.is_empty());
    app.refresh_items(vec![file("y", 2), file("z", 1)], vec![]).unwrap();
    assert_eq!(names(&app.items), vec!["y", "z"]);
}

#[test]
fn all_items_lists_used_items_last() {
    let app = app();
    assert_eq!(names(&app.all_items()), vec!["Stick_0", "Stone_1", "Wood_2"]);
    assert_eq!(app.all_items()[2].id, Digest(3, 0, 0, 0));
}

#[test]
fn loading_sorts_both_lists() {
    let mut app = app();
    app.load_item(item("Axe_3", 4), false);
    app.load_item(item("Axe_4", 5), true);
    assert_eq!(names(&app.items), vec!["Axe_3", "Stick_0", "Stone_1"]);
    assert_eq!(names(&app.used_items), vec!["Axe_4", "Wood_2"]);
}

#[test]
fn sorting_is_stable() {
    let sorted = sort_by_name(vec![item("b", 1), item("a", 2), item("b", 3), item("a", 4)]);
    let ids: Vec<u64> = sorted.iter().map(|i| i.id.0).collect();
    assert_eq!(ids, vec![2, 4, 1, 3]);
}

#[test]
fn items_take_their_id_from_the_first_statement() {
    let id = Digest(7, 8, 9, 10);
    let statements = vec![vec![Some(id), None], vec![None]];
    let i = Item::from_pod("n".to_string(), &statements, 5, "p/n".to_string()).unwrap();
    assert_eq!((i.name.as_str(), i.id, i.crafted_item, i.path.as_str()), ("n", id, 5, "p/n"));
    assert!(Item::from_pod("n".to_string(), &vec![], 5, "p".to_string()).is_none());
    assert!(Item::from_pod("n".to_string(), &vec![vec![]], 5, "p".to_string()).is_none());
    assert!(Item::from_pod("n".to_string(), &vec![vec![None]], 5, "p".to_string()).is_none());
}

#[test]
fn select_resets_for_another_process() {
    let mut c = Crafting::default();
    assert!(c.selected_verb.is_none() && c.selected_process.is_none());
    c.selected_verb = Some(Verb::Gather);
    c.select(Process::Stone);
    assert!(c.selected_process == Some(Process::Stone));
    c.place_input(0, 4);
    c.output_filename = "out".to_string();
    c.commit_result = Some(Ok("path".to_string()));
    c.select(Process::Stone);
    assert_eq!(c.input_items.get(&0), Some(&4));
    assert_eq!(c.output_filename, "out");
    c.select(Process::Wood);
    assert_eq!(c.selected_verb, Some(Verb::Gather));
    assert!(c.selected_process == Some(Process::Wood));
    assert!(c.input_items.is_empty());
    assert_eq!(c.output_filename, "");
    assert!(c.commit_result.is_none());
    c.select(Process::Mock("Tomato"));
    c.place_input(1, 1);
    c.select(Process::Mock("Tomato"));
    assert_eq!(c.input_items.len(), 1);
    c.select(Process::Mock("Destroy"));
    assert!(c.input_items.is_empty());
}

#[test]
fn panels_show_the_choices() {
    let mut app = app();
    let verb = app.verb_panel().unwrap();
    assert_eq!((verb.heading, verb.selected_text), ("Craft", "Axe"));
    assert!(verb.choices == Some(vec![Process::Axe, Process::BronzeAxe]));
    let panel = app.process_panel().unwrap();
    assert_eq!(panel.description, "Axe.  Easy to craft.");
    assert_eq!(panel.sections.len(), 1);
    assert_eq!(panel.sections[0].title, "    Ingredients:");
    assert_eq!(panel.sections[0].labels, vec!["        Stick:", "        Stone:"]);
    assert_eq!(panel.outputs, &["Axe"]);
    assert!(panel.predicate.starts_with("IsAxe(item, private:"));

    app.crafting.selected_verb = Some(Verb::Produce);
    app.choose_process(Some(Process::Mock("Tomato")));
    let panel = app.process_panel().unwrap();
    let titles: Vec<&str> = panel.sections.iter().map(|s| s.title.as_str()).collect();
    assert_eq!(titles, vec!["    Production Facility:", "    Ingredients:"]);

    app.crafting.selected_verb = Some(Verb::Destroy);
    assert!(app.verb_panel().unwrap().choices.is_none());
    app.choose_process(None);
    assert!(app.crafting.selected_process == Some(Process::Mock("Tomato")));

    app.crafting.selected_verb = None;
    assert!(app.verb_panel().is_none());
    assert!(app.process_panel().is_none());
}

#[test]
fn slots_show_their_items() {
    let mut app = app();
    assert_eq!(app.slot_item_name(0), None);
    app.crafting.place_input(0, 2);
    assert_eq!(app.slot_item_name(0), Some("Wood_2".to_string()));
    app.crafting.place_input(0, 1);
    assert_eq!(app.slot_item_name(0), Some("Stone_1".to_string()));
    assert_eq!(app.slot_item_name(1), None);
}

#[test]
fn buttons_follow_the_mode() {
    let mut app = app();
    assert_eq!(app.buttons(), vec![Button::CraftAndCommit]);
    app.dev_mode = true;
    assert_eq!(app.buttons(), vec![Button::Commit, Button::Craft]);
    assert_eq!(Button::Commit.label(), "Commit");
    assert_eq!(Button::Craft.label(), "Craft (without Commit)");
    assert_eq!(Button::CraftAndCommit.label(), "Execute process");
}

#[test]
fn nothing_is_crafted_without_a_filename() {
    let mut app = app();
    assert!(app.press(Button::Craft).is_none());
    assert!(matches!(app.crafting.craft_result, Some(Err(CraftError::NoFilename))));
    assert!(app.crafting.commit_result.is_none());
    assert!(app.press(Button::Commit).is_none());
    assert!(matches!(app.crafting.commit_result, Some(Err(CraftError::NoFilename))));
    assert_eq!(CraftError::NoFilename.message(), "Please enter a filename.");
    assert_eq!(CraftError::Failed("why".to_string()).message(), "why");
}

#[test]
fn nothing_is_crafted_without_all_inputs() {
    let mut app = app();
    app.name_output();
    assert_eq!(app.crafting.output_filename, "Axe_3");
    app.crafting.place_input(1, 0);
    assert!(app.press(Button::CraftAndCommit).is_none());
    match &app.crafting.craft_result {
        Some(Err(e)) => assert_eq!(e.message(), "Please provide all inputs."),
        other => panic!("unexpected {:?}", other),
    }
    assert!(app.crafting.commit_result.is_none());
}

#[test]
fn complete_processes_are_crafted() {
    let mut app = app();
    app.name_output();
    app.crafting.place_input(0, 0);
    app.crafting.place_input(1, 2);
    let path = format!("pods{}Axe_3", std::path::MAIN_SEPARATOR);
    match app.press(Button::Craft) {
        Some(Request::Craft { pods_path, recipe, output, input_paths }) => {
            assert_eq!((pods_path.as_str(), output.as_str()), ("pods", path.as_str()));
            assert_eq!(recipe, Recipe::Bronze);
            assert_eq!(input_paths, vec!["pods/Stick_0", "pods/Wood_2"]);
        }
        other => panic!("unexpected {:?}", other),
    }
    assert!(matches!(app.press(Button::CraftAndCommit), Some(Request::CraftAndCommit { .. })));
    match app.press(Button::Commit) {
        Some(Request::Commit { pods_path, input }) => {
            assert_eq!((pods_path.as_str(), input.as_str()), ("pods", path.as_str()));
        }
        other => panic!("unexpected {:?}", other),
    }
    assert!(app.crafting.craft_result.is_none() && app.crafting.commit_result.is_none());
}

#[test]
fn gathering_needs_no_input() {
    let mut app = app();
    for process in Verb::Gather.processes() {
        app.choose_process(Some(process));
        app.name_output();
        match app.press(Button::CraftAndCommit) {
            Some(Request::CraftAndCommit { input_paths, .. }) => assert!(input_paths.is_empty()),
            other => panic!("unexpected {:?}", other),
        }
    }
}

#[test]
fn mock_processes_are_not_executed() {
    let mut app = app();
    app.choose_process(Some(Process::Mock("Refine-Uranium")));
    app.name_output();
    assert_eq!(app.crafting.output_filename, "Mock(\"Refine-Uranium\")_3");
    app.crafting.place_input(0, 1);
    assert!(app.press(Button::Craft).is_none());
    assert!(app.press(Button::CraftAndCommit).is_none());
    assert!(app.crafting.craft_result.is_none());
    assert!(matches!(app.press(Button::Commit), Some(Request::Commit { .. })));
}

#[test]
fn file_names_match_the_debug_form() {
    for verb in Verb::list() {
        for process in verb.processes() {
            assert_eq!(process.output_filename(120), format!("{:?}_{}", process, 120));
        }
    }
}

#[test]
fn task_ends_on_exit() {
    assert_eq!(task_action(Some(&Request::Exit)), TaskAction::Stop);
    let commit = Request::Commit { pods_path: "p".to_string(), input: "i".to_string() };
    assert_eq!(task_action(Some(&commit)), TaskAction::Handle);
    assert_eq!(task_action(None), TaskAction::ReportAndStop);
}

#[test]
fn requests_before_exit_are_answered() {
    let commit = |n: usize| Request::Commit { pods_path: "p".to_string(), input: n.to_string() };
    let received = [commit(0), commit(1), Request::Exit, commit(3), Request::Exit];
    let mut responses: Vec<String> = vec![];
    for request in &received {
        match task_action(Some(request)) {
            TaskAction::Handle => responses.push(format!("{:?}", request)),
            _ => break,
        }
    }
    assert_eq!(responses, vec![format!("{:?}", commit(0)), format!("{:?}", commit(1))]);
}

#[test]
fn paths_are_joined_as_paths() {
    let mut app = app();
    for dir in ["", "/", "pods", "pods/", "/home/u/pods", "a b", ".", "C:", "C:\\pods"] {
        for file in ["Axe_3", "/etc/Axe_3", "Mock(\"Iron\")_0", "x/y", "..", "C:x", "\\x"] {
            let expected = std::path::Path::new(dir).join(file);
            app.pods_path = dir.to_string();
            app.crafting.output_filename = file.to_string();
            assert_eq!(app.output_path(), expected.to_str().unwrap());
            match app.press(Button::Commit) {
                Some(Request::Commit { pods_path, input }) => {
                    assert_eq!(pods_path, dir);
                    assert_eq!(input, expected.to_str().unwrap());
                }
                other => panic!("unexpected {:?}", other),
            }
        }
    }
}

#[test]
fn requests_hold_the_path_that_is_given() {
    let mut app = app();
    app.choose_process(Some(Process::Wood));
    app.name_output();
    match app.press_with(Button::Craft, "elsewhere".to_string()) {
        Some(Request::Craft { pods_path, output, .. }) => {
            assert_eq!((pods_path.as_str(), output.as_str()), ("pods", "elsewhere"));
        }
        other => panic!("unexpected {:?}", other),
    }
    let all = Clicks { craft: true, commit: true, craft_and_commit: true };
    let given = app.press_clicked_with(all, app.output_path());
    assert_eq!(format!("{:?}", given), format!("{:?}", app.press_clicked(all)));
}

#[test]
fn nothing_is_shown_without_a_verb() {
    let mut app = app();
    assert!(app.process_panel().is_some());
    app.crafting.selected_verb = None;
    app.crafting.selected_process = Some(Process::Mock("of no verb"));
    assert!(app.process_panel().is_none());
}

#[test]
fn order_of_finding_does_not_matter() {
    let tag = |i: &Item| (i.name.clone(), i.id, i.path.clone());
    let placed = |name: &str, n: u64, place: usize| Item { crafted_item: place, ..item(name, n) };
    let first = sort_by_name(vec![placed("b", 1, 0), placed("c", 2, 1), placed("a", 3, 2)]);
    let second = sort_by_name(vec![placed("c", 2, 0), placed("a", 3, 1), placed("b", 1, 2)]);
    assert_eq!(names(&first), vec!["a", "b", "c"]);
    let first: Vec<_> = first.iter().map(tag).collect();
    let second: Vec<_> = second.iter().map(tag).collect();
    assert_eq!(first, second);
}

#[test]
fn texts_are_ordered_as_strings() {
    let words = ["", "a", "ab", "b", "B", "Z", "\u{e9}", "\u{ffff}", "\u{10000}", "a\u{e9}"];
    for a in words {
        for b in words {
            assert_eq!(is_text_le(a, b), a <= b);
        }
    }
}

#[test]
fn trimming_and_decimals() {
    for s in ["", " ", "\n\t x ", "x", "\u{a0}\u{3000}y\u{2003}", "\u{200b}z", "\u{85}\u{1680}"] {
        assert_eq!(trim_start(s), s.trim_start());
    }
    for n in [0, 9, 10, 99, 100, 1234567890, usize::MAX] {
        assert_eq!(to_decimal(n), n.to_string());
    }
}

#[test]
fn slots_out_of_range_are_found() {
    let mut app = app();
    assert!(app.can_press(Button::Craft));
    app.name_output();
    assert!(app.can_press(Button::Craft));
    app.crafting.place_input(1, 9);
    assert!(app.can_show_slot(0) && !app.can_show_slot(1));
    // The first slot is empty, so the second is not looked at.
    assert!(app.can_press(Button::Craft));
    app.crafting.place_input(0, 0);
    assert!(!app.can_press(Button::Craft) && !app.can_press(Button::CraftAndCommit));
    assert!(app.can_press(Button::Commit));
    app.choose_process(Some(Process::Mock("Iron")));
    assert!(!app.can_press(Button::Commit));
}

#[test]
fn pressing_again_asks_the_same() {
    let mut app = app();
    app.choose_process(Some(Process::Stick));
    app.name_output();
    let first = format!("{:?}", app.press(Button::Craft));
    let second = format!("{:?}", app.press(Button::Craft));
    assert_eq!(first, second);
    assert!(first.contains("Tin"));
}

#[test]
fn file_names_differ() {
    let mut app = app();
    let mut seen: Vec<String> = vec![];
    for verb in Verb::list() {
        for process in verb.processes() {
            for count in [0, 1, 10, 11] {
                let name = process.output_filename(count);
                assert!(!name.is_empty());
                app.crafting.output_filename = name;
                let path = app.output_path();
                assert!(!seen.contains(&path));
                seen.push(path);
            }
        }
    }
}

#[test]
fn clicks_are_followed_in_order() {
    let mut app = app();
    app.choose_process(Some(Process::Wood));
    app.name_output();
    let all = Clicks { craft: true, commit: true, craft_and_commit: true };
    let requests = app.press_clicked(all);
    assert_eq!(requests.len(), 3);
    assert!(matches!(requests[0], Request::Craft { .. }));
    assert!(matches!(requests[1], Request::Commit { .. }));
    assert!(matches!(requests[2], Request::CraftAndCommit { .. }));
    app.choose_process(Some(Process::Axe));
    app.name_output();
    let requests = app.press_clicked(all);
    assert_eq!(requests.len(), 1);
    assert!(matches!(requests[0], Request::Commit { .. }));
    assert!(matches!(app.shown_result(Button::Craft), Some(Err(CraftError::MissingInputs))));
    assert!(app.shown_result(Button::Commit).is_none());
    assert!(app.shown_result(Button::CraftAndCommit).is_none());
    let none = Clicks { craft: false, commit: false, craft_and_commit: false };
    assert!(app.press_clicked(none).is_empty());
}
