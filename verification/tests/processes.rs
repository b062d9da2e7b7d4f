use pod_craft::process::{Process, Recipe};
use pod_craft::verb::Verb;

#[test]
fn names_of_processes() {
    assert_eq!(Process::Stone.as_str(), "Stone");
    assert_eq!(Process::Stick.as_str(), "Stick");
    assert_eq!(Process::Wood.as_str(), "Wood");
    assert_eq!(Process::Axe.as_str(), "Axe");
    assert_eq!(Process::BronzeAxe.as_str(), "BronzeAxe");
    assert_eq!(Process::Mock("Disassemble-H2O").as_str(), "H2O");
    assert_eq!(Process::Mock("Refine-Uranium").as_str(), "Uranium");
    assert_eq!(Process::Mock("Steel Sword").as_str(), "Steel Sword");
    assert_eq!(Process::Mock("anything").as_str(), "anything");
}

#[test]
fn recipes_of_processes() {
    assert_eq!(Process::Stone.recipe(), Some(Recipe::Copper));
    assert_eq!(Process::Stick.recipe(), Some(Recipe::Tin));
    assert_eq!(Process::Wood.recipe(), Some(Recipe::Wood));
    assert_eq!(Process::Axe.recipe(), Some(Recipe::Bronze));
    assert_eq!(Process::BronzeAxe.recipe(), Some(Recipe::BronzeAxe));
    assert_eq!(Process::Mock("Stone").recipe(), None);
}

#[test]
fn data_of_processes() {
    let stone = Process::Stone.data();
    assert_eq!(stone.description, "Stone.  Hard to find.");
    assert_eq!(stone.outputs, &["Stone"]);
    assert!(stone.input_ingredients.is_empty());
    assert!(stone.predicate.contains(
        "0x3493488bc23af15ac5fabe38c3cb6c4b66adb57e3898adf201ae50cc57183f65"
    ));
    assert!(stone.predicate.ends_with("    Pow(3, ingredients, work)\n)"));
    let mock = Process::Mock("Stone").data();
    assert_eq!(mock.predicate, stone.predicate);
    let sword = Process::Mock("Steel Sword").data();
    assert_eq!(sword.input_facilities, &["Forge"]);
    assert!(sword.input_tools.is_empty());
    assert_eq!(sword.input_ingredients, &["Steel", "Steel", "Wood"]);
    assert_eq!(sword.outputs, &["Steel Sword"]);
    let water = Process::Mock("Disassemble-H2O").data();
    assert_eq!(water.input_ingredients, &["H2O"]);
    assert_eq!(water.outputs, &["H", "H", "O"]);
    let destroy = Process::Mock("Destroy").data();
    assert_eq!(destroy.input_ingredients, &["Item to destroy"]);
    assert!(destroy.outputs.is_empty());
    let tomato = Process::Mock("Tomato").data();
    assert_eq!(tomato.input_facilities, &["Farm level 1"]);
    assert_eq!(tomato.input_ingredients, &["Tomato Seed"]);
    let uranium = Process::Mock("Refine-Uranium").data();
    assert_eq!(uranium.outputs, &["Refined Uranium"]);
    assert_eq!(Process::Stick.data().description, "Stick.  Easily available.");
    assert_eq!(Process::Wood.data().outputs, &["Wood"]);
    assert_eq!(Process::Axe.data().input_ingredients, &["Stick", "Stone"]);
    assert_eq!(Process::BronzeAxe.data().outputs, &["Bronze Axe"]);
    assert_eq!(Process::Stick.data().predicate_text(), Process::Stick.data().predicate.trim_start());
}

#[test]
fn unknown_mocks_have_no_data() {
    assert!(!Process::Mock("Iron").has_data());
    assert!(Process::Mock("Destroy").has_data());
    assert!(Process::Axe.has_data());
    assert!(Process::Mock("Stone") != Process::Stone);
}

#[test]
fn verbs_are_listed_in_order() {
    let list = Verb::list();
    let names: Vec<&str> = list.iter().map(|v| v.as_str()).collect();
    assert_eq!(
        names,
        vec!["Gather", "Mine", "Refine", "Craft", "Produce", "Disassemble", "Destroy"]
    );
    for verb in list {
        assert_eq!(verb.as_str(), format!("{:?}", verb));
    }
}

#[test]
fn verbs_offer_processes_with_data() {
    assert!(Verb::Gather.processes() == vec![Process::Stone, Process::Stick, Process::Wood]);
    assert!(Verb::Mine.processes() == vec![Process::Mock("Stone")]);
    assert!(Verb::Craft.processes() == vec![Process::Axe, Process::BronzeAxe]);
    assert!(Verb::Produce.processes() == vec![Process::Mock("Tomato"), Process::Mock("Steel Sword")]);
    for verb in Verb::list() {
        for process in verb.processes() {
            assert!(process.has_data());
        }
    }
}

#[test]
fn only_destroy_hides_its_process() {
    for verb in Verb::list() {
        assert_eq!(verb.hide_process(), verb == Verb::Destroy);
        assert_eq!(verb.default_process().is_some(), verb == Verb::Destroy);
    }
    assert!(Verb::Destroy.default_process() == Some(Process::Mock("Destroy")));
    assert!(Verb::Destroy.processes() == vec![Process::Mock("Destroy")]);
}
