//! The catalogue of processes: what each needs and makes, and the predicate that describes it.
use vstd::prelude::*;

verus! {

/// What a process needs and makes, and the predicate that describes it.
#[derive(Debug, Default)]
pub struct ProcessData {
    pub description: &'static str,
    pub predicate: &'static str,
    pub input_facilities: &'static [&'static str],
    pub input_tools: &'static [&'static str],
    pub input_ingredients: &'static [&'static str],
    pub outputs: &'static [&'static str],
}

/// What a [`ProcessData`] stands for.
#[verifier::ext_equal]
pub struct ProcessDataView {
    pub description: Seq<char>,
    pub predicate: Seq<char>,
    pub input_facilities: Seq<Seq<char>>,
    pub input_tools: Seq<Seq<char>>,
    pub input_ingredients: Seq<Seq<char>>,
    pub outputs: Seq<Seq<char>>,
}

/// The texts of a list.
pub open spec fn texts(list: Seq<&'static str>) -> Seq<Seq<char>> {
    list.map_values(|s: &'static str| s@)
}

impl View for ProcessData {
    type V = ProcessDataView;

    open spec fn view(&self) -> ProcessDataView {
        ProcessDataView {
            description: self.description@,
            predicate: self.predicate@,
            input_facilities: texts(self.input_facilities@),
            input_tools: texts(self.input_tools@),
            input_ingredients: texts(self.input_ingredients@),
            outputs: texts(self.outputs@),
        }
    }
}

/// The predicate of a stone.
pub const STONE_PREDICATE: &'static str = r#"
use intro Pow(count, input, output) from 0x3493488bc23af15ac5fabe38c3cb6c4b66adb57e3898adf201ae50cc57183f65

IsStone(item, private: ingredients, inputs, key, work) = AND(
    ItemDef(item, ingredients, inputs, key, work)
    Equal(inputs, {})
    DictContains(ingredients, "blueprint", "stone")
    Pow(3, ingredients, work)
)"#;

/// The predicate of a stick.
pub const STICK_PREDICATE: &'static str = r#"
IsStick(item, private: ingredients, inputs, key, work) = AND(
    ItemDef(item, ingredients, inputs, key, work)
    Equal(inputs, {})
    DictContains(ingredients, "blueprint", "stick")
)"#;

/// The predicate of wood.
pub const WOOD_PREDICATE: &'static str = r#"
IsWood(item, private: ingredients, inputs, key, work) = AND(
    ItemDef(item, ingredients, inputs, key, work)
    Equal(inputs, {})
    DictContains(ingredients, "blueprint", "wood")
)"#;

/// The predicate of an axe.
pub const AXE_PREDICATE: &'static str = r#"
IsAxe(item, private: ingredients, inputs, key, work) = AND(
    ItemDef(item, ingredients, inputs, key, work)
    DictContains(ingredients, "blueprint", "bronze")

    // 2 ingredients
    SetInsert(s1, {}, tin)
    SetInsert(inputs, s1, copper)

    // prove the ingredients are correct.
    IsStick(stick)
    IsStone(stone)
)"#;

/// The predicate of a bronze axe.
pub const BRONZE_AXE_PREDICATE: &'static str = r#"
IsBronzeAxe(item, private: ingredients, inputs, key, work) = AND(
    ItemDef(item, ingredients, inputs, key, work)
    DictContains(ingredients, "blueprint", "bronze-axe")

    // 2 ingredients
    SetInsert(s1, {}, wood)
    SetInsert(inputs, s1, bronze)

    // prove the ingredients are correct.
    IsWood(wood)
    IsBronze(bronze)
)"#;

/// The predicate of the destruction of an item.
pub const DESTROY_PREDICATE: &'static str = r#"
Destroy(void, private: ingredients, inputs, key, work) = AND(
    ItemDef(void, ingredients, inputs, key, work)
    SetInsert(inputs, {}, item)
)"#;

/// The predicate of a tomato.
pub const TOMATO_PREDICATE: &'static str = r#"
IsTomato(item, private: ingredients, inputs, key, work) = AND(
    ItemDef(item, ingredients, inputs, key, work)
    DictContains(ingredients, "blueprint", "tomato")

    SetInsert(s1, {}, tomato_farm)
    SetInsert(inputs, s1, tomato_seed)
    IsFarmLevel1(tomato_farm)
    IsTomatoSeed(tomato_seed)
)"#;

/// The predicate of a steel sword.
pub const STEEL_SWORD_PREDICATE: &'static str = r#"
IsSteelSword(item, private: ingredients, inputs, key, work) = AND(
    ItemDef(item, ingredients, inputs, key, work)
    DictContains(ingredients, "blueprint", "steel sword")

    SetInsert(s1, {}, forge)
    SetInsert(s2, s1, steel1)
    SetInsert(s3, s2, steel2)
    SetInsert(inputs, s3, wood)
    IsForge(forge)
    IsSteel(steel1)
    IsSteel(steel2)
    IsWood(wood)
)"#;

/// The predicate of the disassembly of water.
pub const DIS_H2O_PREDICATE: &'static str = r#"
DisassembleH2O(items, private: ingredients, inputs, key, work) = AND(
    ItemDef(items, ingredients, inputs, key, work)
    DictContains(ingredients, "blueprint_0", "H")
    DictContains(ingredients, "blueprint_1", "H")
    DictContains(ingredients, "blueprint_2", "O")

    SetInsert(inputs, {}, h2o)
    IsH2O(h2o)
)"#;

/// The predicate of refined uranium.
pub const REFINED_URANIUM_PREDICATE: &'static str = r#"
RefinedUranium(items, private: ingredients, inputs, key, work) = AND(
    ItemDef(item, ingredients, inputs, key, work)
    DictContains(ingredients, "blueprint", "refined_uranium")

    SetInsert(inputs, {}, uranium)
    IsUranium(uranium)
    Pow(100, ingredients, work)
)"#;

/// What is known of a stone.
pub open spec fn stone_data() -> ProcessDataView {
    ProcessDataView {
        description: "Stone.  Hard to find."@,
        predicate: STONE_PREDICATE@,
        input_facilities: seq![],
        input_tools: seq![],
        input_ingredients: seq![],
        outputs: seq!["Stone"@],
    }
}

/// What is known of a stick.
pub open spec fn stick_data() -> ProcessDataView {
    ProcessDataView {
        description: "Stick.  Easily available."@,
        predicate: STICK_PREDICATE@,
        input_facilities: seq![],
        input_tools: seq![],
        input_ingredients: seq![],
        outputs: seq!["Stick"@],
    }
}

/// What is known of wood.
pub open spec fn wood_data() -> ProcessDataView {
    ProcessDataView {
        description: "Wood.  Easily available."@,
        predicate: WOOD_PREDICATE@,
        input_facilities: seq![],
        input_tools: seq![],
        input_ingredients: seq![],
        outputs: seq!["Wood"@],
    }
}

/// What is known of an axe.
pub open spec fn axe_data() -> ProcessDataView {
    ProcessDataView {
        description: "Axe.  Easy to craft."@,
        predicate: AXE_PREDICATE@,
        input_facilities: seq![],
        input_tools: seq![],
        input_ingredients: seq!["Stick"@, "Stone"@],
        outputs: seq!["Axe"@],
    }
}

/// What is known of a bronze axe.
pub open spec fn bronze_axe_data() -> ProcessDataView {
    ProcessDataView {
        description: "Bronze Axe.  Easy to craft."@,
        predicate: BRONZE_AXE_PREDICATE@,
        input_facilities: seq![],
        input_tools: seq![],
        input_ingredients: seq!["Wood"@, "Bronze"@],
        outputs: seq!["Bronze Axe"@],
    }
}

/// What is known of the destruction of an item.
pub open spec fn destroy_data() -> ProcessDataView {
    ProcessDataView {
        description: "Destroy an object."@,
        predicate: DESTROY_PREDICATE@,
        input_facilities: seq![],
        input_tools: seq![],
        input_ingredients: seq!["Item to destroy"@],
        outputs: seq![],
    }
}

/// What is known of a tomato.
pub open spec fn tomato_data() -> ProcessDataView {
    ProcessDataView {
        description: "Produces a Tomato.  Requires farm level 1."@,
        predicate: TOMATO_PREDICATE@,
        input_facilities: seq!["Farm level 1"@],
        input_tools: seq![],
        input_ingredients: seq!["Tomato Seed"@],
        outputs: seq!["Tomato"@],
    }
}

/// What is known of a steel sword.
pub open spec fn steel_sword_data() -> ProcessDataView {
    ProcessDataView {
        description: "Produces a steel sword.  Requires a forge."@,
        predicate: STEEL_SWORD_PREDICATE@,
        input_facilities: seq!["Forge"@],
        input_tools: seq![],
        input_ingredients: seq!["Steel"@, "Steel"@, "Wood"@],
        outputs: seq!["Steel Sword"@],
    }
}

/// What is known of the disassembly of water.
pub open spec fn dis_h2o_data() -> ProcessDataView {
    ProcessDataView {
        description: "Disassemble H2O into 2xH and 1xO."@,
        predicate: DIS_H2O_PREDICATE@,
        input_facilities: seq![],
        input_tools: seq![],
        input_ingredients: seq!["H2O"@],
        outputs: seq!["H"@, "H"@, "O"@],
    }
}

/// What is known of refined uranium.
pub open spec fn refined_uranium_data() -> ProcessDataView {
    ProcessDataView {
        description: "Produces refined Uranium.  It takes about 30 minutes."@,
        predicate: REFINED_URANIUM_PREDICATE@,
        input_facilities: seq![],
        input_tools: seq![],
        input_ingredients: seq!["Uranium"@],
        outputs: seq!["Refined Uranium"@],
    }
}

/// The data of a stone.
pub(crate) fn stone() -> (r: &'static ProcessData)
    ensures
        r@ == stone_data(),
{
    let data: &'static ProcessData = &ProcessData {
        description: "Stone.  Hard to find.",
        predicate: STONE_PREDICATE,
        input_facilities: &[],
        input_tools: &[],
        input_ingredients: &[],
        outputs: &["Stone"],
    };
    assert(data@ =~~= stone_data());
    data
}

/// The data of a stick.
pub(crate) fn stick() -> (r: &'static ProcessData)
    ensures
        r@ == stick_data(),
{
    let data: &'static ProcessData = &ProcessData {
        description: "Stick.  Easily available.",
        predicate: STICK_PREDICATE,
        input_facilities: &[],
        input_tools: &[],
        input_ingredients: &[],
        outputs: &["Stick"],
    };
    assert(data@ =~~= stick_data());
    data
}

/// The data of wood.
pub(crate) fn wood() -> (r: &'static ProcessData)
    ensures
        r@ == wood_data(),
{
    let data: &'static ProcessData = &ProcessData {
        description: "Wood.  Easily available.",
        predicate: WOOD_PREDICATE,
        input_facilities: &[],
        input_tools: &[],
        input_ingredients: &[],
        outputs: &["Wood"],
    };
    assert(data@ =~~= wood_data());
    data
}

/// The data of an axe.
pub(crate) fn axe() -> (r: &'static ProcessData)
    ensures
        r@ == axe_data(),
{
    let data: &'static ProcessData = &ProcessData {
        description: "Axe.  Easy to craft.",
        predicate: AXE_PREDICATE,
        input_facilities: &[],
        input_tools: &[],
        input_ingredients: &["Stick", "Stone"],
        outputs: &["Axe"],
    };
    assert(data@ =~~= axe_data());
    data
}

/// The data of a bronze axe.
pub(crate) fn bronze_axe() -> (r: &'static ProcessData)
    ensures
        r@ == bronze_axe_data(),
{
    let data: &'static ProcessData = &ProcessData {
        description: "Bronze Axe.  Easy to craft.",
        predicate: BRONZE_AXE_PREDICATE,
        input_facilities: &[],
        input_tools: &[],
        input_ingredients: &["Wood", "Bronze"],
        outputs: &["Bronze Axe"],
    };
    assert(data@ =~~= bronze_axe_data());
    data
}

/// The data of the destruction of an item.
pub(crate) fn destroy() -> (r: &'static ProcessData)
    ensures
        r@ == destroy_data(),
{
    let data: &'static ProcessData = &ProcessData {
        description: "Destroy an object.",
        predicate: DESTROY_PREDICATE,
        input_facilities: &[],
        input_tools: &[],
        input_ingredients: &["Item to destroy"],
        outputs: &[],
    };
    assert(data@ =~~= destroy_data());
    data
}

/// The data of a tomato.
pub(crate) fn tomato() -> (r: &'static ProcessData)
    ensures
        r@ == tomato_data(),
{
    let data: &'static ProcessData = &ProcessData {
        description: "Produces a Tomato.  Requires farm level 1.",
        predicate: TOMATO_PREDICATE,
        input_facilities: &["Farm level 1"],
        input_tools: &[],
        input_ingredients: &["Tomato Seed"],
        outputs: &["Tomato"],
    };
    assert(data@ =~~= tomato_data());
    data
}

/// The data of a steel sword.
pub(crate) fn steel_sword() -> (r: &'static ProcessData)
    ensures
        r@ == steel_sword_data(),
{
    let data: &'static ProcessData = &ProcessData {
        description: "Produces a steel sword.  Requires a forge.",
        predicate: STEEL_SWORD_PREDICATE,
        input_facilities: &["Forge"],
        input_tools: &[],
        input_ingredients: &["Steel", "Steel", "Wood"],
        outputs: &["Steel Sword"],
    };
    assert(data@ =~~= steel_sword_data());
    data
}

/// The data of the disassembly of water.
pub(crate) fn dis_h2o() -> (r: &'static ProcessData)
    ensures
        r@ == dis_h2o_data(),
{
    let data: &'static ProcessData = &ProcessData {
        description: "Disassemble H2O into 2xH and 1xO.",
        predicate: DIS_H2O_PREDICATE,
        input_facilities: &[],
        input_tools: &[],
        input_ingredients: &["H2O"],
        outputs: &["H", "H", "O"],
    };
    assert(data@ =~~= dis_h2o_data());
    data
}

/// The data of refined uranium.
pub(crate) fn refined_uranium() -> (r: &'static ProcessData)
    ensures
        r@ == refined_uranium_data(),
{
    let data: &'static ProcessData = &ProcessData {
        description: "Produces refined Uranium.  It takes about 30 minutes.",
        predicate: REFINED_URANIUM_PREDICATE,
        input_facilities: &[],
        input_tools: &[],
        input_ingredients: &["Uranium"],
        outputs: &["Refined Uranium"],
    };
    assert(data@ =~~= refined_uranium_data());
    data
}

/// What is said of the data of a process is said of its own texts, each in its place.
pub proof fn law_data_stand_for_their_texts(data: ProcessData, i: int)
    ensures
        data@.description == data.description@,
        data@.predicate == data.predicate@,
        data@.input_facilities.len() == data.input_facilities@.len(),
        0 <= i < data.input_facilities@.len() ==> data@.input_facilities[i]
            == data.input_facilities@[i]@,
        data@.input_tools.len() == data.input_tools@.len(),
        0 <= i < data.input_tools@.len() ==> data@.input_tools[i] == data.input_tools@[i]@,
        data@.input_ingredients.len() == data.input_ingredients@.len(),
        0 <= i < data.input_ingredients@.len() ==> data@.input_ingredients[i]
            == data.input_ingredients@[i]@,
        data@.outputs.len() == data.outputs@.len(),
        0 <= i < data.outputs@.len() ==> data@.outputs[i] == data.outputs@[i]@,
{
}

} // verus!
