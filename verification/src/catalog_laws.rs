//! What holds of the catalogue as a whole: which verb offers which processes, how processes are
//! named, and what their descriptions and predicates speak of.
use vstd::prelude::*;
use vstd::string::*;
use crate::catalog::{
    AXE_PREDICATE, BRONZE_AXE_PREDICATE, DESTROY_PREDICATE, DIS_H2O_PREDICATE,
    REFINED_URANIUM_PREDICATE, STEEL_SWORD_PREDICATE, STICK_PREDICATE, STONE_PREDICATE,
    TOMATO_PREDICATE, WOOD_PREDICATE,
};
use crate::panel::file_stem;
use crate::process::{data_of, has_data, recipe_of, shown_name, ProcessView};
use crate::verb::{offered, verb_name, Verb};

verus! {

/// The kind of work that a process is, by what it needs and makes: without a product it destroys,
/// with more products than ingredients it takes apart, with a facility it produces. Without
/// ingredients it gathers or, where nothing can be executed, mines. What makes the refined form of
/// its ingredient refines, and anything else crafts.
pub open spec fn kind_of(process: ProcessView) -> Verb {
    let data = data_of(process);
    if data.outputs.len() == 0 {
        Verb::Destroy
    } else if data.input_facilities.len() > 0 {
        Verb::Produce
    } else if data.input_ingredients.len() == 0 {
        if recipe_of(process) is Some {
            Verb::Gather
        } else {
            Verb::Mine
        }
    } else if data.outputs.len() > data.input_ingredients.len() {
        Verb::Disassemble
    } else if data.outputs[0] == "Refined "@ + data.input_ingredients[0] {
        Verb::Refine
    } else {
        Verb::Craft
    }
}

/// The names of the mock processes that have data differ from each other.
proof fn lemma_mock_names()
    ensures
        "Destroy"@.len() == 7,
        "Tomato"@.len() == 6,
        "Steel Sword"@.len() == 11,
        "Disassemble-H2O"@.len() == 15,
        "Refine-Uranium"@.len() == 14,
        "Stone"@.len() == 5,
{
    reveal_strlit("Destroy");
    reveal_strlit("Tomato");
    reveal_strlit("Steel Sword");
    reveal_strlit("Disassemble-H2O");
    reveal_strlit("Refine-Uranium");
    reveal_strlit("Stone");
}

/// Only uranium is refined.
proof fn lemma_refined()
    ensures
        "Refined Uranium"@ == "Refined "@ + "Uranium"@,
        "Axe"@ != "Refined "@ + "Stick"@,
        "Bronze Axe"@ != "Refined "@ + "Wood"@,
{
    reveal_strlit("Refined ");
    reveal_strlit("Refined Uranium");
    reveal_strlit("Uranium");
    reveal_strlit("Axe");
    reveal_strlit("Stick");
    reveal_strlit("Bronze Axe");
    reveal_strlit("Wood");
    assert("Refined Uranium"@ =~= "Refined "@ + "Uranium"@);
    assert("Axe"@.len() == 3 && "Bronze Axe"@.len() == 10 && ("Refined "@ + "Stick"@).len() == 13
        && ("Refined "@ + "Wood"@).len() == 12);
}

/// A verb offers the processes of its own kind, all of them and no others; a process without data
/// is offered by none.
pub proof fn law_verbs_offer_their_kind(verb: Verb, process: ProcessView)
    ensures
        offered(verb).contains(process) <==> has_data(process) && kind_of(process) == verb,
{
    lemma_mock_names();
    lemma_refined();
    let list = offered(verb);
    assert(list.len() > 0);
    if has_data(process) && kind_of(process) == verb {
        assert(process == list[0] || list.len() > 1 && process == list[1] || list.len() > 2
            && process == list[2]);
    }
}

/// What is refined is uranium, and what is taken apart is water: nothing else is offered under these
/// verbs.
pub proof fn law_refining_and_taking_apart(process: ProcessView)
    ensures
        offered(Verb::Refine).contains(process) ==> data_of(process).outputs
            == seq!["Refined Uranium"@],
        offered(Verb::Disassemble).contains(process) ==> data_of(process).input_ingredients
            == seq!["H2O"@] && data_of(process).outputs == seq!["H"@, "H"@, "O"@],
        offered(Verb::Refine).len() == 1,
        offered(Verb::Disassemble).len() == 1,
{
    lemma_mock_names();
}

/// The rank of a process among those of its verb: what can be executed ranks in the order in which
/// it builds on the rest, a mock by the number of its ingredients.
pub open spec fn rank_of(process: ProcessView) -> int {
    match process {
        ProcessView::Stone => 0,
        ProcessView::Stick => 1,
        ProcessView::Wood => 2,
        ProcessView::Axe => 3,
        ProcessView::BronzeAxe => 4,
        ProcessView::Mock(_) => data_of(process).input_ingredients.len() as int,
    }
}

/// What a verb offers ascends in rank.
pub proof fn law_offers_ascend(verb: Verb, i: int, j: int)
    requires
        0 <= i < j < offered(verb).len(),
    ensures
        rank_of(offered(verb)[i]) < rank_of(offered(verb)[j]),
{
    lemma_mock_names();
}

/// A mock process whose name is that of its verb, a hyphen and a rest is shown by the rest, any
/// other by its name. A process that can be executed is shown as it is named in files.
pub proof fn law_shown_names(process: ProcessView, verb: Verb, rest: Seq<char>)
    ensures
        !(process is Mock) ==> shown_name(process) == file_stem(process),
        process is Mock && offered(verb).contains(process) && process->Mock_0 == verb_name(verb)
            + "-"@ + rest ==> shown_name(process) == rest,
        process is Mock && shown_name(process) != process->Mock_0 ==> offered(
            kind_of(process),
        ).contains(process) && process->Mock_0 == verb_name(kind_of(process)) + "-"@ + shown_name(
            process,
        ),
{
    lemma_mock_names();
    lemma_refined();
    law_verbs_offer_their_kind(verb, process);
    law_verbs_offer_their_kind(kind_of(process), process);
    reveal_strlit("-");
    reveal_strlit("Gather");
    reveal_strlit("Mine");
    reveal_strlit("Refine");
    reveal_strlit("Craft");
    reveal_strlit("Produce");
    reveal_strlit("Disassemble");
    reveal_strlit("Destroy");
    reveal_strlit("Tomato");
    reveal_strlit("Steel Sword");
    reveal_strlit("Stone");
    reveal_strlit("Refine-Uranium");
    reveal_strlit("Disassemble-H2O");
    reveal_strlit("Uranium");
    reveal_strlit("H2O");
    assert("Refine-Uranium"@ =~= "Refine"@ + "-"@ + "Uranium"@);
    assert("Disassemble-H2O"@ =~= "Disassemble"@ + "-"@ + "H2O"@);
    match process {
        ProcessView::Mock(name) => {
            let lead = verb_name(verb) + "-"@;
            if offered(verb).contains(process) && name == lead + rest {
                assert(name.skip(lead.len() as int) =~= rest);
                assert(name.len() == lead.len() + rest.len());
                assert(name[verb_name(verb).len() as int] == '-');
                if name == "Refine-Uranium"@ {
                    assert(rest =~= "Uranium"@);
                } else if name == "Disassemble-H2O"@ {
                    assert(rest =~= "H2O"@);
                } else if name == "Steel Sword"@ {
                    assert("Steel Sword"@[7] == 'w');
                }
            }
        },
        _ => {},
    }
}

/// A text without its blanks.
pub open spec fn without_blanks(text: Seq<char>) -> Seq<char>
    decreases text.len(),
{
    if text.len() == 0 {
        Seq::empty()
    } else if text.last() == ' ' {
        without_blanks(text.drop_last())
    } else {
        without_blanks(text.drop_last()).push(text.last())
    }
}

/// A text without blanks stays as it is.
proof fn lemma_no_blanks(text: Seq<char>)
    requires
        forall|i: int| 0 <= i < text.len() ==> #[trigger] text[i] != ' ',
    ensures
        without_blanks(text) == text,
    decreases text.len(),
{
    if text.len() > 0 {
        let init = text.drop_last();
        assert forall|i: int| 0 <= i < init.len() implies #[trigger] init[i] != ' ' by {
            assert(init[i] == text[i]);
        }
        lemma_no_blanks(init);
        assert(text =~= init.push(text.last()));
    }
}

/// Two words are put together.
proof fn lemma_two_words(a: Seq<char>, b: Seq<char>)
    requires
        forall|i: int| 0 <= i < a.len() ==> #[trigger] a[i] != ' ',
        forall|i: int| 0 <= i < b.len() ==> #[trigger] b[i] != ' ',
    ensures
        without_blanks(a + seq![' '] + b) == a + b,
    decreases b.len(),
{
    let whole = a + seq![' '] + b;
    if b.len() == 0 {
        lemma_no_blanks(a);
        assert(whole.drop_last() =~= a);
        assert(a + b =~= a);
    } else {
        let init = b.drop_last();
        assert forall|i: int| 0 <= i < init.len() implies #[trigger] init[i] != ' ' by {
            assert(init[i] == b[i]);
        }
        lemma_two_words(a, init);
        assert(whole.drop_last() =~= a + seq![' '] + init);
        assert(whole.last() == b.last());
        assert(a + b =~= (a + init).push(b.last()));
    }
}

/// The names of ingredients and products as predicates write them.
proof fn lemma_written_names()
    ensures
        without_blanks("Stone"@) == "Stone"@,
        without_blanks("Stick"@) == "Stick"@,
        without_blanks("Wood"@) == "Wood"@,
        without_blanks("Axe"@) == "Axe"@,
        without_blanks("Bronze"@) == "Bronze"@,
        without_blanks("BronzeAxe"@) == "BronzeAxe"@,
        without_blanks("Tomato"@) == "Tomato"@,
        without_blanks("Steel"@) == "Steel"@,
        without_blanks("H2O"@) == "H2O"@,
        without_blanks("Uranium"@) == "Uranium"@,
        without_blanks("Bronze Axe"@) == "BronzeAxe"@,
        without_blanks("Tomato Seed"@) == "TomatoSeed"@,
        without_blanks("Steel Sword"@) == "SteelSword"@,
        without_blanks("Refined Uranium"@) == "RefinedUranium"@,
{
    reveal_strlit("Stone");
    reveal_strlit("Stick");
    reveal_strlit("Wood");
    reveal_strlit("Axe");
    reveal_strlit("Bronze");
    reveal_strlit("BronzeAxe");
    reveal_strlit("Tomato");
    reveal_strlit("Steel");
    reveal_strlit("H2O");
    reveal_strlit("Uranium");
    reveal_strlit("Seed");
    reveal_strlit("Sword");
    reveal_strlit("Refined");
    reveal_strlit("Bronze Axe");
    reveal_strlit("Tomato Seed");
    reveal_strlit("Steel Sword");
    reveal_strlit("Refined Uranium");
    reveal_strlit("TomatoSeed");
    reveal_strlit("SteelSword");
    reveal_strlit("RefinedUranium");
    lemma_no_blanks("Stone"@);
    lemma_no_blanks("Stick"@);
    lemma_no_blanks("Wood"@);
    lemma_no_blanks("Axe"@);
    lemma_no_blanks("Bronze"@);
    lemma_no_blanks("BronzeAxe"@);
    lemma_no_blanks("Tomato"@);
    lemma_no_blanks("Steel"@);
    lemma_no_blanks("H2O"@);
    lemma_no_blanks("Uranium"@);
    lemma_two_words("Bronze"@, "Axe"@);
    assert("Bronze Axe"@ =~= "Bronze"@ + seq![' '] + "Axe"@);
    assert("BronzeAxe"@ =~= "Bronze"@ + "Axe"@);
    lemma_two_words("Tomato"@, "Seed"@);
    assert("Tomato Seed"@ =~= "Tomato"@ + seq![' '] + "Seed"@);
    assert("TomatoSeed"@ =~= "Tomato"@ + "Seed"@);
    lemma_two_words("Steel"@, "Sword"@);
    assert("Steel Sword"@ =~= "Steel"@ + seq![' '] + "Sword"@);
    assert("SteelSword"@ =~= "Steel"@ + "Sword"@);
    lemma_two_words("Refined"@, "Uranium"@);
    assert("Refined Uranium"@ =~= "Refined"@ + seq![' '] + "Uranium"@);
    assert("RefinedUranium"@ =~= "Refined"@ + "Uranium"@);
}

/// The product of a process has its name: what is gathered, mined, crafted or produced is the one
/// thing that the process is called after, what is refined or taken apart is what it is called
/// after, and what destroys makes nothing.
pub proof fn law_products_have_the_name(process: ProcessView)
    requires
        has_data(process),
    ensures
        ({
            let data = data_of(process);
            match kind_of(process) {
                Verb::Destroy => data.outputs.len() == 0 && data.input_ingredients.len() == 1,
                Verb::Disassemble => data.input_ingredients == seq![shown_name(process)],
                Verb::Refine => data.input_ingredients == seq![shown_name(process)]
                    && data.outputs == seq!["Refined "@ + shown_name(process)],
                _ => data.outputs.len() == 1 && without_blanks(data.outputs[0]) == without_blanks(
                    shown_name(process),
                ),
            }
        }),
{
    lemma_mock_names();
    lemma_refined();
    lemma_written_names();
}

/// No process needs a tool, and only what is produced needs a facility, just one.
pub proof fn law_only_products_need_a_facility(process: ProcessView)
    requires
        has_data(process),
    ensures
        data_of(process).input_tools.len() == 0,
        data_of(process).input_facilities.len() == if kind_of(process) == Verb::Produce {
            1int
        } else {
            0int
        },
{
    lemma_mock_names();
    lemma_refined();
}

/// `part` stands in `text` at `place`.
pub open spec fn stands_at(text: Seq<char>, place: int, part: Seq<char>) -> bool {
    &&& 0 <= place
    &&& place + part.len() <= text.len()
    &&& text.subrange(place, place + part.len()) == part
}

proof fn lemma_stands(text: Seq<char>, place: int, part: Seq<char>)
    requires
        0 <= place,
        place + part.len() <= text.len(),
        forall|i: int| 0 <= i < part.len() ==> #[trigger] part[i] == text[place + i],
    ensures
        stands_at(text, place, part),
{
    assert(text.subrange(place, place + part.len()) =~= part);
}

/// A letter in lower case.
pub open spec fn lower(c: char) -> char {
    if 'A' <= c <= 'Z' {
        ((c as u32) + 32) as char
    } else {
        c
    }
}

/// A text in lower case.
pub open spec fn lowered(text: Seq<char>) -> Seq<char> {
    text.map_values(|c: char| lower(c))
}

/// A text speaks of a thing, in upper or lower case.
pub open spec fn speaks_of(text: Seq<char>, thing: Seq<char>) -> bool {
    exists|place: int| #[trigger] stands_at(lowered(text), place, lowered(thing))
}

proof fn lemma_speaks(text: Seq<char>, thing: Seq<char>, place: int)
    requires
        0 <= place,
        place + thing.len() <= text.len(),
        forall|i: int| 0 <= i < thing.len() ==> lower(#[trigger] thing[i]) == lower(
            text[place + i],
        ),
    ensures
        speaks_of(text, thing),
{
    lemma_stands(lowered(text), place, lowered(thing));
}

/// The description of a process speaks of its first product and of the facilities that it needs,
/// and that of a mock process of what it is shown as.
pub proof fn law_descriptions_speak_of_the_process(process: ProcessView, i: int)
    requires
        has_data(process),
    ensures
        ({
            let data = data_of(process);
            &&& data.outputs.len() > 0 ==> speaks_of(data.description, data.outputs[0])
            &&& 0 <= i < data.input_facilities.len() ==> speaks_of(
                data.description,
                data.input_facilities[i],
            )
            &&& process is Mock ==> speaks_of(data.description, shown_name(process))
        }),
{
    lemma_mock_names();
    lemma_speaks_stone();
    lemma_speaks_stick();
    lemma_speaks_wood();
    lemma_speaks_axe();
    lemma_speaks_bronze_axe();
    lemma_speaks_destroy();
    lemma_speaks_tomato();
    lemma_speaks_steel_sword();
    lemma_speaks_dis_h2o();
    lemma_speaks_refined_uranium();
}

/// The predicate of a process asks what its inputs are at the places and nowhere else: first of the
/// facilities and then of the ingredients, in their order.
pub open spec fn asks_in_order(
    predicate: Seq<char>,
    facilities: int,
    ingredients: Seq<Seq<char>>,
    places: Seq<int>,
) -> bool {
    &&& places.len() == facilities + ingredients.len()
    &&& forall|i: int, j: int|
        0 <= i < j < places.len() ==> #[trigger] places[i] < #[trigger] places[j]
    &&& forall|place: int| #[trigger]
        stands_at(predicate, place, "\n    Is"@) ==> places.contains(place)
    &&& forall|i: int|
        0 <= i < ingredients.len() ==> stands_at(
            predicate,
            places[facilities + i],
            "\n    Is"@ + without_blanks(#[trigger] ingredients[i]) + "("@,
        )
}

/// What the predicate of a process defines, by the kind of the process.
pub open spec fn subject_of(process: ProcessView) -> Seq<char> {
    let data = data_of(process);
    match kind_of(process) {
        Verb::Destroy => verb_name(Verb::Destroy),
        Verb::Disassemble => verb_name(Verb::Disassemble) + without_blanks(
            data.input_ingredients[0],
        ),
        Verb::Refine => without_blanks(data.outputs[0]),
        _ => "Is"@ + without_blanks(data.outputs[0]),
    }
}

/// The predicate of a process defines what the process makes or does and, where there is a
/// product, asks of each ingredient what it is, in the order of the slots.
pub proof fn law_predicates_speak_of_the_process(process: ProcessView)
    requires
        has_data(process),
    ensures
        exists|place: int| #[trigger]
            stands_at(
                data_of(process).predicate,
                place,
                "\n"@ + subject_of(process) + "("@,
            ),
        data_of(process).outputs.len() > 0 ==> exists|places: Seq<int>| #[trigger]
            asks_in_order(
                data_of(process).predicate,
                data_of(process).input_facilities.len() as int,
                data_of(process).input_ingredients,
                places,
            ),
{
    lemma_mock_names();
    lemma_refined();
    lemma_written_names();
    lemma_subjects();
    let data = data_of(process);
    match process {
        ProcessView::Stone => {
            lemma_predicate_stone();
            assert(subject_of(process) == "IsStone"@);
            assert(stands_at(data.predicate, 109, "\n"@ + subject_of(process) + "("@));
            assert(asks_in_order(data.predicate, 0, data.input_ingredients, Seq::empty()));
        },
        ProcessView::Stick => {
            lemma_predicate_stick();
            assert(subject_of(process) == "IsStick"@);
            assert(stands_at(data.predicate, 0, "\n"@ + subject_of(process) + "("@));
            assert(asks_in_order(data.predicate, 0, data.input_ingredients, Seq::empty()));
        },
        ProcessView::Wood => {
            lemma_predicate_wood();
            assert(subject_of(process) == "IsWood"@);
            assert(stands_at(data.predicate, 0, "\n"@ + subject_of(process) + "("@));
            assert(asks_in_order(data.predicate, 0, data.input_ingredients, Seq::empty()));
        },
        ProcessView::Axe => {
            lemma_predicate_axe();
            assert(subject_of(process) == "IsAxe"@);
            assert(stands_at(data.predicate, 0, "\n"@ + subject_of(process) + "("@));
            assert(data.input_ingredients == seq!["Stick"@, "Stone"@]);
            assert(asks_in_order(data.predicate, 0, data.input_ingredients, seq![289int, 308int]));
        },
        ProcessView::BronzeAxe => {
            lemma_predicate_bronze_axe();
            assert(subject_of(process) == "IsBronzeAxe"@);
            assert(stands_at(data.predicate, 0, "\n"@ + subject_of(process) + "("@));
            assert(data.input_ingredients == seq!["Wood"@, "Bronze"@]);
            assert(asks_in_order(data.predicate, 0, data.input_ingredients, seq![300int, 317int]));
        },
        ProcessView::Mock(name) => {
            if name == "Destroy"@ {
                lemma_predicate_destroy();
                assert(subject_of(process) == "Destroy"@);
                assert(stands_at(data.predicate, 0, "\n"@ + subject_of(process) + "("@));
            } else if name == "Tomato"@ {
                lemma_predicate_tomato();
                assert(subject_of(process) == "IsTomato"@);
                assert(stands_at(data.predicate, 0, "\n"@ + subject_of(process) + "("@));
                assert(data.input_ingredients == seq!["Tomato Seed"@]);
                assert(asks_in_order(data.predicate, 1, data.input_ingredients, seq![241int, 271int]));
            } else if name == "Steel Sword"@ {
                lemma_predicate_steel_sword();
                assert(subject_of(process) == "IsSteelSword"@);
                assert(stands_at(data.predicate, 0, "\n"@ + subject_of(process) + "("@));
                assert(data.input_ingredients == seq!["Steel"@, "Steel"@, "Wood"@]);
                assert(asks_in_order(data.predicate, 1, data.input_ingredients, seq![297int, 316int, 336int, 356int]));
            } else if name == "Disassemble-H2O"@ {
                lemma_predicate_dis_h2o();
                assert(subject_of(process) == "DisassembleH2O"@);
                assert(stands_at(data.predicate, 0, "\n"@ + subject_of(process) + "("@));
                assert(data.input_ingredients == seq!["H2O"@]);
                assert(asks_in_order(data.predicate, 0, data.input_ingredients, seq![303int]));
            } else if name == "Refine-Uranium"@ {
                lemma_predicate_refined_uranium();
                assert(subject_of(process) == "RefinedUranium"@);
                assert(stands_at(data.predicate, 0, "\n"@ + subject_of(process) + "("@));
                assert(data.input_ingredients == seq!["Uranium"@]);
                assert(asks_in_order(data.predicate, 0, data.input_ingredients, seq![218int]));
            } else {
                lemma_predicate_stone();
                assert(subject_of(process) == "IsStone"@);
                assert(stands_at(data.predicate, 109, "\n"@ + subject_of(process) + "("@));
                assert(asks_in_order(data.predicate, 0, data.input_ingredients, Seq::empty()));
            }
        },
    }
}

/// What predicates define, as it is written.
proof fn lemma_subjects()
    ensures
        "Is"@ + "Stone"@ == "IsStone"@,
        "Is"@ + "Stick"@ == "IsStick"@,
        "Is"@ + "Wood"@ == "IsWood"@,
        "Is"@ + "Axe"@ == "IsAxe"@,
        "Is"@ + "BronzeAxe"@ == "IsBronzeAxe"@,
        "Is"@ + "Tomato"@ == "IsTomato"@,
        "Is"@ + "SteelSword"@ == "IsSteelSword"@,
        "Disassemble"@ + "H2O"@ == "DisassembleH2O"@,
{
    reveal_strlit("Is");
    reveal_strlit("Stone");
    reveal_strlit("Stick");
    reveal_strlit("Wood");
    reveal_strlit("Axe");
    reveal_strlit("BronzeAxe");
    reveal_strlit("Tomato");
    reveal_strlit("SteelSword");
    reveal_strlit("Disassemble");
    reveal_strlit("H2O");
    reveal_strlit("DisassembleH2O");
    reveal_strlit("IsStone");
    reveal_strlit("IsStick");
    reveal_strlit("IsWood");
    reveal_strlit("IsAxe");
    reveal_strlit("IsBronzeAxe");
    reveal_strlit("IsTomato");
    reveal_strlit("IsSteelSword");
    assert("Is"@ + "Stone"@ =~= "IsStone"@);
    assert("Is"@ + "Stick"@ =~= "IsStick"@);
    assert("Is"@ + "Wood"@ =~= "IsWood"@);
    assert("Is"@ + "Axe"@ =~= "IsAxe"@);
    assert("Is"@ + "BronzeAxe"@ =~= "IsBronzeAxe"@);
    assert("Is"@ + "Tomato"@ =~= "IsTomato"@);
    assert("Is"@ + "SteelSword"@ =~= "IsSteelSword"@);
    assert("Disassemble"@ + "H2O"@ =~= "DisassembleH2O"@);
}

proof fn lemma_speaks_stone()
    ensures
        speaks_of("Stone.  Hard to find."@, "Stone"@),
{
    reveal_strlit("Stone.  Hard to find.");
    reveal_strlit("Stone");
    lemma_speaks("Stone.  Hard to find."@, "Stone"@, 0);
}

proof fn lemma_speaks_stick()
    ensures
        speaks_of("Stick.  Easily available."@, "Stick"@),
{
    reveal_strlit("Stick.  Easily available.");
    reveal_strlit("Stick");
    lemma_speaks("Stick.  Easily available."@, "Stick"@, 0);
}

proof fn lemma_speaks_wood()
    ensures
        speaks_of("Wood.  Easily available."@, "Wood"@),
{
    reveal_strlit("Wood.  Easily available.");
    reveal_strlit("Wood");
    lemma_speaks("Wood.  Easily available."@, "Wood"@, 0);
}

proof fn lemma_speaks_axe()
    ensures
        speaks_of("Axe.  Easy to craft."@, "Axe"@),
{
    reveal_strlit("Axe.  Easy to craft.");
    reveal_strlit("Axe");
    lemma_speaks("Axe.  Easy to craft."@, "Axe"@, 0);
}

proof fn lemma_speaks_bronze_axe()
    ensures
        speaks_of("Bronze Axe.  Easy to craft."@, "Bronze Axe"@),
{
    reveal_strlit("Bronze Axe.  Easy to craft.");
    reveal_strlit("Bronze Axe");
    lemma_speaks("Bronze Axe.  Easy to craft."@, "Bronze Axe"@, 0);
}

proof fn lemma_speaks_destroy()
    ensures
        speaks_of("Destroy an object."@, "Destroy"@),
{
    reveal_strlit("Destroy an object.");
    reveal_strlit("Destroy");
    lemma_speaks("Destroy an object."@, "Destroy"@, 0);
}

proof fn lemma_speaks_tomato()
    ensures
        speaks_of("Produces a Tomato.  Requires farm level 1."@, "Tomato"@),
        speaks_of("Produces a Tomato.  Requires farm level 1."@, "Farm level 1"@),
{
    reveal_strlit("Produces a Tomato.  Requires farm level 1.");
    reveal_strlit("Tomato");
    reveal_strlit("Farm level 1");
    lemma_speaks("Produces a Tomato.  Requires farm level 1."@, "Tomato"@, 11);
    lemma_speaks("Produces a Tomato.  Requires farm level 1."@, "Farm level 1"@, 29);
}

proof fn lemma_speaks_steel_sword()
    ensures
        speaks_of("Produces a steel sword.  Requires a forge."@, "Steel Sword"@),
        speaks_of("Produces a steel sword.  Requires a forge."@, "Forge"@),
{
    reveal_strlit("Produces a steel sword.  Requires a forge.");
    reveal_strlit("Steel Sword");
    reveal_strlit("Forge");
    lemma_speaks("Produces a steel sword.  Requires a forge."@, "Steel Sword"@, 11);
    lemma_speaks("Produces a steel sword.  Requires a forge."@, "Forge"@, 36);
}

proof fn lemma_speaks_dis_h2o()
    ensures
        speaks_of("Disassemble H2O into 2xH and 1xO."@, "H2O"@),
        speaks_of("Disassemble H2O into 2xH and 1xO."@, "H"@),
{
    reveal_strlit("Disassemble H2O into 2xH and 1xO.");
    reveal_strlit("H2O");
    reveal_strlit("H");
    lemma_speaks("Disassemble H2O into 2xH and 1xO."@, "H2O"@, 12);
    lemma_speaks("Disassemble H2O into 2xH and 1xO."@, "H"@, 12);
}

proof fn lemma_speaks_refined_uranium()
    ensures
        speaks_of("Produces refined Uranium.  It takes about 30 minutes."@, "Refined Uranium"@),
        speaks_of("Produces refined Uranium.  It takes about 30 minutes."@, "Uranium"@),
{
    reveal_strlit("Produces refined Uranium.  It takes about 30 minutes.");
    reveal_strlit("Refined Uranium");
    reveal_strlit("Uranium");
    lemma_speaks("Produces refined Uranium.  It takes about 30 minutes."@, "Refined Uranium"@, 9);
    lemma_speaks("Produces refined Uranium.  It takes about 30 minutes."@, "Uranium"@, 17);
}

/// What [`STONE_PREDICATE`] defines and asks for.
proof fn lemma_predicate_stone()
    ensures
        stands_at(STONE_PREDICATE@, 109, "\n"@ + "IsStone"@ + "("@),
        asks_in_order(STONE_PREDICATE@, 0, Seq::empty(), Seq::<int>::empty()),
{
    reveal_strlit(
        r#"
use intro Pow(count, input, output) from 0x3493488bc23af15ac5fabe38c3cb6c4b66adb57e3898adf201ae50cc57183f65

IsStone(item, private: ingredients, inputs, key, work) = AND(
    ItemDef(item, ingredients, inputs, key, work)
    Equal(inputs, {})
    DictContains(ingredients, "blueprint", "stone")
    Pow(3, ingredients, work)
)"#,
    );
    reveal_strlit("\n");
    reveal_strlit("IsStone");
    reveal_strlit("(");
    let part = "\n"@ + "IsStone"@ + "("@;
    lemma_stands(STONE_PREDICATE@, 109, part);
    lemma_written_names();
    reveal_strlit("\n    Is");
    let places = Seq::<int>::empty();
    assert forall|place: int| #[trigger]
        stands_at(STONE_PREDICATE@, place, "\n    Is"@) implies places.contains(place) by {
        let found = STONE_PREDICATE@.subrange(place, place + "\n    Is"@.len());
        assert(found[0] == '\n' && found[5] == 'I' && found[6] == 's');
    }
}

/// What [`STICK_PREDICATE`] defines and asks for.
proof fn lemma_predicate_stick()
    ensures
        stands_at(STICK_PREDICATE@, 0, "\n"@ + "IsStick"@ + "("@),
        asks_in_order(STICK_PREDICATE@, 0, Seq::empty(), Seq::<int>::empty()),
{
    reveal_strlit(
        r#"
IsStick(item, private: ingredients, inputs, key, work) = AND(
    ItemDef(item, ingredients, inputs, key, work)
    Equal(inputs, {})
    DictContains(ingredients, "blueprint", "stick")
)"#,
    );
    reveal_strlit("\n");
    reveal_strlit("IsStick");
    reveal_strlit("(");
    let part = "\n"@ + "IsStick"@ + "("@;
    lemma_stands(STICK_PREDICATE@, 0, part);
    lemma_written_names();
    reveal_strlit("\n    Is");
    let places = Seq::<int>::empty();
    assert forall|place: int| #[trigger]
        stands_at(STICK_PREDICATE@, place, "\n    Is"@) implies places.contains(place) by {
        let found = STICK_PREDICATE@.subrange(place, place + "\n    Is"@.len());
        assert(found[0] == '\n' && found[5] == 'I' && found[6] == 's');
    }
}

/// What [`WOOD_PREDICATE`] defines and asks for.
proof fn lemma_predicate_wood()
    ensures
        stands_at(WOOD_PREDICATE@, 0, "\n"@ + "IsWood"@ + "("@),
        asks_in_order(WOOD_PREDICATE@, 0, Seq::empty(), Seq::<int>::empty()),
{
    reveal_strlit(
        r#"
IsWood(item, private: ingredients, inputs, key, work) = AND(
    ItemDef(item, ingredients, inputs, key, work)
    Equal(inputs, {})
    DictContains(ingredients, "blueprint", "wood")
)"#,
    );
    reveal_strlit("\n");
    reveal_strlit("IsWood");
    reveal_strlit("(");
    let part = "\n"@ + "IsWood"@ + "("@;
    lemma_stands(WOOD_PREDICATE@, 0, part);
    lemma_written_names();
    reveal_strlit("\n    Is");
    let places = Seq::<int>::empty();
    assert forall|place: int| #[trigger]
        stands_at(WOOD_PREDICATE@, place, "\n    Is"@) implies places.contains(place) by {
        let found = WOOD_PREDICATE@.subrange(place, place + "\n    Is"@.len());
        assert(found[0] == '\n' && found[5] == 'I' && found[6] == 's');
    }
}

/// What [`AXE_PREDICATE`] defines and asks for.
proof fn lemma_predicate_axe()
    ensures
        stands_at(AXE_PREDICATE@, 0, "\n"@ + "IsAxe"@ + "("@),
        asks_in_order(AXE_PREDICATE@, 0, seq!["Stick"@, "Stone"@], seq![289int, 308int]),
{
    reveal_strlit(
        r#"
IsAxe(item, private: ingredients, inputs, key, work) = AND(
    ItemDef(item, ingredients, inputs, key, work)
    DictContains(ingredients, "blueprint", "bronze")

    // 2 ingredients
    SetInsert(s1, {}, tin)
    SetInsert(inputs, s1, copper)

    // prove the ingredients are correct.
    IsStick(stick)
    IsStone(stone)
)"#,
    );
    reveal_strlit("\n");
    reveal_strlit("IsAxe");
    reveal_strlit("(");
    let part = "\n"@ + "IsAxe"@ + "("@;
    lemma_stands(AXE_PREDICATE@, 0, part);
    lemma_written_names();
    reveal_strlit("\n    Is");
    reveal_strlit("Stick");
    reveal_strlit("Stone");
    let ask0 = "\n    Is"@ + "Stick"@ + "("@;
    lemma_stands(AXE_PREDICATE@, 289, ask0);
    let ask1 = "\n    Is"@ + "Stone"@ + "("@;
    lemma_stands(AXE_PREDICATE@, 308, ask1);
    let places = seq![289int, 308int];
    let asked = seq!["Stick"@, "Stone"@];
    assert forall|place: int| #[trigger]
        stands_at(AXE_PREDICATE@, place, "\n    Is"@) implies places.contains(place) by {
        let found = AXE_PREDICATE@.subrange(place, place + "\n    Is"@.len());
        assert(found[0] == '\n' && found[5] == 'I' && found[6] == 's');
        assert(place == places[0] || place == places[1]);
    }
    assert forall|i: int| 0 <= i < asked.len() implies stands_at(
        AXE_PREDICATE@,
        places[0 + i],
        "\n    Is"@ + without_blanks(#[trigger] asked[i]) + "("@,
    ) by {
        assert(i == 0 || i == 1);
    }
}

/// What [`BRONZE_AXE_PREDICATE`] defines and asks for.
proof fn lemma_predicate_bronze_axe()
    ensures
        stands_at(BRONZE_AXE_PREDICATE@, 0, "\n"@ + "IsBronzeAxe"@ + "("@),
        asks_in_order(BRONZE_AXE_PREDICATE@, 0, seq!["Wood"@, "Bronze"@], seq![300int, 317int]),
{
    reveal_strlit(
        r#"
IsBronzeAxe(item, private: ingredients, inputs, key, work) = AND(
    ItemDef(item, ingredients, inputs, key, work)
    DictContains(ingredients, "blueprint", "bronze-axe")

    // 2 ingredients
    SetInsert(s1, {}, wood)
    SetInsert(inputs, s1, bronze)

    // prove the ingredients are correct.
    IsWood(wood)
    IsBronze(bronze)
)"#,
    );
    reveal_strlit("\n");
    reveal_strlit("IsBronzeAxe");
    reveal_strlit("(");
    let part = "\n"@ + "IsBronzeAxe"@ + "("@;
    lemma_stands(BRONZE_AXE_PREDICATE@, 0, part);
    lemma_written_names();
    reveal_strlit("\n    Is");
    reveal_strlit("Wood");
    reveal_strlit("Bronze");
    let ask0 = "\n    Is"@ + "Wood"@ + "("@;
    lemma_stands(BRONZE_AXE_PREDICATE@, 300, ask0);
    let ask1 = "\n    Is"@ + "Bronze"@ + "("@;
    lemma_stands(BRONZE_AXE_PREDICATE@, 317, ask1);
    let places = seq![300int, 317int];
    let asked = seq!["Wood"@, "Bronze"@];
    assert forall|place: int| #[trigger]
        stands_at(BRONZE_AXE_PREDICATE@, place, "\n    Is"@) implies places.contains(place) by {
        let found = BRONZE_AXE_PREDICATE@.subrange(place, place + "\n    Is"@.len());
        assert(found[0] == '\n' && found[5] == 'I' && found[6] == 's');
        assert(place == places[0] || place == places[1]);
    }
    assert forall|i: int| 0 <= i < asked.len() implies stands_at(
        BRONZE_AXE_PREDICATE@,
        places[0 + i],
        "\n    Is"@ + without_blanks(#[trigger] asked[i]) + "("@,
    ) by {
        assert(i == 0 || i == 1);
    }
}

/// What [`DESTROY_PREDICATE`] defines and asks for.
proof fn lemma_predicate_destroy()
    ensures
        stands_at(DESTROY_PREDICATE@, 0, "\n"@ + "Destroy"@ + "("@),
{
    reveal_strlit(
        r#"
Destroy(void, private: ingredients, inputs, key, work) = AND(
    ItemDef(void, ingredients, inputs, key, work)
    SetInsert(inputs, {}, item)
)"#,
    );
    reveal_strlit("\n");
    reveal_strlit("Destroy");
    reveal_strlit("(");
    let part = "\n"@ + "Destroy"@ + "("@;
    lemma_stands(DESTROY_PREDICATE@, 0, part);
}

/// What [`TOMATO_PREDICATE`] defines and asks for.
proof fn lemma_predicate_tomato()
    ensures
        stands_at(TOMATO_PREDICATE@, 0, "\n"@ + "IsTomato"@ + "("@),
        asks_in_order(TOMATO_PREDICATE@, 1, seq!["Tomato Seed"@], seq![241int, 271int]),
{
    reveal_strlit(
        r#"
IsTomato(item, private: ingredients, inputs, key, work) = AND(
    ItemDef(item, ingredients, inputs, key, work)
    DictContains(ingredients, "blueprint", "tomato")

    SetInsert(s1, {}, tomato_farm)
    SetInsert(inputs, s1, tomato_seed)
    IsFarmLevel1(tomato_farm)
    IsTomatoSeed(tomato_seed)
)"#,
    );
    reveal_strlit("\n");
    reveal_strlit("IsTomato");
    reveal_strlit("(");
    let part = "\n"@ + "IsTomato"@ + "("@;
    lemma_stands(TOMATO_PREDICATE@, 0, part);
    lemma_written_names();
    reveal_strlit("\n    Is");
    reveal_strlit("TomatoSeed");
    let ask0 = "\n    Is"@ + "TomatoSeed"@ + "("@;
    lemma_stands(TOMATO_PREDICATE@, 271, ask0);
    let places = seq![241int, 271int];
    let asked = seq!["Tomato Seed"@];
    assert forall|place: int| #[trigger]
        stands_at(TOMATO_PREDICATE@, place, "\n    Is"@) implies places.contains(place) by {
        let found = TOMATO_PREDICATE@.subrange(place, place + "\n    Is"@.len());
        assert(found[0] == '\n' && found[5] == 'I' && found[6] == 's');
        assert(place == places[0] || place == places[1]);
    }
    assert forall|i: int| 0 <= i < asked.len() implies stands_at(
        TOMATO_PREDICATE@,
        places[1 + i],
        "\n    Is"@ + without_blanks(#[trigger] asked[i]) + "("@,
    ) by {
        assert(i == 0);
    }
}

/// What [`STEEL_SWORD_PREDICATE`] defines and asks for.
proof fn lemma_predicate_steel_sword()
    ensures
        stands_at(STEEL_SWORD_PREDICATE@, 0, "\n"@ + "IsSteelSword"@ + "("@),
        asks_in_order(STEEL_SWORD_PREDICATE@, 1, seq!["Steel"@, "Steel"@, "Wood"@], seq![297int, 316int, 336int, 356int]),
{
    reveal_strlit(
        r#"
IsSteelSword(item, private: ingredients, inputs, key, work) = AND(
    ItemDef(item, ingredients, inputs, key, work)
    DictContains(ingredients, "blueprint", "steel sword")

    SetInsert(s1, {}, forge)
    SetInsert(s2, s1, steel1)
    SetInsert(s3, s2, steel2)
    SetInsert(inputs, s3, wood)
    IsForge(forge)
    IsSteel(steel1)
    IsSteel(steel2)
    IsWood(wood)
)"#,
    );
    reveal_strlit("\n");
    reveal_strlit("IsSteelSword");
    reveal_strlit("(");
    let part = "\n"@ + "IsSteelSword"@ + "("@;
    lemma_stands(STEEL_SWORD_PREDICATE@, 0, part);
    lemma_written_names();
    reveal_strlit("\n    Is");
    reveal_strlit("Steel");
    reveal_strlit("Wood");
    let ask0 = "\n    Is"@ + "Steel"@ + "("@;
    lemma_stands(STEEL_SWORD_PREDICATE@, 316, ask0);
    let ask1 = "\n    Is"@ + "Steel"@ + "("@;
    lemma_stands(STEEL_SWORD_PREDICATE@, 336, ask1);
    let ask2 = "\n    Is"@ + "Wood"@ + "("@;
    lemma_stands(STEEL_SWORD_PREDICATE@, 356, ask2);
    let places = seq![297int, 316int, 336int, 356int];
    let asked = seq!["Steel"@, "Steel"@, "Wood"@];
    assert forall|place: int| #[trigger]
        stands_at(STEEL_SWORD_PREDICATE@, place, "\n    Is"@) implies places.contains(place) by {
        let found = STEEL_SWORD_PREDICATE@.subrange(place, place + "\n    Is"@.len());
        assert(found[0] == '\n' && found[5] == 'I' && found[6] == 's');
        assert(place == places[0] || place == places[1] || place == places[2] || place == places[3]);
    }
    assert forall|i: int| 0 <= i < asked.len() implies stands_at(
        STEEL_SWORD_PREDICATE@,
        places[1 + i],
        "\n    Is"@ + without_blanks(#[trigger] asked[i]) + "("@,
    ) by {
        assert(i == 0 || i == 1 || i == 2);
    }
}

/// What [`DIS_H2O_PREDICATE`] defines and asks for.
proof fn lemma_predicate_dis_h2o()
    ensures
        stands_at(DIS_H2O_PREDICATE@, 0, "\n"@ + "DisassembleH2O"@ + "("@),
        asks_in_order(DIS_H2O_PREDICATE@, 0, seq!["H2O"@], seq![303int]),
{
    reveal_strlit(
        r#"
DisassembleH2O(items, private: ingredients, inputs, key, work) = AND(
    ItemDef(items, ingredients, inputs, key, work)
    DictContains(ingredients, "blueprint_0", "H")
    DictContains(ingredients, "blueprint_1", "H")
    DictContains(ingredients, "blueprint_2", "O")

    SetInsert(inputs, {}, h2o)
    IsH2O(h2o)
)"#,
    );
    reveal_strlit("\n");
    reveal_strlit("DisassembleH2O");
    reveal_strlit("(");
    let part = "\n"@ + "DisassembleH2O"@ + "("@;
    lemma_stands(DIS_H2O_PREDICATE@, 0, part);
    lemma_written_names();
    reveal_strlit("\n    Is");
    reveal_strlit("H2O");
    let ask0 = "\n    Is"@ + "H2O"@ + "("@;
    lemma_stands(DIS_H2O_PREDICATE@, 303, ask0);
    let places = seq![303int];
    let asked = seq!["H2O"@];
    assert forall|place: int| #[trigger]
        stands_at(DIS_H2O_PREDICATE@, place, "\n    Is"@) implies places.contains(place) by {
        let found = DIS_H2O_PREDICATE@.subrange(place, place + "\n    Is"@.len());
        assert(found[0] == '\n' && found[5] == 'I' && found[6] == 's');
        assert(place == places[0]);
    }
    assert forall|i: int| 0 <= i < asked.len() implies stands_at(
        DIS_H2O_PREDICATE@,
        places[0 + i],
        "\n    Is"@ + without_blanks(#[trigger] asked[i]) + "("@,
    ) by {
        assert(i == 0);
    }
}

/// What [`REFINED_URANIUM_PREDICATE`] defines and asks for.
proof fn lemma_predicate_refined_uranium()
    ensures
        stands_at(REFINED_URANIUM_PREDICATE@, 0, "\n"@ + "RefinedUranium"@ + "("@),
        asks_in_order(REFINED_URANIUM_PREDICATE@, 0, seq!["Uranium"@], seq![218int]),
{
    reveal_strlit(
        r#"
RefinedUranium(items, private: ingredients, inputs, key, work) = AND(
    ItemDef(item, ingredients, inputs, key, work)
    DictContains(ingredients, "blueprint", "refined_uranium")

    SetInsert(inputs, {}, uranium)
    IsUranium(uranium)
    Pow(100, ingredients, work)
)"#,
    );
    reveal_strlit("\n");
    reveal_strlit("RefinedUranium");
    reveal_strlit("(");
    let part = "\n"@ + "RefinedUranium"@ + "("@;
    lemma_stands(REFINED_URANIUM_PREDICATE@, 0, part);
    lemma_written_names();
    reveal_strlit("\n    Is");
    reveal_strlit("Uranium");
    let ask0 = "\n    Is"@ + "Uranium"@ + "("@;
    lemma_stands(REFINED_URANIUM_PREDICATE@, 218, ask0);
    let places = seq![218int];
    let asked = seq!["Uranium"@];
    assert forall|place: int| #[trigger]
        stands_at(REFINED_URANIUM_PREDICATE@, place, "\n    Is"@) implies places.contains(place) by {
        let found = REFINED_URANIUM_PREDICATE@.subrange(place, place + "\n    Is"@.len());
        assert(found[0] == '\n' && found[5] == 'I' && found[6] == 's');
        assert(place == places[0]);
    }
    assert forall|i: int| 0 <= i < asked.len() implies stands_at(
        REFINED_URANIUM_PREDICATE@,
        places[0 + i],
        "\n    Is"@ + without_blanks(#[trigger] asked[i]) + "("@,
    ) by {
        assert(i == 0);
    }
}

} // verus!
