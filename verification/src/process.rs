//! The processes that turn items into other items.
use vstd::prelude::*;
use crate::catalog;
use crate::catalog::{
    axe_data, bronze_axe_data, destroy_data, dis_h2o_data, refined_uranium_data, steel_sword_data,
    stick_data, stone_data, tomato_data, wood_data, ProcessData, ProcessDataView,
};
use crate::text::same_text;

verus! {

/// A recipe that a pod can be crafted by.
#[derive(Clone, Copy, PartialEq, Eq, Structural, Debug)]
pub enum Recipe {
    Copper,
    Tin,
    Wood,
    Bronze,
    BronzeAxe,
}

/// A process.
#[derive(Clone, Copy, Debug)]
pub enum Process {
    Stone,
    Stick,
    Wood,
    Axe,
    BronzeAxe,
    /// A process that is shown but cannot be executed.
    Mock(&'static str),
}

/// What a [`Process`] stands for.
pub enum ProcessView {
    Stone,
    Stick,
    Wood,
    Axe,
    BronzeAxe,
    Mock(Seq<char>),
}

impl View for Process {
    type V = ProcessView;

    open spec fn view(&self) -> ProcessView {
        match self {
            Process::Stone => ProcessView::Stone,
            Process::Stick => ProcessView::Stick,
            Process::Wood => ProcessView::Wood,
            Process::Axe => ProcessView::Axe,
            Process::BronzeAxe => ProcessView::BronzeAxe,
            Process::Mock(s) => ProcessView::Mock(s@),
        }
    }
}

impl PartialEq for Process {
    fn eq(&self, other: &Process) -> (r: bool) {
        match (self, other) {
            (Process::Stone, Process::Stone) => true,
            (Process::Stick, Process::Stick) => true,
            (Process::Wood, Process::Wood) => true,
            (Process::Axe, Process::Axe) => true,
            (Process::BronzeAxe, Process::BronzeAxe) => true,
            (Process::Mock(a), Process::Mock(b)) => same_text(a, b),
            _ => false,
        }
    }
}

impl vstd::std_specs::cmp::PartialEqSpecImpl for Process {
    open spec fn obeys_eq_spec() -> bool {
        true
    }

    open spec fn eq_spec(&self, other: &Process) -> bool {
        self@ == other@
    }
}

/// The mock process `name` has data.
pub open spec fn known_mock(name: Seq<char>) -> bool {
    ||| name == "Destroy"@
    ||| name == "Tomato"@
    ||| name == "Steel Sword"@
    ||| name == "Disassemble-H2O"@
    ||| name == "Refine-Uranium"@
    ||| name == "Stone"@
}

/// The process has data.
pub open spec fn has_data(process: ProcessView) -> bool {
    process matches ProcessView::Mock(name) ==> known_mock(name)
}

/// The data of a process that has data.
pub open spec fn data_of(process: ProcessView) -> ProcessDataView {
    match process {
        ProcessView::Stone => stone_data(),
        ProcessView::Stick => stick_data(),
        ProcessView::Wood => wood_data(),
        ProcessView::Axe => axe_data(),
        ProcessView::BronzeAxe => bronze_axe_data(),
        ProcessView::Mock(name) => if name == "Destroy"@ {
            destroy_data()
        } else if name == "Tomato"@ {
            tomato_data()
        } else if name == "Steel Sword"@ {
            steel_sword_data()
        } else if name == "Disassemble-H2O"@ {
            dis_h2o_data()
        } else if name == "Refine-Uranium"@ {
            refined_uranium_data()
        } else {
            stone_data()
        },
    }
}

/// The name under which a process is shown.
pub open spec fn shown_name(process: ProcessView) -> Seq<char> {
    match process {
        ProcessView::Stone => "Stone"@,
        ProcessView::Stick => "Stick"@,
        ProcessView::Wood => "Wood"@,
        ProcessView::Axe => "Axe"@,
        ProcessView::BronzeAxe => "BronzeAxe"@,
        ProcessView::Mock(name) => if name == "Disassemble-H2O"@ {
            "H2O"@
        } else if name == "Refine-Uranium"@ {
            "Uranium"@
        } else {
            name
        },
    }
}

/// The recipe that a process is executed by; a mock process has none.
pub open spec fn recipe_of(process: ProcessView) -> Option<Recipe> {
    match process {
        ProcessView::Stone => Some(Recipe::Copper),
        ProcessView::Stick => Some(Recipe::Tin),
        ProcessView::Wood => Some(Recipe::Wood),
        ProcessView::Axe => Some(Recipe::Bronze),
        ProcessView::BronzeAxe => Some(Recipe::BronzeAxe),
        ProcessView::Mock(_) => None,
    }
}

impl Process {
    /// The name under which the process is shown.
    pub fn as_str(&self) -> (r: &'static str)
        ensures
            r@ == shown_name(self@),
    {
        match *self {
            Process::Stone => "Stone",
            Process::Stick => "Stick",
            Process::Wood => "Wood",
            Process::Axe => "Axe",
            Process::BronzeAxe => "BronzeAxe",
            Process::Mock(name) => if same_text(name, "Disassemble-H2O") {
                "H2O"
            } else if same_text(name, "Refine-Uranium") {
                "Uranium"
            } else {
                name
            },
        }
    }

    /// The recipe that the process is executed by; `None` for a mock process.
    pub fn recipe(&self) -> (r: Option<Recipe>)
        ensures
            r == recipe_of(self@),
    {
        match self {
            Process::Stone => Some(Recipe::Copper),
            Process::Stick => Some(Recipe::Tin),
            Process::Wood => Some(Recipe::Wood),
            Process::Axe => Some(Recipe::Bronze),
            Process::BronzeAxe => Some(Recipe::BronzeAxe),
            Process::Mock(_) => None,
        }
    }

    /// Whether the process has data.
    pub fn has_data(&self) -> (r: bool)
        ensures
            r == has_data(self@),
    {
        match *self {
            Process::Mock(name) => same_text(name, "Destroy")
                || same_text(name, "Tomato")
                || same_text(name, "Steel Sword")
                || same_text(name, "Disassemble-H2O")
                || same_text(name, "Refine-Uranium")
                || same_text(name, "Stone"),
            _ => true,
        }
    }

    /// What the process needs and makes.
    pub fn data(&self) -> (r: &'static ProcessData)
        requires
            has_data(self@),
        ensures
            r@ == data_of(self@),
    {
        match *self {
            Process::Stone => catalog::stone(),
            Process::Stick => catalog::stick(),
            Process::Wood => catalog::wood(),
            Process::Axe => catalog::axe(),
            Process::BronzeAxe => catalog::bronze_axe(),
            Process::Mock(name) => if same_text(name, "Destroy") {
                catalog::destroy()
            } else if same_text(name, "Tomato") {
                catalog::tomato()
            } else if same_text(name, "Steel Sword") {
                catalog::steel_sword()
            } else if same_text(name, "Disassemble-H2O") {
                catalog::dis_h2o()
            } else if same_text(name, "Refine-Uranium") {
                catalog::refined_uranium()
            } else {
                catalog::stone()
            },
        }
    }
}

/// The processes without a recipe are the mock processes, and no two processes share a recipe.
pub proof fn law_recipes_tell_processes_apart(p: ProcessView, q: ProcessView)
    ensures
        recipe_of(p) is None <==> p is Mock,
        recipe_of(p) is Some && recipe_of(p) == recipe_of(q) ==> p == q,
{
}

/// A process is told from others by what it is, and a mock process by its name.
pub proof fn law_processes_are_told_apart(p: Process, q: Process)
    ensures
        p@ == q@ <==> match (p, q) {
            (Process::Mock(a), Process::Mock(b)) => a@ == b@,
            _ => p == q,
        },
        p@ is Mock <==> p is Mock,
{
}

} // verus!
