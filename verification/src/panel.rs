//! What is shown of a process, and the name of the file that it writes.
use vstd::prelude::*;
use vstd::string::*;
use crate::catalog::{texts, ProcessData, ProcessDataView};
use crate::process::{has_data, shown_name, Process, ProcessView};
use crate::text::{
    decimal, digit, law_decimals_are_read_back, number_of, to_decimal, trim_start, trimmed_start,
};

verus! {

/// The inputs of one kind, as lines of text.
#[derive(Debug)]
pub struct Section {
    pub title: String,
    /// One line for each input. The slot of an input has the number of its line, so the slots of
    /// different kinds share their numbers.
    pub labels: Vec<String>,
}

/// What a [`Section`] stands for.
#[verifier::ext_equal]
pub struct SectionView {
    pub title: Seq<char>,
    pub labels: Seq<Seq<char>>,
}

/// The characters of a list of texts.
pub open spec fn string_views(list: Seq<String>) -> Seq<Seq<char>> {
    list.map_values(|s: String| s@)
}

impl View for Section {
    type V = SectionView;

    open spec fn view(&self) -> SectionView {
        SectionView { title: self.title@, labels: string_views(self.labels@) }
    }
}

/// The lines for the inputs of a kind; none if there are no such inputs.
pub open spec fn section_of(category: Seq<char>, inputs: Seq<Seq<char>>) -> Seq<SectionView> {
    if inputs.len() == 0 {
        Seq::empty()
    } else {
        seq![
            SectionView {
                title: "    "@ + category + ":"@,
                labels: inputs.map_values(|input: Seq<char>| "        "@ + input + ":"@),
            },
        ]
    }
}

/// The lines for all inputs: facilities, then tools, then ingredients.
pub open spec fn sections_of(data: ProcessDataView) -> Seq<SectionView> {
    section_of("Production Facility"@, data.input_facilities) + section_of(
        "Tools"@,
        data.input_tools,
    ) + section_of("Ingredients"@, data.input_ingredients)
}

/// The views of a list of sections.
pub open spec fn section_views(list: Seq<Section>) -> Seq<SectionView> {
    list.map_values(|s: Section| s@)
}

/// Adds the lines for the inputs of a kind.
fn add_section(list: &mut Vec<Section>, category: &str, inputs: &'static [&'static str])
    ensures
        section_views(final(list)@) == section_views(old(list)@) + section_of(
            category@,
            texts(inputs@),
        ),
{
    if inputs.len() == 0 {
        assert(section_views(list@) + section_of(category@, texts(inputs@)) =~= section_views(
            list@,
        ));
        return;
    }
    let title = "    ".to_owned().concat(category).concat(":");
    let mut labels: Vec<String> = Vec::new();
    let mut i: usize = 0;
    while i < inputs.len()
        invariant
            i <= inputs@.len(),
            labels@.len() == i,
            forall|j: int|
                0 <= j < i ==> (#[trigger] labels@[j])@ == "        "@ + inputs@[j]@ + ":"@,
        decreases inputs@.len() - i,
    {
        labels.push("        ".to_owned().concat(inputs[i]).concat(":"));
        i = i + 1;
    }
    let ghost before = list@;
    let section = Section { title, labels };
    proof {
        let want = section_of(category@, texts(inputs@))[0];
        assert(section@.labels =~= want.labels);
        assert(section@ == want);
    }
    list.push(section);
    assert(section_views(list@) =~= section_views(before) + seq![section@]);
    assert(section_of(category@, texts(inputs@)) =~= seq![section@]);
}

impl ProcessData {
    /// The lines for all inputs: facilities, then tools, then ingredients; a kind without inputs
    /// is left out.
    pub fn input_sections(&self) -> (r: Vec<Section>)
        ensures
            section_views(r@) == sections_of(self@),
    {
        let mut r: Vec<Section> = Vec::new();
        assert(section_views(r@) =~= Seq::<SectionView>::empty());
        add_section(&mut r, "Production Facility", self.input_facilities);
        add_section(&mut r, "Tools", self.input_tools);
        add_section(&mut r, "Ingredients", self.input_ingredients);
        assert(section_views(r@) =~= sections_of(self@));
        r
    }

    /// The predicate without the white space that it starts with.
    pub fn predicate_text(&self) -> (r: &'static str)
        ensures
            r@ == trimmed_start(self@.predicate),
    {
        trim_start(self.predicate)
    }
}

/// The name of a process in file names.
pub open spec fn file_stem(process: ProcessView) -> Seq<char> {
    match process {
        ProcessView::Stone => "Stone"@,
        ProcessView::Stick => "Stick"@,
        ProcessView::Wood => "Wood"@,
        ProcessView::Axe => "Axe"@,
        ProcessView::BronzeAxe => "BronzeAxe"@,
        ProcessView::Mock(name) => "Mock(\""@ + name + "\")"@,
    }
}

/// The file name of what a process makes when there are `count` items.
pub open spec fn output_name(process: ProcessView, count: nat) -> Seq<char> {
    file_stem(process) + "_"@ + decimal(count)
}

impl Process {
    /// The file name of what the process makes when there are `count` items.
    ///
    /// The names of the mock processes that have data hold no character that would be escaped
    /// between quotation marks.
    pub fn output_filename(&self, count: usize) -> (r: String)
        requires
            has_data(self@),
        ensures
            r@ == output_name(self@, count as nat),
    {
        let stem = match *self {
            Process::Stone => "Stone".to_owned(),
            Process::Stick => "Stick".to_owned(),
            Process::Wood => "Wood".to_owned(),
            Process::Axe => "Axe".to_owned(),
            Process::BronzeAxe => "BronzeAxe".to_owned(),
            Process::Mock(name) => "Mock(\"".to_owned().concat(name).concat("\")"),
        };
        stem.concat("_").concat(to_decimal(count).as_str())
    }
}

/// A file name is never empty.
pub proof fn law_output_name_is_not_empty(process: ProcessView, count: nat)
    ensures
        output_name(process, count).len() > 0,
{
    reveal_strlit("_");
}

/// The digits of a number.
proof fn lemma_decimal_digits(n: nat, i: int)
    requires
        0 <= i < decimal(n).len(),
    ensures
        '0' <= decimal(n)[i] <= '9',
    decreases n,
{
    if n >= 10 && i < decimal(n).len() - 1 {
        lemma_decimal_digits(n / 10, i);
    }
}

/// A number in decimal has a digit.
proof fn lemma_decimal_len(n: nat)
    ensures
        decimal(n).len() > 0,
    decreases n,
{
}

/// Different numbers differ in decimal.
proof fn lemma_decimal_injective(a: nat, b: nat)
    requires
        decimal(a) == decimal(b),
    ensures
        a == b,
    decreases a,
{
    lemma_decimal_len(a / 10);
    lemma_decimal_len(b / 10);
    assert(decimal(a).last() == digit(a % 10));
    assert(decimal(b).last() == digit(b % 10));
    assert(a % 10 == b % 10);
    if a >= 10 && b >= 10 {
        assert(decimal(a).drop_last() =~= decimal(a / 10));
        assert(decimal(b).drop_last() =~= decimal(b / 10));
        lemma_decimal_injective(a / 10, b / 10);
    }
}

/// A text that ends in an underscore and a number is split in one way.
proof fn lemma_split_at_underscore(s: Seq<char>, t: Seq<char>, a: nat, b: nat)
    requires
        s + "_"@ + decimal(a) == t + "_"@ + decimal(b),
    ensures
        s == t,
        a == b,
{
    reveal_strlit("_");
    let u = "_"@;
    assert(u.len() == 1 && u[0] == '_');
    let whole = s + u + decimal(a);
    let other = t + u + decimal(b);
    assert(whole.len() == s.len() + 1 + decimal(a).len());
    assert(other.len() == t.len() + 1 + decimal(b).len());
    assert(whole[s.len() as int] == '_');
    assert(other[t.len() as int] == '_');
    if s.len() < t.len() {
        let i = t.len() - s.len() - 1;
        assert(whole[t.len() as int] == decimal(a)[i]);
        lemma_decimal_digits(a, i);
    } else if t.len() < s.len() {
        let i = s.len() - t.len() - 1;
        assert(other[s.len() as int] == decimal(b)[i]);
        lemma_decimal_digits(b, i);
    }
    assert(s =~= whole.take(s.len() as int));
    assert(t =~= other.take(t.len() as int));
    assert(decimal(a) =~= whole.skip(s.len() as int + 1));
    assert(decimal(b) =~= other.skip(t.len() as int + 1));
    lemma_decimal_injective(a, b);
}

/// Different processes have different names in file names.
proof fn lemma_file_stem_injective(p: ProcessView, q: ProcessView)
    requires
        file_stem(p) == file_stem(q),
    ensures
        p == q,
{
    reveal_strlit("Stone");
    reveal_strlit("Stick");
    reveal_strlit("Wood");
    reveal_strlit("Axe");
    reveal_strlit("BronzeAxe");
    reveal_strlit("Mock(\"");
    reveal_strlit("\")");
    assert("Stone"@[2] == 'o' && "Stick"@[2] == 'i');
    assert("Stone"@[0] == 'S' && "Stick"@[0] == 'S' && "Wood"@[0] == 'W' && "Axe"@[0] == 'A'
        && "BronzeAxe"@[0] == 'B' && "Mock(\""@[0] == 'M');
    assert(file_stem(p)[0] == file_stem(q)[0]);
    match (p, q) {
        (ProcessView::Mock(a), ProcessView::Mock(b)) => {
            let head = "Mock(\""@;
            let tail = "\")"@;
            assert(a =~= file_stem(p).subrange(
                head.len() as int,
                file_stem(p).len() - tail.len(),
            ));
            assert(b =~= file_stem(q).subrange(
                head.len() as int,
                file_stem(q).len() - tail.len(),
            ));
        },
        _ => {},
    }
}

/// Different processes, or different numbers of items, give different file names.
pub proof fn law_output_names_differ(p: ProcessView, q: ProcessView, a: nat, b: nat)
    requires
        output_name(p, a) == output_name(q, b),
    ensures
        p == q,
        a == b,
{
    lemma_split_at_underscore(file_stem(p), file_stem(q), a, b);
    lemma_file_stem_injective(p, q);
}

/// A file name is the name of its process, an underscore and the number of items, in digits that
/// are read back as that number.
pub proof fn law_file_names_tell_process_and_count(process: ProcessView, count: nat)
    ensures
        exists|stem: Seq<char>, digits: Seq<char>|
            {
                &&& output_name(process, count) == #[trigger] (stem + "_"@ + digits)
                &&& number_of(digits) == count
                &&& digits.len() > 0
                &&& forall|i: int| 0 <= i < digits.len() ==> '0' <= #[trigger] digits[i] <= '9'
                &&& digits[0] == '0' ==> count == 0
                &&& match process {
                    ProcessView::Mock(name) => stem == "Mock(\""@ + name + "\")"@,
                    _ => stem == shown_name(process),
                }
            },
{
    law_decimals_are_read_back(count);
    let stem = file_stem(process);
    let digits = decimal(count);
    assert(output_name(process, count) == stem + "_"@ + digits);
}

/// Every kind of input that a process needs is listed once, facilities first, then tools, then
/// ingredients, and a kind without inputs is not. Each input has its own line, and the line of an
/// ingredient has the number of the slot that the ingredient is put into.
pub proof fn law_every_input_has_its_line(data: ProcessDataView, i: int)
    ensures
        ({
            let list = sections_of(data);
            let facilities: int = if data.input_facilities.len() > 0 { 1 } else { 0 };
            let tools: int = if data.input_tools.len() > 0 { 1 } else { 0 };
            let ingredients: int = if data.input_ingredients.len() > 0 { 1 } else { 0 };
            &&& list.len() == facilities + tools + ingredients
            &&& facilities == 1 ==> shows(list[0], "Production Facility"@, data.input_facilities, i)
            &&& tools == 1 ==> shows(list[facilities], "Tools"@, data.input_tools, i)
            &&& ingredients == 1 ==> shows(
                list[facilities + tools],
                "Ingredients"@,
                data.input_ingredients,
                i,
            )
        }),
{
}

/// The section has the title of its kind and as many lines as there are inputs; the line `i` is
/// that of the input `i`, further to the right than the title.
pub open spec fn shows(
    section: SectionView,
    category: Seq<char>,
    inputs: Seq<Seq<char>>,
    i: int,
) -> bool {
    &&& section.title == "    "@ + category + ":"@
    &&& section.labels.len() == inputs.len()
    &&& 0 <= i < inputs.len() ==> section.labels[i] == "        "@ + inputs[i] + ":"@
}

/// Lists are seen one entry at a time, each in its place.
pub proof fn law_lists_are_seen_in_place(strings: Seq<String>, sections: Seq<Section>, i: int, j: int)
    ensures
        string_views(strings).len() == strings.len(),
        0 <= i < strings.len() ==> string_views(strings)[i] == strings[i]@,
        section_views(sections).len() == sections.len(),
        0 <= i < sections.len() ==> section_views(sections)[i].title == sections[i].title@,
        0 <= i < sections.len() ==> section_views(sections)[i].labels.len()
            == sections[i].labels@.len(),
        0 <= i < sections.len() && 0 <= j < sections[i].labels@.len() ==> section_views(
            sections,
        )[i].labels[j] == sections[i].labels@[j]@,
{
}

} // verus!
