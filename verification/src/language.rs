//! The language that predicates are written in: how a text is read, and how definitions are
//! written.
use vstd::prelude::*;
use crate::text::{is_space, trimmed_start};

verus! {

/// The lines of a text.
pub open spec fn lines(text: Seq<char>) -> Seq<Seq<char>>
    decreases text.len(),
{
    if text.len() == 0 {
        seq![Seq::empty()]
    } else {
        let before = lines(text.drop_last());
        if text.last() == '\n' {
            before.push(Seq::empty())
        } else {
            before.drop_last().push(before.last().push(text.last()))
        }
    }
}

/// A line without its indentation says nothing: it is empty or a comment.
pub open spec fn is_silent(line: Seq<char>) -> bool {
    line.len() == 0 || line.len() > 1 && line[0] == '/' && line[1] == '/'
}

/// The lines that say something, without their indentation.
pub open spec fn spoken(list: Seq<Seq<char>>) -> Seq<Seq<char>>
    decreases list.len(),
{
    if list.len() == 0 {
        Seq::empty()
    } else {
        let before = spoken(list.drop_last());
        let line = trimmed_start(list.last());
        if is_silent(line) {
            before
        } else {
            before.push(line)
        }
    }
}

/// A text as it is read: its lines without indentation, empty lines and comments.
pub open spec fn code(text: Seq<char>) -> Seq<Seq<char>> {
    spoken(lines(text))
}

/// An argument of a predicate.
pub enum Arg {
    /// A variable.
    Var(Seq<char>),
    /// An entry of a dictionary.
    Field(Seq<char>, Seq<char>),
    /// A text.
    Text(Seq<char>),
    /// A number.
    Raw(Seq<char>),
    /// A dictionary from texts to numbers.
    Dict(Seq<(Seq<char>, Seq<char>)>),
}

/// A predicate with its arguments.
pub struct Call {
    pub name: Seq<char>,
    pub args: Seq<Arg>,
}

/// The definition of a predicate.
pub struct Definition {
    pub name: Seq<char>,
    pub params: Seq<Seq<char>>,
    /// The variables that the definition asks to exist.
    pub private: Seq<Seq<char>>,
    /// One of the calls is to hold, not all.
    pub any: bool,
    pub body: Seq<Call>,
}

/// Words with commas between them.
pub open spec fn comma_list(words: Seq<Seq<char>>) -> Seq<char>
    decreases words.len(),
{
    if words.len() == 0 {
        Seq::empty()
    } else if words.len() == 1 {
        words[0]
    } else {
        comma_list(words.drop_last()) + ", "@ + words.last()
    }
}

/// A number as it is written.
pub open spec fn raw_text(number: Seq<char>) -> Seq<char> {
    "Raw("@ + number + ")"@
}

/// A text as it is written.
pub open spec fn quoted(text: Seq<char>) -> Seq<char> {
    "\""@ + text + "\""@
}

/// An argument as it is written.
pub open spec fn arg_text(arg: Arg) -> Seq<char> {
    match arg {
        Arg::Var(name) => name,
        Arg::Field(dict, key) => dict + "."@ + key,
        Arg::Text(text) => quoted(text),
        Arg::Raw(number) => raw_text(number),
        Arg::Dict(entries) => "{"@ + comma_list(
            entries.map_values(|e: (Seq<char>, Seq<char>)| quoted(e.0) + ": "@ + raw_text(e.1)),
        ) + "}"@,
    }
}

/// A predicate with its arguments as it is written.
pub open spec fn call_text(call: Call) -> Seq<char> {
    call.name + "("@ + comma_list(call.args.map_values(|arg: Arg| arg_text(arg))) + ")"@
}

/// The first line of a definition.
pub open spec fn head_text(definition: Definition) -> Seq<char> {
    let private = if definition.private.len() == 0 {
        Seq::empty()
    } else {
        ", private: "@ + comma_list(definition.private)
    };
    let connective = if definition.any {
        "OR"@
    } else {
        "AND"@
    };
    definition.name + "("@ + comma_list(definition.params) + private + ") = "@ + connective + "("@
}

/// The lines of a definition.
pub open spec fn definition_code(definition: Definition) -> Seq<Seq<char>> {
    seq![head_text(definition)] + definition.body.map_values(|call: Call| call_text(call))
        + seq![")"@]
}

/// The lines of a list of definitions.
pub open spec fn program_code(program: Seq<Definition>) -> Seq<Seq<char>>
    decreases program.len(),
{
    if program.len() == 0 {
        Seq::empty()
    } else {
        program_code(program.drop_last()) + definition_code(program.last())
    }
}

/// `n` blanks.
pub open spec fn blanks(n: nat) -> Seq<char> {
    Seq::new(n, |i: int| ' ')
}

/// `text` with one more line.
pub open spec fn line(text: Seq<char>, indent: nat, content: Seq<char>) -> Seq<char> {
    text + seq!['\n'] + blanks(indent) + content
}

/// The text holds no line break.
pub open spec fn no_break(text: Seq<char>) -> bool {
    forall|i: int| 0 <= i < text.len() ==> #[trigger] text[i] != '\n'
}

/// What stands in a line behind the indentation.
pub open spec fn is_content(content: Seq<char>) -> bool {
    &&& content.len() > 0 ==> !is_space(content[0])
    &&& no_break(content)
}

/// What is read once a line has been read too.
pub open spec fn with_line(list: Seq<Seq<char>>, content: Seq<char>) -> Seq<Seq<char>> {
    if is_silent(content) {
        list
    } else {
        list.push(content)
    }
}

proof fn lemma_lines_not_empty(text: Seq<char>)
    ensures
        lines(text).len() > 0,
    decreases text.len(),
{
    if text.len() > 0 {
        lemma_lines_not_empty(text.drop_last());
    }
}

/// What holds no line break goes on with the last line.
proof fn lemma_lines_go_on(text: Seq<char>, more: Seq<char>)
    requires
        no_break(more),
    ensures
        lines(text + more) == lines(text).drop_last().push(lines(text).last() + more),
    decreases more.len(),
{
    lemma_lines_not_empty(text);
    if more.len() == 0 {
        assert(text + more =~= text);
        assert(lines(text).last() + more =~= lines(text).last());
        assert(lines(text) =~= lines(text).drop_last().push(lines(text).last()));
    } else {
        let init = more.drop_last();
        lemma_lines_go_on(text, init);
        let whole = text + more;
        assert(whole.drop_last() =~= text + init);
        assert(whole.last() == more.last());
        assert(lines(text + init).drop_last() =~= lines(text).drop_last());
        assert(lines(text).last() + more =~= (lines(text).last() + init).push(more.last()));
    }
}

/// Blanks before a content are trimmed away.
proof fn lemma_indent_is_trimmed(n: nat, content: Seq<char>)
    requires
        content.len() > 0 ==> !is_space(content[0]),
    ensures
        trimmed_start(blanks(n) + content) == content,
    decreases n,
{
    let whole = blanks(n) + content;
    if n == 0 {
        assert(whole =~= content);
    } else {
        lemma_indent_is_trimmed((n - 1) as nat, content);
        assert(whole[0] == ' ');
        assert(whole.drop_first() =~= blanks((n - 1) as nat) + content);
    }
}

/// One more line is read as its content, unless that says nothing.
pub proof fn lemma_code_of_line(text: Seq<char>, indent: nat, content: Seq<char>)
    requires
        is_content(content),
    ensures
        code(line(text, indent, content)) == with_line(code(text), content),
{
    let broken = text + seq!['\n'];
    let more = blanks(indent) + content;
    assert(line(text, indent, content) =~= broken + more);
    assert(broken.drop_last() =~= text);
    assert(lines(broken) == lines(text).push(Seq::empty()));
    assert forall|i: int| 0 <= i < more.len() implies #[trigger] more[i] != '\n' by {
        if i >= indent {
            assert(more[i] == content[i - indent]);
        }
    }
    lemma_lines_go_on(broken, more);
    assert(Seq::<char>::empty() + more =~= more);
    assert(lines(broken).drop_last() =~= lines(text));
    assert(lines(broken + more) == lines(text).push(more));
    lemma_indent_is_trimmed(indent, content);
    assert(lines(text).push(more).drop_last() =~= lines(text));
}

/// What goes on with the last line goes on with its content.
pub proof fn lemma_line_goes_on(text: Seq<char>, indent: nat, content: Seq<char>, more: Seq<char>)
    ensures
        line(text, indent, content) + more == line(text, indent, content + more),
{
    assert(line(text, indent, content) + more =~= line(text, indent, content + more));
}

/// A line of what follows is a line of the whole.
pub proof fn lemma_line_follows(text: Seq<char>, more: Seq<char>, indent: nat, content: Seq<char>)
    ensures
        text + line(more, indent, content) == line(text + more, indent, content),
{
    assert(text + line(more, indent, content) =~= line(text + more, indent, content));
}

/// What goes on with a content is a content, and speaks if the content does.
pub proof fn lemma_content_goes_on(content: Seq<char>, more: Seq<char>)
    requires
        is_content(content),
        content.len() > 1,
        no_break(more),
    ensures
        is_content(content + more),
        is_silent(content + more) == is_silent(content),
{
    let whole = content + more;
    assert forall|i: int| 0 <= i < whole.len() implies #[trigger] whole[i] != '\n' by {
        if i >= content.len() {
            assert(whole[i] == more[i - content.len()]);
        } else {
            assert(whole[i] == content[i]);
        }
    }
}

/// A text without characters says nothing.
pub proof fn lemma_code_of_nothing()
    ensures
        code(Seq::empty()) == Seq::<Seq<char>>::empty(),
{
    let list = lines(Seq::empty());
    assert(list =~= seq![Seq::<char>::empty()]);
    assert(list.drop_last() =~= Seq::<Seq<char>>::empty());
    assert(spoken(list.drop_last()) =~= Seq::<Seq<char>>::empty());
    assert(trimmed_start(list.last()) =~= Seq::<char>::empty());
}

} // verus!
