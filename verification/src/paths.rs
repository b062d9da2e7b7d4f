//! Paths of files in a directory.
use vstd::prelude::*;
use crate::panel::{file_stem, law_output_names_differ, output_name};
use crate::process::ProcessView;

verus! {

/// The character separates the components of paths, on some platform.
pub open spec fn is_separator(c: char) -> bool {
    c == '/' || c == '\\'
}

/// The path starts neither at a root nor at a drive, on any platform.
pub open spec fn is_relative(path: Seq<char>) -> bool {
    &&& path.len() > 0 ==> !is_separator(path[0])
    &&& path.len() > 1 ==> path[1] != ':'
}

/// The path may start with a prefix: a drive, or two separators as those of a share do.
pub open spec fn may_have_prefix(path: Seq<char>) -> bool {
    path.len() > 1 && (path[1] == ':' || is_separator(path[0]) && is_separator(path[1]))
}

/// The path may start with the prefix `\\?\`, after which some platforms normalize what is joined.
pub open spec fn may_be_verbatim(path: Seq<char>) -> bool {
    path.len() > 3 && is_separator(path[0]) && is_separator(path[1]) && path[2] == '?'
        && is_separator(path[3])
}

/// `path` is that of the file `file` in the directory `dir`, on some platform.
///
/// A relative file follows the directory, after a separator of the platform if the directory is
/// not empty and does not end in one; none follows a drive. A file that is given from the root
/// stands for itself, unless the directory has a prefix to keep.
pub open spec fn adjoined(path: Seq<char>, dir: Seq<char>, file: Seq<char>) -> bool {
    &&& is_relative(file) && !may_be_verbatim(dir) ==> if dir.len() == 0 || dir.last() == '/' {
        path == dir + file
    } else {
        ||| path == dir + seq!['/'] + file
        ||| path == dir + seq!['\\'] + file
        ||| path == dir + file && (dir.last() == '\\' || dir.len() == 2 && dir[1] == ':')
    }
    &&& file.len() > 0 && file[0] == '/' && !may_have_prefix(dir) ==> path == file
}

/// The path of `file` in the directory `dir`, by [`std::path::Path::join`].
///
/// Claimed is what holds of it on every platform: a relative file is put behind the directory, and
/// one that is given from the root replaces it. Which separator is written, and what becomes of the
/// prefixes that only Windows knows, depends on the platform and is not claimed.
#[verifier::external_body]
pub(crate) fn join_path(dir: &str, file: &str) -> (r: String)
    ensures
        adjoined(r@, dir@, file@),
{
    std::path::Path::new(dir).join(file).to_string_lossy().into_owned()
}

/// In one directory, different processes or different numbers of items give different paths.
pub proof fn law_output_paths_differ(
    dir: Seq<char>,
    p: ProcessView,
    q: ProcessView,
    a: nat,
    b: nat,
    path: Seq<char>,
)
    requires
        !may_be_verbatim(dir),
        adjoined(path, dir, output_name(p, a)),
        adjoined(path, dir, output_name(q, b)),
    ensures
        p == q,
        a == b,
{
    let first = output_name(p, a);
    let second = output_name(q, b);
    lemma_output_name_is_relative(p, a);
    lemma_output_name_is_relative(q, b);
    let n = dir.len() as int;
    if is_separator(path[n]) {
        assert(first =~= path.skip(n + 1));
        assert(second =~= path.skip(n + 1));
    } else {
        assert(first =~= path.skip(n));
        assert(second =~= path.skip(n));
    }
    law_output_names_differ(p, q, a, b);
}

/// A file that is named after its process is relative.
proof fn lemma_output_name_is_relative(process: ProcessView, count: nat)
    ensures
        output_name(process, count).len() > 0,
        is_relative(output_name(process, count)),
{
    reveal_strlit("Stone");
    reveal_strlit("Stick");
    reveal_strlit("Wood");
    reveal_strlit("Axe");
    reveal_strlit("BronzeAxe");
    reveal_strlit("Mock(\"");
    assert("Stone"@[0] == 'S' && "Stick"@[0] == 'S' && "Wood"@[0] == 'W' && "Axe"@[0] == 'A'
        && "BronzeAxe"@[0] == 'B' && "Mock(\""@[0] == 'M');
    assert("Stone"@[1] == 't' && "Stick"@[1] == 't' && "Wood"@[1] == 'o' && "Axe"@[1] == 'x'
        && "BronzeAxe"@[1] == 'r' && "Mock(\""@[1] == 'o');
    assert(output_name(process, count)[0] == file_stem(process)[0]);
    assert(output_name(process, count)[1] == file_stem(process)[1]);
}

/// A relative file in a directory that ends in no separator and is no drive has the path of the
/// directory, one separator and the file.
pub proof fn law_files_lie_in_their_directory(path: Seq<char>, dir: Seq<char>, file: Seq<char>)
    requires
        adjoined(path, dir, file),
        is_relative(file),
        !may_be_verbatim(dir),
        dir.len() > 0,
        dir.last() != '/' && dir.last() != '\\' && dir.last() != ':',
    ensures
        path.len() == dir.len() + 1 + file.len(),
        path.take(dir.len() as int) == dir,
        path[dir.len() as int] == '/' || path[dir.len() as int] == '\\',
        path.skip(dir.len() as int + 1) == file,
{
    assert(path.take(dir.len() as int) =~= dir);
    assert(path.skip(dir.len() as int + 1) =~= file);
}

} // verus!
