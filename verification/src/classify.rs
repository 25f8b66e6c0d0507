//! Classification of regular files by the extension of their name.

use vstd::prelude::*;

verus! {

/// The role that a regular file plays in the explorer.
#[derive(Clone, Copy, Debug, PartialEq, Eq, Structural)]
pub enum FileKind {
    /// A query definition: extension `sql`.
    Query,
    /// A raw dataset: extension `csv`, `xlsx` or `parquet`.
    Data,
    /// Anything else; such a file is never shown.
    Ignored,
}

/// The lower-case form of an ASCII capital letter; any other character itself.
pub open spec fn fold_ascii(c: char) -> char {
    if 'A' <= c && c <= 'Z' {
        ((c as u8) + 32) as u8 as char
    } else {
        c
    }
}

/// `text` with every ASCII capital letter replaced by its lower-case form.
pub open spec fn folded(text: Seq<char>) -> Seq<char> {
    Seq::new(text.len(), |i: int| fold_ascii(text[i]))
}

/// Whether position `i` of `name` holds its last dot.
pub open spec fn is_last_dot(name: Seq<char>, i: int) -> bool {
    &&& 0 <= i < name.len()
    &&& name[i] == '.'
    &&& forall|j: int| i < j < name.len() ==> name[j] != '.'
}

/// The extension of a file name: what follows its last dot, provided that the
/// dot is not the first character of the name. A name without a dot, and a
/// name such as `.profile`, has no extension.
pub open spec fn extension_of(name: Seq<char>) -> Option<Seq<char>> {
    if exists|i: int| 0 < i && is_last_dot(name, i) {
        let dot = choose|i: int| 0 < i && is_last_dot(name, i);
        Some(name.skip(dot + 1))
    } else {
        None
    }
}

/// The extension of query definitions.
pub open spec fn query_extension() -> Seq<char> {
    "sql"@
}

/// Whether `extension` is one of the three extensions of datasets.
pub open spec fn is_data_extension(extension: Seq<char>) -> bool {
    extension == "csv"@ || extension == "xlsx"@ || extension == "parquet"@
}

/// The kind of a file named `name`: decided by its extension alone, without
/// regard to the case of ASCII letters.
pub open spec fn kind_of(name: Seq<char>) -> FileKind {
    match extension_of(name) {
        Some(extension) => {
            if folded(extension) == query_extension() {
                FileKind::Query
            } else if is_data_extension(folded(extension)) {
                FileKind::Data
            } else {
                FileKind::Ignored
            }
        },
        None => FileKind::Ignored,
    }
}

/// Whether `name` has one of the four extensions that make a file a leaf of
/// the index, in any mix of upper and lower case.
pub open spec fn has_known_extension(name: Seq<char>) -> bool {
    match extension_of(name) {
        Some(extension) => folded(extension) == query_extension() || is_data_extension(
            folded(extension),
        ),
        None => false,
    }
}

/// Two last dots of one name are the same dot.
pub proof fn lemma_last_dot_unique(name: Seq<char>, i: int, j: int)
    requires
        is_last_dot(name, i),
        is_last_dot(name, j),
    ensures
        i == j,
{
}

/// The characters of `text`, in order.
pub(crate) fn characters(text: &str) -> (chars: Vec<char>)
    ensures
        chars@ == text@,
{
    let mut chars: Vec<char> = Vec::new();
    for c in it: text.chars()
        invariant
            chars@ == it.seq().take(it.index() as int),
    {
        chars.push(c);
    }
    chars
}

/// The lower-case form of `c` where it is an ASCII capital letter, else `c`.
fn fold(c: char) -> (r: char)
    ensures
        r == fold_ascii(c),
{
    if 'A' <= c && c <= 'Z' {
        ((c as u8) + 32) as char
    } else {
        c
    }
}

/// Where the extension of `name` begins, if it has one.
fn extension_start(name: &Vec<char>) -> (start: Option<usize>)
    ensures
        match start {
            Some(at) => 1 < at <= name.len() && is_last_dot(name@, at - 1)
                && extension_of(name@) == Some(name@.skip(at as int)),
            None => extension_of(name@) is None,
        },
{
    let mut i: usize = name.len();
    while i > 0
        invariant
            i <= name.len(),
            forall|j: int| i <= j < name.len() ==> name@[j] != '.',
        decreases i,
    {
        i -= 1;
        if name[i] == '.' {
            if i == 0 {
                proof {
                    assert forall|k: int| 0 < k implies !is_last_dot(name@, k) by {}
                }
                return None;
            }
            proof {
                assert(is_last_dot(name@, i as int));
                let dot = choose|k: int| 0 < k && is_last_dot(name@, k);
                lemma_last_dot_unique(name@, i as int, dot);
            }
            return Some(i + 1);
        }
    }
    None
}

/// Whether the part of `name` from `start` on reads as `pattern` once ASCII
/// capitals are folded.
fn tail_matches(name: &Vec<char>, start: usize, pattern: &str) -> (matches: bool)
    requires
        start <= name.len(),
    ensures
        matches == (folded(name@.skip(start as int)) == pattern@),
{
    let wanted = characters(pattern);
    if name.len() - start != wanted.len() {
        return false;
    }
    let mut i: usize = 0;
    while i < wanted.len()
        invariant
            start <= name.len(),
            name.len() - start == wanted.len(),
            i <= wanted.len(),
            wanted@ == pattern@,
            forall|j: int| 0 <= j < i ==> fold_ascii(name@[start + j]) == wanted@[j],
        decreases wanted.len() - i,
    {
        if fold(name[start + i]) != wanted[i] {
            proof {
                assert(folded(name@.skip(start as int))[i as int] == fold_ascii(name@[start + i]));
            }
            return false;
        }
        i += 1;
    }
    proof {
        assert(folded(name@.skip(start as int)) =~= pattern@);
    }
    true
}

/// Classifies a regular file by its name.
pub fn classify(name: &str) -> (kind: FileKind)
    ensures
        kind == kind_of(name@),
{
    let chars = characters(name);
    match extension_start(&chars) {
        Some(start) => {
            if tail_matches(&chars, start, "sql") {
                FileKind::Query
            } else if tail_matches(&chars, start, "csv") || tail_matches(&chars, start, "xlsx")
                || tail_matches(&chars, start, "parquet") {
                FileKind::Data
            } else {
                FileKind::Ignored
            }
        },
        None => FileKind::Ignored,
    }
}

} // verus!
