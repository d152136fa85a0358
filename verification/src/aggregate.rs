//! Output aggregation: folding the compiler's generated files into one
//! source blob.
//!
//! The walk of the scratch output directory is I/O and happens outside; it
//! hands in, in its stable traversal order, each entry it saw: a regular
//! file with its full text, an entry it could not read, or something that is
//! not a regular file. Every regular file is wrapped in a module named after
//! its stem — its file name without the final extension — and the wrapped
//! units are concatenated in traversal order. Two files with the same stem
//! yield two scopes with the same name; the aggregator does not rename or
//! merge them. A stem that is not a plain identifier fails loudly.

use crate::path::split_path;
use crate::{ErrorModel, PipelineError};
use vstd::prelude::*;

verus! {

/// One entry seen while walking the compiler's output directory.
pub enum OutputItem {
    /// A regular file and its full text.
    File { path: String, content: String },
    /// An entry that could not be read back.
    Unreadable { path: String },
    /// An entry that is not a regular file; it is skipped.
    Other { path: String },
}

/// The index of the last `.` in `name`, or -1 if there is none.
pub open spec fn last_dot(name: Seq<char>) -> int
    decreases name.len(),
{
    if name.len() == 0 {
        -1
    } else if name[name.len() - 1] == '.' {
        name.len() - 1
    } else {
        last_dot(name.drop_last())
    }
}

/// The file name of a path: everything after its last separator.
pub open spec fn file_name_of(path: Seq<char>) -> Seq<char> {
    split_path(path).last()
}

/// The stem of a file name: the part before the last `.`, or the whole name
/// if there is no `.` past the first character.
pub open spec fn stem_of(name: Seq<char>) -> Seq<char> {
    let d = last_dot(name);
    if d <= 0 {
        name
    } else {
        name.take(d)
    }
}

pub open spec fn is_ident_start(c: char) -> bool {
    (65 <= c as u32 <= 90) || (97 <= c as u32 <= 122) || c == '_'
}

pub open spec fn is_ident_char(c: char) -> bool {
    is_ident_start(c) || (48 <= c as u32 <= 57)
}

/// Whether `n` can name a module: non-empty, not `_` alone, an ASCII letter
/// or underscore first and only ASCII letters, digits and underscores after.
/// Reserved words are not screened out; non-colliding schema file names are
/// the caller's concern.
pub open spec fn is_valid_module_name(n: Seq<char>) -> bool {
    n.len() > 0 && n != seq!['_'] && is_ident_start(n[0]) && (forall|i: int|
        0 <= i < n.len() ==> is_ident_char(#[trigger] n[i]))
}

/// One generated file wrapped in its named scope.
pub open spec fn wrap_module(name: Seq<char>, content: Seq<char>) -> Seq<char> {
    "mod "@ + name + " {\n"@ + content + "\n}\n"@
}

/// The aggregated output of the walked entries: every regular file wrapped
/// and concatenated in traversal order — or the first failure, an entry
/// that could not be read back or a stem that cannot name a module.
pub open spec fn aggregate_spec(items: Seq<OutputItem>) -> Result<Seq<char>, ErrorModel>
    decreases items.len(),
{
    if items.len() == 0 {
        Ok(Seq::empty())
    } else {
        match items[0] {
            OutputItem::Unreadable { path } => Err(ErrorModel::Aggregation { path: path@ }),
            OutputItem::Other { .. } => aggregate_spec(items.skip(1)),
            OutputItem::File { path, content } => {
                let name = stem_of(file_name_of(path@));
                if !is_valid_module_name(name) {
                    Err(ErrorModel::InvalidModuleName { name })
                } else {
                    match aggregate_spec(items.skip(1)) {
                        Ok(rest) => Ok(wrap_module(name, content@) + rest),
                        Err(e) => Err(e),
                    }
                }
            },
        }
    }
}

pub proof fn lemma_last_dot_bounds(name: Seq<char>)
    ensures
        -1 <= last_dot(name) < name.len(),
    decreases name.len(),
{
    if name.len() > 0 && name[name.len() - 1] != '.' {
        lemma_last_dot_bounds(name.drop_last());
    }
}

/// The index just past the last `.` of `name`, packaged for `take`: returns
/// `last_dot(name@)` as an option on executable integers.
fn find_last_dot(name: &Vec<char>) -> (r: Option<usize>)
    ensures
        (match r {
            Some(d) => last_dot(name@) == d,
            None => last_dot(name@) == -1,
        }),
{
    let mut j: usize = name.len();
    proof {
        assert(name@.take(name@.len() as int) =~= name@);
    }
    while j > 0
        invariant
            j <= name@.len(),
            last_dot(name@.take(j as int)) == last_dot(name@),
        decreases j,
    {
        proof {
            assert(name@.take(j as int).len() == j);
            assert(name@.take(j as int)[j - 1] == name@[j - 1]);
            assert(name@.take(j as int).drop_last() =~= name@.take(j - 1));
        }
        if name[j - 1] == '.' {
            return Some(j - 1);
        }
        j = j - 1;
    }
    proof {
        assert(name@.take(0) =~= Seq::<char>::empty());
    }
    None
}

/// Whether `n` can name a module, mirroring `is_valid_module_name`.
pub fn check_module_name(n: &Vec<char>) -> (r: bool)
    ensures
        r == is_valid_module_name(n@),
{
    if n.len() == 0 {
        return false;
    }
    if n.len() == 1 && n[0] == '_' {
        proof {
            assert(n@ =~= seq!['_']);
        }
        return false;
    }
    let c0 = n[0];
    if !((c0 as u32 >= 65 && c0 as u32 <= 90) || (c0 as u32 >= 97 && c0 as u32 <= 122) || c0
        == '_') {
        return false;
    }
    let mut i: usize = 0;
    while i < n.len()
        invariant
            i <= n@.len(),
            forall|j: int| 0 <= j < i ==> is_ident_char(#[trigger] n@[j]),
        decreases n@.len() - i,
    {
        let c = n[i];
        if !((c as u32 >= 65 && c as u32 <= 90) || (c as u32 >= 97 && c as u32 <= 122) || (c as u32
            >= 48 && c as u32 <= 57) || c == '_') {
            return false;
        }
        i = i + 1;
    }
    proof {
        assert(n@ != seq!['_']) by {
            if n@ == seq!['_'] {
                assert(n@.len() == 1 && n@[0] == '_');
            }
        }
    }
    true
}

/// The module name a generated file's path yields: the stem of its file
/// name, if that stem can name a module.
pub fn derive_module_name(path: &str) -> (r: Result<String, PipelineError>)
    ensures
        ({
            let name = stem_of(file_name_of(path@));
            if is_valid_module_name(name) {
                r matches Ok(s) && s@ == name
            } else {
                r matches Err(e) && e@ == (ErrorModel::InvalidModuleName { name })
            }
        }),
{
    let chars = crate::text::str_to_chars(path);
    let pieces = crate::path::split_from(&chars, 0);
    proof {
        assert(chars@.skip(0) =~= chars@);
        crate::path::lemma_split_path_len(path@);
    }
    let file_name = &pieces[pieces.len() - 1];
    proof {
        assert(file_name@ == crate::path::views_of(pieces@).last());
    }
    let stem_end: usize = match find_last_dot(file_name) {
        Some(d) => {
            if d == 0 {
                file_name.len()
            } else {
                d
            }
        },
        None => file_name.len(),
    };
    let mut stem: Vec<char> = Vec::new();
    let mut i: usize = 0;
    proof {
        lemma_last_dot_bounds(file_name@);
        assert(stem_end <= file_name@.len());
        assert(file_name@.take(file_name@.len() as int) =~= file_name@);
        assert(stem_of(file_name@) == file_name@.take(stem_end as int));
    }
    while i < stem_end
        invariant
            i <= stem_end,
            stem_end <= file_name@.len(),
            stem@ == file_name@.take(stem_end as int).take(i as int),
        decreases stem_end - i,
    {
        stem.push(file_name[i]);
        proof {
            assert(file_name@.take(stem_end as int).take(i + 1 as int) =~= file_name@.take(
                stem_end as int,
            ).take(i as int).push(file_name@[i as int]));
        }
        i = i + 1;
    }
    proof {
        assert(file_name@.take(stem_end as int).take(stem_end as int) =~= file_name@.take(
            stem_end as int,
        ));
    }
    if check_module_name(&stem) {
        Ok(crate::text::chars_to_string(&stem))
    } else {
        Err(PipelineError::InvalidModuleNameError { name: crate::text::chars_to_string(&stem) })
    }
}

/// Wraps one generated file's content in the scope its stem names.
pub fn module_unit(path: &str, content: &str) -> (r: Result<String, PipelineError>)
    ensures
        ({
            let name = stem_of(file_name_of(path@));
            if is_valid_module_name(name) {
                r matches Ok(s) && s@ == wrap_module(name, content@)
            } else {
                r matches Err(e) && e@ == (ErrorModel::InvalidModuleName { name })
            }
        }),
{
    match derive_module_name(path) {
        Err(e) => Err(e),
        Ok(name) => {
            let mut out = String::new();
            out.append("mod ");
            out.append(name.as_str());
            out.append(" {\n");
            out.append(content);
            out.append("\n}\n");
            Ok(out)
        },
    }
}

/// Aggregates the walked output entries from `from` on.
fn aggregate_from(items: &Vec<OutputItem>, from: usize) -> (r: Result<String, PipelineError>)
    requires
        from <= items@.len(),
    ensures
        (match aggregate_spec(items@.skip(from as int)) {
            Ok(t) => r matches Ok(s) && s@ == t,
            Err(m) => r matches Err(e) && e@ == m,
        }),
    decreases items@.len() - from,
{
    let ghost s = items@.skip(from as int);
    if from == items.len() {
        proof {
            assert(s =~= Seq::<OutputItem>::empty());
        }
        Ok(String::new())
    } else {
        proof {
            assert(s[0] == items@[from as int]);
            assert(s.skip(1) =~= items@.skip(from + 1 as int));
        }
        match &items[from] {
            OutputItem::Unreadable { path } => Err(
                PipelineError::AggregationError { path: path.clone() },
            ),
            OutputItem::Other { .. } => aggregate_from(items, from + 1),
            OutputItem::File { path, content } => {
                match module_unit(path.as_str(), content.as_str()) {
                    Err(e) => Err(e),
                    Ok(unit) => {
                        match aggregate_from(items, from + 1) {
                            Err(e) => Err(e),
                            Ok(rest) => Ok(unit.concat(rest.as_str())),
                        }
                    },
                }
            },
        }
    }
}

/// Folds the compiler's generated files into one blob: each regular file
/// wrapped in the module scope its stem names, concatenated in traversal
/// order. An empty walk yields the empty blob, not an error. The first
/// entry that cannot be read back, or the first stem that cannot name a
/// module, fails the whole aggregation.
pub fn aggregate(items: &Vec<OutputItem>) -> (r: Result<String, PipelineError>)
    ensures
        (match aggregate_spec(items@) {
            Ok(t) => r matches Ok(s) && s@ == t,
            Err(m) => r matches Err(e) && e@ == m,
        }),
{
    proof {
        assert(items@.skip(0) =~= items@);
    }
    aggregate_from(items, 0)
}

} // verus!
