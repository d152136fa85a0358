//! File discovery: filtering a walked directory tree through the matcher.
//!
//! The traversal itself is I/O and happens outside; it hands in the entries
//! it saw, in its stable traversal order, as `WalkItem`s. Discovery
//! normalizes each regular file's path, keeps the ones the matcher accepts,
//! and hands back the eligible paths in the same order — or fails on the
//! first entry the traversal could not read, with nothing kept.

use crate::glob::{matcher_matches, CombinedMatcher, SpecSeg};
use crate::path::normalize_spec;
use crate::{ErrorModel, PipelineError};
use vstd::prelude::*;

verus! {

/// One entry seen while walking the project tree.
pub enum WalkItem {
    /// An entry, with its path as the traversal reported it and whether it
    /// is a regular file.
    Entry { path: String, is_file: bool },
    /// An entry that could not be read.
    Unreadable { path: String },
}

/// The normalized paths of the regular-file entries the matcher accepts, in
/// traversal order — or the path of the first unreadable entry.
pub open spec fn discover_spec(items: Seq<WalkItem>, m: Seq<Seq<SpecSeg>>) -> Result<
    Seq<Seq<char>>,
    Seq<char>,
>
    decreases items.len(),
{
    if items.len() == 0 {
        Ok(Seq::empty())
    } else {
        match items[0] {
            WalkItem::Unreadable { path } => Err(path@),
            WalkItem::Entry { path, is_file } => match discover_spec(items.skip(1), m) {
                Err(p) => Err(p),
                Ok(rest) => if is_file && matcher_matches(m, path@) {
                    Ok(seq![normalize_spec(path@)] + rest)
                } else {
                    Ok(rest)
                },
            },
        }
    }
}

/// The views of a vector of strings.
pub open spec fn string_views(v: Seq<String>) -> Seq<Seq<char>> {
    v.map_values(|s: String| s@)
}

/// Discovers the eligible files among the items from `from` on.
fn discover_from(matcher: &CombinedMatcher, items: &Vec<WalkItem>, from: usize) -> (r: Result<
    Vec<String>,
    PipelineError,
>)
    requires
        from <= items@.len(),
    ensures
        (match discover_spec(items@.skip(from as int), matcher@) {
            Ok(l) => r matches Ok(v) && string_views(v@) == l,
            Err(p) => r matches Err(e) && e@ == (ErrorModel::Discovery { path: p }),
        }),
    decreases items@.len() - from,
{
    let ghost s = items@.skip(from as int);
    if from == items.len() {
        let r: Vec<String> = Vec::new();
        proof {
            assert(s =~= Seq::<WalkItem>::empty());
            assert(string_views(r@) =~= Seq::<Seq<char>>::empty());
        }
        Ok(r)
    } else {
        proof {
            assert(s[0] == items@[from as int]);
            assert(s.skip(1) =~= items@.skip(from + 1 as int));
        }
        match &items[from] {
            WalkItem::Unreadable { path } => Err(
                PipelineError::DiscoveryError { path: path.clone() },
            ),
            WalkItem::Entry { path, is_file } => {
                match discover_from(matcher, items, from + 1) {
                    Err(e) => Err(e),
                    Ok(mut v) => {
                        if *is_file && crate::glob::is_match(matcher, path.as_str()) {
                            let normalized = crate::path::normalize_path(path.as_str());
                            let ghost tail = string_views(v@);
                            let ghost nv = normalized@;
                            v.insert(0, normalized);
                            proof {
                                assert(string_views(v@) =~= seq![nv] + tail);
                            }
                            Ok(v)
                        } else {
                            Ok(v)
                        }
                    },
                }
            },
        }
    }
}

/// Filters the walked entries through the matcher: each regular file whose
/// normalized path the matcher accepts becomes one input file of the
/// compiler command, in traversal order. The first unreadable entry fails
/// the whole discovery with a `DiscoveryError` naming its path.
pub fn discover(matcher: &CombinedMatcher, items: &Vec<WalkItem>) -> (r: Result<
    Vec<String>,
    PipelineError,
>)
    ensures
        (match discover_spec(items@, matcher@) {
            Ok(l) => r matches Ok(v) && string_views(v@) == l,
            Err(p) => r matches Err(e) && e@ == (ErrorModel::Discovery { path: p }),
        }),
{
    proof {
        assert(items@.skip(0) =~= items@);
    }
    discover_from(matcher, items, 0)
}

} // verus!
