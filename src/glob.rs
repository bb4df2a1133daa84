use vstd::prelude::*;
use vstd::multiset::Multiset;
use crate::sort::{ListingKey, listing_sorted, sort_by_lowercase_path};

verus! {

/// A path that could not be listed or resolved. Paths are raw bytes.
#[derive(Debug)]
pub enum GlobEvaluationError {
    /// The walk over the file system could not read an entry.
    GlobError { path_buf: Vec<u8>, description: String },
    /// A matched entry could not be canonicalized.
    Other { path_buf: Vec<u8>, description: String },
}

impl GlobEvaluationError {
    pub open spec fn path_view(&self) -> Seq<u8> {
        match self {
            GlobEvaluationError::GlobError { path_buf, .. } => path_buf@,
            GlobEvaluationError::Other { path_buf, .. } => path_buf@,
        }
    }

    pub fn path(&self) -> (r: &Vec<u8>)
        ensures
            r@ == self.path_view(),
    {
        match self {
            GlobEvaluationError::GlobError { path_buf, .. } => path_buf,
            GlobEvaluationError::Other { path_buf, .. } => path_buf,
        }
    }

    /// What went wrong, for the log.
    pub fn description(&self) -> (r: &String)
        ensures
            r@ == match self {
                GlobEvaluationError::GlobError { description, .. } => description@,
                GlobEvaluationError::Other { description, .. } => description@,
            },
    {
        match self {
            GlobEvaluationError::GlobError { description, .. } => description,
            GlobEvaluationError::Other { description, .. } => description,
        }
    }
}

impl ListingKey for GlobEvaluationError {
    open spec fn listing_key(&self) -> Seq<u8> {
        self.path_view()
    }

    fn key_bytes(&self) -> (r: &Vec<u8>) {
        self.path()
    }
}

/// One result of walking a pattern over the file system.
#[derive(Debug)]
pub enum GlobEntry {
    /// An entry that matched: whether it is a symbolic link, and its canonical
    /// form or why that could not be had.
    Matched { path: Vec<u8>, is_symlink: bool, canonical: Result<Vec<u8>, String> },
    /// An entry that the walk could not read.
    Unreadable { path: Vec<u8>, description: String },
}

/// Whether a matched entry is looked at: symbolic links only when asked for.
pub open spec fn admits(is_symlink: bool, include_symlinks: bool) -> bool {
    include_symlinks || !is_symlink
}

/// The canonical path that an entry contributes, if any.
pub open spec fn entry_path(e: GlobEntry, include_symlinks: bool) -> Option<Vec<u8>> {
    match e {
        GlobEntry::Matched { is_symlink, canonical, .. } => {
            if admits(is_symlink, include_symlinks) {
                match canonical {
                    Ok(p) => Some(p),
                    Err(_) => None,
                }
            } else {
                None
            }
        },
        GlobEntry::Unreadable { .. } => None,
    }
}

/// The discovery error that an entry contributes, if any.
pub open spec fn entry_error(e: GlobEntry, include_symlinks: bool) -> Option<GlobEvaluationError> {
    match e {
        GlobEntry::Matched { path, is_symlink, canonical } => {
            if admits(is_symlink, include_symlinks) {
                match canonical {
                    Ok(_) => None,
                    Err(description) => Some(
                        GlobEvaluationError::Other { path_buf: path, description },
                    ),
                }
            } else {
                None
            }
        },
        GlobEntry::Unreadable { path, description } => Some(
            GlobEvaluationError::GlobError { path_buf: path, description },
        ),
    }
}

/// The canonical paths of the entries, in the order of the walk.
pub open spec fn found_paths(es: Seq<GlobEntry>, include_symlinks: bool) -> Seq<Vec<u8>>
    decreases es.len(),
{
    if es.len() == 0 {
        Seq::empty()
    } else {
        let rest = found_paths(es.drop_first(), include_symlinks);
        match entry_path(es[0], include_symlinks) {
            Some(p) => seq![p] + rest,
            None => rest,
        }
    }
}

/// The discovery errors of the entries, in the order of the walk.
pub open spec fn found_errors(es: Seq<GlobEntry>, include_symlinks: bool) -> Seq<
    GlobEvaluationError,
>
    decreases es.len(),
{
    if es.len() == 0 {
        Seq::empty()
    } else {
        let rest = found_errors(es.drop_first(), include_symlinks);
        match entry_error(es[0], include_symlinks) {
            Some(x) => seq![x] + rest,
            None => rest,
        }
    }
}

/// Splits the walk's entries into canonical paths and discovery errors, and
/// lists each by the ASCII lower case form of its path.
pub fn evaluate_files_from_glob_pattern(entries: Vec<GlobEntry>, include_symlinks: bool) -> (r: (
    Vec<Vec<u8>>,
    Vec<GlobEvaluationError>,
))
    ensures
        r.0@.to_multiset() == found_paths(entries@, include_symlinks).to_multiset(),
        r.1@.to_multiset() == found_errors(entries@, include_symlinks).to_multiset(),
        listing_sorted(r.0@),
        listing_sorted(r.1@),
{
    let mut rest = entries;
    let mut paths: Vec<Vec<u8>> = Vec::new();
    let mut errors: Vec<GlobEvaluationError> = Vec::new();
    while rest.len() > 0
        invariant
            found_paths(entries@, include_symlinks) == paths@ + found_paths(rest@, include_symlinks),
            found_errors(entries@, include_symlinks) == errors@ + found_errors(
                rest@,
                include_symlinks,
            ),
        decreases rest.len(),
    {
        let ghost before = rest@;
        let ghost seen_paths = paths@;
        let ghost seen_errors = errors@;
        let e = rest.remove(0);
        assert(rest@ =~= before.drop_first());
        match e {
            GlobEntry::Matched { path, is_symlink, canonical } => {
                if include_symlinks || !is_symlink {
                    match canonical {
                        Ok(p) => paths.push(p),
                        Err(description) => errors.push(
                            GlobEvaluationError::Other { path_buf: path, description },
                        ),
                    }
                }
            },
            GlobEntry::Unreadable { path, description } => {
                errors.push(GlobEvaluationError::GlobError { path_buf: path, description });
            },
        }
        proof {
            assert(paths@ + found_paths(rest@, include_symlinks) =~= seen_paths + found_paths(
                before,
                include_symlinks,
            ));
            assert(errors@ + found_errors(rest@, include_symlinks) =~= seen_errors + found_errors(
                before,
                include_symlinks,
            ));
        }
    }
    assert(paths@ =~= found_paths(entries@, include_symlinks));
    assert(errors@ =~= found_errors(entries@, include_symlinks));
    (sort_by_lowercase_path(paths), sort_by_lowercase_path(errors))
}

} // verus!
