//! Paths: the few questions the tool asks of `std::path`.

use vstd::prelude::*;
use std::path::{Path, PathBuf};

verus! {

/// The parent directory of a path, as `Path::parent` gives it.
pub uninterp spec fn parent_of(p: Seq<char>) -> Option<Seq<char>>;

/// The last component of a path, as `Path::file_name` gives it.
pub uninterp spec fn file_name_of(p: Seq<char>) -> Option<Seq<char>>;

/// A directory and a name joined, as `PathBuf::push` gives it.
pub uninterp spec fn joined(dir: Seq<char>, name: Seq<char>) -> Seq<char>;

/// Relies on `Path::parent`: the parent of a path, or none for a root and
/// for the empty path.
#[verifier::external_body]
fn path_parent(p: &str) -> (r: Option<String>)
    ensures
        match r {
            Some(v) => parent_of(p@) == Some(v@),
            None => parent_of(p@) is None,
        },
{
    Path::new(p).parent().map(|q| q.to_string_lossy().into_owned())
}

/// Relies on `Path::file_name`: the final component, or none where the path
/// ends in `..` or is a root.
#[verifier::external_body]
fn path_file_name(p: &str) -> (r: Option<String>)
    ensures
        match r {
            Some(v) => file_name_of(p@) == Some(v@),
            None => file_name_of(p@) is None,
        },
{
    Path::new(p).file_name().map(|n| n.to_string_lossy().into_owned())
}

/// Relies on `PathBuf::push`: `name` placed under `dir`.
#[verifier::external_body]
pub(crate) fn path_join(dir: &str, name: &str) -> (r: String)
    ensures
        r@ == joined(dir@, name@),
{
    let mut b = PathBuf::from(dir);
    b.push(name);
    b.to_string_lossy().into_owned()
}

/// The directory that holds the archives when none is given: the parent of
/// the output file, or the current directory where it has none.
pub open spec fn default_directory(output: Seq<char>) -> Seq<char> {
    match parent_of(output) {
        Some(p) => if p.len() > 0 {
            p
        } else {
            seq!['.']
        },
        None => seq!['.'],
    }
}

/// The rotation directory: the one given, else the default one.
pub open spec fn resolved_directory(output: Seq<char>, given: Option<Seq<char>>) -> Seq<char> {
    match given {
        Some(d) => d,
        None => default_directory(output),
    }
}

/// The directory where the archives of `output_file` are kept.
pub fn rotation_directory_of(output_file: &str, rotation_directory: Option<&str>) -> (r: String)
    ensures
        r@ == resolved_directory(
            output_file@,
            match rotation_directory {
                Some(d) => Some(d@),
                None => None,
            },
        ),
{
    match rotation_directory {
        Some(d) => String::from_str(d),
        None => match path_parent(output_file) {
            Some(p) => {
                if p.as_str().unicode_len() > 0 {
                    p
                } else {
                    proof {
                        reveal_strlit(".");
                    }
                    String::from_str(".")
                }
            },
            None => {
                proof {
                    reveal_strlit(".");
                }
                String::from_str(".")
            },
        },
    }
}

/// The file name of the output file, which archive names start with.
pub fn base_name_of(output_file: &str) -> (r: Option<String>)
    ensures
        match r {
            Some(v) => file_name_of(output_file@) == Some(v@),
            None => file_name_of(output_file@) is None,
        },
{
    path_file_name(output_file)
}

} // verus!
