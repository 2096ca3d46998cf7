//! The rotation planner: which archives exist, and where the next one goes.

use vstd::prelude::*;
use crate::error::{ErrorKind, RotatorError};
use crate::naming::{
    archive_file_name, archive_name, archive_number, is_archive_name, lemma_archive_name_round_trip,
    match_archive_name, NameMatch,
};
use crate::paths::{base_name_of, file_name_of, joined, path_join, resolved_directory, rotation_directory_of};

verus! {

/// An archive in the rotation directory.
#[derive(Debug)]
pub struct RotatedFile {
    /// The number the archive's name carries.
    pub number: u64,
    /// The archive's file name.
    pub name: String,
    /// The archive's path: the rotation directory joined with `name`.
    pub path: String,
}

/// The archives that exist, oldest first, and the archive a rotation would
/// create next.
#[derive(Debug)]
pub struct RotationResult {
    pub existing_rotated: Vec<RotatedFile>,
    pub next_rotation: RotatedFile,
}

impl RotatedFile {
    /// A copy of this archive's description.
    pub fn copy(&self) -> (r: RotatedFile)
        ensures
            r == *self,
    {
        RotatedFile { number: self.number, name: self.name.clone(), path: self.path.clone() }
    }
}

impl RotationResult {
    pub fn new(existing_rotated: Vec<RotatedFile>, next_rotation: RotatedFile) -> (r:
        RotationResult)
        ensures
            r.existing_rotated == existing_rotated,
            r.next_rotation == next_rotation,
    {
        RotationResult { existing_rotated, next_rotation }
    }
}

/// The names of a sequence of archives.
pub open spec fn names_of(files: Seq<RotatedFile>) -> Seq<Seq<char>> {
    files.map_values(|f: RotatedFile| f.name@)
}

/// No two entries of a listing carry the same name.
pub open spec fn distinct_names(listing: Seq<String>) -> bool {
    forall|i: int, j: int|
        0 <= i < listing.len() && 0 <= j < listing.len() && i != j ==> #[trigger] listing[i]@
            != #[trigger] listing[j]@
}

/// Archive numbers ascend along `files`.
pub open spec fn ascending(files: Seq<RotatedFile>) -> bool {
    forall|i: int, j: int| 0 <= i <= j < files.len() ==> #[trigger] files[i].number <= #[trigger] files[j].number
}

/// Archives with equal numbers (`a.1` and `a.01`) keep the order in which
/// the listing names them.
pub open spec fn ties_in_listing_order(listing: Seq<String>, files: Seq<RotatedFile>) -> bool {
    forall|i: int, j: int|
        0 <= i < j < files.len() && #[trigger] files[i].number == #[trigger] files[j].number
            ==> exists|ki: int, kj: int|
            0 <= ki < kj < listing.len() && #[trigger] listing[ki]@ == files[i].name@
                && #[trigger] listing[kj]@ == files[j].name@
}

/// `f` is the archive `name` of directory `dir`.
pub open spec fn describes(f: RotatedFile, base: Seq<char>, dir: Seq<char>, compress: bool) -> bool {
    &&& is_archive_name(base, compress, f.name@)
    &&& f.number == archive_number(base, compress, f.name@)
    &&& f.path@ == joined(dir, f.name@)
}

/// The number of the archive that follows `existing`: one more than the
/// largest number, or one where there is none.
pub open spec fn next_number(existing: Seq<RotatedFile>) -> nat {
    if existing.len() == 0 {
        1
    } else {
        (existing.last().number + 1) as nat
    }
}

/// Some archive name in the listing carries a number too large to be
/// followed by another.
pub open spec fn number_out_of_range(base: Seq<char>, compress: bool, listing: Seq<String>) -> bool {
    exists|k: int|
        0 <= k < listing.len() && is_archive_name(base, compress, #[trigger] listing[k]@)
            && archive_number(base, compress, listing[k]@) >= u64::MAX
}

/// `r` is the plan for the directory `dir` whose entries are `listing`: its
/// archives are exactly the archive names of the listing, each once where the
/// listing names each entry once, oldest first (equal numbers in listing
/// order), and the next archive takes the number after the largest.
pub open spec fn is_plan(
    base: Seq<char>,
    dir: Seq<char>,
    compress: bool,
    listing: Seq<String>,
    r: RotationResult,
) -> bool {
    let ex = r.existing_rotated@;
    &&& forall|i: int|
        0 <= i < ex.len() ==> describes(#[trigger] ex[i], base, dir, compress) && exists|k: int|
            0 <= k < listing.len() && listing[k]@ == ex[i].name@
    &&& forall|k: int|
        0 <= k < listing.len() && is_archive_name(base, compress, #[trigger] listing[k]@)
            ==> names_of(ex).contains(listing[k]@)
    &&& ascending(ex)
    &&& ties_in_listing_order(listing, ex)
    &&& distinct_names(listing) ==> names_of(ex).no_duplicates()
    &&& r.next_rotation.number == next_number(ex)
    &&& r.next_rotation.name@ == archive_name(base, r.next_rotation.number as nat, compress)
    &&& r.next_rotation.path@ == joined(dir, r.next_rotation.name@)
}

/// Plans the next rotation in directory `dir`, whose entries are `listing`,
/// for archives named after `base`.
#[verifier::loop_isolation(false)]
pub fn plan_archives(base: &str, dir: &str, compress: bool, listing: &Vec<String>) -> (r: Result<
    RotationResult,
    RotatorError,
>)
    ensures
        r is Err <==> number_out_of_range(base@, compress, listing@),
        r matches Ok(p) ==> is_plan(base@, dir@, compress, listing@, p),
        r matches Err(e) ==> e.kind == ErrorKind::Path,
{
    let mut existing: Vec<RotatedFile> = Vec::new();
    let ghost mut origin: Seq<int> = Seq::empty();
    let mut j: usize = 0;
    while j < listing.len()
        invariant
            j <= listing@.len(),
            origin.len() == existing@.len(),
            forall|i: int|
                0 <= i < existing@.len() ==> describes(#[trigger] existing@[i], base@, dir@, compress)
                    && 0 <= origin[i] < j && listing@[origin[i]]@ == existing@[i].name@
                    && existing@[i].number < u64::MAX,
            forall|i1: int, i2: int|
                0 <= i1 < existing@.len() && 0 <= i2 < existing@.len() && i1 != i2
                    ==> #[trigger] origin[i1] != #[trigger] origin[i2],
            forall|k: int|
                0 <= k < j && is_archive_name(base@, compress, #[trigger] listing@[k]@)
                    ==> names_of(existing@).contains(listing@[k]@),
            forall|k: int|
                0 <= k < j && is_archive_name(base@, compress, #[trigger] listing@[k]@)
                    ==> archive_number(base@, compress, listing@[k]@) < u64::MAX,
            ascending(existing@),
            forall|i1: int, i2: int|
                0 <= i1 < i2 < existing@.len() && #[trigger] existing@[i1].number
                    == #[trigger] existing@[i2].number ==> origin[i1] < origin[i2],
        decreases listing@.len() - j,
    {
        let name = &listing[j];
        match match_archive_name(base, compress, name.as_str()) {
            NameMatch::NotArchive => {},
            NameMatch::TooLarge => {
                return Err(RotatorError::new(ErrorKind::Path, "archive number out of range"));
            },
            NameMatch::Archive(n) => {
                if n == u64::MAX {
                    return Err(RotatorError::new(ErrorKind::Path, "archive number out of range"));
                }
                let mut k: usize = 0;
                while k < existing.len() && existing[k].number <= n
                    invariant
                        k <= existing@.len(),
                        forall|i: int| 0 <= i < k ==> #[trigger] existing@[i].number <= n,
                    decreases existing@.len() - k,
                {
                    k = k + 1;
                }
                let f = RotatedFile { number: n, name: name.clone(), path: path_join(dir, name.as_str()) };
                let ghost old_existing = existing@;
                let ghost old_origin = origin;
                existing.insert(k, f);
                proof {
                    origin = origin.insert(k as int, j as int);
                    assert forall|i: int|
                        0 <= i < existing@.len() implies describes(#[trigger] existing@[i], base@, dir@, compress)
                        && 0 <= origin[i] < j + 1 && listing@[origin[i]]@ == existing@[i].name@
                        && existing@[i].number < u64::MAX by {
                        if i > k {
                            assert(existing@[i] == old_existing[i - 1]);
                            assert(origin[i] == old_origin[i - 1]);
                        } else if i < k {
                            assert(existing@[i] == old_existing[i]);
                        }
                    }
                    assert forall|i1: int, i2: int|
                        0 <= i1 < existing@.len() && 0 <= i2 < existing@.len() && i1 != i2
                        implies #[trigger] origin[i1] != #[trigger] origin[i2] by {
                        let a = if i1 < k { i1 } else { i1 - 1 };
                        let b = if i2 < k { i2 } else { i2 - 1 };
                        if i1 != k && i2 != k {
                            assert(old_origin[a] != old_origin[b]);
                        } else if i1 == k {
                            assert(0 <= b < old_existing.len());
                            assert(old_existing.len() == old_origin.len());
                            assert(listing@[old_origin[b]]@ == old_existing[b].name@);
                            assert(old_origin[b] < j);
                        } else {
                            assert(0 <= a < old_existing.len());
                            assert(old_existing.len() == old_origin.len());
                            assert(listing@[old_origin[a]]@ == old_existing[a].name@);
                            assert(old_origin[a] < j);
                        }
                    }
                    assert forall|kk: int|
                        0 <= kk < j + 1 && is_archive_name(base@, compress, #[trigger] listing@[kk]@)
                        implies names_of(existing@).contains(listing@[kk]@) by {
                        if kk == j {
                            assert(names_of(existing@)[k as int] == listing@[kk]@);
                        } else {
                            let w = choose|w: int| 0 <= w < old_existing.len() && names_of(old_existing)[w] == listing@[kk]@;
                            let w2 = if w < k { w } else { w + 1 };
                            assert(names_of(existing@)[w2] == listing@[kk]@);
                        }
                    }
                    assert forall|i1: int, i2: int| 0 <= i1 <= i2 < existing@.len()
                        implies #[trigger] existing@[i1].number <= #[trigger] existing@[i2].number by {
                        if k < existing@.len() - 1 && i2 > k && i1 <= k {
                            assert(old_existing[k as int].number > n);
                        }
                    }
                    assert forall|i1: int, i2: int|
                        0 <= i1 < i2 < existing@.len() && #[trigger] existing@[i1].number
                        == #[trigger] existing@[i2].number implies origin[i1] < origin[i2] by {
                        let a = if i1 < k { i1 } else { i1 - 1 };
                        let b = if i2 < k { i2 } else { i2 - 1 };
                        if i1 != k && i2 != k {
                            assert(old_existing[a].number == old_existing[b].number);
                        } else if i1 == k {
                            assert(old_existing[k as int].number > n);
                            assert(old_existing[b].number >= old_existing[k as int].number);
                        } else {
                            assert(0 <= a < old_existing.len());
                            assert(listing@[old_origin[a]]@ == old_existing[a].name@);
                            assert(old_origin[a] < j);
                        }
                    }
                }
            },
        }
        j = j + 1;
    }
    let next_n: u64 = if existing.len() == 0 { 1 } else { existing[existing.len() - 1].number + 1 };
    let next_name = archive_file_name(base, next_n, compress);
    let next_path = path_join(dir, next_name.as_str());
    let next = RotatedFile { number: next_n, name: next_name, path: next_path };
    proof {
        assert forall|i: int|
            0 <= i < existing@.len() implies exists|k: int|
                0 <= k < listing@.len() && listing@[k]@ == (#[trigger] existing@[i]).name@ by {
            assert(listing@[origin[i]]@ == existing@[i].name@);
        }
        assert forall|i1: int, i2: int|
            0 <= i1 < i2 < existing@.len() && #[trigger] existing@[i1].number
                == #[trigger] existing@[i2].number implies exists|ki: int, kj: int|
            0 <= ki < kj < listing@.len() && #[trigger] listing@[ki]@ == existing@[i1].name@
                && #[trigger] listing@[kj]@ == existing@[i2].name@ by {
            assert(listing@[origin[i1]]@ == existing@[i1].name@);
            assert(listing@[origin[i2]]@ == existing@[i2].name@);
        }
        if distinct_names(listing@) {
            assert forall|i1: int, i2: int|
                0 <= i1 < existing@.len() && 0 <= i2 < existing@.len() && i1 != i2
                implies names_of(existing@)[i1] != names_of(existing@)[i2] by {
                assert(listing@[origin[i1]]@ == existing@[i1].name@);
                assert(listing@[origin[i2]]@ == existing@[i2].name@);
            }
        }
    }
    Ok(RotationResult::new(existing, next))
}

} // verus!

verus! {

/// Plans the next rotation of `output_file`, whose rotation directory (the
/// one given, else the output file's own) holds the entries `listing`.
pub fn next_file(
    compression: bool,
    output_file: &str,
    rotation_directory: Option<&str>,
    listing: &Vec<String>,
) -> (r: Result<RotationResult, RotatorError>)
    ensures
        file_name_of(output_file@) is None ==> (r matches Err(e) && e.kind == ErrorKind::Path),
        file_name_of(output_file@) matches Some(base) ==> {
            &&& r is Err <==> number_out_of_range(base, compression, listing@)
            &&& r matches Ok(p) ==> is_plan(
                base,
                resolved_directory(
                    output_file@,
                    match rotation_directory {
                        Some(d) => Some(d@),
                        None => None,
                    },
                ),
                compression,
                listing@,
                p,
            )
            &&& r matches Err(e) ==> e.kind == ErrorKind::Path
        },
{
    let base = match base_name_of(output_file) {
        Some(b) => b,
        None => {
            return Err(RotatorError::new(ErrorKind::Path, "the output path has no file name"));
        },
    };
    let dir = rotation_directory_of(output_file, rotation_directory);
    plan_archives(base.as_str(), dir.as_str(), compression, listing)
}

} // verus!
