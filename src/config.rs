//! The configuration of a run, and the decisions taken at startup.

use vstd::prelude::*;
use crate::error::{ErrorKind, RotatorError};
use crate::paths::{file_name_of, resolved_directory};
use crate::planner::{is_plan, next_file, number_out_of_range, RotatedFile, RotationResult};
use crate::rotation::{cleanup_rotations, excess};

verus! {

/// The configuration of a run.
pub struct Args {
    /// The live file.
    pub output_file: String,
    /// Whether archives are gzip-compressed.
    pub gunzip: bool,
    /// Where archives are kept; the output file's directory when absent.
    pub rotation_directory: Option<String>,
    /// How many archives are retained.
    pub max_history: u32,
    /// A logging configuration file, if any.
    pub log_config: Option<String>,
    /// The size in bytes past which the live file is rotated.
    pub max_size: u64,
    /// How many bytes each read of the input takes at most.
    pub buffer_size: u32,
}

pub open spec fn given_directory(args: Args) -> Option<Seq<char>> {
    match args.rotation_directory {
        Some(d) => Some(d@),
        None => None,
    }
}

/// The startup decisions of a run whose rotation directory holds the entries
/// `listing`: the configuration is checked (reads of zero bytes would end the
/// input at once), then come the archives beyond `max_history` that must be
/// deleted before the relays start, oldest first.
pub fn app(args: &Args, listing: &Vec<String>) -> (r: Result<Vec<RotatedFile>, RotatorError>)
    ensures
        args.buffer_size == 0 ==> (r matches Err(e) && e.kind == ErrorKind::Config),
        args.buffer_size > 0 && file_name_of(args.output_file@) is None ==> (r matches Err(e)
            && e.kind == ErrorKind::Path),
        args.buffer_size > 0 ==> (file_name_of(args.output_file@) matches Some(base) ==> {
            &&& r is Err <==> number_out_of_range(base, args.gunzip, listing@)
            &&& r matches Ok(v) ==> exists|plan: RotationResult|
                is_plan(
                    base,
                    resolved_directory(args.output_file@, given_directory(*args)),
                    args.gunzip,
                    listing@,
                    plan,
                ) && v@ == plan.existing_rotated@.take(
                    excess(plan.existing_rotated@.len(), args.max_history as nat) as int,
                )
            &&& r matches Err(e) ==> e.kind == ErrorKind::Path
        }),
{
    if args.buffer_size == 0 {
        return Err(RotatorError::new(ErrorKind::Config, "the read buffer size must be positive"));
    }
    let dir: Option<&str> = match &args.rotation_directory {
        Some(d) => Some(d.as_str()),
        None => None,
    };
    let plan = next_file(args.gunzip, args.output_file.as_str(), dir, listing)?;
    Ok(cleanup_rotations(args.max_history, &plan))
}

} // verus!
