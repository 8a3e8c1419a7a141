//! The command model of the binary, and the dispatcher.
//!
//! The binary parses its command line into these plain values and asks
//! [`run`] what to do: [`run`] applies the one piece of command-level policy
//! — normalizing the output name to the canonical archive extension — and
//! hands back the plan the binary is to carry out against the disk.

use crate::paths::normalize_output;
use crate::paths::normalized_output_spec;
use vstd::prelude::*;

verus! {

/// One invocation of the tool: the subcommand to execute.
pub struct RazeArgs {
    pub command: Commands,
}

/// The operations the tool offers.
pub enum Commands {
    /// Compress a file or directory into an archive.
    Pack {
        /// The source file or directory to pack.
        source: String,
        /// The output archive name; the canonical extension is appended when
        /// missing.
        output: String,
    },
    /// Extract an archive into a destination directory.
    Unpack {
        /// The archive to unpack.
        archive: String,
        /// The directory to extract into.
        destination: String,
    },
}

/// The operation the binary carries out, with paths exactly as the pipelines
/// are to receive them.
pub enum Plan {
    /// Pack `source` and write the artifact at `output`.
    PackTo { source: String, output: String },
    /// Unpack `archive` below `destination`.
    UnpackTo { archive: String, destination: String },
}

/// Dispatches parsed arguments to a plan: packing normalizes the output name
/// to the canonical archive extension; unpacking passes its paths through
/// unchanged.
pub fn run(args: RazeArgs) -> (p: Plan)
    ensures
        args.command matches Commands::Pack { source, output } ==> (p matches Plan::PackTo {
            source: s,
            output: o,
        } && s@ == source@ && o@ == normalized_output_spec(output@)),
        args.command matches Commands::Unpack { archive, destination } ==> (p
            matches Plan::UnpackTo { archive: a, destination: d } && a@ == archive@ && d@
            == destination@),
{
    match args.command {
        Commands::Pack { source, output } => {
            let normalized = normalize_output(output.as_str());
            Plan::PackTo { source, output: normalized }
        },
        Commands::Unpack { archive, destination } => Plan::UnpackTo { archive, destination },
    }
}

} // verus!
