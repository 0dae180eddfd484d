//! Classification of the command line.
use vstd::prelude::*;
use crate::extract::ExtractionRequest;
use crate::text::str_equal;

verus! {

/// What the command line asks for.
#[derive(Debug)]
pub enum Invocation {
    /// Print usage.
    Help,
    /// Unpack a bundle.
    Unpack(ExtractionRequest),
    /// `unpack` without its two paths.
    UnpackUsage,
    /// Register the package in a directory.
    Regpack { package_dir: String, auto_start: bool },
    /// `regpack` without its directory.
    RegpackUsage,
    /// No command, or one that is not known.
    Unknown,
}

/// The lower-case form of a string, as Unicode defines it.
pub uninterp spec fn lower_of(s: Seq<char>) -> Seq<char>;

/// Relies on `str::to_lowercase`: the result depends on the characters alone.
#[verifier::external_body]
fn lowercase(s: &str) -> (r: String)
    ensures
        r@ == lower_of(s@),
{
    s.to_lowercase()
}

/// Whether any argument equals `flag`.
pub open spec fn has_flag(args: Seq<String>, flag: Seq<char>) -> bool {
    exists|i: int| 0 <= i < args.len() && (#[trigger] args[i])@ == flag
}

/// Whether `r` is what the (already lower-cased) `command` and the whole
/// argument list ask for.
pub open spec fn classifies(r: Invocation, command: Seq<char>, args: Seq<String>) -> bool {
    if command == "help"@ {
        r is Help
    } else if command == "unpack"@ {
        if args.len() < 4 {
            r is UnpackUsage
        } else {
            r matches Invocation::Unpack(q) && q.source_archive_path@ == args[2]@
                && q.destination_dir@ == args[3]@ && q.force_replace == has_flag(args, "-f"@)
                && q.delete_signature_after == has_flag(args, "-dsign"@)
                && q.delete_source_after == has_flag(args, "-dappx"@)
        }
    } else if command == "regpack"@ {
        if args.len() < 3 {
            r is RegpackUsage
        } else {
            r matches Invocation::Regpack { package_dir, auto_start } && package_dir@ == args[2]@
                && auto_start == has_flag(args, "-start"@)
        }
    } else {
        r is Unknown
    }
}

fn contains_flag(args: &Vec<String>, flag: &str) -> (r: bool)
    ensures
        r == has_flag(args@, flag@),
{
    let mut i: usize = 0;
    while i < args.len()
        invariant
            i <= args@.len(),
            forall|j: int| 0 <= j < i ==> (#[trigger] args@[j])@ != flag@,
        decreases args.len() - i,
    {
        if str_equal(args[i].as_str(), flag) {
            return true;
        }
        i = i + 1;
    }
    false
}

/// Classifies an argument list (program name first) given its command word
/// already in lower case.
pub fn classify(command: &str, args: &Vec<String>) -> (r: Invocation)
    ensures
        classifies(r, command@, args@),
{
    if str_equal(command, "help") {
        Invocation::Help
    } else if str_equal(command, "unpack") {
        if args.len() < 4 {
            Invocation::UnpackUsage
        } else {
            Invocation::Unpack(
                ExtractionRequest {
                    source_archive_path: args[2].clone(),
                    destination_dir: args[3].clone(),
                    force_replace: contains_flag(args, "-f"),
                    delete_signature_after: contains_flag(args, "-dsign"),
                    delete_source_after: contains_flag(args, "-dappx"),
                },
            )
        }
    } else if str_equal(command, "regpack") {
        if args.len() < 3 {
            Invocation::RegpackUsage
        } else {
            Invocation::Regpack {
                package_dir: args[2].clone(),
                auto_start: contains_flag(args, "-start"),
            }
        }
    } else {
        Invocation::Unknown
    }
}

/// Classifies an argument list (program name first); the command word is
/// matched without regard to case.
pub fn parse_args(args: &Vec<String>) -> (r: Invocation)
    ensures
        args.len() < 2 ==> r is Unknown,
        args.len() >= 2 ==> classifies(r, lower_of(args@[1]@), args@),
{
    if args.len() < 2 {
        return Invocation::Unknown;
    }
    let command = lowercase(args[1].as_str());
    classify(command.as_str(), args)
}

} // verus!
