//! Where the storage extension's library is looked for.
use vstd::prelude::*;
use crate::error::Error;

verus! {

/// The library file name of the extension on the operating system `os`
/// (named as Rust names target systems).
pub open spec fn extension_filename(os: Seq<char>) -> Seq<char> {
    if os == "macos"@ || os == "ios"@ {
        "libpowersync.dylib"@
    } else if os == "windows"@ {
        "powersync.dll"@
    } else {
        "libpowersync.so"@
    }
}

/// The extension's library file name for the operating system `os`.
pub fn get_extension_filename(os: &str) -> (r: &'static str)
    ensures
        r@ == extension_filename(os@),
{
    let os = String::from_str(os);
    if os == String::from_str("macos") || os == String::from_str("ios") {
        "libpowersync.dylib"
    } else if os == String::from_str("windows") {
        "powersync.dll"
    } else {
        "libpowersync.so"
    }
}

/// The places, relative to the resource directory, where the library is
/// looked for, in order: the directory itself, then `libs`, then `native`.
pub open spec fn candidates(filename: Seq<char>) -> Seq<Seq<char>> {
    seq![filename, "libs/"@ + filename, "native/"@ + filename]
}

/// The candidate paths for the library file `filename`, in search order.
pub fn extension_candidates(filename: &str) -> (r: Vec<String>)
    ensures
        r@.len() == 3,
        forall|i: int| 0 <= i < 3 ==> (#[trigger] r@[i])@ == candidates(filename@)[i],
{
    let mut v: Vec<String> = Vec::new();
    v.push(String::from_str(filename));
    let mut libs = String::from_str("libs/");
    libs.append(filename);
    v.push(libs);
    let mut native = String::from_str("native/");
    native.append(filename);
    v.push(native);
    v
}

/// The message when the library is in none of the candidate places;
/// `resource_dir` is the directory as its `Debug` form writes it.
pub open spec fn not_found_message(filename: Seq<char>, resource_dir: Seq<char>) -> Seq<char> {
    "PowerSync extension '"@ + filename + "' not found in "@ + resource_dir
}

/// The first candidate that exists, given which of them exist (`present[i]`
/// for the `i`-th candidate; a missing entry counts as absent); an
/// extension-not-found error when none does.
pub fn find_extension(resource_dir: &str, filename: &str, present: &[bool]) -> (r: Result<String, Error>)
    ensures
        r is Ok <==> exists|i: int| 0 <= i < 3 && i < present@.len() && present@[i],
        r is Ok ==> exists|i: int|
            0 <= i < 3 && i < present@.len() && present@[i] && (forall|j: int|
                0 <= j < i ==> !present@[j]) && r->Ok_0@ == candidates(filename@)[i],
        r is Err ==> r->Err_0 is ExtensionNotFound && r->Err_0->ExtensionNotFound_0@ == not_found_message(
            filename@,
            resource_dir@,
        ),
{
    let paths = extension_candidates(filename);
    let mut i: usize = 0;
    while i < 3 && i < present.len()
        invariant
            i <= 3,
            paths@.len() == 3,
            forall|k: int| 0 <= k < 3 ==> (#[trigger] paths@[k])@ == candidates(filename@)[k],
            forall|j: int| 0 <= j < i ==> !present@[j],
        decreases 3 - i,
    {
        if present[i] {
            return Ok(paths[i].clone());
        }
        i = i + 1;
    }
    let mut msg = String::from_str("PowerSync extension '");
    msg.append(filename);
    msg.append("' not found in ");
    msg.append(resource_dir);
    Err(Error::ExtensionNotFound(msg))
}

/// The ways of making the extension available on a new connection, tried
/// in this order until one succeeds.
#[derive(Debug, Clone, Copy, PartialEq, Eq)]
pub enum ExtensionProbe {
    /// Load the library from the path recorded at build time.
    BuildPath,
    /// Load the library found in the resource directory.
    ResourceDir,
    /// Detect functions that are linked in already.
    Linked,
}

/// The probe that follows `previous` (none: the first one); none after the
/// last.
pub open spec fn probe_after_spec(previous: Option<ExtensionProbe>) -> Option<ExtensionProbe> {
    match previous {
        None => Some(ExtensionProbe::BuildPath),
        Some(ExtensionProbe::BuildPath) => Some(ExtensionProbe::ResourceDir),
        Some(ExtensionProbe::ResourceDir) => Some(ExtensionProbe::Linked),
        Some(ExtensionProbe::Linked) => None,
    }
}

/// The next probe to try after `previous` failed (none: start).
pub fn probe_after(previous: Option<ExtensionProbe>) -> (r: Option<ExtensionProbe>)
    ensures
        r == probe_after_spec(previous),
{
    match previous {
        None => Some(ExtensionProbe::BuildPath),
        Some(ExtensionProbe::BuildPath) => Some(ExtensionProbe::ResourceDir),
        Some(ExtensionProbe::ResourceDir) => Some(ExtensionProbe::Linked),
        Some(ExtensionProbe::Linked) => None,
    }
}

/// What to do next while making the extension available on a new
/// connection.
#[derive(Debug, Clone, Copy, PartialEq, Eq)]
pub enum ProbeStep {
    /// Try this probe.
    Try(ExtensionProbe),
    /// A probe succeeded: initialise the extension, and try no other probe.
    Initialise,
    /// Every probe failed: go on without the extension.
    GiveUp,
}

/// The step after the last probe tried and its outcome (none: the start).
pub open spec fn probe_step_spec(last: Option<(ExtensionProbe, bool)>) -> ProbeStep {
    match last {
        None => ProbeStep::Try(ExtensionProbe::BuildPath),
        Some((p, true)) => ProbeStep::Initialise,
        Some((p, false)) => match probe_after_spec(Some(p)) {
            Some(q) => ProbeStep::Try(q),
            None => ProbeStep::GiveUp,
        },
    }
}

/// Decides the next step from the last probe and whether it succeeded:
/// the first success wins, and nothing of a failed probe is kept.
pub fn probe_step(last: Option<(ExtensionProbe, bool)>) -> (r: ProbeStep)
    ensures
        r == probe_step_spec(last),
{
    match last {
        None => ProbeStep::Try(ExtensionProbe::BuildPath),
        Some((_, true)) => ProbeStep::Initialise,
        Some((p, false)) => match probe_after(Some(p)) {
            Some(q) => ProbeStep::Try(q),
            None => ProbeStep::GiveUp,
        },
    }
}

} // verus!
