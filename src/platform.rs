use vstd::prelude::*;
use crate::text::str_eq;

verus! {

/// How a platform is invoked: the executable to start and the verb that
/// precedes the task's own arguments.
#[derive(Debug, Clone, PartialEq, Eq)]
pub struct PlatformEntry {
    pub executable: String,
    pub verb: String,
}

pub struct PlatformEntryView {
    pub executable: Seq<char>,
    pub verb: Seq<char>,
}

impl View for PlatformEntry {
    type V = PlatformEntryView;

    open spec fn view(&self) -> PlatformEntryView {
        PlatformEntryView { executable: self.executable@, verb: self.verb@ }
    }
}

/// The fixed platform table. `windows` selects the executable names used on
/// Windows, where some package managers are started through a `.cmd` shim.
pub open spec fn platform_entry(id: Seq<char>, windows: bool) -> Option<PlatformEntryView> {
    if id == "npm"@ {
        Some(PlatformEntryView { executable: if windows { "npm.cmd"@ } else { "npm"@ }, verb: "exec"@ })
    } else if id == "pnpm"@ {
        Some(PlatformEntryView { executable: "pnpm"@, verb: "exec"@ })
    } else if id == "yarn"@ {
        Some(PlatformEntryView { executable: if windows { "yarn.cmd"@ } else { "yarn"@ }, verb: "run"@ })
    } else if id == "cargo"@ {
        Some(PlatformEntryView { executable: "cargo"@, verb: "run"@ })
    } else {
        None
    }
}

pub open spec fn entry_view(e: Option<PlatformEntry>) -> Option<PlatformEntryView> {
    match e {
        Some(p) => Some(p@),
        None => None,
    }
}

fn entry(executable: &str, verb: &str) -> (r: PlatformEntry)
    ensures
        r.executable@ == executable@,
        r.verb@ == verb@,
{
    PlatformEntry { executable: executable.to_owned(), verb: verb.to_owned() }
}

/// Looks a platform identifier up in the fixed table; `None` means the
/// platform is not supported.
pub fn resolve(id: &str, windows: bool) -> (r: Option<PlatformEntry>)
    ensures
        entry_view(r) == platform_entry(id@, windows),
{
    if str_eq(id, "npm") {
        Some(entry(if windows { "npm.cmd" } else { "npm" }, "exec"))
    } else if str_eq(id, "pnpm") {
        Some(entry("pnpm", "exec"))
    } else if str_eq(id, "yarn") {
        Some(entry(if windows { "yarn.cmd" } else { "yarn" }, "run"))
    } else if str_eq(id, "cargo") {
        Some(entry("cargo", "run"))
    } else {
        None
    }
}

/// Resolution is a function of the identifier (and the host family) alone:
/// equal identifiers resolve to equal entries, so every lookup of one
/// identifier during a run gives the same executable and verb.
pub proof fn resolution_is_deterministic(a: Seq<char>, b: Seq<char>, windows: bool)
    requires
        a == b,
    ensures
        platform_entry(a, windows) == platform_entry(b, windows),
{
}

} // verus!
