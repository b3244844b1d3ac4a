//! Around the separate installer package: the interpretation of its
//! numeric exit code, the JSON encoding of the captured installer output,
//! and the scan of the platform's uninstall entries for the installed
//! client version. Running the installer and reading the entries is the
//! embedding application's work; every decision on what came back is
//! made here.

use vstd::prelude::*;

use crate::text::str_starts_with;

verus! {

/// Outcome of one silent installer run, read off its numeric exit code.
#[derive(Clone, Copy, PartialEq, Eq, Structural, Debug)]
pub enum InstallOutcome {
    Installed,
    Cancelled,
    UnknownFailure,
}

/// The installer's exit code for an installation the user cancelled.
pub const INSTALL_CANCELLED_CODE: i32 = 1602;

/// Zero is a completed installation, the dedicated cancellation code a
/// user cancel, anything else an unknown failure.
pub open spec fn spec_install_outcome(code: int) -> InstallOutcome {
    if code == 0 {
        InstallOutcome::Installed
    } else if code == 1602 {
        InstallOutcome::Cancelled
    } else {
        InstallOutcome::UnknownFailure
    }
}

/// Interpret the installer's exit code.
pub fn interpret_install_exit_code(code: i32) -> (r: InstallOutcome)
    ensures
        r == spec_install_outcome(code as int),
{
    if code == 0 {
        InstallOutcome::Installed
    } else if code == INSTALL_CANCELLED_CODE {
        InstallOutcome::Cancelled
    } else {
        InstallOutcome::UnknownFailure
    }
}

/// What the JSON encoder produces for a vector of strings: one JSON array
/// of strings. A function of the lines alone.
pub uninterp spec fn json_string_array(lines: Seq<Seq<char>>) -> Seq<char>;

/// Relies on serde_json::to_string on a vector of strings: the result is
/// the JSON array of those strings, a function of the lines alone; the
/// serializer cannot fail on strings, so the fallback arm is never taken.
#[verifier::external_body]
fn encode_lines_json(lines: &Vec<String>) -> (r: String)
    ensures
        r@ == json_string_array(lines.deep_view()),
{
    serde_json::to_string(lines).unwrap_or_else(|_| "[]".to_string())
}

/// The installer's captured output lines, JSON-encoded for the caller, as
/// the install command reports them.
pub fn install_output_json(lines: &Vec<String>) -> (r: String)
    ensures
        r@ == json_string_array(lines.deep_view()),
{
    encode_lines_json(lines)
}

/// One uninstall entry as the platform lists it: the product's display
/// name, and its display version where one could be read.
pub struct UninstallEntry {
    pub display_name: String,
    pub display_version: Option<String>,
}

/// View of an [`UninstallEntry`].
pub struct UninstallEntryView {
    pub display_name: Seq<char>,
    pub display_version: Option<Seq<char>>,
}

impl View for UninstallEntry {
    type V = UninstallEntryView;

    open spec fn view(&self) -> UninstallEntryView {
        UninstallEntryView {
            display_name: self.display_name@,
            display_version: match self.display_version {
                Some(v) => Some(v@),
                None => None,
            },
        }
    }
}

impl DeepView for UninstallEntry {
    type V = UninstallEntryView;

    open spec fn deep_view(&self) -> UninstallEntryView {
        self.view()
    }
}

/// The product-name prefix that marks an entry as the client's.
pub open spec fn client_product_prefix() -> Seq<char> {
    "WireSock VPN Client"@
}

/// An entry reports the installed client when its display name starts
/// with the product name and it carries a readable version.
pub open spec fn entry_reports_client(e: UninstallEntryView) -> bool {
    client_product_prefix().is_prefix_of(e.display_name) && e.display_version is Some
}

/// The version of the first entry that reports the client, if any.
pub open spec fn spec_version_scan(entries: Seq<UninstallEntryView>) -> Option<Seq<char>>
    decreases entries.len(),
{
    if entries.len() == 0 {
        None
    } else if entry_reports_client(entries[0]) {
        entries[0].display_version
    } else {
        spec_version_scan(entries.drop_first())
    }
}

/// Scan the uninstall entries for the installed client version: the first
/// entry whose display name starts with the product name and carries a
/// readable version decides; an entry that matches by name but has no
/// readable version is passed over.
pub fn wiresock_version_from_entries(entries: &Vec<UninstallEntry>) -> (r: Option<String>)
    ensures
        r.deep_view() == spec_version_scan(entries.deep_view()),
{
    let mut i: usize = 0;
    proof {
        assert(entries.deep_view().skip(0) =~= entries.deep_view());
    }
    while i < entries.len()
        invariant
            i <= entries.len(),
            spec_version_scan(entries.deep_view()) == spec_version_scan(
                entries.deep_view().skip(i as int),
            ),
        decreases entries.len() - i,
    {
        let e = &entries[i];
        proof {
            assert(entries.deep_view().skip(i as int)[0] == entries.deep_view()[i as int]);
            assert(entries.deep_view()[i as int] == e.deep_view());
        }
        if str_starts_with(e.display_name.as_str(), "WireSock VPN Client") {
            match &e.display_version {
                Some(v) => {
                    return Some(v.clone());
                },
                None => {},
            }
        }
        proof {
            assert(entries.deep_view().skip(i as int).drop_first() =~= entries.deep_view().skip(
                i + 1,
            ));
        }
        i = i + 1;
    }
    proof {
        assert(entries.deep_view().skip(entries.len() as int).len() == 0);
    }
    None
}

} // verus!
