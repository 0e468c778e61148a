//! Which ref of a source repository is merged.

use vstd::prelude::*;
use crate::text::{after_last, chars_after_last, chars_of, has_char, contains_char, string_from};

verus! {

/// Pattern of the remote-tracking line that points at the manifest's ref:
/// `m/<anything> -> <target>`, with the target as the first group.
pub const MANIFEST_POINTER_PATTERN: &'static str = r"m\/\S* -> (\S*)";

/// Name of the local branch that is made to point at a tag.
pub const TAG_BRANCH: &'static str = "tmp_join_branch";

/// The target captured from the first manifest pointer line of a
/// remote-branch listing, if the listing holds one.
pub uninterp spec fn manifest_pointer(listing: Seq<char>) -> Option<Seq<char>>;

/// Relies on `regex::Regex::new` and `regex::Regex::captures`: the first group
/// of the leftmost match of the pointer pattern in `listing`. Neither looks
/// at anything but the pattern and `listing`.
#[verifier::external_body]
fn find_manifest_pointer(listing: &str) -> (r: Option<String>)
    ensures
        r is Some <==> manifest_pointer(listing@) is Some,
        r is Some ==> r->0@ == manifest_pointer(listing@)->0,
{
    let re = regex::Regex::new(MANIFEST_POINTER_PATTERN).ok()?;
    let caps = re.captures(listing)?;
    caps.get(1).map(|m| m.as_str().to_owned())
}

/// How the ref to merge is chosen, once for a whole run.
pub enum BranchStrategy {
    /// The same named branch in every repository.
    Explicit(String),
    /// The branch or tag that each repository's manifest pointer names.
    Manifest,
}

/// The ref to merge from one repository.
pub enum Resolution {
    /// A branch of this name, checked out in the source repository.
    Branch(String),
    /// A tag of this name, checked out as the branch `TAG_BRANCH`.
    Tag(String),
}

/// Why no ref could be chosen.
#[derive(Debug, PartialEq, Eq, Structural)]
pub enum ResolveError {
    /// The remote-branch listing holds no manifest pointer.
    NoManifestPointer,
}

/// `r` is the resolution of the manifest pointer target `t`: a branch named by
/// what follows the target's last `/`, or, where it has no `/`, a tag.
pub open spec fn resolves_target(t: Seq<char>, r: Resolution) -> bool {
    if has_char(t, '/') {
        r is Branch && r->Branch_0@ == after_last(t, '/')
    } else {
        r is Tag && r->Tag_0@ == t
    }
}

/// The resolution of the pointer target `target`, where one was found.
pub fn resolve_pointer(target: Option<String>) -> (r: Result<Resolution, ResolveError>)
    ensures
        target is None <==> r == Err::<Resolution, ResolveError>(ResolveError::NoManifestPointer),
        target is Some ==> r is Ok && resolves_target(target->0@, r->Ok_0),
{
    match target {
        None => Err(ResolveError::NoManifestPointer),
        Some(t) => {
            let tc = chars_of(t.as_str());
            if contains_char(&tc, '/') {
                let name = chars_after_last(&tc, '/');
                Ok(Resolution::Branch(string_from(&name)))
            } else {
                Ok(Resolution::Tag(t))
            }
        },
    }
}

/// The resolution that the remote-branch listing `listing` gives.
pub fn resolve_manifest(listing: &str) -> (r: Result<Resolution, ResolveError>)
    ensures
        manifest_pointer(listing@) is None <==> r == Err::<Resolution, ResolveError>(ResolveError::NoManifestPointer),
        manifest_pointer(listing@) is Some ==> r is Ok && resolves_target(manifest_pointer(listing@)->0, r->Ok_0),
{
    resolve_pointer(find_manifest_pointer(listing))
}

} // verus!
