//! The decisions behind the write-path defenses: refusing `..` components
//! and refusing symlinked components. The file system is queried by the
//! caller, which hands the outcome of each query to these functions.
use vstd::prelude::*;
use crate::error::Error;
use vstd::string::*;
use crate::name_map::name_bytes;

verus! {

/// At byte `i` of the path `b` starts a component that is exactly `..`
/// (components are separated by `/`).
pub open spec fn parent_component_at(b: Seq<u8>, i: int) -> bool {
    &&& 0 <= i
    &&& i + 2 <= b.len()
    &&& b[i] == 46
    &&& b[i + 1] == 46
    &&& (i == 0 || b[i - 1] == 47)
    &&& (i + 2 == b.len() || b[i + 2] == 47)
}

/// The path `b` has a `..` component.
pub open spec fn has_parent_component(b: Seq<u8>) -> bool {
    exists|i: int| parent_component_at(b, i)
}

/// Whether `path` has a parent-directory (`..`) component.
pub fn has_parent_dir(path: &str) -> (r: bool)
    ensures
        r == has_parent_component(name_bytes(path@)),
{
    let b = path.as_bytes();
    let mut i: usize = 0;
    while i < b.len()
        invariant
            b@ == name_bytes(path@),
            i <= b@.len(),
            forall|j: int| 0 <= j < i ==> !parent_component_at(b@, j),
        decreases b.len() - i,
    {
        if 2 <= b.len() - i && b[i] == 46 && b[i + 1] == 46 && (i == 0 || b[i - 1] == 47) && (i
            + 2 == b.len() || b[i + 2] == 47) {
            assert(parent_component_at(b@, i as int));
            return true;
        }
        i += 1;
    }
    false
}

/// Rejects a write target that has a `..` component (absolute paths are allowed).
///
/// # Errors
///
/// `PathTraversal` naming the path when it has a `..` component.
pub fn reject_parent_dir(path: &str) -> (r: Result<(), Error>)
    ensures
        r is Ok <==> !has_parent_component(name_bytes(path@)),
        r matches Err(e) ==> (e matches Error::PathTraversal { path: p, reason } && p@ == path@
            && reason@ == "path contains parent-dir components"@),
{
    if has_parent_dir(path) {
        return Err(Error::PathTraversal {
            path: path.to_owned(),
            reason: "path contains parent-dir components".to_owned(),
        });
    }
    Ok(())
}

/// What querying the symlink metadata of one path component found.
#[derive(Debug)]
pub enum StatOutcome {
    /// The component is a symbolic link.
    Symlink,
    /// The component exists and is not a symbolic link.
    NotSymlink,
    /// The component does not exist (it may be created later, or a racing
    /// process removed it).
    NotFound,
    /// The query failed for another reason, described by the text.
    Failed(String),
}

/// One component of a write path (the path itself or one of its
/// ancestors) with the outcome of querying it.
#[derive(Debug)]
pub struct ComponentStat {
    /// The component's path.
    pub path: String,
    /// What the query found.
    pub outcome: StatOutcome,
}

/// The component is acceptable: not a symlink, and either present or absent.
pub open spec fn component_passes(c: ComponentStat) -> bool {
    c.outcome is NotSymlink || c.outcome is NotFound
}

/// `e` is the error reported for the failing component `c`.
pub open spec fn component_error(c: ComponentStat, e: Error) -> bool {
    match c.outcome {
        StatOutcome::Symlink => e matches Error::PathTraversal { path, reason } && path@ == c.path@
            && reason@ == "symlinks are not permitted"@,
        StatOutcome::Failed(why) => e matches Error::PathTraversal { path, reason } && path@
            == c.path@ && reason@ == "could not verify path component is not a symlink: "@ + why@,
        _ => false,
    }
}

/// Rejects a write path if any of its components, listed from the path
/// itself up through its ancestors, is a symlink, or could not be checked.
/// A missing component is tolerated; any other failed query fails closed.
///
/// # Errors
///
/// `PathTraversal` naming the first component that is a symlink or whose
/// query failed.
pub fn reject_symlink_components(components: &[ComponentStat]) -> (r: Result<(), Error>)
    ensures
        r is Ok <==> forall|i: int| 0 <= i < components@.len() ==> component_passes(#[trigger] components@[i]),
        r matches Err(e) ==> exists|i: int| {
            &&& 0 <= i < components@.len()
            &&& (forall|j: int| 0 <= j < i ==> component_passes(#[trigger] components@[j]))
            &&& !component_passes(components@[i])
            &&& component_error(components@[i], e)
        },
{
    let mut i: usize = 0;
    while i < components.len()
        invariant
            i <= components@.len(),
            forall|j: int| 0 <= j < i ==> component_passes(#[trigger] components@[j]),
        decreases components.len() - i,
    {
        let c = &components[i];
        match &c.outcome {
            StatOutcome::Symlink => {
                let e = Error::PathTraversal {
                    path: c.path.clone(),
                    reason: "symlinks are not permitted".to_owned(),
                };
                assert(component_error(components@[i as int], e));
                return Err(e);
            },
            StatOutcome::Failed(why) => {
                let mut reason = "could not verify path component is not a symlink: ".to_owned();
                reason.append(why.as_str());
                let e = Error::PathTraversal { path: c.path.clone(), reason };
                assert(component_error(components@[i as int], e));
                return Err(e);
            },
            _ => {},
        }
        i += 1;
    }
    Ok(())
}

} // verus!
