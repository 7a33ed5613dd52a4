use safecheckpoint::paths::{has_parent_dir, reject_symlink_components, ComponentStat, StatOutcome};
use safecheckpoint::Error;
use std::io::{Error as IoError, ErrorKind};
use std::path::Path;

/// The components of `leaf` and all its ancestors, each with the outcome `stat` gives.
fn stats<F: FnMut(&Path) -> std::io::Result<bool>>(leaf: &Path, mut stat: F) -> Vec<ComponentStat> {
    leaf.ancestors()
        .map(|p| ComponentStat {
            path: p.to_string_lossy().into_owned(),
            outcome: match stat(p) {
                Ok(true) => StatOutcome::Symlink,
                Ok(false) => StatOutcome::NotSymlink,
                Err(e) if e.kind() == ErrorKind::NotFound => StatOutcome::NotFound,
                Err(e) => StatOutcome::Failed(e.to_string()),
            },
        })
        .collect()
}

#[test]
fn reject_symlink_components_fails_closed_on_permission_denied() {
    // A non-NotFound stat error (e.g. permission denied) must fail closed
    // with PathTraversal, never silently skip the symlink check.
    let result = reject_symlink_components(&stats(Path::new("/a/b/c"), |_p| {
        Err(IoError::from(ErrorKind::PermissionDenied))
    }));
    assert!(
        matches!(result, Err(Error::PathTraversal { .. })),
        "permission-denied on a component must surface, got {result:?}"
    );
}

#[test]
fn reject_symlink_components_tolerates_not_found() {
    // NotFound (a racing-absent component) must be tolerated so a valid
    // not-yet-created path is not spuriously rejected.
    let result = reject_symlink_components(&stats(Path::new("/a/b/c"), |_p| {
        Err(IoError::from(ErrorKind::NotFound))
    }));
    assert!(result.is_ok(), "NotFound components must be tolerated, got {result:?}");
}

#[test]
fn first_symlinked_component_is_named() {
    let result = reject_symlink_components(&stats(Path::new("/srv/link/model.safetensors"), |p| {
        Ok(p == Path::new("/srv/link") || p == Path::new("/srv"))
    }));
    match result {
        Err(Error::PathTraversal { path, reason }) => {
            assert_eq!(path, "/srv/link");
            assert_eq!(reason, "symlinks are not permitted");
        }
        other => panic!("expected PathTraversal, got {other:?}"),
    }
}

#[test]
fn failed_query_reason_carries_the_cause() {
    let components = vec![
        ComponentStat { path: "/x/y".to_string(), outcome: StatOutcome::NotSymlink },
        ComponentStat { path: "/x".to_string(), outcome: StatOutcome::Failed("denied".to_string()) },
        ComponentStat { path: "/".to_string(), outcome: StatOutcome::Symlink },
    ];
    match reject_symlink_components(&components) {
        Err(Error::PathTraversal { path, reason }) => {
            assert_eq!(path, "/x");
            assert_eq!(reason, "could not verify path component is not a symlink: denied");
        }
        other => panic!("expected PathTraversal, got {other:?}"),
    }
    assert!(reject_symlink_components(&[]).is_ok());
}

#[test]
fn parent_components_are_found() {
    assert!(has_parent_dir(".."));
    assert!(has_parent_dir("../model.safetensors"));
    assert!(has_parent_dir("a/../b"));
    assert!(has_parent_dir("/tmp/x/.."));
    assert!(!has_parent_dir("a..b/c"));
    assert!(!has_parent_dir("..."));
    assert!(!has_parent_dir(".hidden/..x"));
    assert!(!has_parent_dir("model.safetensors"));
    assert!(!has_parent_dir(""));
}
