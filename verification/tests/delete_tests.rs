use nas::delete::{delete, plan_removal, DeleteStep, Removal, RemovalKind, Reply};
use nas::error::{DecodeError, DeleteError, IoError, NASError, ResolveError};
use nas::file::{NASFileCategory, Probe};
use nas::path::{AbsolutePath, PathResolver, RelativePath, StorageRoot};

fn resolver() -> PathResolver {
    PathResolver::new(StorageRoot::new("/data").unwrap())
}

fn at(relative: &str) -> AbsolutePath {
    resolver().resolve(&RelativePath::unscoped(relative)).unwrap()
}

fn reply_of(step: DeleteStep) -> Reply {
    match step {
        DeleteStep::Reply(reply) => reply,
        DeleteStep::Probe(p) => panic!("waits for a probe of {}", p.path_string()),
        DeleteStep::Remove(r) => panic!("waits for the removal of {}", r.path_string()),
    }
}

/// A tree of nodes held in memory: each node is its absolute path and
/// whether it is a directory.
struct Tree {
    nodes: Vec<(String, bool)>,
}

impl Tree {
    fn new(nodes: &[(&str, bool)]) -> Tree {
        Tree { nodes: nodes.iter().map(|(p, d)| (p.to_string(), *d)).collect() }
    }

    fn probe(&self, path: &str) -> Probe {
        match self.nodes.iter().find(|(p, _)| p == path) {
            Some((_, is_dir)) => Probe::Found { is_dir: *is_dir, len: 1 },
            None => Probe::Missing,
        }
    }

    fn remove(&mut self, path: &str, kind: RemovalKind) -> Removal {
        let is_dir = match self.nodes.iter().find(|(p, _)| p == path) {
            Some((_, is_dir)) => *is_dir,
            None => return Removal::Refused,
        };
        match kind {
            RemovalKind::Tree => {
                if !is_dir {
                    return Removal::WrongKind;
                }
                let below = format!("{}/", path);
                self.nodes.retain(|(p, _)| p != path && !p.starts_with(&below));
                Removal::Done
            }
            RemovalKind::Node => {
                if is_dir {
                    return Removal::WrongKind;
                }
                self.nodes.retain(|(p, _)| p != path);
                Removal::Done
            }
        }
    }

    fn has(&self, path: &str) -> bool {
        self.nodes.iter().any(|(p, _)| p == path)
    }

    fn run(&mut self, user: Option<&str>, raw: &str) -> Reply {
        let mut step = delete(&resolver(), user, raw);
        loop {
            step = match step {
                DeleteStep::Probe(pending) => {
                    let probe = self.probe(&pending.path_string());
                    pending.probed(&probe)
                }
                DeleteStep::Remove(pending) => {
                    let outcome = self.remove(&pending.path_string(), pending.kind);
                    DeleteStep::Reply(pending.removed(outcome))
                }
                DeleteStep::Reply(reply) => return reply,
            }
        }
    }
}

fn sample() -> Tree {
    Tree::new(&[
        ("/data/alice", true),
        ("/data/alice/films", true),
        ("/data/alice/films/a.mp4", false),
        ("/data/alice/films/sub", true),
        ("/data/alice/films/sub/b.mkv", false),
        ("/data/alice/films-old", true),
        ("/data/alice/notes.txt", false),
        ("/data/alice/list.txt", false),
        ("/data/bob", true),
        ("/data/bob/notes.txt", false),
    ])
}

#[test]
fn request_without_identity_is_unauthorized() {
    let step = delete(&resolver(), None, "notes.txt/");
    assert_eq!(reply_of(step), Reply::Unauthorized);
    let mut tree = sample();
    assert_eq!(tree.run(None, "notes.txt/"), Reply::Unauthorized);
    assert!(tree.has("/data/alice/notes.txt"));
}

#[test]
fn request_is_resolved_in_the_users_namespace() {
    match delete(&resolver(), Some("alice"), "films/a%20b.mp4/") {
        DeleteStep::Probe(pending) => {
            assert_eq!(pending.path_string(), "/data/alice/films/a b.mp4")
        }
        _ => panic!("a resolved request waits for a probe"),
    }
}

#[test]
fn request_that_cannot_be_decoded_fails() {
    let step = delete(&resolver(), Some("alice"), "%FF/");
    assert_eq!(reply_of(step), Reply::Failed(NASError::Decode(DecodeError::InvalidEncoding)));
}

#[test]
fn request_that_leaves_the_root_fails() {
    let step = delete(&resolver(), Some("alice"), "../../etc/passwd");
    assert_eq!(reply_of(step), Reply::Failed(NASError::Resolve(ResolveError::OutsideRoot)));
    let step = delete(&resolver(), Some("alice"), "a%00/");
    assert_eq!(reply_of(step), Reply::Failed(NASError::Resolve(ResolveError::InvalidPath)));
}

#[test]
fn probe_decides_the_removal() {
    let pending = match delete(&resolver(), Some("alice"), "films.d/") {
        DeleteStep::Probe(pending) => pending,
        _ => panic!("a resolved request waits for a probe"),
    };
    match pending.probed(&Probe::Found { is_dir: true, len: 0 }) {
        DeleteStep::Remove(r) => {
            assert_eq!(r.kind, RemovalKind::Tree);
            assert_eq!(r.path_string(), "/data/alice/films.d");
        }
        _ => panic!("a directory is removed"),
    }
    let pending = match delete(&resolver(), Some("alice"), "a.mp4") {
        DeleteStep::Probe(pending) => pending,
        _ => panic!("a resolved request waits for a probe"),
    };
    match pending.probed(&Probe::Found { is_dir: false, len: 9 }) {
        DeleteStep::Remove(r) => {
            assert_eq!(r.kind, RemovalKind::Node);
            assert_eq!(r.path_string(), "/data/alice/a.mp4");
        }
        _ => panic!("a file is removed"),
    }
}

#[test]
fn probe_that_finds_nothing_ends_the_request() {
    let pending = match delete(&resolver(), Some("alice"), "gone") {
        DeleteStep::Probe(pending) => pending,
        _ => panic!("a resolved request waits for a probe"),
    };
    assert_eq!(
        reply_of(pending.probed(&Probe::Missing)),
        Reply::Failed(NASError::Io(IoError::NotFound))
    );
    let pending = match delete(&resolver(), Some("alice"), "locked") {
        DeleteStep::Probe(pending) => pending,
        _ => panic!("a resolved request waits for a probe"),
    };
    assert_eq!(
        reply_of(pending.probed(&Probe::Unreadable)),
        Reply::Failed(NASError::Io(IoError::Other))
    );
}

#[test]
fn removal_is_planned_from_the_category_alone() {
    assert_eq!(plan_removal(at("d"), NASFileCategory::Directory).kind, RemovalKind::Tree);
    assert_eq!(plan_removal(at("d"), NASFileCategory::Audio).kind, RemovalKind::Node);
    assert_eq!(plan_removal(at("d"), NASFileCategory::Video).kind, RemovalKind::Node);
    assert_eq!(plan_removal(at("d"), NASFileCategory::StreamPlaylist).kind, RemovalKind::Node);
    assert_eq!(plan_removal(at("d"), NASFileCategory::StreamSegment).kind, RemovalKind::Node);
    assert_eq!(plan_removal(at("d"), NASFileCategory::Document).kind, RemovalKind::Node);
    assert_eq!(plan_removal(at("d"), NASFileCategory::Image).kind, RemovalKind::Node);
    assert_eq!(plan_removal(at("d"), NASFileCategory::Unknown).kind, RemovalKind::Node);
    assert_eq!(plan_removal(at("x/y"), NASFileCategory::Unknown).path_string(), "/data/x/y");
}

#[test]
fn removal_outcomes_map_to_errors() {
    let pending = plan_removal(at("x/y.txt"), NASFileCategory::Document);
    assert_eq!(pending.conclude(Removal::Done), Ok(()));
    assert_eq!(pending.conclude(Removal::WrongKind), Err(DeleteError::TypeMismatch));
    assert_eq!(
        pending.conclude(Removal::Refused),
        Err(DeleteError::Failed { path: "/data/x/y.txt".to_string() })
    );
    assert_eq!(
        plan_removal(at("x"), NASFileCategory::Directory).removed(Removal::Done),
        Reply::Deleted
    );
    assert_eq!(
        plan_removal(at("x"), NASFileCategory::Directory).removed(Removal::WrongKind),
        Reply::Failed(NASError::Delete(DeleteError::TypeMismatch))
    );
    assert_eq!(
        plan_removal(at("x"), NASFileCategory::Directory).removed(Removal::Refused),
        Reply::Failed(NASError::Delete(DeleteError::Failed { path: "/data/x".to_string() }))
    );
}

#[test]
fn status_codes() {
    assert_eq!(Reply::Deleted.status(), 200);
    assert_eq!(Reply::Unauthorized.status(), 401);
    assert_eq!(Reply::Failed(NASError::Decode(DecodeError::InvalidEncoding)).status(), 400);
    assert_eq!(Reply::Failed(NASError::Resolve(ResolveError::InvalidPath)).status(), 400);
    assert_eq!(Reply::Failed(NASError::Resolve(ResolveError::OutsideRoot)).status(), 403);
    assert_eq!(Reply::Failed(NASError::Io(IoError::NotFound)).status(), 404);
    assert_eq!(Reply::Failed(NASError::Io(IoError::Other)).status(), 500);
    assert_eq!(Reply::Failed(NASError::Delete(DeleteError::TypeMismatch)).status(), 500);
    assert_eq!(
        Reply::Failed(NASError::Delete(DeleteError::Failed { path: "/data/x".to_string() }))
            .status(),
        500
    );
}

#[test]
fn only_traversal_is_a_security_event() {
    assert!(NASError::Resolve(ResolveError::OutsideRoot).is_security_event());
    assert!(!NASError::Resolve(ResolveError::InvalidPath).is_security_event());
    assert!(!NASError::Io(IoError::NotFound).is_security_event());
    assert!(!NASError::Decode(DecodeError::InvalidEncoding).is_security_event());
    assert!(!NASError::Delete(DeleteError::TypeMismatch).is_security_event());
}

#[test]
fn deleting_a_directory_removes_all_below_it() {
    let mut tree = sample();
    assert_eq!(tree.run(Some("alice"), "films/"), Reply::Deleted);
    assert!(!tree.has("/data/alice/films"));
    assert!(!tree.has("/data/alice/films/a.mp4"));
    assert!(!tree.has("/data/alice/films/sub"));
    assert!(!tree.has("/data/alice/films/sub/b.mkv"));
    assert!(tree.has("/data/alice/films-old"));
    assert!(tree.has("/data/alice/notes.txt"));
    assert!(tree.has("/data/bob/notes.txt"));
}

#[test]
fn deleting_a_file_leaves_its_siblings() {
    let mut tree = sample();
    assert_eq!(tree.run(Some("alice"), "notes.txt/"), Reply::Deleted);
    assert!(!tree.has("/data/alice/notes.txt"));
    assert!(tree.has("/data/alice/list.txt"));
    assert!(tree.has("/data/alice/films/a.mp4"));
    assert!(tree.has("/data/bob/notes.txt"));
    assert_eq!(tree.nodes.len(), 9);
}

#[test]
fn deleting_what_is_not_there_is_not_found() {
    let mut tree = sample();
    let reply = tree.run(Some("alice"), "nothing.txt/");
    assert_eq!(reply, Reply::Failed(NASError::Io(IoError::NotFound)));
    assert_eq!(reply.status(), 404);
    assert_eq!(tree.nodes.len(), 10);
}

#[test]
fn deleting_twice_fails_both_times_after_the_first() {
    let mut tree = sample();
    assert_eq!(tree.run(Some("alice"), "list.txt"), Reply::Deleted);
    let second = tree.run(Some("alice"), "list.txt");
    let third = tree.run(Some("alice"), "list.txt");
    assert_eq!(second, Reply::Failed(NASError::Io(IoError::NotFound)));
    assert_eq!(third, Reply::Failed(NASError::Io(IoError::NotFound)));
    assert_ne!(second, Reply::Deleted);
}

#[test]
fn deleting_outside_the_root_touches_nothing() {
    let mut tree = sample();
    let reply = tree.run(Some("alice"), "../../data-secret/x");
    assert_eq!(reply, Reply::Failed(NASError::Resolve(ResolveError::OutsideRoot)));
    assert_eq!(reply.status(), 403);
    assert_eq!(tree.nodes.len(), 10);
}
