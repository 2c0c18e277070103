use std::path::{Component, Path, PathBuf};

use obsidian_nas_server::error::AppError;
use obsidian_nas_server::file::{conflict_stored_rel, sanitize_for_filename, trash_stored_rel};
use obsidian_nas_server::storage::{etag_of, parent_dirs, safe_join, Storage};

#[test]
fn rejects_traversal_and_absolute() {
    let base = "/vault";
    assert!(safe_join(base, "../etc/passwd").is_none());
    assert!(safe_join(base, "/etc/passwd").is_none());
    assert!(safe_join(base, "a/../b").is_none());
    assert!(safe_join(base, "").is_none());
    assert!(safe_join(base, ".").is_none());
    assert!(safe_join(base, "with\0null").is_none());
}

#[test]
fn accepts_normal_paths_and_canonicalizes() {
    let base = "/vault";
    let (abs, canon) = safe_join(base, "notes/foo.md").unwrap();
    assert_eq!(Path::new(&abs), Path::new("/vault/notes/foo.md"));
    assert_eq!(canon, "notes/foo.md");
}

/// The same resolution written with `std::path`, for comparison.
fn std_join(base: &Path, rel: &str) -> Option<(PathBuf, String)> {
    if rel.is_empty() || rel.contains('\0') {
        return None;
    }
    let mut out = base.to_path_buf();
    let mut parts = Vec::new();
    for comp in Path::new(rel).components() {
        match comp {
            Component::Normal(c) => {
                let s = c.to_str()?;
                out.push(c);
                parts.push(s.to_string());
            }
            _ => return None,
        }
    }
    if parts.is_empty() {
        return None;
    }
    Some((out, parts.join("/")))
}

#[test]
fn path_resolution_agrees_with_std_components() {
    let rels = [
        "a", "a/b", "a//b", "a/./b", "./a", ".", "..", "a/..", "a/../b", "/a", "//a", "a/",
        "a/b/", ".hidden", "a/.hidden", "...", "a/...", "a/.", "./", "/", "//", "a\0b",
        "notes/foo.md", "x/./", "./.", ".//a", "a/b/c/d.txt", "é/ü", " a / b ", "a/.../b",
    ];
    for base in ["/vault", "/vault/", "", "./data/vault", "rel"] {
        for rel in rels {
            let mine = safe_join(base, rel);
            let theirs = std_join(Path::new(base), rel);
            match (&mine, &theirs) {
                (Some((a, c)), Some((b, d))) => {
                    assert_eq!(Path::new(a), b.as_path(), "abs of {base:?} + {rel:?}");
                    assert_eq!(a.as_str(), b.to_str().unwrap(), "text of {base:?} + {rel:?}");
                    assert_eq!(c, d, "canon of {rel:?}");
                }
                (None, None) => {}
                _ => panic!("disagree on {base:?} + {rel:?}: {mine:?} vs {theirs:?}"),
            }
        }
    }
}

#[test]
fn canonical_path_resolves_to_itself() {
    let (abs, canon) = safe_join("/vault", "a//./b/c/").unwrap();
    assert_eq!(canon, "a/b/c");
    let (abs2, canon2) = safe_join("/vault", &canon).unwrap();
    assert_eq!(canon2, canon);
    assert_eq!(abs2, abs);
    assert!(abs.starts_with("/vault"));
}

#[test]
fn storage_targets_reject_bad_paths() {
    let s = Storage::new("/v".to_string(), "/t".to_string(), "/c".to_string());
    assert!(matches!(s.resolve_vault("../x"), Err(AppError::InvalidPath)));
    assert_eq!(s.resolve_vault("a/b").unwrap(), ("/v/a/b".to_string(), "a/b".to_string()));
    assert_eq!(s.trash_target("2026-01-01/id/a__b").unwrap(), "/t/2026-01-01/id/a__b");
    assert_eq!(s.conflicts_target("id/a.bin").unwrap(), "/c/id/a.bin");
    assert!(matches!(s.conflicts_target(""), Err(AppError::InvalidPath)));
    assert!(matches!(s.trash_target("/abs"), Err(AppError::InvalidPath)));
}

#[test]
fn displaced_copies_are_single_files() {
    assert_eq!(sanitize_for_filename("notes/sub/foo.md"), "notes__sub__foo.md");
    assert_eq!(conflict_stored_rel("abc", "notes/foo.md"), "abc/notes__foo.md.bin");
    assert_eq!(trash_stored_rel("2026-06-10", "tid", "a/b"), "2026-06-10/tid/a__b");
    let s = Storage::new("/v".to_string(), "/t".to_string(), "/c".to_string());
    assert_eq!(
        s.conflicts_target(&conflict_stored_rel("abc", "notes/foo.md")).unwrap(),
        "/c/abc/notes__foo.md.bin"
    );
}

#[test]
fn etag_is_blake3_hex() {
    assert_eq!(
        etag_of(b""),
        "af1349b9f5f9a1a6a0404dea36dcc9499bcb25c9adc112b7cc9a93cae41f3262"
    );
    let e = etag_of(b"hello");
    assert_eq!(e.len(), 64);
    assert_ne!(e, etag_of(b"hellp"));
    assert_eq!(e, blake3::hash(b"hello").to_hex().to_string());
}

#[test]
fn parent_dirs_match_std_ancestors() {
    let vault = "./data/vault";
    for canon in ["a/b/c.md", "top.md", "x/y.txt", "한/글/파일.md"] {
        let (abs, c) = safe_join(vault, canon).expect("canonical path");
        assert_eq!(c, canon);
        let mut expected: Vec<String> = Vec::new();
        let mut cur = Path::new(&abs).parent();
        while let Some(p) = cur {
            if p == Path::new(vault) {
                break;
            }
            expected.push(p.to_string_lossy().into_owned());
            cur = p.parent();
        }
        expected.reverse();
        assert_eq!(parent_dirs(vault, canon), expected, "canon = {canon}");
    }
    assert_eq!(parent_dirs("/v/", "a/b"), vec!["/v/a".to_string()]);
    assert!(parent_dirs("/v", "file").is_empty());
}

#[test]
fn displaced_copy_paths_are_canonical() {
    let id = "0f8e1c2a-52d4-4b8e-9c3e-5b1f2d7a9e10";
    for canon in ["a.md", "notes/foo.md", "..b", "a/..b/c", ".hidden/x", "한/글.md"] {
        let c = conflict_stored_rel(id, canon);
        assert_eq!(safe_join("/c", &c).map(|(_, k)| k), Some(c.clone()), "conflict copy of {canon}");
        let t = trash_stored_rel("2026-06-10", id, canon);
        assert_eq!(safe_join("/t", &t).map(|(_, k)| k), Some(t.clone()), "trash copy of {canon}");
    }
}
