use forgeiso_engine::workspace::{safe_join_lexical, sanitize_run_name, Workspace};

#[test]
fn safe_join_rejects_parent_escape() {
    let temp = tempfile::TempDir::new().expect("temp dir");
    let root = temp.path().to_str().expect("utf-8 path").to_string();
    let escaped = safe_join_lexical(&root, "../etc/passwd", None);
    assert!(escaped.is_err());
}

#[test]
fn safe_join_allows_child_path() {
    let temp = tempfile::TempDir::new().expect("temp dir");
    let root = temp.path().to_str().expect("utf-8 path").to_string();
    let child = safe_join_lexical(&root, "ok/file.txt", None).expect("safe path");
    assert!(std::path::Path::new(&child).starts_with(temp.path()));
}

#[test]
fn lexical_join_rules() {
    assert_eq!(safe_join_lexical("/ws/run", "a/./b/../c", None).unwrap(), "/ws/run/a/c");
    assert!(safe_join_lexical("/ws/run", "a/../../x", None).is_err());
    assert!(safe_join_lexical("/", "..", None).is_err());
    assert_eq!(safe_join_lexical("/ws/run", "/ws/run/x", None).unwrap(), "/ws/run/x");
    match safe_join_lexical("/ws/run", "/etc/passwd", None) {
        Err(e) => assert_eq!(e.message(), "filesystem safety violation: path escapes workspace: /etc/passwd"),
        Ok(_) => panic!(),
    }
    assert_eq!(
        safe_join_lexical("/ws/run", "/ws/link", Some("/ws/run/target")).unwrap(),
        "/ws/run/target"
    );
}

#[test]
fn run_names_and_layout() {
    assert_eq!(sanitize_run_name("my build.v1"), "my-build-v1");
    assert_eq!(sanitize_run_name("__ok__"), "__ok__");
    let w = Workspace::layout("/tmp/out", "demo", "1234");
    assert_eq!(w.root, "/tmp/out/demo-1234");
    assert_eq!(w.input, "/tmp/out/demo-1234/input");
    assert_eq!(w.logs, "/tmp/out/demo-1234/logs");
    assert_eq!(w.all_dirs().len(), 7);
    let p = Workspace::plan("/tmp/out/", "x");
    assert!(p.root.starts_with("/tmp/out/x-"));
}

#[test]
fn a_planned_run_root_is_one_directory_under_the_base() {
    let w = Workspace::plan("/tmp/out", "My Run!");
    let rest = w.root.strip_prefix("/tmp/out/My-Run-").expect("run directory name");
    assert_eq!(rest.len(), 36);
    assert!(!rest.contains('/'));
    for (i, c) in rest.chars().enumerate() {
        if i == 8 || i == 13 || i == 18 || i == 23 {
            assert_eq!(c, '-');
        } else {
            assert!(c.is_ascii_digit() || ('a'..='f').contains(&c));
        }
    }
    assert_eq!(w.input, format!("{}/input", w.root));
}
