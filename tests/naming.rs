use venvcache::fingerprint::{fingerprint_input, venv_sha};
use venvcache::layout::{env_dir, lock_path, pip_path, python_path, requirements_path};

#[test]
fn digest_input_joins_with_blank_line() {
    assert_eq!(fingerprint_input("Python 3.11.4\n", "requests\n"), "Python 3.11.4\n\n\nrequests\n");
    assert_eq!(fingerprint_input("", ""), "\n\n");
}

#[test]
fn fingerprint_known_value() {
    assert_eq!(
        venv_sha("Python 3.11.4\n", "requests\n"),
        "28fcca47aae3974f92f3f29f5089ecd697751e395035d7c1c0f51b0272a802df"
    );
}

#[test]
fn fingerprint_is_deterministic() {
    assert_eq!(venv_sha("Python 3.11.4\n", "requests\n"), venv_sha("Python 3.11.4\n", "requests\n"));
}

#[test]
fn distinct_requirements_give_distinct_environments() {
    let a = venv_sha("Python 3.11.4\n", "requests\n");
    let b = venv_sha("Python 3.11.4\n", "flask\n");
    assert_eq!(b, "2fe6f062104a8157484bc656f910640418f858c3794ab680d3b522896cf6187c");
    assert_ne!(a, b);
    assert_ne!(env_dir("root", &a), env_dir("root", &b));
}

#[test]
fn distinct_interpreters_give_distinct_fingerprints() {
    assert_ne!(venv_sha("Python 3.11.4\n", "requests\n"), venv_sha("Python 3.12.1\n", "requests\n"));
}

#[test]
fn fingerprint_is_lowercase_hex() {
    let f = venv_sha("Python 3.9.0\n", "");
    assert_eq!(f.len(), 64);
    assert!(f.chars().all(|c| c.is_ascii_digit() || ('a'..='f').contains(&c)));
}

#[test]
fn layout_paths() {
    let dir = env_dir("/cache", "abc");
    assert_eq!(dir, "/cache/abc");
    assert_eq!(lock_path(&dir), "/cache/abc.lock");
    assert_eq!(requirements_path(&dir), "/cache/abc.requirements");
    assert_eq!(python_path(&dir), "/cache/abc/bin/python");
    assert_eq!(pip_path(&dir), "/cache/abc/bin/pip");
}
