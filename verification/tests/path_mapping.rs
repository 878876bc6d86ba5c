use stratsample::paths::{is_under_root, map_path, map_under};

fn b(s: &str) -> Vec<u8> {
    s.as_bytes().to_vec()
}

#[test]
fn is_under_root_requires_prefix_and_separator() {
    assert!(is_under_root(&b("/in/A"), &b("/in")));
    assert!(is_under_root(&b("/in/A/f.txt"), &b("/in")));
    // the root itself is not under the root
    assert!(!is_under_root(&b("/in"), &b("/in")));
    // a shared string prefix without a separator does not count
    assert!(!is_under_root(&b("/inx/y"), &b("/in")));
    assert!(!is_under_root(&b("/elsewhere/y"), &b("/in")));
    assert!(!is_under_root(&b(""), &b("/in")));
}

#[test]
fn map_path_replaces_the_root_prefix() {
    assert_eq!(map_path(&b("/in/A/f.txt"), &b("/in"), &b("/out")), Some(b("/out/A/f.txt")));
    assert_eq!(map_path(&b("/in/A"), &b("/in"), &b("/somewhere/deep")), Some(b("/somewhere/deep/A")));
    assert_eq!(map_under(&b("/in/B"), &b("/in"), &b("/out")), b("/out/B"));
}

#[test]
fn map_path_rejects_paths_outside_the_root() {
    assert_eq!(map_path(&b("/elsewhere/f"), &b("/in"), &b("/out")), None);
    assert_eq!(map_path(&b("/in"), &b("/in"), &b("/out")), None);
    assert_eq!(map_path(&b("/inx/f"), &b("/in"), &b("/out")), None);
}

#[test]
fn map_path_round_trip_reproduces_the_path() {
    let p = b("/in/A/f.txt");
    let there = map_path(&p, &b("/in"), &b("/out")).unwrap();
    let back = map_path(&there, &b("/out"), &b("/in")).unwrap();
    assert_eq!(back, p);

    let q = b("/r1/B");
    let there = map_path(&q, &b("/r1"), &b("/r2/nested")).unwrap();
    assert_eq!(there, b("/r2/nested/B"));
    let back = map_path(&there, &b("/r2/nested"), &b("/r1")).unwrap();
    assert_eq!(back, q);
}
