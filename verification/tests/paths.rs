use kubelet_adapters::paths::{parent, with_extension};
use std::path::Path;

const PATHS: [&str; 22] = [
    "", "/", "//", ".", "..", "./", "/.", "a", "a/", "a/.", "./a", "../a.b", "/a.b", "//a", "a//b.c.d",
    "a/./b.c", "a/b/..", "/a/b.c/", ".hidden", "a/.hidden.x", "a.", "/x/./../y.z/.",
];

#[test]
fn parents_are_those_of_std() {
    for p in PATHS {
        let expected = Path::new(p).parent().map(|q| q.to_str().unwrap().to_string());
        assert_eq!(parent(p), expected, "{:?}", p);
    }
}

#[test]
fn extensions_are_replaced_as_std_does() {
    for p in PATHS {
        for ext in ["tmp", "crt.tmp", ""] {
            let expected = Path::new(p).with_extension(ext);
            assert_eq!(with_extension(p, ext), expected.to_str().unwrap(), "{:?}", p);
        }
    }
}
