use keepme::utils::{parse_url, s, splitter};

#[test]
fn splitter_drops_empty_segments() {
    assert_eq!(splitter("/api/auth/login"), vec!["api", "auth", "login"]);
    assert_eq!(splitter("a//b/"), vec!["a", "b"]);
    assert_eq!(splitter("///"), Vec::<&str>::new());
    assert_eq!(splitter(""), Vec::<&str>::new());
    assert_eq!(splitter("x"), vec!["x"]);
    assert_eq!(splitter("/"), Vec::<&str>::new());
}

#[test]
fn splitter_keeps_multibyte_characters() {
    assert_eq!(splitter("/é/ü//日本"), vec!["é", "ü", "日本"]);
}

#[test]
fn splitter_join_roundtrip() {
    let segs = vec!["data-rs", "tmp", "ö"];
    assert_eq!(splitter(&segs.join("/")), segs);
    let path = "//a///b/c//";
    let once = splitter(path);
    assert_eq!(splitter(&once.join("/")), once);
    assert_eq!(once.concat(), path.replace('/', ""));
}

#[test]
fn s_reads_utf8() {
    assert_eq!(s(b"hello"), "hello");
    assert_eq!(s("grüß".as_bytes()), "grüß");
    assert_eq!(s(b""), "");
}

#[test]
fn splitter_of_joined_paths() {
    for (a, b) in [("/x/y", "z/"), ("", ""), ("a", "/b"), ("//", "c//d")] {
        let mut both = splitter(a);
        both.extend(splitter(b));
        assert_eq!(splitter(&format!("{}/{}", a, b)), both);
    }
}

#[test]
fn parse_url_normalises() {
    assert_eq!(parse_url("https://Google.com").as_deref(), Some("https://google.com/"));
    assert_eq!(parse_url("no scheme"), None);
}
