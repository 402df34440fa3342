use termsuite::paths::{extension, file_name, file_name_text, file_stem, join, with_extension};
use termsuite::text::{
    chars_of, find_chars, parse_u32, replace_chars, string_of, trim, u64_to_string,
    u64_to_string2,
};

fn chars(s: &str) -> Vec<char> {
    s.chars().collect()
}

fn text(v: Option<Vec<char>>) -> Option<String> {
    v.map(|c| c.into_iter().collect())
}

#[test]
fn file_name_follows_path_components() {
    assert_eq!(text(file_name(&chars("a/b/song.flac"))), Some("song.flac".to_string()));
    assert_eq!(text(file_name(&chars("a/b/"))), Some("b".to_string()));
    assert_eq!(text(file_name(&chars("a/b/."))), Some("b".to_string()));
    assert_eq!(text(file_name(&chars("a/.."))), None);
    assert_eq!(text(file_name(&chars("/"))), None);
    assert_eq!(text(file_name(&chars(""))), None);
    assert_eq!(file_name_text("music/x.mp3"), "x.mp3");
    assert_eq!(file_name_text(".."), "");
}

#[test]
fn stem_and_extension_split_at_last_dot() {
    assert_eq!(text(file_stem(&chars("a/b.tar.gz"))), Some("b.tar".to_string()));
    assert_eq!(text(extension(&chars("a/b.tar.gz"))), Some("gz".to_string()));
    assert_eq!(text(file_stem(&chars(".hidden"))), Some(".hidden".to_string()));
    assert_eq!(text(extension(&chars(".hidden"))), None);
    assert_eq!(text(extension(&chars("noext"))), None);
    assert_eq!(text(extension(&chars("dot."))), Some("".to_string()));
    assert_eq!(text(file_stem(&chars("dot."))), Some("dot".to_string()));
}

#[test]
fn join_adds_one_separator() {
    assert_eq!(join("/home/me", "Music"), "/home/me/Music");
    assert_eq!(join("/home/me/", "Music"), "/home/me/Music");
    assert_eq!(join("", "Music"), "Music");
    assert_eq!(join("/home/me", "/abs"), "/abs");
}

#[test]
fn with_extension_replaces_or_adds() {
    assert_eq!(with_extension("a/b.flac", "m4a"), "a/b.m4a");
    assert_eq!(with_extension("a/b", "m4a"), "a/b.m4a");
    assert_eq!(with_extension("a/b.tar.gz", "m4a"), "a/b.tar.m4a");
    assert_eq!(with_extension("a/.flac", "m4a"), "a/.flac.m4a");
    assert_eq!(with_extension("a/b.flac/", "m4a"), "a/b.m4a");
    assert_eq!(with_extension("a/b.flac", ""), "a/b");
    assert_eq!(with_extension("..", "m4a"), "..");
    assert_eq!(with_extension("", "m4a"), "");
}

#[test]
fn with_extension_matches_std() {
    for p in [
        "a/b.flac", "x", "dir/.cfg", "a/b/c.d.e", "a/b.flac/", "song.FLAC", "a//b.c", "/", ".",
        "..", "a/.", "./x.flac", "x/..", "a/b/./", "a.b/", "/abs/ü.flac", "dot.", "a/b/.hidden.ogg",
        "",
    ] {
        let ours = with_extension(p, "m4a");
        let std_path = std::path::Path::new(p).with_extension("m4a");
        assert_eq!(ours, std_path.to_str().unwrap(), "for {}", p);
    }
}

#[test]
fn trim_removes_surrounding_whitespace() {
    assert_eq!(trim("  hello world \t\n"), "hello world");
    assert_eq!(trim("   "), "");
    assert_eq!(trim(""), "");
    assert_eq!(trim("\u{a0}x\u{3000}"), "x");
}

#[test]
fn numbers_print_and_parse() {
    assert_eq!(u64_to_string(0), "0");
    assert_eq!(u64_to_string(18446744073709551615), "18446744073709551615");
    assert_eq!(u64_to_string2(7), "07");
    assert_eq!(u64_to_string2(123), "123");
    assert_eq!(parse_u32(&chars("2019")), Some(2019));
    assert_eq!(parse_u32(&chars("+42")), Some(42));
    assert_eq!(parse_u32(&chars("4294967295")), Some(4294967295));
    assert_eq!(parse_u32(&chars("4294967296")), None);
    assert_eq!(parse_u32(&chars("")), None);
    assert_eq!(parse_u32(&chars("12a")), None);
    assert_eq!(parse_u32(&chars("-1")), None);
}

#[test]
fn find_and_replace() {
    let s = chars("a--b--c");
    assert_eq!(find_chars(&s, &chars("--"), 0), Some(1));
    assert_eq!(find_chars(&s, &chars("--"), 2), Some(4));
    assert_eq!(find_chars(&s, &chars("x"), 0), None);
    let r = replace_chars(&s, &chars("--"), &chars("+"));
    assert_eq!(string_of(&r), "a+b+c");
    assert_eq!(chars_of("héllo"), chars("héllo"));
}

#[test]
fn path_parts_match_std() {
    for p in [
        "a/b.flac", "x", "dir/.cfg", "a/b/c.d.e", "a/b.flac/", "a//b.c", "/", ".", "..", "a/.",
        "./x.flac", "x/..", "a/b/./", "a.b/", "/abs/ü.flac", "dot.", "a/b/.hidden.ogg", "", "...",
        "a/..b", "a/b..", "//x//", "a/./b",
    ] {
        let path = std::path::Path::new(p);
        let name = path.file_name().map(|s| s.to_string_lossy().into_owned());
        let stem = path.file_stem().map(|s| s.to_string_lossy().into_owned());
        let ext = path.extension().map(|s| s.to_string_lossy().into_owned());
        assert_eq!(text(file_name(&chars(p))), name, "file_name of {}", p);
        assert_eq!(text(file_stem(&chars(p))), stem, "file_stem of {}", p);
        assert_eq!(text(extension(&chars(p))), ext, "extension of {}", p);
    }
}
