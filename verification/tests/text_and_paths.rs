use bootiful_plymouth_discovery::detector::logs::collect_log_file;
use bootiful_plymouth_discovery::detector::themes::is_image_asset;
use bootiful_plymouth_discovery::order::sort_by_key;
use bootiful_plymouth_discovery::path::{
    absolute_link_target, path_extension, path_file_name, path_file_stem, path_join, path_parent,
    path_parent_name,
};
use bootiful_plymouth_discovery::strmap::StrMap;
use bootiful_plymouth_discovery::text::{
    contains_str, from_chars, join_chars, lines_of, remove_all_chars, split_words, to_chars,
    trim_char_chars, trim_chars,
};
use std::path::Path;

fn s(v: &[char]) -> String {
    v.iter().collect()
}

fn all(v: &[Vec<char>]) -> Vec<String> {
    v.iter().map(|x| s(x)).collect()
}

const SAMPLES: [&str; 12] = [
    "",
    "   ",
    "abc",
    "  abc  ",
    "\tline one\r\nline two\n",
    "a\n\nb\n\n",
    "x\r\ny\r",
    "\u{2003}wide\u{3000}space\u{85}",
    "one two  three\tfour\nfive",
    "\n",
    "trailing\n\n\n",
    "no newline at end",
];

#[test]
fn trim_agrees_with_std() {
    for t in SAMPLES {
        assert_eq!(s(&trim_chars(&to_chars(t))), t.trim(), "input {:?}", t);
    }
}

#[test]
fn lines_agree_with_std() {
    for t in SAMPLES {
        let expected: Vec<String> = t.lines().map(|l| l.to_string()).collect();
        assert_eq!(all(&lines_of(t)), expected, "input {:?}", t);
    }
}

#[test]
fn words_agree_with_split_whitespace() {
    for t in SAMPLES {
        let expected: Vec<String> = t.split_whitespace().map(|w| w.to_string()).collect();
        assert_eq!(all(&split_words(&to_chars(t))), expected, "input {:?}", t);
    }
}

#[test]
fn lowercase_goes_through_the_standard_tables() {
    // A log line is kept when its lowercase form mentions plymouth; the Greek capital
    // sigma and the dotted capital I lowercase by the standard tables.
    let content = "ΣPLYMOUTH start\nİplymouth\nPlyMouth ÄÖÜ\nnothing";
    let r = collect_log_file("/var/log/boot.log", "plymouth_lines", 0, true, content);
    let kept = r.lines.get("plymouth_lines").unwrap();
    assert_eq!(kept, &vec!["ΣPLYMOUTH start", "İplymouth", "PlyMouth ÄÖÜ"]);
    assert!(is_image_asset("/usr/share/plymouth/themes/x/ÄLOGO.PNG"));
    assert!(!is_image_asset("/usr/share/plymouth/themes/x/logo.PNGX"));
}

#[test]
fn removing_a_pattern_everywhere() {
    let r = remove_all_chars(&to_chars("Python Python 3.12.3"), &to_chars("Python "));
    assert_eq!(s(&r), "3.12.3");
    let r = remove_all_chars(&to_chars("aaa"), &to_chars("aa"));
    assert_eq!(s(&r), "aaa".replace("aa", ""));
}

#[test]
fn trimming_a_quote_character() {
    assert_eq!(s(&trim_char_chars(&to_chars("\"\"Ubuntu\""), '"')), "Ubuntu");
    assert_eq!(s(&trim_char_chars(&to_chars("plain"), '\'')), "plain");
}

#[test]
fn joining_with_a_separator() {
    let parts = vec![to_chars("a"), to_chars("bc"), to_chars("")];
    assert_eq!(s(&join_chars(&parts, &to_chars(" "))), ["a", "bc", ""].join(" "));
    let none: Vec<Vec<char>> = Vec::new();
    assert_eq!(s(&join_chars(&none, &to_chars(", "))), "");
}

#[test]
fn containment_of_a_pattern() {
    assert!(contains_str(&to_chars("quiet splash"), "splash"));
    assert!(!contains_str(&to_chars("quiet"), "splash"));
    assert!(contains_str(&to_chars("x"), ""));
    assert_eq!(from_chars(&to_chars("héllo")), "héllo");
}

const PATHS: [&str; 16] = [
    "",
    "/",
    "//",
    "a",
    "a/",
    "/a/b",
    "/a/b/",
    "./a",
    "a/./b/.",
    "../x",
    "/usr/share/plymouth/themes/spinner/spinner.plymouth",
    "archive.tar.gz",
    ".hidden",
    "..",
    "a/..",
    "/boot/initrd.img-6.8.0-31-generic",
];

#[test]
fn path_parts_agree_with_std() {
    for p in PATHS {
        let c = to_chars(p);
        let std_path = Path::new(p);
        let name = path_file_name(&c).map(|v| s(&v));
        assert_eq!(name, std_path.file_name().map(|n| n.to_string_lossy().into_owned()), "file_name {:?}", p);
        let ext = path_extension(&c).map(|v| s(&v));
        assert_eq!(ext, std_path.extension().map(|n| n.to_string_lossy().into_owned()), "extension {:?}", p);
        let stem = path_file_stem(&c).map(|v| s(&v));
        assert_eq!(stem, std_path.file_stem().map(|n| n.to_string_lossy().into_owned()), "file_stem {:?}", p);
        let parent = path_parent(&c).map(|v| s(&v));
        assert_eq!(parent, std_path.parent().map(|n| n.to_string_lossy().into_owned()), "parent {:?}", p);
        let parent_name = path_parent_name(&c).map(|v| s(&v));
        let expected = std_path.parent().and_then(|q| q.file_name()).map(|n| n.to_string_lossy().into_owned());
        assert_eq!(parent_name, expected, "parent name {:?}", p);
    }
}

#[test]
fn joining_paths_agrees_with_std() {
    let cases = [("/etc", "x"), ("/etc/", "x"), ("", "x"), ("a", "/abs"), ("a/b", "../c"), ("/", "")];
    for (b, t) in cases {
        let joined = s(&path_join(&to_chars(b), &to_chars(t)));
        assert_eq!(joined, Path::new(b).join(t).to_string_lossy(), "{:?} + {:?}", b, t);
    }
}

#[test]
fn link_targets_are_made_absolute() {
    let t = absolute_link_target(&to_chars("/etc/alternatives/default.plymouth"), &to_chars("/usr/share/x.plymouth"));
    assert_eq!(s(&t), "/usr/share/x.plymouth");
    let t = absolute_link_target(&to_chars("/etc/alternatives/default.plymouth"), &to_chars("../themes/x.plymouth"));
    assert_eq!(s(&t), "/etc/alternatives/../themes/x.plymouth");
    let t = absolute_link_target(&to_chars("link"), &to_chars("target"));
    assert_eq!(s(&t), "target");
    let t = absolute_link_target(&to_chars(""), &to_chars("target"));
    assert_eq!(s(&t), "./target");
}

#[test]
fn sorting_by_text_is_stable() {
    let v = vec!["b".to_string(), "a".to_string(), "B".to_string(), "a".to_string(), "".to_string()];
    let sorted = sort_by_key(v.clone());
    let mut expected = v;
    expected.sort();
    assert_eq!(sorted, expected);
}

#[test]
fn a_map_gives_back_what_was_stored() {
    let mut m: StrMap<u32> = StrMap::new();
    assert_eq!(m.len(), 0);
    m.insert("b".to_string(), 1);
    m.insert("a".to_string(), 2);
    m.insert("b".to_string(), 3);
    assert_eq!(m.len(), 2);
    assert_eq!(m.get("b"), Some(&3));
    assert_eq!(m.get("a"), Some(&2));
    assert_eq!(m.get("c"), None);
    assert!(m.contains_key("a"));
    let keys: Vec<&str> = m.as_slice().iter().map(|(k, _)| k.as_str()).collect();
    assert_eq!(keys, vec!["b", "a"]);
    assert_eq!(m.remove(&to_chars("b")), Some(3));
    assert_eq!(m.remove(&to_chars("b")), None);
    assert_eq!(m.len(), 1);
}
