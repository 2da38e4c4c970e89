use genpolicy::text::{file_name, join, last_segment_of, parse_u32, split};

#[test]
fn split_gives_every_piece() {
    assert_eq!(split("a.b.c", '.'), vec!["a".to_string(), "b".to_string(), "c".to_string()]);
    assert_eq!(split("", '.'), vec!["".to_string()]);
    assert_eq!(split(".a.", '.'), vec!["".to_string(), "a".to_string(), "".to_string()]);
}

#[test]
fn join_is_undone_by_split() {
    let parts = vec!["x".to_string(), "".to_string(), "yz".to_string()];
    let joined = join(&parts, ":");
    assert_eq!(joined, "x::yz");
    assert_eq!(split(&joined, ':'), parts);
}

#[test]
fn file_name_agrees_with_std() {
    for path in ["/data", "/data/", "a/b/.", "/", "", "..", "a/..", "/a//b", ".", "./x", "/etc/resolv.conf"] {
        let expected = std::path::Path::new(path).file_name().and_then(|n| n.to_str()).map(String::from);
        assert_eq!(file_name(path), expected, "path {:?}", path);
    }
}

#[test]
fn last_segment_follows_the_last_slash() {
    assert_eq!(last_segment_of("/var/run/data"), "data");
    assert_eq!(last_segment_of("/var/run/"), "");
    assert_eq!(last_segment_of("plain"), "plain");
}

#[test]
fn parse_u32_agrees_with_std() {
    for text in ["0", "1000", "+7", "007", "", "+", "-1", "4294967295", "4294967296", "12a", " 1", "99999999999999999999"] {
        assert_eq!(parse_u32(text), text.parse::<u32>().ok(), "text {:?}", text);
    }
}
