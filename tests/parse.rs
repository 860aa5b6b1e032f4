use m3u8_checker::{parse_m3u8_file, split_lines, UrlSet};

fn chars(s: &str) -> Vec<char> {
    s.chars().collect()
}

#[test]
fn example_playlist_keeps_plain_http_entry() {
    let mut seen = UrlSet::new();
    let text = "#EXTINF:,Channel A\nhttp://example.com/a.ts\n#EXTINF:,Channel B\nhttps://example.com/b.ts\n";
    let entries = parse_m3u8_file(text, &mut seen);
    assert_eq!(entries.len(), 1);
    assert_eq!(entries[0].description, "#EXTINF:,Channel A");
    assert_eq!(entries[0].url, "http://example.com/a.ts");
    assert_eq!(seen.len(), 1);
    assert!(seen.contains(&"http://example.com/a.ts".to_string()));
    assert!(!seen.contains(&"https://example.com/b.ts".to_string()));
}

#[test]
fn duplicate_url_in_one_file_keeps_first() {
    let mut seen = UrlSet::new();
    let text = "#EXTINF:-1,First\nhttp://x/1\n#EXTINF:-1,Second\nhttp://x/1\n#EXTINF:-1,Third\nhttp://x/2\n";
    let entries = parse_m3u8_file(text, &mut seen);
    assert_eq!(entries.len(), 2);
    assert_eq!(entries[0].description, "#EXTINF:-1,First");
    assert_eq!(entries[0].url, "http://x/1");
    assert_eq!(entries[1].description, "#EXTINF:-1,Third");
    assert_eq!(entries[1].url, "http://x/2");
}

#[test]
fn duplicate_url_across_files_goes_to_first_file() {
    let mut seen = UrlSet::new();
    let a = parse_m3u8_file("#EXTINF:,From A\nrtmp://host/live\n", &mut seen);
    let b = parse_m3u8_file("#EXTINF:,From B\nrtmp://host/live\n#EXTINF:,Other\nrtmp://host/other\n", &mut seen);
    assert_eq!(a.len(), 1);
    assert_eq!(a[0].description, "#EXTINF:,From A");
    assert_eq!(b.len(), 1);
    assert_eq!(b[0].url, "rtmp://host/other");
    assert_eq!(seen.len(), 2);
}

#[test]
fn description_followed_by_empty_line_yields_nothing() {
    let mut seen = UrlSet::new();
    let entries = parse_m3u8_file("#EXTINF:,Empty\n\nhttp://x/a\n", &mut seen);
    assert!(entries.is_empty());
    assert_eq!(seen.len(), 0);
}

#[test]
fn description_followed_by_https_line_is_rescanned() {
    let mut seen = UrlSet::new();
    let text = "#EXTINF:,Secure\nhttps://x/a\n#EXTINF:,Next\nhttp://x/b\n";
    let entries = parse_m3u8_file(text, &mut seen);
    assert_eq!(entries.len(), 1);
    assert_eq!(entries[0].description, "#EXTINF:,Next");
    assert_eq!(entries[0].url, "http://x/b");
}

#[test]
fn description_followed_by_description_pairs_them() {
    let mut seen = UrlSet::new();
    let entries = parse_m3u8_file("#EXTINF:,One\n#EXTINF:,Two\nhttp://x/c\n", &mut seen);
    assert_eq!(entries.len(), 1);
    assert_eq!(entries[0].description, "#EXTINF:,One");
    assert_eq!(entries[0].url, "#EXTINF:,Two");
}

#[test]
fn description_on_last_line_yields_nothing() {
    let mut seen = UrlSet::new();
    assert!(parse_m3u8_file("#EXTM3U\n#EXTINF:,Last", &mut seen).is_empty());
    assert!(parse_m3u8_file("", &mut seen).is_empty());
}

#[test]
fn lines_without_marker_are_ignored() {
    let mut seen = UrlSet::new();
    let entries = parse_m3u8_file("#EXTM3U\nhttp://x/a\n#EXTINF\nhttp://x/b\n", &mut seen);
    assert!(entries.is_empty());
}

#[test]
fn crlf_terminators_are_removed() {
    let mut seen = UrlSet::new();
    let entries = parse_m3u8_file("#EXTINF:,Win\r\nhttp://x/w\r\n", &mut seen);
    assert_eq!(entries.len(), 1);
    assert_eq!(entries[0].description, "#EXTINF:,Win");
    assert_eq!(entries[0].url, "http://x/w");
}

#[test]
fn url_seen_before_the_file_is_skipped() {
    let mut seen = UrlSet::new();
    assert!(seen.insert("http://x/a".to_string()));
    assert!(!seen.insert("http://x/a".to_string()));
    let entries = parse_m3u8_file("#EXTINF:,A\nhttp://x/a\n", &mut seen);
    assert!(entries.is_empty());
    assert_eq!(seen.len(), 1);
}

#[test]
fn split_lines_follows_line_terminators() {
    assert_eq!(split_lines("a\nb"), vec![chars("a"), chars("b")]);
    assert_eq!(split_lines("a\r\nb\n"), vec![chars("a"), chars("b")]);
    assert_eq!(split_lines("a\n\n"), vec![chars("a"), chars("")]);
    assert_eq!(split_lines("a\r"), vec![chars("a\r")]);
    assert_eq!(split_lines("\n"), vec![chars("")]);
    assert!(split_lines("").is_empty());
    let text = "x\r\n\ny\rz\n";
    let expected: Vec<Vec<char>> = text.lines().map(chars).collect();
    assert_eq!(split_lines(text), expected);
}
