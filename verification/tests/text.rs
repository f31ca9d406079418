use drone_teleport::archive::{archive_name, fresh_token, local_path, tar_name, zst_name, TOKEN_LENGTH};
use drone_teleport::environment::assignment;
use drone_teleport::pairs::OrderedMap;
use drone_teleport::remote::{directories_to_create, extract_line, file_in, remove_line};
use drone_teleport::text::{
    followed_by, is_blank, is_char, is_whitespace, join, occurs_at, remove_all, starts_with,
};
use drone_teleport::upload::{ChunkDecision, UploadProgress, CHUNK_SIZE, PROGRESS_INTERVAL};

fn text(s: &str) -> String {
    String::from(s)
}

#[test]
fn remove_all_takes_out_every_occurrence() {
    assert_eq!(remove_all("PLUGIN_HOSTS", "PLUGIN_"), "HOSTS");
    assert_eq!(remove_all("PLUGIN_A_PLUGIN_B", "PLUGIN_"), "A_B");
    assert_eq!(remove_all("PLUGIN_PLUGIN_", "PLUGIN_"), "");
    assert_eq!(remove_all("HOME", "PLUGIN_"), "HOME");
    assert_eq!(remove_all("", "PLUGIN_"), "");
    assert_eq!(remove_all("abc", ""), "abc");
    assert_eq!(remove_all("aaa", "aa"), "a");
    assert_eq!(remove_all("PLUGIPLUGIN_N_", "PLUGIN_"), "PLUGIN_");
    assert_eq!(remove_all("añb", "ñ"), "ab");
    assert_eq!(remove_all("PLUGIN", "PLUGIN_"), "PLUGIN");
}

#[test]
fn starts_with_compares_the_beginning() {
    assert!(starts_with("PLUGIN_X", "PLUGIN_"));
    assert!(starts_with("PLUGIN_", "PLUGIN_"));
    assert!(starts_with("anything", ""));
    assert!(starts_with("", ""));
    assert!(!starts_with("PLUGIN", "PLUGIN_"));
    assert!(!starts_with("XPLUGIN_", "PLUGIN_"));
    assert!(!starts_with("plugin_x", "PLUGIN_"));
    assert!(!starts_with("", "P"));
}

#[test]
fn occurs_at_looks_at_one_position() {
    assert!(occurs_at("hello world", 6, "world"));
    assert!(occurs_at("hello", 5, ""));
    assert!(!occurs_at("hello world", 5, "world"));
    assert!(!occurs_at("hello", 3, "low"));
    assert!(!occurs_at("hello", 9, ""));
    assert!(occurs_at("héllo", 2, "llo"));
}

#[test]
fn white_space_is_what_the_standard_library_takes_for_it() {
    for code in 0..=0x11_0000u32 {
        if let Some(c) = char::from_u32(code) {
            assert_eq!(is_whitespace(c), c.is_whitespace(), "U+{:04X}", code);
        }
    }
}

#[test]
fn blank_texts_trim_to_nothing() {
    for text in ["", " ", "\t \n\r", "\u{2028}\u{85}", "a", " a", "a ", " \u{200b} ", "export A=1"] {
        assert_eq!(is_blank(text), text.trim().is_empty(), "{:?}", text);
    }
}

#[test]
fn join_puts_the_separator_between() {
    assert_eq!(join(&vec![], ", "), "");
    assert_eq!(join(&vec![text("a")], ", "), "a");
    assert_eq!(join(&vec![text("a"), text("b"), text("c")], ", "), "a, b, c");
    assert_eq!(join(&vec![text(""), text("")], "-"), "-");
    assert_eq!(join(&vec![text("a"), text("b")], ""), "ab");
}

#[test]
fn small_text_helpers() {
    assert_eq!(followed_by("ab", "cd"), "abcd");
    assert_eq!(followed_by("", ""), "");
    assert!(is_char("/", '/'));
    assert!(!is_char("//", '/'));
    assert!(!is_char("", '/'));
    assert!(!is_char("a", '/'));
    assert_eq!(assignment("export ", "A", "1"), "export A=1");
    assert_eq!(assignment("", "A", ""), "A=");
}

#[test]
fn directories_come_after_their_parents() {
    assert_eq!(directories_to_create("/tmp/dest"), vec!["/tmp", "/tmp/dest"]);
    assert_eq!(directories_to_create("/a/b/c/d"), vec!["/a", "/a/b", "/a/b/c", "/a/b/c/d"]);
    assert_eq!(directories_to_create("/srv"), vec!["/srv"]);
    assert_eq!(directories_to_create("/"), Vec::<String>::new());
    assert_eq!(directories_to_create(""), Vec::<String>::new());
}

#[test]
fn directories_of_unusual_destinations() {
    assert_eq!(directories_to_create("/tmp/dest/"), vec!["/tmp", "/tmp/dest/"]);
    assert_eq!(directories_to_create("a/b"), vec!["a", "a/b"]);
    assert_eq!(directories_to_create("/a//b"), vec!["/a", "/a//b"]);
    assert_eq!(directories_to_create("/données/été"), vec!["/données", "/données/été"]);
}

#[test]
fn paths_and_lines_on_the_host() {
    assert_eq!(file_in("/tmp/dest", "x.tar"), "/tmp/dest/x.tar");
    assert_eq!(file_in("", "x"), "/x");
    assert_eq!(extract_line("/d/x.tar", "/d"), "tar -xf /d/x.tar -C /d");
    assert_eq!(remove_line("/d/x.tar"), "rm /d/x.tar");
}

#[test]
fn archive_names() {
    assert_eq!(tar_name("abc"), "abc.tar");
    assert_eq!(zst_name("abc"), "abc.tar.zst");
    assert_eq!(archive_name("abc", false), "abc.tar");
    assert_eq!(archive_name("abc", true), "abc.tar.zst");
    assert_eq!(local_path("abc.tar"), "/tmp/abc.tar");
}

#[test]
fn tokens_are_sixteen_letters_or_digits() {
    assert_eq!(TOKEN_LENGTH, 16);
    let mut seen = Vec::new();
    for _ in 0..200 {
        let token = fresh_token();
        assert_eq!(token.chars().count(), 16);
        assert!(token.chars().all(|c| c.is_ascii_alphanumeric()));
        seen.push(token);
    }
    seen.sort();
    seen.dedup();
    assert_eq!(seen.len(), 200);
}

#[test]
fn ordered_map_keeps_each_key_in_its_place() {
    let map = OrderedMap::new();
    assert!(map.is_empty());
    assert_eq!(map.len(), 0);
    assert_eq!(map.get(&text("a")), None);
    assert_eq!(map.key(0), None);
    let map = map.insert(text("b"), text("1")).insert(text("a"), text("2")).insert(text("b"), text("3"));
    assert_eq!(map.len(), 2);
    assert!(!map.is_empty());
    assert_eq!(map.key(0), Some(&text("b")));
    assert_eq!(map.value(0), Some(&text("3")));
    assert_eq!(map.key(1), Some(&text("a")));
    assert_eq!(map.value(1), Some(&text("2")));
    assert_eq!(map.value(2), None);
    assert_eq!(map.get(&text("a")), Some(&text("2")));
    assert_eq!(map.get(&text("c")), None);
    assert_eq!(map.clone(), map);
}

#[test]
fn chunk_size_is_sixty_four_kibibytes() {
    assert_eq!(CHUNK_SIZE, 64 * 1024);
    assert_eq!(PROGRESS_INTERVAL, 4 * 1024 * 1024);
}

#[test]
fn upload_ends_with_the_first_short_read() {
    let mut progress = UploadProgress::new(false);
    assert_eq!(
        progress.chunk(CHUNK_SIZE),
        ChunkDecision { write: CHUNK_SIZE, report: false, last: false }
    );
    assert_eq!(progress.chunk(100), ChunkDecision { write: 100, report: false, last: true });
    assert_eq!(progress.sent, (CHUNK_SIZE + 100) as u64);
    let mut empty = UploadProgress::new(true);
    assert_eq!(empty.chunk(0), ChunkDecision { write: 0, report: false, last: true });
    assert_eq!(empty.sent, 0);
}

#[test]
fn progress_is_reported_once_per_interval() {
    let mut progress = UploadProgress::new(true);
    let mut reports = Vec::new();
    for chunk in 1..=200u64 {
        if progress.chunk(CHUNK_SIZE).report {
            reports.push(chunk);
        }
    }
    assert_eq!(reports, vec![64, 128, 192]);
    assert_eq!(progress.sent, 200 * 65536);

    let mut quiet = UploadProgress::new(false);
    for _ in 0..200 {
        assert!(!quiet.chunk(CHUNK_SIZE).report);
    }
}

#[test]
fn sent_bytes_stop_at_the_largest_count() {
    let mut progress = UploadProgress { since_report: 63, sent: u64::MAX - 10, verbose: true };
    let decision = progress.chunk(CHUNK_SIZE);
    assert!(decision.report);
    assert_eq!(progress.sent, u64::MAX);
    assert_eq!(progress.since_report, 0);
}
