use yeti_benchmarks::resources::AppsResource;
use yeti_benchmarks::resources::BenchmarksResource;
use yeti_benchmarks::resources::BestResultsResource;
use yeti_benchmarks::resources::FilesResource;
use yeti_benchmarks::resources::KeysResource;
use yeti_benchmarks::resources::ReposResource;
use yeti_benchmarks::resources::SchemasResource;
use yeti_benchmarks::scenario::book_id;
use yeti_benchmarks::scenario::pool_slot;
use yeti_benchmarks::stream::socket_url;
use yeti_benchmarks::text::chars_of;
use yeti_benchmarks::text::find_text;
use yeti_benchmarks::text::first_token_chars;
use yeti_benchmarks::text::is_space_char;
use yeti_benchmarks::text::matches_at;
use yeti_benchmarks::text::replace_all;
use yeti_benchmarks::text::same_text;
use yeti_benchmarks::text::trim_chars;

fn text(chars: &[char]) -> String {
    chars.iter().collect()
}

#[test]
fn characters_of_a_text() {
    assert_eq!(chars_of(""), Vec::<char>::new());
    assert_eq!(chars_of("aé€😀"), vec!['a', 'é', '€', '😀']);
}

#[test]
fn whitespace_is_what_the_standard_library_says() {
    for code in 0..=0x10FFFFu32 {
        if let Some(c) = char::from_u32(code) {
            assert_eq!(is_space_char(c), c.is_whitespace());
        }
    }
}

#[test]
fn trimming_agrees_with_the_standard_library() {
    for s in [
        "",
        " ",
        "a",
        "  a  ",
        "\t\r\n x y \u{a0}\u{3000}",
        "\u{2003}é\u{2028}",
        "\u{200b}zero-width\u{200b}",
        " \n ",
        "x ",
        " x",
    ] {
        assert_eq!(text(&trim_chars(&chars_of(s))), s.trim());
    }
}

#[test]
fn first_token_agrees_with_the_standard_library() {
    for s in ["", "  ", "one", "  one two", "one\ttwo", "\u{a0}Bo\u{a0}ok  x", "a b c"] {
        assert_eq!(
            text(&first_token_chars(&chars_of(s))),
            s.split_whitespace().next().unwrap_or("")
        );
    }
}

#[test]
fn pattern_matching_at_a_position() {
    let hay = chars_of("abcabc");
    assert!(matches_at(&hay, 0, &chars_of("abc")));
    assert!(matches_at(&hay, 3, &chars_of("abc")));
    assert!(!matches_at(&hay, 1, &chars_of("abc")));
    assert!(!matches_at(&hay, 4, &chars_of("abc")));
    assert!(matches_at(&hay, 6, &chars_of("")));
    assert!(!matches_at(&hay, 7, &chars_of("")));
    assert!(!matches_at(&hay, usize::MAX, &chars_of("a")));
}

#[test]
fn first_occurrence_is_found() {
    let cases = [
        ("abcabc", "bc"),
        ("abcabc", "abc"),
        ("abcabc", "cab"),
        ("abcabc", "x"),
        ("abcabc", ""),
        ("", ""),
        ("", "a"),
        ("aaa", "aa"),
        ("héllo wörld", "wö"),
    ];
    for (hay, needle) in cases {
        let expected = hay.find(needle).map(|byte| hay[..byte].chars().count());
        assert_eq!(find_text(&chars_of(hay), &chars_of(needle)), expected);
    }
}

#[test]
fn texts_are_compared_by_their_characters() {
    assert!(same_text("", ""));
    assert!(same_text("rest-read", "rest-read"));
    assert!(!same_text("rest-read", "rest-reads"));
    assert!(!same_text("rest-read", "rest-reaD"));
    assert!(same_text("äö", "äö"));
    assert!(!same_text("a", ""));
}

#[test]
fn replacing_agrees_with_the_standard_library() {
    let cases = [
        ("https://host", "https://", "wss://"),
        ("aaaa", "aa", "b"),
        ("aaa", "aa", "b"),
        ("abc", "x", "y"),
        ("", "x", "y"),
        ("abcabc", "abc", ""),
        ("abab", "ab", "abab"),
        ("ünï", "ï", "i"),
        ("a.b.c", ".", ".."),
    ];
    for (s, from, to) in cases {
        let out = replace_all(&chars_of(s), &chars_of(from), &chars_of(to));
        assert_eq!(text(&out), s.replace(from, to));
    }
    assert_eq!(text(&replace_all(&chars_of("abc"), &chars_of(""), &chars_of("-"))), "abc");
}

#[test]
fn socket_address_swaps_the_scheme() {
    assert_eq!(socket_url("https://localhost:9996"), "wss://localhost:9996");
    assert_eq!(socket_url("http://localhost:9996"), "ws://localhost:9996");
    assert_eq!(socket_url("localhost"), "localhost");
    for base in ["https://a/http://b", "http://a?u=https://b", "xhttps://y", ""] {
        assert_eq!(socket_url(base), base.replace("https://", "wss://").replace("http://", "ws://"));
    }
}

#[test]
fn workers_are_dealt_records_in_turn() {
    assert_eq!(book_id(0), 1);
    assert_eq!(book_id(1), 2);
    assert_eq!(book_id(99), 100);
    assert_eq!(book_id(100), 1);
    assert_eq!(book_id(250), 51);
    assert_eq!(book_id(u64::MAX), u64::MAX % 100 + 1);
}

#[test]
fn workers_are_dealt_pool_entries_in_turn() {
    assert_eq!(pool_slot(0, 10), 0);
    assert_eq!(pool_slot(9, 10), 9);
    assert_eq!(pool_slot(10, 10), 0);
    assert_eq!(pool_slot(37, 10), 7);
    assert_eq!(pool_slot(5, 1), 0);
    assert_eq!(pool_slot(u64::MAX, 7) as u64, u64::MAX % 7);
}

#[test]
fn resources_are_served_under_their_names() {
    assert_eq!(AppsResource.name(), "apps");
    assert_eq!(BenchmarksResource.name(), "runner");
    assert_eq!(BestResultsResource.name(), "bestresults");
    assert!(BestResultsResource.is_public());
    assert_eq!(FilesResource.name(), "files");
    assert_eq!(KeysResource.name(), "keys");
    assert_eq!(ReposResource.name(), "repos");
    assert_eq!(SchemasResource.name(), "schemas");
    let _ = AppsResource::default();
}
