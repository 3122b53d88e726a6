use ottobangumi::bot::{info_text, is_allowed, list_text, new_record, parse_words, poster_path};
use ottobangumi::database::Bangumi;
use ottobangumi::mikan::mikan_parser::BangumiInfo;

fn record(id: u32, title: &str) -> Bangumi {
    Bangumi {
        id,
        title: title.to_string(),
        weekday: 3,
        poster_url: "https://host/p.jpg".to_string(),
        downloaded: vec!["a".to_string(), "b".to_string()],
        rss_url: "https://host/rss".to_string(),
        enabled: false,
        not_contains: vec!["720p".to_string(), "a\"b".to_string()],
    }
}

#[test]
fn only_known_users_are_allowed() {
    assert!(is_allowed(&vec![1, 2, 3], Some(2)));
    assert!(!is_allowed(&vec![1, 2, 3], Some(4)));
    assert!(!is_allowed(&vec![1, 2, 3], None));
    assert!(!is_allowed(&vec![], Some(0)));
}

#[test]
fn words_are_cut_at_commas() {
    let owned = |parts: &[&str]| parts.iter().map(|p| p.to_string()).collect::<Vec<String>>();
    assert_eq!(parse_words("720p,HEVC"), owned(&["720p", "HEVC"]));
    assert_eq!(parse_words("720p"), owned(&["720p"]));
    assert_eq!(parse_words("none"), Vec::<String>::new());
    assert_eq!(parse_words("none,"), owned(&["none", ""]));
    assert_eq!(parse_words("None"), owned(&["None"]));
    assert_eq!(parse_words(""), owned(&[""]));
    assert_eq!(parse_words(",a,,b,"), owned(&["", "a", "", "b", ""]));
    for list in ["", "a", "a,b", ",", "a,,", "none,none", "名,字"] {
        let expected: Vec<String> = list.split(',').map(|w| w.to_string()).collect();
        assert_eq!(parse_words(list), expected);
    }
}

#[test]
fn new_record_is_enabled_and_empty() {
    let info = BangumiInfo {
        id: 9,
        title: "T".to_string(),
        weekday: 5,
        poster_url: "P".to_string(),
        magnet: Some("m".to_string()),
    };
    let b = new_record(&info, "R", &vec!["x".to_string()]);
    assert_eq!(b.id, 9);
    assert_eq!(b.title, "T");
    assert_eq!(b.weekday, 5);
    assert_eq!(b.poster_url, "P");
    assert_eq!(b.downloaded, Vec::<String>::new());
    assert_eq!(b.rss_url, "R");
    assert!(b.enabled);
    assert_eq!(b.not_contains, vec!["x".to_string()]);
}

#[test]
fn poster_is_kept_under_its_last_segment() {
    assert_eq!(poster_path("tmp", "https://host/images/2024/a.jpg"), "tmp/a.jpg");
    assert_eq!(poster_path("tmp", "a.jpg"), "tmp/a.jpg");
    assert_eq!(poster_path("tmp", "https://host/"), "tmp/");
    assert_eq!(poster_path("", ""), "/");
}

#[test]
fn list_has_an_entry_for_each_series() {
    assert_eq!(list_text(&vec![]), None);
    assert_eq!(list_text(&vec![record(7, "Name")]), Some("7\nName\n".to_string()));
    assert_eq!(
        list_text(&vec![record(7, "Name"), record(4294967295, "名"), record(0, "")]),
        Some("7\nName\n\n4294967295\n名\n\n0\n\n".to_string())
    );
    let records = vec![record(12, "A"), record(345, "B")];
    let expected = records
        .iter()
        .map(|b| format!("{}\n{}\n", b.id, b.title))
        .collect::<Vec<String>>()
        .join("\n");
    assert_eq!(list_text(&records), Some(expected));
}

#[test]
fn info_tells_each_field() {
    let b = record(42, "Name");
    let expected = format!(
        "id: {}\ntitle: {}\nweekday: {}\nposter: {}\nurl: {}\nenabled: {}\nnot contains: {:?}\ndownloaded: {}",
        b.id, b.title, b.weekday, b.poster_url, b.rss_url, b.enabled, b.not_contains, b.downloaded.len()
    );
    assert_eq!(info_text(&b), expected);
    assert_eq!(
        info_text(&b),
        "id: 42\ntitle: Name\nweekday: 3\nposter: https://host/p.jpg\nurl: https://host/rss\nenabled: false\nnot contains: [\"720p\", \"a\\\"b\"]\ndownloaded: 2"
    );
    let mut enabled = record(1, "x");
    enabled.enabled = true;
    enabled.not_contains = vec![];
    enabled.downloaded = vec![];
    assert_eq!(
        info_text(&enabled),
        "id: 1\ntitle: x\nweekday: 3\nposter: https://host/p.jpg\nurl: https://host/rss\nenabled: true\nnot contains: []\ndownloaded: 0"
    );
}
