use tini::document::Item;
use tini::extract::{extract, ExtractFailure};
use tini::index::{build_index, index_entry, Entry, ErrorKind, Index};
use tini::paths::{compose_url, is_indexable};

fn file(path: &str, text: &str) -> Entry {
    Entry { path: path.to_string(), is_file: true, text: Some(text.to_string()) }
}

fn json_of(entries: &Vec<Entry>, base: &str, ignore_body: bool) -> String {
    let idx = build_index(entries, base, ignore_body).unwrap();
    String::from_utf8(idx.to_bytes()).unwrap()
}

#[test]
fn test_new_item() {
    assert_eq!(Item::new("Example Title", "https://example.com/route", "Lorem ipsum dolor sit amet, consectetur adipiscing elit, sed do eiusmod tempor incididunt ut labore et dolore magna aliqua. Ut enim ad minim veniam, quis nostrud exercitation ullamco laboris nisi ut aliquip ex ea commodo consequat. Duis aute irure dolor in reprehenderit in voluptate velit esse cillum dolore eu fugiat nulla pariatur. Excepteur sint occaecat cupidatat non proident, sunt in culpa qui officia deserunt mollit anim id est laborum.").unwrap().url, "https://example.com/route");
}

#[test]
fn new_item_normalises_url() {
    let item = Item::new("T", "HTTPS://Example.COM", "b").unwrap();
    assert_eq!(item.url, "https://example.com/");
    let again = Item::new("T", &item.url, "b").unwrap();
    assert_eq!(again.url, item.url);
}

#[test]
fn new_item_rejects_bad_url() {
    assert!(Item::new("T", "not a url", "b").is_err());
    assert!(Item::new("T", "/relative/path", "b").is_err());
}

#[test]
fn item_json_and_text() {
    let item = Item::new("A \"quoted\" title", "https://example.com/a.html", "line\nbreak").unwrap();
    assert_eq!(
        item.to_json(),
        "{\n  \"title\": \"A \\\"quoted\\\" title\",\n  \"url\": \"https://example.com/a.html\",\n  \"body\": \"line\\nbreak\"\n}"
    );
    assert_eq!(
        item.display_text(),
        "{\n            title: A \"quoted\" title,\n            url: https://example.com/a.html,\n            body: line\nbreak\n        }"
    );
}

#[test]
fn indexable_paths() {
    assert!(is_indexable("./0.html", true));
    assert!(is_indexable("dir/sub/page.html", true));
    assert!(is_indexable("..html", true));
    assert!(!is_indexable("./0.html", false));
    assert!(!is_indexable("./.html", true));
    assert!(!is_indexable(".html", true));
    assert!(!is_indexable("./notes.txt", true));
    assert!(!is_indexable("./page.htm", true));
    assert!(!is_indexable("./page.html.bak", true));
}

#[test]
fn urls_are_composed_from_base_and_relative_path() {
    assert_eq!(compose_url("https://example.com", "./0.html"), "https://example.com/0.html");
    assert_eq!(
        compose_url("https://example.com", "index_tests/3.html"),
        "https://example.com/index_tests/3.html"
    );
    assert_eq!(compose_url("https://example.com", "."), "https://example.com/.");
}

#[test]
fn title_and_body_extraction() {
    let x = extract("<title>T</title><body><p>a<b>b</b>c</p></body>", false).unwrap();
    assert_eq!(x.title, "T");
    assert_eq!(x.body, "aab");
}

#[test]
fn element_without_text_adds_nothing() {
    let x = extract("<title>T</title><body><div></div><span>s</span></body>", false).unwrap();
    assert_eq!(x.body, "ss");
}

#[test]
fn extraction_without_title_fails() {
    assert_eq!(extract("<body>no title</body>", false).unwrap_err(), ExtractFailure::MissingTitle);
    assert_eq!(extract("<title></title><body>x</body>", false).unwrap_err(), ExtractFailure::MissingTitle);
}

#[test]
fn extraction_ignoring_body() {
    let x = extract("<title>T</title><body>text</body>", true).unwrap();
    assert_eq!(x.title, "T");
    assert_eq!(x.body, "");
}

#[test]
fn two_documents_scenario() {
    let entries = vec![
        Entry { path: "./".to_string(), is_file: false, text: None },
        file("./0.html", "<title>Doc0</title><body>hello</body>"),
        file("./1.html", "<title>Doc1</title><body>world</body>"),
    ];
    let out = json_of(&entries, "https://example.com", false);
    assert_eq!(
        out,
        "[{\n  \"title\": \"Doc0\",\n  \"url\": \"https://example.com/0.html\",\n  \"body\": \"hello\"\n},{\n  \"title\": \"Doc1\",\n  \"url\": \"https://example.com/1.html\",\n  \"body\": \"world\"\n}]"
    );
    let v: serde_json::Value = serde_json::from_str(&out).unwrap();
    assert_eq!(v[0]["title"], "Doc0");
    assert_eq!(v[1]["url"], "https://example.com/1.html");
    assert_eq!(v[1]["body"], "world");
}

#[test]
fn only_non_html_files_give_empty_array() {
    let entries = vec![
        Entry { path: "./".to_string(), is_file: false, text: None },
        Entry { path: "./notes.txt".to_string(), is_file: true, text: None },
        Entry { path: "./dir.html".to_string(), is_file: false, text: None },
        Entry { path: "./style.css".to_string(), is_file: true, text: None },
    ];
    assert_eq!(json_of(&entries, "https://example.com", false), "[]");
    assert_eq!(json_of(&Vec::new(), "https://example.com", false), "[]");
}

#[test]
fn skipped_entries_leave_no_stray_commas() {
    let entries = vec![
        Entry { path: "./a.txt".to_string(), is_file: true, text: None },
        file("./0.html", "<title>Doc0</title><body>x</body>"),
        Entry { path: "./b.txt".to_string(), is_file: true, text: None },
        file("./1.html", "<title>Doc1</title><body>y</body>"),
        Entry { path: "./c.txt".to_string(), is_file: true, text: None },
    ];
    let out = json_of(&entries, "https://example.com", false);
    assert!(out.starts_with("[{"));
    assert!(out.ends_with("}]"));
    assert!(!out.contains(",]"));
    assert!(!out.contains("[,"));
    let v: serde_json::Value = serde_json::from_str(&out).unwrap();
    assert_eq!(v.as_array().unwrap().len(), 2);
}

#[test]
fn documents_keep_discovery_order() {
    let n = 40;
    let mut entries = Vec::new();
    for i in 0..n {
        entries.push(file(
            &format!("./{}.html", i),
            &format!("<title>Doc{}</title><body>{}{}</body>", i, i, i * (i + i)),
        ));
    }
    let out = json_of(&entries, "https://example.com", false);
    let v: serde_json::Value = serde_json::from_str(&out).unwrap();
    let arr = v.as_array().unwrap();
    assert_eq!(arr.len(), n);
    for i in 0..n {
        assert_eq!(arr[i]["title"], format!("Doc{}", i));
        assert_eq!(arr[i]["url"], format!("https://example.com/{}.html", i));
        assert_eq!(arr[i]["body"], format!("{}{}", i, i * (i + i)));
    }
    let one_by_one: Vec<Vec<u8>> = entries
        .iter()
        .map(|e| index_entry(e, "https://example.com", false).unwrap().unwrap())
        .collect();
    assert_eq!(Index { items: one_by_one }.to_bytes(), out.into_bytes());
}

#[test]
fn ignore_body_empties_every_body() {
    let entries = vec![
        file("./0.html", "<title>Doc0</title><body>hello</body>"),
        file("./1.html", "<title>Doc1</title><body><p>world</p></body>"),
    ];
    let v: serde_json::Value =
        serde_json::from_str(&json_of(&entries, "https://example.com", true)).unwrap();
    assert_eq!(v.as_array().unwrap().len(), 2);
    assert_eq!(v[0]["body"], "");
    assert_eq!(v[1]["body"], "");
    assert_eq!(v[1]["title"], "Doc1");
}

#[test]
fn missing_title_fails_the_run() {
    let entries = vec![
        file("./0.html", "<title>Doc0</title><body>hello</body>"),
        file("./1.html", "<body>no title here</body>"),
        file("./2.html", "<title>Doc2</title><body>x</body>"),
    ];
    let err = build_index(&entries, "https://example.com", false).unwrap_err();
    assert_eq!(err.kind, ErrorKind::MissingTitle);
    assert_eq!(err.subject, "./1.html");
}

#[test]
fn first_failure_in_discovery_order_wins() {
    let entries = vec![
        Entry { path: "./0.html".to_string(), is_file: true, text: None },
        file("./1.html", "<body>no title here</body>"),
    ];
    let err = build_index(&entries, "https://example.com", false).unwrap_err();
    assert_eq!(err.kind, ErrorKind::Unreadable);
    assert_eq!(err.subject, "./0.html");
}

#[test]
fn bad_base_url_fails_the_run() {
    let entries = vec![file("./0.html", "<title>Doc0</title><body>hello</body>")];
    let err = build_index(&entries, "no scheme", false).unwrap_err();
    assert_eq!(err.kind, ErrorKind::InvalidUrl);
    assert_eq!(err.subject, "no scheme/0.html");
}

#[test]
fn index_bytes_join_items_with_commas() {
    let idx = Index { items: vec![b"{}".to_vec(), b"{\"a\":1}".to_vec(), b"[]".to_vec()] };
    assert_eq!(idx.to_bytes(), b"[{},{\"a\":1},[]]".to_vec());
    let one = Index { items: vec![b"{}".to_vec()] };
    assert_eq!(one.to_bytes(), b"[{}]".to_vec());
}
