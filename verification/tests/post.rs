use blog_publish::post::{load_post_text, post_file_text, split_post};
use blog_publish::tasks::PropertyValue;
use regex::Regex;

const CONTENT: &str = r"^(?:-{3}(?:\n|\r)([\w\W]+?)(?:\n|\r)-{3})?([\w\W]*)*";

fn by_pattern(text: &str) -> (Option<String>, String) {
    let re = Regex::new(CONTENT).unwrap();
    let c = re.captures(text).unwrap();
    (
        c.get(1).map(|m| m.as_str().to_string()),
        c.get(2).map(|m| m.as_str().to_string()).unwrap_or_default(),
    )
}

#[test]
fn splits_agree_with_the_pattern() {
    let samples = [
        "",
        "just a body",
        "---\ntitle: A\n---\nBody text\n",
        "---\r\ntitle: A\r\n---\r\nBody\r\n",
        "---\nx\n---",
        "---\n\n---\nbody",
        "---\nno closing\nbody",
        "--\nnot front matter\n---\n",
        "---\na: 1\n---\nmore\n---\nend",
        "---\n---\n---\nbody",
        "---x\ny\n---\n",
        "---\ny\r---tail",
    ];
    for s in samples {
        let parts = split_post(s);
        let (f, b) = by_pattern(s);
        assert_eq!((parts.front_matter, parts.body), (f, b), "{:?}", s);
    }
}

#[test]
fn post_text() {
    assert_eq!(
        post_file_text("title: A\n", "Body\n"),
        "---\ntitle: A\n---\nBody\n"
    );
}

#[test]
fn written_post_reads_back_with_a_leading_line_break() {
    let text = post_file_text("title: A\ndate: x\n", "Body\n");
    let parts = split_post(&text);
    assert_eq!(parts.front_matter, Some("title: A\ndate: x".to_string()));
    assert_eq!(parts.body, "\nBody\n");
}

#[test]
fn loading_a_post_reads_its_front_matter() {
    let loaded = load_post_text("---\ntitle: X\n---\nHello").unwrap();
    let fm = &loaded.post.front_matter;
    assert_eq!(fm.entries.len(), 1);
    assert_eq!(fm.entries[0].key, "title");
    assert_eq!(fm.entries[0].value.text, Ok("X".to_string()));
    assert_eq!(fm.entries[0].value.debug, "String(\"X\")");
    assert!(fm.entries[0].value.items.is_none());
    assert_eq!(loaded.post.body, "\nHello");
    assert!(loaded.yaml.is_some());
}

#[test]
fn loading_a_post_without_front_matter() {
    let loaded = load_post_text("Just text\n---\n").unwrap();
    assert!(loaded.post.front_matter.entries.is_empty());
    assert_eq!(loaded.post.body, "Just text\n---\n");
    assert!(loaded.yaml.is_none());
    let loaded = load_post_text("---\n~\n---\nbody").unwrap();
    assert!(loaded.post.front_matter.entries.is_empty());
    assert_eq!(loaded.post.body, "\nbody");
}

#[test]
fn loading_keeps_string_keys_and_reads_values() {
    let loaded =
        load_post_text("---\n1: one\ntags: [a, 2]\ncount: 3\nname: z\n---\n").unwrap();
    let fm = &loaded.post.front_matter;
    let keys: Vec<&str> = fm.entries.iter().map(|e| e.key.as_str()).collect();
    assert_eq!(keys, vec!["tags", "count", "name"]);
    let tags = fm.entries[0].value.items.as_ref().unwrap();
    assert_eq!(tags[0].text, Some("a".to_string()));
    assert_eq!(tags[1].text, None);
    assert_eq!(tags[1].debug, "Number(2)");
    assert!(fm.entries[1].value.text.is_err());
    assert_eq!(
        fm.entries[1].value.text.clone().unwrap_err(),
        "invalid type: integer `3`, expected a string"
    );
}

#[test]
fn loading_bad_yaml_is_an_error() {
    assert!(load_post_text("---\na: [1\n---\nbody").is_err());
    assert!(load_post_text("---\n- a\n- b\n---\nbody").is_err());
}

#[test]
fn setting_properties_and_writing_back() {
    let mut loaded = load_post_text("---\ntitle: X\n---\nHello").unwrap();
    loaded.set_property("layout", &PropertyValue::Text("post".into()));
    loaded.set_property("title", &PropertyValue::Text("Y".into()));
    loaded.set_property("published", &PropertyValue::Bool(true));
    assert_eq!(
        loaded.file_text().unwrap(),
        "---\ntitle: Y\nlayout: post\npublished: true\n---\n\nHello"
    );
    let again = load_post_text(&loaded.file_text().unwrap()).unwrap();
    let keys: Vec<&str> = again.post.front_matter.entries.iter().map(|e| e.key.as_str()).collect();
    assert_eq!(keys, vec!["title", "layout", "published"]);
    assert_eq!(again.post.front_matter.entries[2].value.debug, "Bool(true)");
}

#[test]
fn writing_back_a_post_without_front_matter() {
    let mut loaded = load_post_text("Hello").unwrap();
    assert_eq!(loaded.file_text().unwrap(), "---\n{}\n---\nHello");
    loaded.set_property("layout", &PropertyValue::Text("post".into()));
    assert_eq!(loaded.file_text().unwrap(), "---\nlayout: post\n---\nHello");
}

#[test]
fn tagged_keys_are_not_names() {
    let loaded = load_post_text("---\n!foo title: X\nname: y\n---\n").unwrap();
    let keys: Vec<&str> =
        loaded.post.front_matter.entries.iter().map(|e| e.key.as_str()).collect();
    assert_eq!(keys, vec!["name"]);
}
