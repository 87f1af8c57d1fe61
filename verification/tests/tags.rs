use blog_publish::tags::{find_draft_image_tags, replace_all_draft_image_tags, DraftImageTag};
use regex::Regex;

const PATTERN: &str = r"\\drafting\\image *(?:\[([^]]*)\])? *(?:\{([^\}]*)\})?";

fn char_index(s: &str, byte: usize) -> usize {
    s[..byte].chars().count()
}

fn expected(s: &str) -> Vec<(usize, usize, Option<String>, Option<String>)> {
    let re = Regex::new(PATTERN).unwrap();
    re.captures_iter(s)
        .map(|c| {
            let m = c.get(0).unwrap();
            (
                char_index(s, m.start()),
                char_index(s, m.end()),
                c.get(1).map(|g| g.as_str().to_string()),
                c.get(2).map(|g| g.as_str().to_string()),
            )
        })
        .collect()
}

fn found(s: &str) -> Vec<(usize, usize, Option<String>, Option<String>)> {
    find_draft_image_tags(s)
        .into_iter()
        .map(|t: DraftImageTag| (t.start, t.end, t.attributes, t.alt))
        .collect()
}

#[test]
fn tags_agree_with_the_pattern() {
    let samples = [
        "",
        "no tags here",
        "\\drafting\\image[source=a.png]{An A}",
        "before \\drafting\\image  [source=a.png]  {alt} after",
        "\\drafting\\image{only alt}",
        "\\drafting\\image[only attrs]",
        "\\drafting\\image",
        "\\drafting\\image   x",
        "\\drafting\\image[unclosed {alt}",
        "\\drafting\\image[a]{unclosed",
        "\\drafting\\image[a\nb]{c\nd}",
        "two: \\drafting\\image[a]{b} and \\drafting\\image[c]{d}.",
        "nested \\drafting\\image[\\drafting\\image[x]{y}] tail",
        "ünïcödé \\drafting\\image[sôurce=é.png]{ålt} ✓",
        "\\drafting\\image[]{}",
        "\\drafting\\image [x] [y] {z}",
        "\\drafting\\imag[e]",
    ];
    for s in samples {
        assert_eq!(found(s), expected(s), "{:?}", s);
    }
}

#[test]
fn replacing_tags() {
    let s = "A \\drafting\\image[source=a.png]{cat} B \\drafting\\image[source=b.png]{dog} C";
    let tags = find_draft_image_tags(s);
    assert_eq!(tags.len(), 2);
    let out = replace_all_draft_image_tags(
        s,
        &tags,
        vec![Ok("[one]".to_string()), Ok("[two]".to_string())],
    );
    assert_eq!(out, Ok("A [one] B [two] C".to_string()));
}

#[test]
fn last_error_wins() {
    let s = "\\drafting\\image[a]{b} \\drafting\\image[c]{d} \\drafting\\image[e]{f}";
    let tags = find_draft_image_tags(s);
    let out = replace_all_draft_image_tags(
        s,
        &tags,
        vec![Err("first".to_string()), Ok("x".to_string()), Err("third".to_string())],
    );
    assert_eq!(out, Err("third".to_string()));
}

#[test]
fn replacing_with_own_text_changes_nothing() {
    let s = "x \\drafting\\image  [a] {b} y \\drafting\\image z";
    let tags = find_draft_image_tags(s);
    let chars: Vec<char> = s.chars().collect();
    let own: Vec<Result<String, String>> = tags
        .iter()
        .map(|t| Ok(chars[t.start..t.end].iter().collect()))
        .collect();
    assert_eq!(replace_all_draft_image_tags(s, &tags, own), Ok(s.to_string()));
}

#[test]
fn tag_arguments() {
    let tags = find_draft_image_tags("\\drafting\\image[a=b]{c} \\drafting\\image[a] \\drafting\\image{c}");
    assert_eq!(tags[0].arguments(), Ok(("a=b".to_string(), "c".to_string())));
    assert_eq!(
        tags[1].arguments(),
        Err("A drafting.image tag was found without alt text.".to_string())
    );
    assert_eq!(
        tags[2].arguments(),
        Err("A drafting.image tag was found without attributes.".to_string())
    );
}
