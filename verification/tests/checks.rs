use blog_publish::checks::{
    confirm_categories, confirm_category, confirm_excerpt, confirm_large_image,
    confirm_no_resize, confirm_no_size_for_thumbnail, confirm_no_watermark, confirm_series,
    set_property_if_not_set,
};
use blog_publish::console::Confirmation;
use blog_publish::image::{ImageFormat, ImageSize};
use blog_publish::post::{FrontMatter, FrontMatterEntry, Post, YamlField, YamlItem};
use blog_publish::tasks::{PropertyValue, Task, TaskList};

fn text(s: &str) -> YamlField {
    YamlField {
        text: Ok(s.to_string()),
        items: None,
        debug: format!("String({:?})", s),
    }
}

fn number(n: i64) -> YamlField {
    YamlField {
        text: Err("invalid type: integer, expected a string".to_string()),
        items: None,
        debug: format!("Number({})", n),
    }
}

fn list(items: &[Option<&str>]) -> YamlField {
    YamlField {
        text: Err("invalid type: sequence, expected a string".to_string()),
        items: Some(
            items
                .iter()
                .map(|i| match i {
                    Some(s) => YamlItem { text: Some(s.to_string()), debug: format!("String({:?})", s) },
                    None => YamlItem { text: None, debug: "Number(7)".to_string() },
                })
                .collect(),
        ),
        debug: "Sequence [...]".to_string(),
    }
}

fn fm(entries: Vec<(&str, YamlField)>) -> FrontMatter {
    FrontMatter {
        entries: entries
            .into_iter()
            .map(|(k, v)| FrontMatterEntry { key: k.to_string(), value: v })
            .collect(),
    }
}

fn pairs(v: Vec<Confirmation>) -> Vec<(String, String)> {
    v.into_iter().map(|c| (c.question, c.refusal)).collect()
}

fn known() -> Vec<String> {
    vec!["Fiction".to_string(), "Essays".to_string()]
}

const CATS: &str = "Please correct property categories in the post metadata.";

#[test]
fn property_already_set() {
    let f = fm(vec![("layout", text("page"))]);
    let mut l = TaskList::new();
    assert_eq!(set_property_if_not_set(&f, "layout", "post", &mut l), Ok("page".to_string()));
    assert!(l.tasks().is_empty());
    assert_eq!(l.take_notices(), vec!["Property layout is set to String(\"page\")"]);
}

#[test]
fn property_not_a_string() {
    let f = fm(vec![("date", number(5))]);
    let mut l = TaskList::new();
    assert_eq!(
        set_property_if_not_set(&f, "date", "today", &mut l),
        Err("invalid type: integer, expected a string".to_string())
    );
    assert!(l.tasks().is_empty());
    assert_eq!(l.take_notices(), vec!["Property date is set to Number(5)"]);
}

#[test]
fn property_missing_is_set() {
    let f = fm(vec![("title", text("x"))]);
    let mut l = TaskList::new();
    assert_eq!(set_property_if_not_set(&f, "type", "post", &mut l), Ok("post".to_string()));
    assert_eq!(l.tasks().len(), 1);
    match &l.tasks()[0] {
        Task::PropertyTask(p) => {
            assert_eq!(p.name, "type");
            match &p.value {
                PropertyValue::Text(t) => assert_eq!(t, "post"),
                other => panic!("{:?}", other),
            }
        }
        other => panic!("{:?}", other),
    }
    assert_eq!(l.take_notices(), vec!["Adding task: Set property type to String(\"post\")"]);
}

#[test]
fn first_of_repeated_keys_counts() {
    let f = fm(vec![("layout", text("a")), ("layout", text("b"))]);
    assert_eq!(f.get("layout").unwrap().text, Ok("a".to_string()));
    assert!(f.get("Layout").is_none());
}

#[test]
fn categories_missing() {
    let f = fm(vec![]);
    assert_eq!(
        pairs(confirm_categories(&f, &known())),
        vec![("Property categories is not set. Is that correct?".to_string(), CATS.to_string())]
    );
}

#[test]
fn single_category() {
    let f = fm(vec![("categories", text("Fiction"))]);
    assert!(confirm_categories(&f, &known()).is_empty());
    let f = fm(vec![("categories", text("Poetry"))]);
    assert_eq!(
        pairs(confirm_categories(&f, &known())),
        vec![(
            "Did you intend to create the new category Poetry?".to_string(),
            CATS.to_string()
        )]
    );
}

#[test]
fn category_sequence() {
    let f = fm(vec![("categories", list(&[Some("Essays"), Some("Poetry"), None, Some("Art")]))]);
    assert_eq!(
        pairs(confirm_categories(&f, &known())),
        vec![
            ("Did you intend to create the new category Poetry?".to_string(), CATS.to_string()),
            (
                "Property categories contains a non-string Number(7). Are you sure that is correct?"
                    .to_string(),
                CATS.to_string()
            ),
            ("Did you intend to create the new category Art?".to_string(), CATS.to_string()),
        ]
    );
}

#[test]
fn categories_of_another_kind() {
    let f = fm(vec![("categories", number(3))]);
    assert_eq!(
        pairs(confirm_categories(&f, &known())),
        vec![(
            "Property categories is not a sequence or string. Are you sure that is correct?"
                .to_string(),
            CATS.to_string()
        )]
    );
}

#[test]
fn one_category_confirmation() {
    assert!(confirm_category(&known(), "Essays").is_none());
    assert!(confirm_category(&known(), "essays").is_some());
}

#[test]
fn series() {
    let series = vec!["Travels".to_string()];
    assert!(confirm_series(&fm(vec![]), &series).is_none());
    assert!(confirm_series(&fm(vec![("series", text("Travels"))]), &series).is_none());
    let c = confirm_series(&fm(vec![("series", text("Recipes"))]), &series).unwrap();
    assert_eq!(c.question, "Did you intend to create the new series Recipes?");
    assert_eq!(c.refusal, "Please correct property series in the post metadata.");
    let c = confirm_series(&fm(vec![("series", number(1))]), &series).unwrap();
    assert_eq!(c.question, "Property series is not a string. Are you sure that is correct?");
}

#[test]
fn excerpt() {
    let post = Post { front_matter: fm(vec![]), body: "Hello\n<!--more-->\nrest".into() };
    assert!(confirm_excerpt(&post).is_none());
    let post = Post { front_matter: fm(vec![("excerpt", text("x"))]), body: "Hello".into() };
    assert!(confirm_excerpt(&post).is_none());
    let post = Post { front_matter: fm(vec![]), body: "Hello <!--more->".into() };
    let c = confirm_excerpt(&post).unwrap();
    assert_eq!(
        c.question,
        "You don't have <!--more--> tag or an excerpt property. Are you sure that is correct?"
    );
    assert_eq!(c.refusal, "Please correct excerpt in the post.");
}

#[test]
fn image_confirmations() {
    let edit = "Please edit the post and try again.";
    let c = confirm_no_watermark("cat.png");
    assert_eq!(c.question, "Are you sure you don't want to add a watermark to cat.png?");
    assert_eq!(c.refusal, edit);
    let c = confirm_no_resize("cat.png");
    assert_eq!(c.question, "Are you sure you don't want to resize cat.png?");
    assert_eq!(c.refusal, edit);
    let c = confirm_no_size_for_thumbnail("cat.png");
    assert_eq!(
        c.question,
        "No size was given for 'cat.png', but a full link was requested. A thumbnail can't be generated without knowing the full size. Are you sure you don't want to specify the size?"
    );
    let c = confirm_large_image("cat.png", &ImageSize::A5, &ImageFormat::Landscape);
    assert_eq!(
        c.question,
        "An image size of A5 Landscape is rather large to include without a thumbnail. Are you sure you don't want to add a 'full-size' attribute to the tag for 'cat.png'?"
    );
    assert_eq!(c.refusal, edit);
}
