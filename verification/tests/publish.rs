use blog_publish::date::LocalDateTime;
use blog_publish::environment::{Environment, FileChoice};
use blog_publish::image::{ImageFormat, ImageSize};
use blog_publish::post::{FrontMatter, FrontMatterEntry, YamlField};
use blog_publish::publish::{
    add_published_property, choose_recipe, finish_publish, fix_images, preparing_notice,
    publish_properties, replace_image_tag, title_slug, update_site, PostNames, Recipe,
};
use blog_publish::tasks::{PropertyValue, Task, TaskList};

fn env() -> Environment {
    Environment::new("/site")
}

fn choice(name: &str) -> FileChoice {
    FileChoice { name: name.to_string(), entry: format!("/site/_drafts/{}", name) }
}

fn text(s: &str) -> YamlField {
    YamlField {
        text: Ok(s.to_string()),
        items: None,
        debug: format!("String({:?})", s),
    }
}

fn fm(entries: Vec<(&str, YamlField)>) -> FrontMatter {
    FrontMatter {
        entries: entries
            .into_iter()
            .map(|(k, v)| FrontMatterEntry { key: k.to_string(), value: v })
            .collect(),
    }
}

fn now() -> LocalDateTime {
    LocalDateTime { year: 2024, month: 3, day: 4, hour: 5, minute: 6, second: 7, utc_offset: 3600 }
}

#[test]
fn slugs_of_titles() {
    assert_eq!(title_slug("My First Post"), "my-first-post");
    assert_eq!(title_slug("Æúű--cool?"), "aeuu-cool");
    assert_eq!(title_slug("  Hello,   World!  "), "hello-world");
    assert_eq!(title_slug(""), "");
}

#[test]
fn recipes_offered() {
    let m = choose_recipe(vec![choice("a.md"), choice("b.md")]);
    assert!(m.notice.is_none());
    assert_eq!(m.recipes.len(), 4);
    let labels: Vec<String> = m.recipes.iter().map(|r| r.to_string()).collect();
    assert_eq!(
        labels,
        vec!["Publish 'a.md'.", "Publish 'b.md'.", "Republish an image.", "Run indexing scripts only."]
    );
    assert_eq!(
        m.menu.lines,
        vec![
            "What would you like to do?",
            "[1] Publish 'a.md'.",
            "[2] Publish 'b.md'.",
            "[3] Republish an image.",
            "[4] Run indexing scripts only.",
        ]
    );
    assert_eq!(m.menu.count, 4);
    assert_eq!(m.menu.index(2), Some(1));
    assert_eq!(m.menu.index(5), None);
    match &m.recipes[1] {
        Recipe::Publish(c) => assert_eq!(c.entry, "/site/_drafts/b.md"),
        other => panic!("{:?}", other),
    }
}

#[test]
fn no_drafts() {
    let m = choose_recipe(vec![]);
    assert_eq!(m.notice, Some("There are no drafts to publish.".to_string()));
    assert_eq!(m.recipes.len(), 2);
    assert!(matches!(m.recipes[0], Recipe::RepublishImage));
    assert!(matches!(m.recipes[1], Recipe::UpdateSite));
}

#[test]
fn preparing() {
    assert_eq!(preparing_notice(&choice("a.md")), "Preparing \"a.md\" for publishing.");
}

#[test]
fn properties_of_a_bare_draft() {
    let mut l = TaskList::new();
    let names = publish_properties(&fm(vec![]), &choice("My Trip.md"), now(), &mut l).unwrap();
    assert_eq!(names.title_slug, "my-trip");
    assert_eq!(names.date_slug, "2024-03-04");
    let set: Vec<(String, String)> = l
        .tasks()
        .iter()
        .map(|t| match t {
            Task::PropertyTask(p) => (p.name.clone(), p.value.debug()),
            other => panic!("{:?}", other),
        })
        .collect();
    assert_eq!(
        set,
        vec![
            ("layout".to_string(), "String(\"post\")".to_string()),
            ("type".to_string(), "String(\"post\")".to_string()),
            ("title".to_string(), "String(\"My Trip\")".to_string()),
            (
                "date".to_string(),
                "String(\"2024-03-04 05:06:07.000000000 +01:00\")".to_string()
            ),
        ]
    );
}

#[test]
fn properties_already_set() {
    let f = fm(vec![
        ("layout", text("post")),
        ("type", text("post")),
        ("title", text("Über alles")),
        ("date", text("2023-12-31 23:00:00 -05:00")),
    ]);
    let mut l = TaskList::new();
    let names = publish_properties(&f, &choice("x.md"), now(), &mut l).unwrap();
    assert_eq!(names.title_slug, "uber-alles");
    assert_eq!(names.date_slug, "2023-12-31");
    assert!(l.tasks().is_empty());
    assert_eq!(l.take_notices().len(), 4);
}

#[test]
fn property_of_wrong_kind_stops() {
    let bad = YamlField {
        text: Err("invalid type: boolean `true`, expected a string".into()),
        items: None,
        debug: "Bool(true)".into(),
    };
    let f = fm(vec![("title", bad)]);
    let mut l = TaskList::new();
    let r = publish_properties(&f, &choice("x.md"), now(), &mut l);
    assert_eq!(r.err(), Some("invalid type: boolean `true`, expected a string".to_string()));
    assert_eq!(l.tasks().len(), 2);
}

#[test]
fn finishing() {
    let e = env();
    let mut l = TaskList::new();
    add_published_property(&mut l);
    l.add_image_task(&e, "/site/_drafts/a.png".into(), "/site/assets/d/a.png".into(), true, &None);
    let names = PostNames { title_slug: "my-trip".into(), date_slug: "2024-03-04".into() };
    finish_publish(&e, &choice("My Trip.md"), &names, &mut l);
    let d: Vec<String> = l.tasks().iter().map(|t| t.description()).collect();
    assert_eq!(
        d,
        vec![
            "Set property published to Bool(true)",
            "Watermark and copy /site/_drafts/a.png to /site/assets/d/a.png",
            "Save post to /site/_posts/2024-03-04-my-trip.md.",
            "Add '.2024-03-04.published' extension to '/site/_drafts/My Trip.md'.",
            "Add '.2024-03-04.published' extension to '/site/_drafts/a.png'.",
        ]
    );
    match &l.tasks()[0] {
        Task::PropertyTask(p) => assert!(matches!(p.value, PropertyValue::Bool(true))),
        other => panic!("{:?}", other),
    }
}

#[test]
fn updating_the_site() {
    let mut l = TaskList::new();
    update_site(&env(), &mut l);
    let d: Vec<String> = l.tasks().iter().map(|t| t.description()).collect();
    assert_eq!(
        d,
        vec![
            "Render the site to pick up the new post for indexing.",
            "Update categories and series files.",
            "Update search index.",
            "Re-render site to pick up new categories and search index.",
        ]
    );
    let commands: Vec<(String, Vec<String>)> = l
        .tasks()
        .iter()
        .map(|t| match t {
            Task::RenderSiteTask(r) => (r.command.program.clone(), r.command.args.clone()),
            Task::UpdateCategoriesTask(c) => (c.command.program.clone(), c.command.args.clone()),
            Task::UpdateSearchIndexTask(c) => (c.command.program.clone(), c.command.args.clone()),
            other => panic!("{:?}", other),
        })
        .collect();
    let build = ("bundle".to_string(), vec!["exec".to_string(), "jekyll".into(), "build".into()]);
    assert_eq!(
        commands,
        vec![
            build.clone(),
            ("/site/_tools/create_categories.js".to_string(), vec![]),
            ("/site/_tools/create_search_index.js".to_string(), vec![]),
            build,
        ]
    );
}

#[test]
fn fixing_images() {
    let mut l = TaskList::new();
    assert_eq!(
        fix_images("body", Err("bad tag".into()), &mut l),
        Err("Error processing images, please edit post and try again: bad tag".to_string())
    );
    assert!(fix_images("body", Ok("body".into()), &mut l).is_ok());
    assert!(l.tasks().is_empty());
    assert!(fix_images("body", Ok("new body".into()), &mut l).is_ok());
    match &l.tasks()[0] {
        Task::UpdateBodyTask(b) => assert_eq!(b.new_content, "new body"),
        other => panic!("{:?}", other),
    }
}

#[test]
fn placing_a_small_image() {
    let e = env();
    let p = replace_image_tag(
        "cat.png",
        "A cat",
        Some((ImageSize::A7, ImageFormat::Landscape)),
        true,
        false,
        "2024-03-04",
        &e,
    );
    assert_eq!(p.source, "/site/_drafts/cat.png");
    assert_eq!(p.new_file_path, "2024-03-04/cat.png");
    assert_eq!(p.target, "/site/assets/2024-03-04/cat.png");
    assert!(p.confirmations().is_empty());
    let mut l = TaskList::new();
    assert!(p.queue_image(&e, "2024-03-04", &mut l).is_none());
    assert_eq!(l.tasks().len(), 2);
    assert!(matches!(l.tasks()[0], Task::EnsureDirectoryTask(_)));
    let step = p.queue_thumbnail(&e, "2024-03-04", &mut l);
    assert!(step.confirmation.is_none());
    assert_eq!(
        step.markdown,
        "![A cat](<{{'assets/' | append: 2024-03-04/cat.png | relative_url}}>)"
    );
    assert_eq!(l.tasks().len(), 2);
}

#[test]
fn placing_a_large_linked_image() {
    let e = env();
    let p = replace_image_tag(
        "big.jpg",
        "Big",
        Some((ImageSize::A5, ImageFormat::Landscape)),
        true,
        true,
        "2024-03-04",
        &e,
    );
    assert!(p.confirmations().is_empty());
    let mut l = TaskList::new();
    p.queue_image(&e, "2024-03-04", &mut l);
    let step = p.queue_thumbnail(&e, "2024-03-04", &mut l);
    assert!(step.confirmation.is_none());
    assert_eq!(
        step.markdown,
        "[![Big](<{{'assets/' | append: 2024-03-04/big.jpg.thumbnail.png | relative_url}}>)](<{{'assets/' | append: 2024-03-04/big.jpg | relative_url}}>)"
    );
    assert_eq!(l.tasks().len(), 3);
    match &l.tasks()[2] {
        Task::ImageTask(t) => {
            assert_eq!(t.source_file, "/site/assets/2024-03-04/big.jpg");
            assert_eq!(t.target_file, "/site/assets/2024-03-04/big.jpg.thumbnail.png");
            assert!(!t.add_watermark);
            assert_eq!(t.resize, Some((ImageSize::A7, ImageFormat::Landscape)));
            assert_eq!(t.command.args[2], "620x437>");
        }
        other => panic!("{:?}", other),
    }
}

#[test]
fn image_confirmations_in_order() {
    let e = env();
    let p = replace_image_tag("big.jpg", "", Some((ImageSize::A5, ImageFormat::Landscape)), false, false, "d", &e);
    let q: Vec<String> = p.confirmations().into_iter().map(|c| c.question).collect();
    assert_eq!(
        q,
        vec![
            "An image size of A5 Landscape is rather large to include without a thumbnail. Are you sure you don't want to add a 'full-size' attribute to the tag for 'big.jpg'?",
            "Are you sure you don't want to add a watermark to big.jpg?",
        ]
    );
    let p = replace_image_tag("x.png", "", None, true, true, "d", &e);
    let q: Vec<String> = p.confirmations().into_iter().map(|c| c.question).collect();
    assert_eq!(q, vec!["Are you sure you don't want to resize x.png?"]);
    let mut l = TaskList::new();
    p.queue_image(&e, "d", &mut l);
    let step = p.queue_thumbnail(&e, "d", &mut l);
    assert!(step.confirmation.unwrap().question.starts_with("No size was given for 'x.png'"));
    assert_eq!(
        step.markdown,
        "[![](<{{'assets/' | append: d/x.png | relative_url}}>)](<{{'assets/' | append: d/x.png | relative_url}}>)"
    );
}

#[test]
fn conflicting_image_settings_need_confirming() {
    let e = env();
    let mut l = TaskList::new();
    let a = replace_image_tag("x.png", "", None, true, false, "d", &e);
    assert!(a.queue_image(&e, "d", &mut l).is_none());
    let b = replace_image_tag("x.png", "", None, false, false, "d", &e);
    let c = b.queue_image(&e, "d", &mut l).unwrap();
    assert!(c.question.starts_with("image /site/_drafts/x.png is included more than once"));
    assert_eq!(l.tasks().len(), 2);
}

#[test]
fn thumbnail_source_is_not_marked_published() {
    let e = env();
    let p = replace_image_tag(
        "a.png",
        "A",
        Some((ImageSize::A5, ImageFormat::Landscape)),
        true,
        true,
        "s",
        &e,
    );
    let mut l = TaskList::new();
    p.queue_image(&e, "s", &mut l);
    p.queue_thumbnail(&e, "s", &mut l);
    let names = PostNames { title_slug: "p".into(), date_slug: "s".into() };
    finish_publish(&e, &choice("p.md"), &names, &mut l);
    let marked: Vec<String> = l
        .tasks()
        .iter()
        .filter_map(|t| match t {
            Task::MarkPublishedTask(m) => Some(m.source_path.clone()),
            _ => None,
        })
        .collect();
    assert_eq!(marked, vec!["/site/_drafts/p.md", "/site/_drafts/a.png"]);
}
