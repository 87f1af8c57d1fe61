use blog_publish::environment::Environment;
use blog_publish::image::{ImageFormat, ImageSize};
use blog_publish::tasks::{
    completing_notice_text, CommandTask, EnsureDirectoryTask, ImageTask, MarkPublishedTask,
    PropertyTask, PropertyValue, RenderSiteTask, SavePostTask, Task, TaskError, TaskList,
    UpdateBodyTask, UpdateCategoriesTask, UpdateSearchIndexTask,
};

fn env() -> Environment {
    Environment::new("/site")
}

fn image(source: &str, target: &str, watermark: bool, resize: Option<(ImageSize, ImageFormat)>) -> ImageTask {
    ImageTask::new(&env(), source.to_string(), target.to_string(), watermark, &resize)
}

fn watermark_args(source: &str) -> Vec<String> {
    [
        source,
        "-set",
        "option:wmwidth",
        "%[fx:int(w)]",
        "-set",
        "option:wmheight",
        "%[fx:int(h)]",
        "(",
        "/site/_drafts/watermark.png",
        "-resize",
        "%[wmwidth]x%[wmheight]!",
        ")",
        "-gravity",
        "Center",
        "-composite",
    ]
    .iter()
    .map(|s| s.to_string())
    .collect()
}

#[test]
fn plain_copy() {
    let t = image("/a/cat.png", "/b/cat.png", false, None);
    assert_eq!(t.command.program, "cp");
    assert_eq!(t.command.args, vec!["/a/cat.png", "/b/cat.png"]);
    assert_eq!(Task::ImageTask(t).description(), "Copy /a/cat.png to /b/cat.png");
}

#[test]
fn watermark_only() {
    let t = image("/a/cat.png", "/b/cat.png", true, None);
    assert_eq!(ImageTask::get_watermark(&env()), "/site/_drafts/watermark.png");
    assert_eq!(t.command.program, "magick");
    let mut expected = watermark_args("/a/cat.png");
    expected.push("/b/cat.png".to_string());
    assert_eq!(t.command.args, expected);
    assert_eq!(Task::ImageTask(t).description(), "Watermark and copy /a/cat.png to /b/cat.png");
}

#[test]
fn resize_only() {
    let t = image("/a/cat.png", "/b/cat.png", false, Some((ImageSize::A5, ImageFormat::Landscape)));
    assert_eq!(t.command.program, "magick");
    assert_eq!(t.command.args, vec!["/a/cat.png", "-resize", "1239x873>", "/b/cat.png"]);
    assert_eq!(
        Task::ImageTask(t).description(),
        "Resize /a/cat.png at Landscape A5 and copy to /b/cat.png"
    );
}

#[test]
fn resize_and_watermark() {
    let t = image(
        "/a/cat.png",
        "/b/cat.png",
        true,
        Some((ImageSize::Custom(300, 900), ImageFormat::Portrait)),
    );
    assert_eq!(t.command.program, "magick");
    let mut expected = watermark_args("/a/cat.png");
    expected.push("-resize".to_string());
    expected.push("300x900>".to_string());
    expected.push("/b/cat.png".to_string());
    assert_eq!(t.command.args, expected);
    assert_eq!(
        Task::ImageTask(t).description(),
        "Resize /a/cat.png at Portrait 300px×900px, watermark and copy to /b/cat.png"
    );
}

#[test]
fn command_failure_message() {
    let c = CommandTask { program: "magick".into(), args: vec!["a".into(), "b c".into()] };
    assert_eq!(c.failure_message(), "magick a b c");
    let c = CommandTask { program: "x".into(), args: vec![] };
    assert_eq!(c.failure_message(), "x ");
    let e = TaskError::CommandFailed(c.failure_message());
    assert_eq!(e.to_string(), "Child command failed: x ");
    assert_eq!(TaskError::Io("disk full".into()).to_string(), "disk full");
    assert_eq!(TaskError::Yaml("bad yaml".into()).to_string(), "bad yaml");
}

#[test]
fn descriptions() {
    let e = env();
    assert_eq!(
        Task::PropertyTask(PropertyTask::new("layout".into(), PropertyValue::Text("post".into())))
            .description(),
        "Set property layout to String(\"post\")"
    );
    assert_eq!(
        Task::PropertyTask(PropertyTask::new("published".into(), PropertyValue::Bool(true)))
            .description(),
        "Set property published to Bool(true)"
    );
    assert_eq!(
        Task::PropertyTask(PropertyTask::new("t".into(), PropertyValue::Text("a \"q\"\n".into())))
            .description(),
        format!("Set property t to String({:?})", "a \"q\"\n")
    );
    assert_eq!(
        Task::EnsureDirectoryTask(EnsureDirectoryTask::new("/x".into())).description(),
        "Ensure directory /x exists"
    );
    assert_eq!(
        Task::RenderSiteTask(RenderSiteTask::new(false)).description(),
        "Render the site to pick up the new post for indexing."
    );
    assert_eq!(
        Task::RenderSiteTask(RenderSiteTask::new(true)).description(),
        "Re-render site to pick up new categories and search index."
    );
    assert_eq!(
        Task::UpdateSearchIndexTask(UpdateSearchIndexTask::new(&e)).description(),
        "Update search index."
    );
    assert_eq!(
        Task::UpdateCategoriesTask(UpdateCategoriesTask::new(&e)).description(),
        "Update categories and series files."
    );
    assert_eq!(
        Task::UpdateBodyTask(UpdateBodyTask::new("b".into())).description(),
        "Update image links in content."
    );
    assert_eq!(
        Task::SavePostTask(SavePostTask::new("/p.md".into())).description(),
        "Save post to /p.md."
    );
    let m = Task::MarkPublishedTask(MarkPublishedTask::new("/d/x.md".into(), "2024-01-02".into()));
    assert_eq!(m.description(), "Add '.2024-01-02.published' extension to '/d/x.md'.");
    assert_eq!(
        completing_notice_text(&m),
        "Completing task: Add '.2024-01-02.published' extension to '/d/x.md'."
    );
}

#[test]
fn scripts_and_rendering_commands() {
    let e = env();
    let r = RenderSiteTask::new(false);
    assert_eq!(r.command.program, "bundle");
    assert_eq!(r.command.args, vec!["exec", "jekyll", "build"]);
    let s = UpdateSearchIndexTask::new(&e);
    assert_eq!(s.command.program, "/site/_tools/create_search_index.js");
    assert!(s.command.args.is_empty());
    let c = UpdateCategoriesTask::new(&e);
    assert_eq!(c.command.program, "/site/_tools/create_categories.js");
    assert!(c.command.args.is_empty());
}

#[test]
fn adding_writes_a_notice() {
    let mut l = TaskList::new();
    l.add(Task::SavePostTask(SavePostTask::new("/p.md".into())));
    l.notice("hello".into());
    l.add_set_property_task("published", PropertyValue::Bool(true));
    assert_eq!(l.tasks().len(), 2);
    assert_eq!(
        l.take_notices(),
        vec![
            "Adding task: Save post to /p.md.",
            "hello",
            "Adding task: Set property published to Bool(true)",
        ]
    );
    assert!(l.take_notices().is_empty());
    assert_eq!(l.tasks().len(), 2);
}

#[test]
fn image_tasks_are_not_duplicated() {
    let e = env();
    let mut l = TaskList::new();
    let size = Some((ImageSize::A6, ImageFormat::Portrait));
    assert!(l.add_image_task(&e, "/s/a.png".into(), "/t/a.png".into(), true, &size).is_none());
    // The same image with the same settings is produced once.
    assert!(l.add_image_task(&e, "/s/a.png".into(), "/t/other.png".into(), true, &size).is_none());
    assert_eq!(l.tasks().len(), 1);
    // With other settings it must be confirmed, and nothing is added.
    let c = l.add_image_task(&e, "/s/a.png".into(), "/t/a.png".into(), false, &size).unwrap();
    assert_eq!(
        c.question,
        "image /s/a.png is included more than once with conflicting arguments, only the attributes on the first tag will be used for processing. Are you okay with this?"
    );
    assert_eq!(c.refusal, "Please edit the post and try again.");
    let c = l.add_image_task(&e, "/s/a.png".into(), "/t/a.png".into(), true, &None);
    assert!(c.is_some());
    let c = l.add_image_task(
        &e,
        "/s/a.png".into(),
        "/t/a.png".into(),
        true,
        &Some((ImageSize::A6, ImageFormat::Landscape)),
    );
    assert!(c.is_some());
    assert_eq!(l.tasks().len(), 1);
    // Another image is added.
    assert!(l.add_image_task(&e, "/s/b.png".into(), "/t/b.png".into(), false, &None).is_none());
    assert_eq!(l.tasks().len(), 2);
    match &l.tasks()[1] {
        Task::ImageTask(t) => {
            assert_eq!(t.source_file, "/s/b.png");
            assert_eq!(t.target_file, "/t/b.png");
        }
        other => panic!("{:?}", other),
    }
}

#[test]
fn assets_directory_is_added_once() {
    let mut l = TaskList::new();
    l.add_assets_directory_task_if_not_present("/site/assets", "2024-03-04");
    l.add_assets_directory_task_if_not_present("/site/assets", "2024-03-04");
    assert_eq!(l.tasks().len(), 1);
    match &l.tasks()[0] {
        Task::EnsureDirectoryTask(d) => assert_eq!(d.path, "/site/assets/2024-03-04"),
        other => panic!("{:?}", other),
    }
    l.add_assets_directory_task_if_not_present("/site/assets", "2024-03-05");
    assert_eq!(l.tasks().len(), 2);
    assert_eq!(l.take_notices().len(), 2);
}

#[test]
fn draft_and_its_images_are_marked_published() {
    let e = env();
    let mut l = TaskList::new();
    l.add_image_task(&e, "/s/a.png".into(), "/t/a.png".into(), true, &None);
    l.add_set_property_task("layout", PropertyValue::Text("post".into()));
    l.add_image_task(&e, "/s/b.png".into(), "/t/b.png".into(), true, &None);
    l.add_image_task(&e, "/t/b.png".into(), "/t/b.thumb.png".into(), false, &None);
    l.add_mark_published_task("/s/post.md".into(), "2024-03-04");
    let marked: Vec<(String, String)> = l
        .tasks()
        .iter()
        .filter_map(|t| match t {
            Task::MarkPublishedTask(m) => Some((m.source_path.clone(), m.date_slug.clone())),
            _ => None,
        })
        .collect();
    let d = "2024-03-04".to_string();
    assert_eq!(
        marked,
        vec![
            ("/s/post.md".to_string(), d.clone()),
            ("/s/a.png".to_string(), d.clone()),
            ("/s/b.png".to_string(), d.clone()),
        ]
    );
    // `/t/b.png` is made by the second image task: it is not an original.
    assert_eq!(l.into_tasks().len(), 7);
}

#[test]
fn draft_used_as_image_is_marked_once() {
    let e = env();
    let mut l = TaskList::new();
    l.add_image_task(&e, "/s/post.md".into(), "/t/x".into(), false, &None);
    l.add_mark_published_task("/s/post.md".into(), "d");
    assert_eq!(l.tasks().len(), 2);
}

#[test]
fn image_paths_are_compared_as_paths() {
    let e = env();
    let mut l = TaskList::new();
    assert!(l.add_image_task(&e, "/s/a.png".into(), "/t/a.png".into(), true, &None).is_none());
    assert!(l.add_image_task(&e, "/s/./a.png".into(), "/t/a.png".into(), true, &None).is_none());
    assert!(l.add_image_task(&e, "/s//a.png".into(), "/t/a.png".into(), false, &None).is_some());
    assert_eq!(l.tasks().len(), 1);
    l.add_assets_directory_task_if_not_present("/site/assets", "d");
    l.add_assets_directory_task_if_not_present("/site/assets/", "d/");
    assert_eq!(l.tasks().len(), 2);
    l.add_mark_published_task("/s/a.png".into(), "d");
    assert_eq!(l.tasks().len(), 3);
}
