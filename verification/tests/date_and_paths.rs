use blog_publish::date::{date_slug, format_yaml_date, LocalDateTime};
use blog_publish::environment::{
    category_name, draft_file_choice, join, paths_equal, published_file_path, series_name,
    Environment,
    FileChoice,
};
use chrono::{Datelike, FixedOffset, NaiveDateTime, TimeZone, Timelike};

fn local(y: i32, mo: u32, d: u32, h: u32, mi: u32, s: u32, off: i32) -> LocalDateTime {
    LocalDateTime { year: y, month: mo, day: d, hour: h, minute: mi, second: s, utc_offset: off }
}

#[test]
fn yaml_dates() {
    assert_eq!(
        format_yaml_date(local(2022, 1, 11, 11, 43, 5, -6 * 3600)),
        "2022-01-11 11:43:05.000000000 -06:00"
    );
    assert_eq!(
        format_yaml_date(local(2023, 11, 28, 9, 5, 59, 5 * 3600 + 1800)),
        "2023-11-28 09:05:59.000000000 +05:30"
    );
    assert_eq!(
        format_yaml_date(local(999, 12, 31, 0, 0, 0, 0)),
        "0999-12-31 00:00:00.000000000 -00:00"
    );
    assert_eq!(
        format_yaml_date(local(-5, 1, 2, 3, 4, 5, 60)),
        "00-5-01-02 03:04:05.000000000 +00:01"
    );
}

#[allow(deprecated)]
fn as_the_site_writes_it(d: chrono::DateTime<FixedOffset>) -> String {
    let tz_offset = d.offset().local_minus_utc();
    let tz_date = NaiveDateTime::from_timestamp_opt(tz_offset.abs().into(), 0).unwrap();
    format!(
        "{:0>4}-{:0>2}-{:0>2} {:0>2}:{:0>2}:{:0>2}.000000000 {}{:0>2}:{:0>2}",
        d.year(),
        d.month(),
        d.day(),
        d.hour(),
        d.minute(),
        d.second(),
        if tz_offset > 0 { "+" } else { "-" },
        tz_date.hour(),
        tz_date.minute()
    )
}

#[test]
fn yaml_dates_agree_with_chrono() {
    for off in [-43200, -21600, -1, 0, 1, 3600, 19800, 50400, 86399] {
        let tz = FixedOffset::east_opt(off).unwrap();
        let d = tz.with_ymd_and_hms(2024, 2, 29, 23, 59, 1).unwrap();
        let mine = format_yaml_date(local(
            d.year(),
            d.month(),
            d.day(),
            d.hour(),
            d.minute(),
            d.second(),
            off,
        ));
        assert_eq!(mine, as_the_site_writes_it(d));
    }
}

#[test]
fn date_slugs() {
    assert_eq!(date_slug("2022-01-11 11:43:05.000000000 -06:00"), "2022-01-11");
    assert_eq!(date_slug("2022-01"), "2022-01");
    assert_eq!(date_slug(""), "");
}

#[test]
fn paths_are_joined_like_path_join() {
    for (a, b) in [("/site", "_drafts"), ("/site/", "x"), ("", "x"), ("/site", "/abs"), ("a", "")] {
        let expected = std::path::Path::new(a).join(b).to_string_lossy().into_owned();
        assert_eq!(join(a, b), expected, "{:?} {:?}", a, b);
    }
}

#[test]
fn environment_folders() {
    let e = Environment::new("/home/me/site");
    assert_eq!(e.draft_folder, "/home/me/site/_drafts");
    assert_eq!(e.assets_folder, "/home/me/site/assets");
    assert_eq!(e.posts_folder, "/home/me/site/_posts");
    assert_eq!(e.categories_folder, "/home/me/site/categories");
    assert_eq!(e.series_folder, "/home/me/site/series");
    assert_eq!(e.categories_script, "/home/me/site/_tools/create_categories.js");
    assert_eq!(e.search_index_script, "/home/me/site/_tools/create_search_index.js");
    assert_eq!(e.get_original_image_filename("cat.png"), "/home/me/site/_drafts/cat.png");
    assert_eq!(
        Environment::missing_image_message("cat.png"),
        "The image cat.png was not found. Please edit your post and try again."
    );
}

#[test]
fn listed_files() {
    let c = draft_file_choice("My Post.md", "/s/_drafts/My Post.md").unwrap();
    assert_eq!(c.name, "My Post.md");
    assert_eq!(c.entry, "/s/_drafts/My Post.md");
    assert_eq!(c.to_string(), "My Post.md");
    assert_eq!(c.default_title(), "My Post");
    assert!(draft_file_choice("photo.png", "/x").is_none());
    assert!(draft_file_choice("notes.md.published", "/x").is_none());
    assert!(draft_file_choice(".md", "/x").is_none());
    assert_eq!(category_name("Fiction.md"), Some("Fiction".to_string()));
    assert_eq!(category_name("Uncategorized.md"), None);
    assert_eq!(category_name("Fiction.MD"), None);
    assert_eq!(series_name("Uncategorized.md"), Some("Uncategorized".to_string()));
    assert_eq!(series_name("a.b.md"), Some("a.b".to_string()));
}

#[test]
fn stems_agree_with_std() {
    for name in ["a.md", "a.b.md", ".md", "noext", "trailing.", ".hidden.md", "x..md"] {
        let p = std::path::Path::new(name);
        let c = FileChoice { name: name.to_string(), entry: name.to_string() };
        assert_eq!(
            c.default_title(),
            p.file_stem().unwrap().to_string_lossy().into_owned(),
            "{:?}",
            name
        );
        assert_eq!(
            draft_file_choice(name, name).is_some(),
            p.extension().map(|e| e == "md").unwrap_or(false)
        );
    }
}

#[test]
fn published_paths() {
    assert_eq!(
        published_file_path("/s/_drafts/post.md", "2024-05-01"),
        "/s/_drafts/post.md.2024-05-01.published"
    );
    assert_eq!(
        published_file_path("/s/_drafts/img/cat.png", "2024-05-01"),
        "/s/_drafts/img/cat.png.2024-05-01.published"
    );
    assert_eq!(published_file_path("noext", "d"), "noext.d.published");
    for p in [
        "/s/_drafts/post.md",
        "/a/b.c.d",
        "/a/.hidden",
        "rel/x.",
        "plain",
        "a/img/",
        "a/b.png//",
        "a/b.png/.",
        "a/./",
        "/",
        "",
        ".",
        "./",
        "..",
        "a/..",
        "a/../",
        "...",
        "a//b.c",
        "./x",
        "/.",
        "x/./.",
    ] {
        let path = std::path::Path::new(p);
        let mut ext: Vec<String> = match path.extension() {
            Some(e) => vec![e.to_string_lossy().into_owned()],
            None => vec![],
        };
        ext.push("2024-05-01".to_string());
        ext.push("published".to_string());
        let ext = ext.join(".");
        let expected = path.with_extension(ext.as_str()).to_string_lossy().into_owned();
        assert_eq!(published_file_path(p, "2024-05-01"), expected, "{:?}", p);
    }
}

#[test]
fn paths_compare_like_std() {
    let paths = [
        "", "/", "//", "a", "a/", "a//b", "a/./b", "./a", ".", "./", "..", "a/..", "a/../b",
        "/a/b", "/a/b/", "a/b/.", "a/.b", ".a", "a/b/..", "/./a",
    ];
    for a in paths {
        for b in paths {
            assert_eq!(
                paths_equal(a, b),
                std::path::Path::new(a) == std::path::Path::new(b),
                "{:?} {:?}",
                a,
                b
            );
        }
    }
}

#[test]
fn date_slug_of_a_written_date() {
    for d in [local(2024, 3, 4, 5, 6, 7, 3600), local(7, 12, 31, 23, 59, 59, -1800)] {
        let written = format_yaml_date(d);
        assert_eq!(
            date_slug(&written),
            format!("{:0>4}-{:0>2}-{:0>2}", d.year, d.month, d.day)
        );
    }
}
