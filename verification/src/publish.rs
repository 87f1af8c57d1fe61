//! The recipes the tool offers and the steps of publishing a draft: its
//! properties, the processing of its images, and the tasks that save it and
//! update the site.

use vstd::prelude::*;
use crate::text::{chars_of, debug_str, push_str, str_eq, string_of};
use crate::console::{owned, read_choice, ChoiceMenu, Confirmation};
use crate::checks::{
    confirm_large_image, confirm_no_resize, confirm_no_size_for_thumbnail, confirm_no_watermark,
    confirmation_views, edit_post, property_set_notice, set_property_if_not_set,
};
use crate::date::{date_part, date_slug, format_yaml_date, yaml_date, LocalDateTime};
use crate::environment::{join, join_path, stem_and_extension, Environment, FileChoice};
use crate::image::{
    format_name, long_side, short_side, size_name, thumbnail_of, width_of, ImageFormat, ImageSize,
    CONTENT_WIDTH,
};
use crate::post::{property, FrontMatter};
use crate::tasks::{
    adding_notice, adding_notices, conflict_question, conflicts_with, has_conflict, has_directory_task,
    has_image_from, image_sources_distinct, is_image_from, is_image_task, files_to_mark,
    lemma_files_to_mark_prefix, str_views,
    watermark_path, MarkPublishedTask, PropertyValue, RenderSiteTask, SavePostTask, Task,
    TaskList, UpdateBodyTask, UpdateCategoriesTask, UpdateSearchIndexTask,
};

verus! {

/// What `slugify::slugify(text, stop_words, separator, max_length)` returns.
pub uninterp spec fn slugified(
    text: Seq<char>,
    stop_words: Seq<char>,
    separator: Seq<char>,
    max_length: Option<usize>,
) -> Seq<char>;

/// Whether `c` may stand in a slug made with the separator `sep`: a lower-case
/// ASCII letter, an ASCII digit or the separator.
pub open spec fn slug_char(c: char, sep: char) -> bool {
    ('a' <= c && c <= 'z') || ('0' <= c && c <= '9') || c == sep
}

/// `slugify::slugify`: the text transliterated to ASCII, in lower case, with
/// the stop words removed and every run of other characters replaced by the
/// first character of `separator`, cut to `max_length` when given.
///
/// Its result is named; of it the contract states only what the source's last
/// loop shows: every character is a lower-case ASCII letter, a digit or the
/// separator. The separator must be one ASCII character or begin with one
/// (slugify indexes its first character and stores it as a byte).
#[verifier::external_body]
fn slugify_text(text: &str, stop_words: &str, separator: &str, max_length: Option<usize>) -> (r:
    String)
    requires
        separator@.len() > 0,
        (separator@[0] as u32) < 128,
    ensures
        r@ == slugified(text@, stop_words@, separator@, max_length),
        forall|i: int| 0 <= i < r@.len() ==> slug_char(#[trigger] r@[i], separator@[0]),
{
    slugify::slugify(text, stop_words, separator, max_length)
}

/// The slug of a title: `slugify(title, "", "-", None)`.
pub fn title_slug(title: &str) -> (r: String)
    ensures
        r@ == slugified(title@, ""@, "-"@, None),
        forall|i: int| 0 <= i < r@.len() ==> slug_char(#[trigger] r@[i], '-'),
{
    proof {
        reveal_strlit("-");
    }
    slugify_text(title, "", "-", None)
}

/// What the tool can do.
#[derive(Debug)]
pub enum Recipe {
    /// Publish this draft.
    Publish(FileChoice),
    /// Process an image of a published post again.
    RepublishImage,
    /// Update the site's indexes and build it.
    UpdateSite,
}

/// How a recipe is offered.
pub open spec fn recipe_label(r: Recipe) -> Seq<char> {
    match r {
        Recipe::Publish(c) => "Publish '"@ + c.name@ + "'."@,
        Recipe::RepublishImage => "Republish an image."@,
        Recipe::UpdateSite => "Run indexing scripts only."@,
    }
}

impl Recipe {
    /// How the recipe is offered.
    pub fn to_string(&self) -> (r: String)
        ensures
            r@ == recipe_label(*self),
    {
        match self {
            Recipe::Publish(c) => {
                let mut out: Vec<char> = Vec::new();
                push_str(&mut out, "Publish '");
                push_str(&mut out, c.name.as_str());
                push_str(&mut out, "'.");
                string_of(&out)
            },
            Recipe::RepublishImage => owned("Republish an image."),
            Recipe::UpdateSite => owned("Run indexing scripts only."),
        }
    }
}

/// The recipes offered and the menu that offers them.
pub struct RecipeMenu {
    /// A notice to write first, when there is no draft.
    pub notice: Option<String>,
    /// The recipes, in the order of the menu.
    pub recipes: Vec<Recipe>,
    /// The menu.
    pub menu: ChoiceMenu,
}

/// The recipes offered when the drafts are `drafts`: publishing each draft,
/// then republishing an image and updating the site.
pub fn choose_recipe(drafts: Vec<FileChoice>) -> (r: RecipeMenu)
    ensures
        r.recipes@.len() == drafts@.len() + 2,
        forall|i: int|
            0 <= i < drafts@.len() ==> (#[trigger] r.recipes@[i] matches Recipe::Publish(c)
                && c == drafts@[i]),
        r.recipes@[drafts@.len() as int] is RepublishImage,
        r.recipes@[drafts@.len() as int + 1] is UpdateSite,
        drafts@.len() == 0 ==> (r.notice matches Some(n) && n@ == "There are no drafts to publish."@),
        drafts@.len() > 0 ==> r.notice is None,
        r.menu.lines@.len() == r.recipes@.len() + 1,
        r.menu.lines@[0]@ == "What would you like to do?"@,
        forall|i: int|
            0 <= i < r.recipes@.len() ==> (#[trigger] r.menu.lines@[i + 1])@
                == crate::console::choice_line((i + 1) as nat, recipe_label(r.recipes@[i])),
        r.menu.count == r.recipes@.len(),
{
    let notice = if drafts.len() == 0 {
        Some(owned("There are no drafts to publish."))
    } else {
        None
    };
    let ghost d = drafts@;
    let mut recipes: Vec<Recipe> = Vec::new();
    let mut drafts = drafts;
    let mut rest: Vec<FileChoice> = Vec::new();
    while drafts.len() > 0
        invariant
            rest@.len() + drafts@.len() == d.len(),
            forall|i: int| 0 <= i < drafts@.len() ==> drafts@[i] == d[i],
            forall|i: int| 0 <= i < rest@.len() ==> rest@[i] == d[d.len() - 1 - i],
        decreases drafts@.len(),
    {
        let c = drafts.pop().unwrap();
        rest.push(c);
    }
    while rest.len() > 0
        invariant
            recipes@.len() + rest@.len() == d.len(),
            forall|i: int| 0 <= i < rest@.len() ==> rest@[i] == d[d.len() - 1 - i],
            forall|i: int|
                0 <= i < recipes@.len() ==> (#[trigger] recipes@[i] matches Recipe::Publish(c) && c
                    == d[i]),
        decreases rest@.len(),
    {
        let c = rest.pop().unwrap();
        recipes.push(Recipe::Publish(c));
    }
    recipes.push(Recipe::RepublishImage);
    recipes.push(Recipe::UpdateSite);
    let mut labels: Vec<String> = Vec::new();
    let mut i: usize = 0;
    while i < recipes.len()
        invariant
            i <= recipes@.len(),
            labels@.len() == i,
            forall|j: int| 0 <= j < i ==> (#[trigger] labels@[j])@ == recipe_label(recipes@[j]),
        decreases recipes@.len() - i,
    {
        labels.push(recipes[i].to_string());
        i = i + 1;
    }
    let menu = read_choice("What would you like to do?", &labels);
    RecipeMenu { notice, recipes, menu }
}

/// The notice written when a draft is prepared: `Preparing "<name>" for
/// publishing.`
pub fn preparing_notice(draft_file: &FileChoice) -> (r: String)
    ensures
        r@ == "Preparing \""@ + draft_file.name@ + "\" for publishing."@,
{
    let mut out: Vec<char> = Vec::new();
    push_str(&mut out, "Preparing \"");
    push_str(&mut out, draft_file.name.as_str());
    push_str(&mut out, "\" for publishing.");
    string_of(&out)
}

/// The names a published post is filed under.
pub struct PostNames {
    /// The slug of its title.
    pub title_slug: String,
    /// The date part of its date, `YYYY-MM-DD`.
    pub date_slug: String,
}

/// The properties a published post needs, each with the text it is set to
/// when the draft does not set it: `layout` and `type` are `post`, `title` is
/// the stem of the draft's file name and `date` is `now`.
pub open spec fn publish_defaults(draft_name: Seq<char>, now: LocalDateTime) -> Seq<
    (Seq<char>, Seq<char>),
> {
    seq![
        ("layout"@, "post"@),
        ("type"@, "post"@),
        ("title"@, stem_and_extension(draft_name).0),
        ("date"@, yaml_date(now)),
    ]
}

/// Whether the property `key` can be read as text: it is not set, or it is
/// set to a string.
pub open spec fn readable(fm: FrontMatter, key: Seq<char>) -> bool {
    match property(fm, key) {
        Some(v) => v.text is Ok,
        None => true,
    }
}

/// The property and value `default` gets set to, when the front matter does
/// not set it.
pub open spec fn default_step(fm: FrontMatter, default: (Seq<char>, Seq<char>)) -> Seq<
    (Seq<char>, Seq<char>),
> {
    if property(fm, default.0) is None {
        seq![default]
    } else {
        Seq::empty()
    }
}

/// The properties set, in order, when the `defaults` are applied one after
/// the other: each one the front matter does not set, up to the first one it
/// sets to something other than a string.
pub open spec fn defaults_set(fm: FrontMatter, defaults: Seq<(Seq<char>, Seq<char>)>) -> Seq<
    (Seq<char>, Seq<char>),
>
    decreases defaults.len(),
{
    if defaults.len() == 0 {
        Seq::empty()
    } else {
        default_step(fm, defaults[0]) + if readable(fm, defaults[0].0) {
            defaults_set(fm, defaults.drop_first())
        } else {
            Seq::empty()
        }
    }
}

/// The notice written when `default` is applied: the value already set, or
/// the task that sets it.
pub open spec fn default_notice(fm: FrontMatter, default: (Seq<char>, Seq<char>)) -> Seq<char> {
    match property(fm, default.0) {
        Some(v) => property_set_notice(default.0, v),
        None => "Adding task: "@ + ("Set property "@ + default.0 + " to "@ + ("String("@ + debug_str(
            default.1,
        ) + ")"@)),
    }
}

/// The notices written, in order, when the `defaults` are applied.
pub open spec fn defaults_notices(fm: FrontMatter, defaults: Seq<(Seq<char>, Seq<char>)>) -> Seq<
    Seq<char>,
>
    decreases defaults.len(),
{
    if defaults.len() == 0 {
        Seq::empty()
    } else {
        seq![default_notice(fm, defaults[0])] + if readable(fm, defaults[0].0) {
            defaults_notices(fm, defaults.drop_first())
        } else {
            Seq::empty()
        }
    }
}

/// The error that stops applying the `defaults`: that of reading as text the
/// first property the front matter sets to something other than a string.
pub open spec fn defaults_error(fm: FrontMatter, defaults: Seq<(Seq<char>, Seq<char>)>) -> Option<
    Seq<char>,
>
    decreases defaults.len(),
{
    if defaults.len() == 0 {
        None
    } else if readable(fm, defaults[0].0) {
        defaults_error(fm, defaults.drop_first())
    } else {
        match property(fm, defaults[0].0) {
            Some(v) => match v.text {
                Ok(_) => None,
                Err(e) => Some(e@),
            },
            None => None,
        }
    }
}

/// Whether the tasks of `tasks` from `start` on are exactly the tasks that
/// set the properties `set` to their texts, in order.
pub open spec fn sets_properties(tasks: Seq<Task>, start: int, set: Seq<(Seq<char>, Seq<char>)>) -> bool {
    &&& tasks.len() == start + set.len()
    &&& forall|i: int|
        0 <= i < set.len() ==> (#[trigger] tasks[start + i] matches Task::PropertyTask(p)
            && p.name@ == set[i].0 && (p.value matches PropertyValue::Text(t) && t@ == set[i].1))
}

/// One default applied by `set_property_if_not_set`, seen from the tasks and
/// notices before and after.
proof fn lemma_default_applied(
    fm: FrontMatter,
    defaults: Seq<(Seq<char>, Seq<char>)>,
    t0: Seq<Task>,
    t1: Seq<Task>,
    t2: Seq<Task>,
    start: int,
    done: Seq<(Seq<char>, Seq<char>)>,
)
    requires
        defaults.len() > 0,
        0 <= start <= t0.len() <= t1.len(),
        t1.subrange(0, t0.len() as int) == t0,
        sets_properties(t1, start, done),
        property(fm, defaults[0].0) is Some ==> t2 == t1,
        property(fm, defaults[0].0) is None ==> {
            &&& t2.len() == t1.len() + 1
            &&& t2.subrange(0, t1.len() as int) == t1
            &&& t2.last() matches Task::PropertyTask(p) && p.name@ == defaults[0].0 && (
            p.value matches PropertyValue::Text(d) && d@ == defaults[0].1)
        },
    ensures
        t2.subrange(0, t0.len() as int) == t0,
        sets_properties(t2, start, done + default_step(fm, defaults[0])),
        defaults_set(fm, defaults) == default_step(fm, defaults[0]) + if readable(
            fm,
            defaults[0].0,
        ) {
            defaults_set(fm, defaults.drop_first())
        } else {
            Seq::empty()
        },
{
    let step = default_step(fm, defaults[0]);
    let all = done + step;
    if property(fm, defaults[0].0) is None {
        assert(t2.subrange(0, t0.len() as int) =~= t1.subrange(0, t0.len() as int)) by {
            assert forall|i: int| 0 <= i < t0.len() implies t2[i] == t1[i] by {
                assert(t2.subrange(0, t1.len() as int)[i] == t2[i]);
            }
        }
        assert forall|i: int| 0 <= i < all.len() implies (#[trigger] t2[start + i] matches Task::PropertyTask(p)
            && p.name@ == all[i].0 && (p.value matches PropertyValue::Text(t) && t@ == all[i].1)) by {
            if i < done.len() {
                assert(t2[start + i] == t2.subrange(0, t1.len() as int)[start + i]);
                assert(t1[start + i] matches Task::PropertyTask(p) && p.name@ == done[i].0 && (
                p.value matches PropertyValue::Text(t) && t@ == done[i].1));
            } else {
                assert(start + i == t2.len() - 1);
            }
        }
    } else {
        assert(all =~= done);
    }
}

/// Sets the properties a published post needs, unless the draft already sets
/// them: `layout` and `type` to `post`, `title` to the stem of the draft's file
/// name, and `date` to `now`, in that order, stopping at the first one set to
/// something other than a string; then gives the slug of the title and the
/// date part of the date.
pub fn publish_properties(
    front_matter: &FrontMatter,
    draft_file: &FileChoice,
    now: LocalDateTime,
    tasks: &mut TaskList,
) -> (r: Result<PostNames, String>)
    requires
        -86400 < now.utc_offset < 86400,
    ensures
        final(tasks).task_seq().subrange(0, old(tasks).task_seq().len() as int) == old(
            tasks,
        ).task_seq(),
        sets_properties(
            final(tasks).task_seq(),
            old(tasks).task_seq().len() as int,
            defaults_set(*front_matter, publish_defaults(draft_file.name@, now)),
        ),
        final(tasks).notice_seq() == old(tasks).notice_seq() + defaults_notices(
            *front_matter,
            publish_defaults(draft_file.name@, now),
        ),
        (r is Err) == defaults_error(*front_matter, publish_defaults(draft_file.name@, now)) is Some,
        r matches Err(e) ==> defaults_error(*front_matter, publish_defaults(draft_file.name@, now))
            == Some(e@),
        r matches Ok(names) ==> {
            &&& (property(*front_matter, "title"@) is None ==> names.title_slug@ == slugified(
                stem_and_extension(draft_file.name@).0,
                ""@,
                "-"@,
                None,
            ))
            &&& (property(*front_matter, "title"@) matches Some(t) ==> (t.text matches Ok(x)
                && names.title_slug@ == slugified(x@, ""@, "-"@, None)))
            &&& (property(*front_matter, "date"@) is None ==> names.date_slug@ == date_part(
                yaml_date(now),
            ))
            &&& (property(*front_matter, "date"@) matches Some(d) ==> (d.text matches Ok(x)
                && names.date_slug@ == date_part(x@)))
        },
{
    let ghost fm = *front_matter;
    let ghost d0 = publish_defaults(draft_file.name@, now);
    let ghost d1 = d0.drop_first();
    let ghost d2 = d1.drop_first();
    let ghost d3 = d2.drop_first();
    let ghost t0 = tasks.task_seq();
    let ghost n0 = tasks.notice_seq();
    let ghost start = t0.len() as int;
    proof {
        reveal_with_fuel(defaults_set, 5);
        reveal_with_fuel(defaults_notices, 5);
        reveal_with_fuel(defaults_error, 5);
        reveal_strlit("layout");
        reveal_strlit("type");
        reveal_strlit("title");
        reveal_strlit("date");
        reveal_strlit("post");
        assert(d1 =~= seq![
            ("type"@, "post"@),
            ("title"@, stem_and_extension(draft_file.name@).0),
            ("date"@, yaml_date(now)),
        ]);
        assert(d2 =~= seq![
            ("title"@, stem_and_extension(draft_file.name@).0),
            ("date"@, yaml_date(now)),
        ]);
        assert(d3 =~= seq![("date"@, yaml_date(now))]);
        assert(d3.drop_first().len() == 0);
        assert(t0.subrange(0, start) =~= t0);
        assert(sets_properties(t0, start, Seq::empty()));
    }
    let layout = set_property_if_not_set(front_matter, "layout", "post", tasks);
    let ghost t1 = tasks.task_seq();
    proof {
        lemma_default_applied(fm, d0, t0, t0, t1, start, Seq::empty());
        assert(Seq::<(Seq<char>, Seq<char>)>::empty() + default_step(fm, d0[0]) =~= default_step(fm, d0[0]));
        assert(tasks.notice_seq() =~= n0 + seq![default_notice(fm, d0[0])]);
    }
    match layout {
        Err(e) => {
            proof {
                assert(defaults_set(fm, d0) =~= default_step(fm, d0[0]));
                assert(defaults_notices(fm, d0) =~= seq![default_notice(fm, d0[0])]);
            }
            return Err(e);
        },
        Ok(_) => {
            assert(readable(fm, d0[0].0));
        },
    }
    let ghost s1 = default_step(fm, d0[0]);
    let type_set = set_property_if_not_set(front_matter, "type", "post", tasks);
    let ghost t2 = tasks.task_seq();
    proof {
        lemma_default_applied(fm, d1, t0, t1, t2, start, s1);
        assert(tasks.notice_seq() =~= n0 + seq![default_notice(fm, d0[0]), default_notice(fm, d1[0])]);
    }
    match type_set {
        Err(e) => {
            proof {
                assert(defaults_set(fm, d1) =~= default_step(fm, d1[0]));
                assert(defaults_set(fm, d0) =~= s1 + default_step(fm, d1[0]));
                assert(defaults_notices(fm, d0) =~= seq![default_notice(fm, d0[0]), default_notice(fm, d1[0])]);
            }
            return Err(e);
        },
        Ok(_) => {
            assert(readable(fm, d1[0].0));
        },
    }
    let ghost s2 = s1 + default_step(fm, d1[0]);
    let default_title = draft_file.default_title();
    let title = match set_property_if_not_set(front_matter, "title", default_title.as_str(), tasks) {
        Err(e) => {
            proof {
                lemma_default_applied(fm, d2, t0, t2, tasks.task_seq(), start, s2);
                assert(defaults_set(fm, d2) =~= default_step(fm, d2[0]));
                assert(defaults_set(fm, d0) =~= s2 + default_step(fm, d2[0]));
                assert(defaults_notices(fm, d0) =~= seq![
                    default_notice(fm, d0[0]),
                    default_notice(fm, d1[0]),
                    default_notice(fm, d2[0]),
                ]);
                assert(tasks.notice_seq() =~= n0 + defaults_notices(fm, d0));
            }
            return Err(e);
        },
        Ok(t) => t,
    };
    let ghost t3 = tasks.task_seq();
    proof {
        lemma_default_applied(fm, d2, t0, t2, t3, start, s2);
    }
    let ghost s3 = s2 + default_step(fm, d2[0]);
    let slug = title_slug(title.as_str());
    let default_date = format_yaml_date(now);
    let date = match set_property_if_not_set(front_matter, "date", default_date.as_str(), tasks) {
        Err(e) => {
            proof {
                lemma_default_applied(fm, d3, t0, t3, tasks.task_seq(), start, s3);
                assert(defaults_set(fm, d3) =~= default_step(fm, d3[0]));
                assert(defaults_set(fm, d0) =~= s3 + default_step(fm, d3[0]));
                assert(defaults_notices(fm, d0) =~= seq![
                    default_notice(fm, d0[0]),
                    default_notice(fm, d1[0]),
                    default_notice(fm, d2[0]),
                    default_notice(fm, d3[0]),
                ]);
                assert(tasks.notice_seq() =~= n0 + defaults_notices(fm, d0));
            }
            return Err(e);
        },
        Ok(d) => d,
    };
    proof {
        lemma_default_applied(fm, d3, t0, t3, tasks.task_seq(), start, s3);
        assert(defaults_set(fm, d3) =~= default_step(fm, d3[0]));
        assert(defaults_set(fm, d0) =~= s3 + default_step(fm, d3[0]));
        assert(defaults_notices(fm, d0) =~= seq![
            default_notice(fm, d0[0]),
            default_notice(fm, d1[0]),
            default_notice(fm, d2[0]),
            default_notice(fm, d3[0]),
        ]);
        assert(tasks.notice_seq() =~= n0 + defaults_notices(fm, d0));
    }
    Ok(PostNames { title_slug: slug, date_slug: date_slug(date.as_str()) })
}

/// Adds the task that sets the property `published` to true.
pub fn add_published_property(tasks: &mut TaskList)
    ensures
        final(tasks).task_seq().len() == old(tasks).task_seq().len() + 1,
        final(tasks).task_seq().subrange(0, old(tasks).task_seq().len() as int) == old(
            tasks,
        ).task_seq(),
        final(tasks).task_seq().last() matches Task::PropertyTask(p) && p.name@ == "published"@
            && p.value == PropertyValue::Bool(true),
        final(tasks).notice_seq() == old(tasks).notice_seq().push(
            adding_notice(final(tasks).task_seq().last()),
        ),
{
    tasks.add_set_property_task("published", PropertyValue::Bool(true));
}

/// The file a published post is saved to: `<date_slug>-<title_slug>.md` in
/// the posts folder.
pub open spec fn post_path(env: Environment, date_slug: Seq<char>, title_slug: Seq<char>) -> Seq<
    char,
> {
    join_path(env.posts_folder@, date_slug + seq!['-'] + title_slug + ".md"@)
}

/// Adds the tasks that end the publishing of a draft: saving the post to its
/// file in the posts folder, then marking as published the draft and, once
/// each, the originals its image tasks read (not the files image tasks
/// produce), the draft first.
pub fn finish_publish(
    environment: &Environment,
    draft_file: &FileChoice,
    names: &PostNames,
    tasks: &mut TaskList,
)
    ensures
        ({
            let t0 = old(tasks).task_seq();
            let t = final(tasks).task_seq();
            let files = files_to_mark(draft_file.entry@, t0, t0.len() as int);
            &&& t.len() == t0.len() + 1 + files.len()
            &&& t.subrange(0, t0.len() as int) == t0
            &&& t[t0.len() as int] matches Task::SavePostTask(s) && s.target_path@ == post_path(
                *environment,
                names.date_slug@,
                names.title_slug@,
            )
            &&& forall|j: int|
                0 <= j < files.len() ==> (#[trigger] t[t0.len() + 1 + j] matches Task::MarkPublishedTask(
                    m,
                ) && m.source_path@ == files[j] && m.date_slug@ == names.date_slug@)
            &&& final(tasks).notice_seq() == old(tasks).notice_seq() + adding_notices(
                t.subrange(t0.len() as int, t.len() as int),
            )
        }),
{
    let mut name: Vec<char> = chars_of(names.date_slug.as_str());
    name.push('-');
    push_str(&mut name, names.title_slug.as_str());
    push_str(&mut name, ".md");
    let path = join(environment.posts_folder.as_str(), string_of(&name).as_str());
    let ghost before = tasks.task_seq();
    let ghost n0 = tasks.notice_seq();
    tasks.add(Task::SavePostTask(SavePostTask::new(path)));
    let ghost middle = tasks.task_seq();
    let ghost n1 = tasks.notice_seq();
    tasks.add_mark_published_task(draft_file.entry.clone(), names.date_slug.as_str());
    proof {
        let t = tasks.task_seq();
        let m = middle.len() as int;
        let b = before.len() as int;
        lemma_files_to_mark_prefix(draft_file.entry@, middle, before, b);
        assert(files_to_mark(draft_file.entry@, middle, m) == files_to_mark(
            draft_file.entry@,
            middle,
            b,
        ));
        let files = files_to_mark(draft_file.entry@, before, b);
        assert(t.subrange(0, m) == middle);
        assert forall|k: int| 0 <= k <= b implies t[k] == middle[k] by {
            assert(t.subrange(0, m)[k] == t[k]);
        }
        assert(t.subrange(0, b) =~= before);
        assert(name@ =~= names.date_slug@ + seq!['-'] + names.title_slug@ + ".md"@);
        assert forall|j: int| 0 <= j < files.len() implies (#[trigger] t[b + 1 + j] matches Task::MarkPublishedTask(
            mk,
        ) && mk.source_path@ == files[j] && mk.date_slug@ == names.date_slug@) by {
            assert(t[m + j] matches Task::MarkPublishedTask(mk) && mk.source_path@ == files[j]
                && mk.date_slug@ == names.date_slug@);
        }
        let added = t.subrange(b, t.len() as int);
        assert(tasks.notice_seq() =~= n0 + adding_notices(added)) by {
            assert forall|j: int| 0 <= j < files.len() implies #[trigger] tasks.notice_seq()[n1.len() + j]
                == adding_notice(t[m + j]) by {}
            assert(n1 == n0.push(adding_notice(middle.last())));
            assert(tasks.notice_seq().subrange(0, n1.len() as int) == n1);
            assert forall|i: int| 0 <= i < added.len() implies #[trigger] tasks.notice_seq()[n0.len() + i]
                == adding_notice(added[i]) by {
                if i == 0 {
                    assert(tasks.notice_seq()[n0.len() as int] == tasks.notice_seq().subrange(
                        0,
                        n1.len() as int,
                    )[n0.len() as int]);
                    assert(added[0] == t[b]);
                    assert(middle.last() == middle[b]);
                } else {
                    assert(tasks.notice_seq()[n1.len() + (i - 1)] == adding_notice(t[m + (i - 1)]));
                }
            }
            assert forall|i: int| 0 <= i < n0.len() implies #[trigger] tasks.notice_seq()[i] == n0[i] by {
                assert(tasks.notice_seq().subrange(0, n1.len() as int)[i] == tasks.notice_seq()[i]);
            }
            let x = n0 + adding_notices(added);
            assert(x.len() == tasks.notice_seq().len());
            assert forall|k: int| 0 <= k < x.len() implies #[trigger] x[k] == tasks.notice_seq()[k] by {
                if k >= n0.len() {
                    let i = k - n0.len();
                    assert(tasks.notice_seq()[n0.len() + i] == adding_notice(added[i]));
                }
            }
        }
    }
}

/// Adds the tasks that update the site: build it, update the category and
/// series pages and the search index, then build it again.
pub fn update_site(environment: &Environment, tasks: &mut TaskList)
    ensures
        final(tasks).task_seq().len() == old(tasks).task_seq().len() + 4,
        final(tasks).task_seq().subrange(0, old(tasks).task_seq().len() as int) == old(
            tasks,
        ).task_seq(),
        final(tasks).task_seq()[old(tasks).task_seq().len() as int] matches Task::RenderSiteTask(r)
            && !r.rerender && r.command.program@ == "bundle"@ && str_views(r.command.args@)
            == seq!["exec"@, "jekyll"@, "build"@],
        final(tasks).task_seq()[old(tasks).task_seq().len() as int + 1] matches Task::UpdateCategoriesTask(
            c,
        ) && c.command.program@ == environment.categories_script@ && c.command.args@.len() == 0,
        final(tasks).task_seq()[old(tasks).task_seq().len() as int + 2] matches Task::UpdateSearchIndexTask(
            c,
        ) && c.command.program@ == environment.search_index_script@ && c.command.args@.len() == 0,
        final(tasks).task_seq()[old(tasks).task_seq().len() as int + 3] matches Task::RenderSiteTask(r)
            && r.rerender && r.command.program@ == "bundle"@ && str_views(r.command.args@)
            == seq!["exec"@, "jekyll"@, "build"@],
        final(tasks).notice_seq() == old(tasks).notice_seq() + adding_notices(
            final(tasks).task_seq().subrange(
                old(tasks).task_seq().len() as int,
                final(tasks).task_seq().len() as int,
            ),
        ),
{
    let ghost before = tasks.task_seq();
    tasks.add(Task::RenderSiteTask(RenderSiteTask::new(false)));
    tasks.add(Task::UpdateCategoriesTask(UpdateCategoriesTask::new(environment)));
    tasks.add(Task::UpdateSearchIndexTask(UpdateSearchIndexTask::new(environment)));
    tasks.add(Task::RenderSiteTask(RenderSiteTask::new(true)));
    assert(tasks.task_seq().subrange(0, before.len() as int) =~= before);
    let ghost added = tasks.task_seq().subrange(before.len() as int, tasks.task_seq().len() as int);
    assert(adding_notices(added) =~= seq![
        adding_notice(added[0]),
        adding_notice(added[1]),
        adding_notice(added[2]),
        adding_notice(added[3]),
    ]);
    assert(tasks.notice_seq() =~= old(tasks).notice_seq() + adding_notices(added));
}

/// The body of the post after its image directives are processed: an error
/// message when one failed; otherwise, when the body changed, a task that
/// replaces it.
pub fn fix_images(body: &str, fixed: Result<String, String>, tasks: &mut TaskList) -> (r: Result<
    (),
    String,
>)
    ensures
        match fixed {
            Err(e) => r matches Err(m) && m@
                == "Error processing images, please edit post and try again: "@ + e@
                && final(tasks).task_seq() == old(tasks).task_seq() && final(tasks).notice_seq()
                == old(tasks).notice_seq(),
            Ok(f) => r is Ok && if f@ == body@ {
                final(tasks).task_seq() == old(tasks).task_seq() && final(tasks).notice_seq()
                    == old(tasks).notice_seq()
            } else {
                &&& final(tasks).task_seq() == old(tasks).task_seq().push(
                    Task::UpdateBodyTask(UpdateBodyTask { new_content: f }),
                )
                &&& final(tasks).notice_seq() == old(tasks).notice_seq().push(
                    "Adding task: "@ + "Update image links in content."@,
                )
            },
        },
{
    match fixed {
        Err(e) => {
            let mut out: Vec<char> = Vec::new();
            push_str(&mut out, "Error processing images, please edit post and try again: ");
            push_str(&mut out, e.as_str());
            Err(string_of(&out))
        },
        Ok(f) => {
            if !str_eq(f.as_str(), body) {
                tasks.add(Task::UpdateBodyTask(UpdateBodyTask::new(f)));
            }
            Ok(())
        },
    }
}

/// Where an image of a post comes from and goes to, and how it is shown.
#[derive(Debug)]
pub struct ImagePlacement {
    /// The image file, relative to the drafts folder.
    pub filename: String,
    /// The alternative text.
    pub alt: String,
    /// The size, in pixels, and format to reduce the image to, if any.
    pub size_format: Option<(ImageSize, ImageFormat)>,
    /// Whether to watermark the image.
    pub watermark: bool,
    /// Whether to show a thumbnail linking to the full image.
    pub full_link: bool,
    /// The image in the drafts folder.
    pub source: String,
    /// The image's path under the assets folder: `<date_slug>/<filename>`.
    pub new_file_path: String,
    /// The image produced in the assets folder.
    pub target: String,
}

/// Places the image `filename` of a post dated `date_slug`: it is read from
/// the drafts folder and produced in the folder `date_slug` of the assets
/// folder.
pub fn replace_image_tag(
    filename: &str,
    alt: &str,
    size_format: Option<(ImageSize, ImageFormat)>,
    watermark: bool,
    full_link: bool,
    date_slug: &str,
    environment: &Environment,
) -> (r: ImagePlacement)
    ensures
        r.filename@ == filename@,
        r.alt@ == alt@,
        r.size_format == size_format,
        r.watermark == watermark,
        r.full_link == full_link,
        r.source@ == join_path(environment.draft_folder@, filename@),
        r.new_file_path@ == date_slug@ + seq!['/'] + filename@,
        r.target@ == join_path(environment.assets_folder@, date_slug@ + seq!['/'] + filename@),
{
    let mut new_path = chars_of(date_slug);
    new_path.push('/');
    push_str(&mut new_path, filename);
    let new_file_path = string_of(&new_path);
    let target = join(environment.assets_folder.as_str(), new_file_path.as_str());
    ImagePlacement {
        filename: owned(filename),
        alt: owned(alt),
        size_format,
        watermark,
        full_link,
        source: environment.get_original_image_filename(filename),
        new_file_path,
        target,
    }
}

/// The confirmations an image needs before it is processed: a wide image
/// shown without a link to it, or an image not resized; then an image not
/// watermarked.
pub open spec fn placement_checks(p: ImagePlacement) -> Seq<(Seq<char>, Seq<char>)> {
    (match p.size_format {
        Some((size, format)) => if width_of(size, format) > CONTENT_WIDTH && !p.full_link {
            seq![
                (
                    "An image size of "@ + size_name(size) + " "@ + format_name(format)
                        + " is rather large to include without a thumbnail. Are you sure you don't want to add a 'full-size' attribute to the tag for '"@
                        + p.filename@ + "'?"@,
                    edit_post(),
                ),
            ]
        } else {
            Seq::empty()
        },
        None => seq![
            ("Are you sure you don't want to resize "@ + p.filename@ + "?"@, edit_post()),
        ],
    }) + (if !p.watermark {
        seq![
            (
                "Are you sure you don't want to add a watermark to "@ + p.filename@ + "?"@,
                edit_post(),
            ),
        ]
    } else {
        Seq::empty()
    })
}

/// The text that shows the image at `path` under the assets folder.
pub open spec fn asset_url(path: Seq<char>) -> Seq<char> {
    "(<{{'assets/' | append: "@ + path + " | relative_url}}>)"@
}

/// The Markdown that shows an image: `![alt](url)`, or, with a link to the
/// full image, `[![alt](url of what is shown)](url of the full image)`.
pub open spec fn image_markdown(alt: Seq<char>, shown: Seq<char>, full: Seq<char>, linked: bool) -> Seq<
    char,
> {
    if linked {
        "[!["@ + alt + "]"@ + asset_url(shown) + "]"@ + asset_url(full)
    } else {
        "!["@ + alt + "]"@ + asset_url(full)
    }
}

/// The thumbnail of an image: `<date_slug>/<filename>.thumbnail.png`.
pub open spec fn thumbnail_path(date_slug: Seq<char>, filename: Seq<char>) -> Seq<char> {
    date_slug + seq!['/'] + filename + ".thumbnail.png"@
}

/// Whether an image linked in full needs a thumbnail: it has a size wider
/// than the content column.
pub open spec fn needs_thumbnail(p: ImagePlacement) -> bool {
    p.full_link && (p.size_format matches Some((size, format)) && width_of(size, format)
        > CONTENT_WIDTH)
}

/// What is left to do for an image once its thumbnail is planned.
#[derive(Debug)]
pub struct ThumbnailStep {
    /// A confirmation to ask first, if any.
    pub confirmation: Option<Confirmation>,
    /// The Markdown that replaces the image directive.
    pub markdown: String,
}

fn push_asset_url(out: &mut Vec<char>, path: &str)
    ensures
        final(out)@ == old(out)@ + asset_url(path@),
{
    push_str(out, "(<{{'assets/' | append: ");
    push_str(out, path);
    push_str(out, " | relative_url}}>)");
}

impl ImagePlacement {
    /// The confirmations the image needs before it is processed, in order.
    pub fn confirmations(&self) -> (r: Vec<Confirmation>)
        ensures
            confirmation_views(r@) == placement_checks(*self),
    {
        let mut out: Vec<Confirmation> = Vec::new();
        match &self.size_format {
            Some((size, format)) => {
                if size.width(format) > CONTENT_WIDTH && !self.full_link {
                    out.push(confirm_large_image(self.filename.as_str(), size, format));
                }
            },
            None => {
                out.push(confirm_no_resize(self.filename.as_str()));
            },
        }
        if !self.watermark {
            out.push(confirm_no_watermark(self.filename.as_str()));
        }
        assert(confirmation_views(out@) =~= placement_checks(*self));
        out
    }

    /// Adds the tasks that make the folder of the post's images, unless there
    /// is one already, and produce the image, unless an image is already
    /// produced from the same file; asks to confirm when that one has other
    /// settings.
    pub fn queue_image(&self, environment: &Environment, date_slug: &str, tasks: &mut TaskList) -> (r:
        Option<Confirmation>)
        ensures
            ({
                let t0 = old(tasks).task_seq();
                let t = final(tasks).task_seq();
                let dir = join_path(environment.assets_folder@, date_slug@);
                let new_dir: int = if has_directory_task(t0, dir) {
                    0
                } else {
                    1
                };
                let new_image: int = if has_image_from(t0, self.source@) {
                    0
                } else {
                    1
                };
                &&& t.len() == t0.len() + new_dir + new_image
                &&& t.subrange(0, t0.len() as int) == t0
                &&& new_dir == 1 ==> (t[t0.len() as int] matches Task::EnsureDirectoryTask(d)
                    && d.path@ == dir)
                &&& new_image == 1 ==> is_image_task(
                    t.last(),
                    watermark_path(*environment),
                    self.source@,
                    self.target@,
                    self.watermark,
                    self.size_format,
                )
                &&& final(tasks).notice_seq() == old(tasks).notice_seq() + adding_notices(
                    t.subrange(t0.len() as int, t.len() as int),
                )
            }),
            has_directory_task(
                final(tasks).task_seq(),
                join_path(environment.assets_folder@, date_slug@),
            ),
            has_image_from(final(tasks).task_seq(), self.source@),
            (r is Some) == has_conflict(
                old(tasks).task_seq(),
                self.source@,
                self.watermark,
                self.size_format,
            ),
            r matches Some(c) ==> c@ == (conflict_question(self.source@), edit_post()),
            image_sources_distinct(old(tasks).task_seq()) ==> image_sources_distinct(
                final(tasks).task_seq(),
            ),
    {
        let ghost t0 = tasks.task_seq();
        let ghost n0 = tasks.notice_seq();
        let ghost dir = join_path(environment.assets_folder@, date_slug@);
        tasks.add_assets_directory_task_if_not_present(environment.assets_folder.as_str(), date_slug);
        let ghost t1 = tasks.task_seq();
        let ghost n1 = tasks.notice_seq();
        proof {
            assert forall|k: int| 0 <= k < t0.len() implies t1[k] == t0[k] by {
                assert(t1.subrange(0, t0.len() as int)[k] == t0[k]);
            }
            if !has_directory_task(t0, dir) {
                assert(t1[t0.len() as int] == t1.last());
            }
            assert(has_conflict(t1, self.source@, self.watermark, self.size_format) == has_conflict(
                t0,
                self.source@,
                self.watermark,
                self.size_format,
            )) by {
                if has_conflict(t1, self.source@, self.watermark, self.size_format) {
                    let k = choose|k: int|
                        0 <= k < t1.len() && conflicts_with(
                            #[trigger] t1[k],
                            self.source@,
                            self.watermark,
                            self.size_format,
                        );
                    if k >= t0.len() {
                        assert(t1[k] == t1.last());
                    }
                    assert(conflicts_with(t0[k], self.source@, self.watermark, self.size_format));
                }
                if has_conflict(t0, self.source@, self.watermark, self.size_format) {
                    let k = choose|k: int|
                        0 <= k < t0.len() && conflicts_with(
                            #[trigger] t0[k],
                            self.source@,
                            self.watermark,
                            self.size_format,
                        );
                    assert(conflicts_with(t1[k], self.source@, self.watermark, self.size_format));
                }
            }
            assert(has_image_from(t1, self.source@) == has_image_from(t0, self.source@)) by {
                if has_image_from(t1, self.source@) {
                    let k = choose|k: int| 0 <= k < t1.len() && is_image_from(#[trigger] t1[k], self.source@);
                    if k >= t0.len() {
                        assert(t1[k] == t1.last());
                    }
                    assert(is_image_from(t0[k], self.source@));
                }
                if has_image_from(t0, self.source@) {
                    let k = choose|k: int| 0 <= k < t0.len() && is_image_from(#[trigger] t0[k], self.source@);
                    assert(is_image_from(t1[k], self.source@));
                }
            }
            assert(n1 == n0 + adding_notices(t1.subrange(t0.len() as int, t1.len() as int))) by {
                if has_directory_task(t0, dir) {
                    assert(t1.subrange(t0.len() as int, t1.len() as int) =~= Seq::<Task>::empty());
                    assert(n1 =~= n0 + adding_notices(Seq::<Task>::empty()));
                } else {
                    assert(t1.subrange(t0.len() as int, t1.len() as int) =~= seq![t1.last()]);
                    assert(n1 =~= n0 + adding_notices(seq![t1.last()]));
                }
            }
        }
        let r = tasks.add_image_task(
            environment,
            self.source.clone(),
            self.target.clone(),
            self.watermark,
            &self.size_format,
        );
        proof {
            let t2 = tasks.task_seq();
            assert forall|k: int| 0 <= k < t1.len() implies t2[k] == t1[k] by {
                if t2 != t1 {
                    assert(t2.subrange(0, t1.len() as int)[k] == t1[k]);
                }
            }
            if has_image_from(t1, self.source@) {
                assert(t2 == t1);
                let k = choose|k: int| 0 <= k < t1.len() && is_image_from(#[trigger] t1[k], self.source@);
                assert(is_image_from(t2[k], self.source@));
                assert(tasks.notice_seq() == n1);
            } else {
                assert(t2[t2.len() - 1] == t2.last());
                assert(is_image_from(t2[t2.len() - 1], self.source@));
                assert(t2.subrange(t0.len() as int, t2.len() as int) =~= t1.subrange(
                    t0.len() as int,
                    t1.len() as int,
                ).push(t2.last()));
                assert(adding_notices(t2.subrange(t0.len() as int, t2.len() as int)) =~= adding_notices(
                    t1.subrange(t0.len() as int, t1.len() as int),
                ).push(adding_notice(t2.last())));
                assert(tasks.notice_seq() =~= n0 + adding_notices(
                    t2.subrange(t0.len() as int, t2.len() as int),
                ));
            }
            assert(t2.subrange(0, t0.len() as int) =~= t0);
            assert(has_directory_task(t1, dir));
            let d = choose|k: int|
                0 <= k < t1.len() && (#[trigger] t1[k] matches Task::EnsureDirectoryTask(d)
                    && crate::environment::same_path(d.path@, dir));
            assert(t2[d] == t1[d]);
            if !has_directory_task(t0, dir) {
                assert(t2[t0.len() as int] == t1[t0.len() as int]);
            }
        }
        r
    }

    /// Plans the thumbnail of an image linked in full, and gives the Markdown
    /// that shows the image. A wide image linked in full gets a task that
    /// produces its thumbnail (an A7 landscape or A6 portrait image made from
    /// the produced image, not watermarked); one without a size needs a
    /// confirmation that no thumbnail is made.
    pub fn queue_thumbnail(&self, environment: &Environment, date_slug: &str, tasks: &mut TaskList) -> (r:
        ThumbnailStep)
        ensures
            r.markdown@ == image_markdown(
                self.alt@,
                if needs_thumbnail(*self) {
                    thumbnail_path(date_slug@, self.filename@)
                } else {
                    self.new_file_path@
                },
                self.new_file_path@,
                self.full_link,
            ),
            ({
                let t0 = old(tasks).task_seq();
                let t = final(tasks).task_seq();
                let unchanged = t == t0 && final(tasks).notice_seq() == old(tasks).notice_seq();
                match self.size_format {
                    Some((size, format)) => if self.full_link && width_of(size, format)
                        > CONTENT_WIDTH {
                        let resize = Some(thumbnail_of(format));
                        let thumb = join_path(
                            environment.assets_folder@,
                            thumbnail_path(date_slug@, self.filename@),
                        );
                        let added: int = if has_image_from(t0, self.target@) {
                            0
                        } else {
                            1
                        };
                        &&& t.len() == t0.len() + added
                        &&& t.subrange(0, t0.len() as int) == t0
                        &&& added == 1 ==> is_image_task(
                            t.last(),
                            watermark_path(*environment),
                            self.target@,
                            thumb,
                            false,
                            resize,
                        )
                        &&& final(tasks).notice_seq() == old(tasks).notice_seq() + adding_notices(
                            t.subrange(t0.len() as int, t.len() as int),
                        )
                        &&& (r.confirmation is Some) == has_conflict(t0, self.target@, false, resize)
                        &&& r.confirmation matches Some(c) ==> c@ == (
                            conflict_question(self.target@),
                            edit_post(),
                        )
                    } else {
                        unchanged && r.confirmation is None
                    },
                    None => unchanged && if self.full_link {
                        r.confirmation matches Some(c) && c@ == (
                            "No size was given for '"@ + self.filename@
                                + "', but a full link was requested. A thumbnail can't be generated without knowing the full size. Are you sure you don't want to specify the size?"@,
                            edit_post(),
                        )
                    } else {
                        r.confirmation is None
                    },
                }
            }),
            image_sources_distinct(old(tasks).task_seq()) ==> image_sources_distinct(
                final(tasks).task_seq(),
            ),
    {
        let mut thumb: Vec<char> = chars_of(date_slug);
        thumb.push('/');
        push_str(&mut thumb, self.filename.as_str());
        push_str(&mut thumb, ".thumbnail.png");
        let thumb_path = string_of(&thumb);
        assert(thumb_path@ =~= thumbnail_path(date_slug@, self.filename@));
        let mut confirmation: Option<Confirmation> = None;
        let mut shown = self.new_file_path.clone();
        if self.full_link {
            match &self.size_format {
                Some((size, format)) => {
                    if size.width(format) > CONTENT_WIDTH {
                        let thumbnail_target = join(
                            environment.assets_folder.as_str(),
                            thumb_path.as_str(),
                        );
                        let ghost t0 = tasks.task_seq();
                        let ghost n0 = tasks.notice_seq();
                        confirmation = tasks.add_image_task(
                            environment,
                            self.target.clone(),
                            thumbnail_target,
                            false,
                            &Some(size.thumbnail_size(format)),
                        );
                        proof {
                            let t1 = tasks.task_seq();
                            if has_image_from(t0, self.target@) {
                                assert(t1 == t0);
                                assert(t1.subrange(0, t0.len() as int) =~= t0);
                                assert(t1.subrange(t0.len() as int, t1.len() as int) =~= Seq::<Task>::empty());
                                assert(tasks.notice_seq() =~= n0 + adding_notices(Seq::<Task>::empty()));
                            } else {
                                assert(t1.subrange(t0.len() as int, t1.len() as int) =~= seq![t1.last()]);
                                assert(tasks.notice_seq() =~= n0 + adding_notices(seq![t1.last()]));
                            }
                        }
                        shown = thumb_path;
                    }
                },
                None => {
                    confirmation = Some(confirm_no_size_for_thumbnail(self.filename.as_str()));
                },
            }
        }
        let mut out: Vec<char> = Vec::new();
        if self.full_link {
            push_str(&mut out, "[![");
            push_str(&mut out, self.alt.as_str());
            push_str(&mut out, "]");
            push_asset_url(&mut out, shown.as_str());
            push_str(&mut out, "]");
            push_asset_url(&mut out, self.new_file_path.as_str());
        } else {
            push_str(&mut out, "![");
            push_str(&mut out, self.alt.as_str());
            push_str(&mut out, "]");
            push_asset_url(&mut out, self.new_file_path.as_str());
        }
        ThumbnailStep { confirmation, markdown: string_of(&out) }
    }
}

/// How wide an image of `size` is shown in `format`, in pixels: its long side
/// across in landscape, its short side in portrait.
pub open spec fn shown_width(size: ImageSize, format: ImageFormat) -> nat {
    if format == ImageFormat::Landscape {
        long_side(size)
    } else {
        short_side(size)
    }
}

/// The confirmations of an image with a size: the large-image question comes
/// exactly when the image is not linked in full and is wider than the content
/// column (its long side in landscape, its short side in portrait, whatever its
/// height), and the watermark question comes after it exactly when the image
/// is not watermarked; nothing else is asked.
pub proof fn lemma_large_image_confirmation(p: ImagePlacement, size: ImageSize, format: ImageFormat)
    requires
        p.size_format == Some((size, format)),
    ensures
        ({
            let wide = !p.full_link && shown_width(size, format) > CONTENT_WIDTH;
            &&& placement_checks(p).len() == (if wide {
                1int
            } else {
                0int
            }) + (if p.watermark {
                0int
            } else {
                1int
            })
            &&& wide ==> placement_checks(p)[0] == (
                "An image size of "@ + size_name(size) + " "@ + format_name(format)
                    + " is rather large to include without a thumbnail. Are you sure you don't want to add a 'full-size' attribute to the tag for '"@
                    + p.filename@ + "'?"@,
                edit_post(),
            )
            &&& !p.watermark ==> placement_checks(p).last() == (
                "Are you sure you don't want to add a watermark to "@ + p.filename@ + "?"@,
                edit_post(),
            )
        }),
{
}

/// An image linked in full is shown as a thumbnail (and a thumbnail task is
/// planned for it) exactly when it has a size and is wider than the content
/// column: its long side in landscape, its short side in portrait, whatever
/// its height. Without a full link, or without a size, the image itself is
/// shown.
pub proof fn lemma_thumbnail_when_wide(p: ImagePlacement)
    ensures
        needs_thumbnail(p) == match p.size_format {
            Some((size, format)) => p.full_link && shown_width(size, format) > CONTENT_WIDTH,
            None => false,
        },
{
}

} // verus!
