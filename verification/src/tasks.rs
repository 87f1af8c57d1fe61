//! The tasks that publishing performs once everything has been checked, and
//! the list that collects them: each task is described to the user when it is
//! added and again when it is performed.

use vstd::prelude::*;
use crate::text::{chars_of, debug_str, decimal, push_chars, push_str, string_of, usize_to_chars};
use crate::console::{owned, Confirmation};
use crate::environment::{join, join_path, paths_equal, same_path, Environment};
use crate::image::{
    format_name, height_of, long_side, short_side, size_name, width_of, ImageFormat, ImageSize,
};

verus! {

/// The texts held by a list of strings.
pub open spec fn str_views(v: Seq<String>) -> Seq<Seq<char>> {
    v.map_values(|s: String| s@)
}

proof fn lemma_str_views_push(v: Seq<String>, s: String)
    ensures
        str_views(v.push(s)) == str_views(v).push(s@),
{
    assert(str_views(v.push(s)) =~= str_views(v).push(s@));
}

fn push_text(v: &mut Vec<String>, s: &str)
    ensures
        str_views(final(v)@) == str_views(old(v)@).push(s@),
{
    let t = owned(s);
    proof {
        lemma_str_views_push(v@, t);
    }
    v.push(t);
}

fn push_string(v: &mut Vec<String>, s: String)
    ensures
        str_views(final(v)@) == str_views(old(v)@).push(s@),
{
    proof {
        lemma_str_views_push(v@, s);
    }
    v.push(s);
}

/// A program to run with its arguments.
#[derive(Debug)]
pub struct CommandTask {
    pub program: String,
    pub args: Vec<String>,
}

/// `parts` joined with `sep` between them.
pub open spec fn joined(parts: Seq<Seq<char>>, sep: Seq<char>) -> Seq<char>
    decreases parts.len(),
{
    if parts.len() == 0 {
        Seq::empty()
    } else if parts.len() == 1 {
        parts[0]
    } else {
        joined(parts.drop_last(), sep) + sep + parts.last()
    }
}

impl CommandTask {
    /// The command as it is reported when it fails: the program, a space, and
    /// the arguments separated by spaces.
    pub fn failure_message(&self) -> (r: String)
        ensures
            r@ == self.program@ + seq![' '] + joined(str_views(self.args@), seq![' ']),
    {
        let mut out = chars_of(self.program.as_str());
        out.push(' ');
        let ghost start = out@;
        let mut i: usize = 0;
        while i < self.args.len()
            invariant
                i <= self.args@.len(),
                out@ == start + joined(str_views(self.args@).subrange(0, i as int), seq![' ']),
            decreases self.args@.len() - i,
        {
            let ghost prev = out@;
            if i > 0 {
                out.push(' ');
            }
            push_str(&mut out, self.args[i].as_str());
            proof {
                let parts = str_views(self.args@).subrange(0, i + 1);
                assert(parts.drop_last() =~= str_views(self.args@).subrange(0, i as int));
                if i == 0 {
                    assert(parts.len() == 1);
                    assert(joined(str_views(self.args@).subrange(0, 0), seq![' ']) =~= Seq::<char>::empty());
                }
                assert(out@ =~= start + joined(parts, seq![' ']));
            }
            i = i + 1;
        }
        assert(str_views(self.args@).subrange(0, self.args@.len() as int) =~= str_views(self.args@));
        string_of(&out)
    }
}

/// The watermark image put on images: `watermark.png` in the drafts folder.
pub open spec fn watermark_path(env: Environment) -> Seq<char> {
    join_path(env.draft_folder@, "watermark.png"@)
}

/// The ImageMagick geometry that shrinks an image to fit `size` in `format`:
/// `<width>x<height>>`.
pub open spec fn geometry(size: ImageSize, format: ImageFormat) -> Seq<char> {
    decimal(width_of(size, format)) + seq!['x'] + decimal(height_of(size, format)) + seq!['>']
}

/// The arguments that read `source` and lay the watermark `watermark` over
/// the whole of it.
pub open spec fn watermark_args(source: Seq<char>, watermark: Seq<char>) -> Seq<Seq<char>> {
    seq![
        source,
        "-set"@,
        "option:wmwidth"@,
        "%[fx:int(w)]"@,
        "-set"@,
        "option:wmheight"@,
        "%[fx:int(h)]"@,
        "("@,
        watermark,
        "-resize"@,
        "%[wmwidth]x%[wmheight]!"@,
        ")"@,
        "-gravity"@,
        "Center"@,
        "-composite"@,
    ]
}

/// The command that produces `target` from `source`: ImageMagick when the
/// image is watermarked or resized (or both), a plain copy otherwise.
pub open spec fn image_command(
    watermark: Seq<char>,
    source: Seq<char>,
    target: Seq<char>,
    add_watermark: bool,
    resize: Option<(ImageSize, ImageFormat)>,
) -> (Seq<char>, Seq<Seq<char>>) {
    match resize {
        Some((size, format)) => if add_watermark {
            (
                "magick"@,
                watermark_args(source, watermark) + seq!["-resize"@, geometry(size, format), target],
            )
        } else {
            ("magick"@, seq![source, "-resize"@, geometry(size, format), target])
        },
        None => if add_watermark {
            ("magick"@, watermark_args(source, watermark).push(target))
        } else {
            ("cp"@, seq![source, target])
        },
    }
}

/// Produces an image of the post from a draft image.
#[derive(Debug)]
pub struct ImageTask {
    pub source_file: String,
    pub target_file: String,
    pub add_watermark: bool,
    pub resize: Option<(ImageSize, ImageFormat)>,
    pub command: CommandTask,
}

fn push_watermark_args(args: &mut Vec<String>, source: &str, watermark: &str)
    ensures
        str_views(final(args)@) == str_views(old(args)@) + watermark_args(source@, watermark@),
{
    let ghost start = str_views(args@);
    push_text(args, source);
    push_text(args, "-set");
    push_text(args, "option:wmwidth");
    push_text(args, "%[fx:int(w)]");
    push_text(args, "-set");
    push_text(args, "option:wmheight");
    push_text(args, "%[fx:int(h)]");
    push_text(args, "(");
    push_text(args, watermark);
    push_text(args, "-resize");
    push_text(args, "%[wmwidth]x%[wmheight]!");
    push_text(args, ")");
    push_text(args, "-gravity");
    push_text(args, "Center");
    push_text(args, "-composite");
    assert(str_views(args@) =~= start + watermark_args(source@, watermark@));
}

fn geometry_text(size: &ImageSize, format: &ImageFormat) -> (r: String)
    ensures
        r@ == geometry(*size, *format),
{
    let mut out = usize_to_chars(size.width(format));
    out.push('x');
    let h = usize_to_chars(size.height(format));
    push_chars(&mut out, &h);
    out.push('>');
    string_of(&out)
}

impl ImageTask {
    /// The watermark image: `watermark.png` in the drafts folder.
    pub fn get_watermark(environment: &Environment) -> (r: String)
        ensures
            r@ == watermark_path(*environment),
    {
        join(environment.draft_folder.as_str(), "watermark.png")
    }

    /// The task that produces `target_file` from `source_file`, watermarked
    /// and resized as asked.
    pub fn new(
        environment: &Environment,
        source_file: String,
        target_file: String,
        add_watermark: bool,
        resize: &Option<(ImageSize, ImageFormat)>,
    ) -> (r: ImageTask)
        ensures
            r.source_file@ == source_file@,
            r.target_file@ == target_file@,
            r.add_watermark == add_watermark,
            r.resize == *resize,
            (r.command.program@, str_views(r.command.args@)) == image_command(
                watermark_path(*environment),
                source_file@,
                target_file@,
                add_watermark,
                *resize,
            ),
    {
        let mut args: Vec<String> = Vec::new();
        let program = match resize {
            Some((size, format)) => {
                if add_watermark {
                    let wm = Self::get_watermark(environment);
                    push_watermark_args(&mut args, source_file.as_str(), wm.as_str());
                    push_text(&mut args, "-resize");
                    push_string(&mut args, geometry_text(size, format));
                    push_text(&mut args, target_file.as_str());
                } else {
                    push_text(&mut args, source_file.as_str());
                    push_text(&mut args, "-resize");
                    push_string(&mut args, geometry_text(size, format));
                    push_text(&mut args, target_file.as_str());
                }
                owned("magick")
            },
            None => {
                if add_watermark {
                    let wm = Self::get_watermark(environment);
                    push_watermark_args(&mut args, source_file.as_str(), wm.as_str());
                    push_text(&mut args, target_file.as_str());
                    owned("magick")
                } else {
                    push_text(&mut args, source_file.as_str());
                    push_text(&mut args, target_file.as_str());
                    owned("cp")
                }
            },
        };
        proof {
            let (p, a) = image_command(
                watermark_path(*environment),
                source_file@,
                target_file@,
                add_watermark,
                *resize,
            );
            assert(str_views(args@) =~= a);
        }
        ImageTask {
            source_file,
            target_file,
            add_watermark,
            resize: *resize,
            command: CommandTask { program, args },
        }
    }
}

/// A value to set a property of the front matter to.
#[derive(Debug)]
pub enum PropertyValue {
    Text(String),
    Bool(bool),
}

/// How a value is written for the user: the `{:?}` form of the YAML value,
/// `String("...")` or `Bool(...)`.
pub open spec fn value_debug(v: PropertyValue) -> Seq<char> {
    match v {
        PropertyValue::Text(s) => "String("@ + debug_str(s@) + ")"@,
        PropertyValue::Bool(b) => if b {
            "Bool(true)"@
        } else {
            "Bool(false)"@
        },
    }
}

/// The `{:?}` form of the serde_yaml value `v` stands for, `Value::String` or
/// `Value::Bool`: serde_yaml writes `String(` and the string's own `{:?}`
/// form, then `)`; or `Bool(true)` or `Bool(false)`.
#[verifier::external_body]
fn yaml_value_debug(v: &PropertyValue) -> (r: String)
    ensures
        match v {
            PropertyValue::Text(s) => r@ == "String("@ + debug_str(s@) + ")"@,
            PropertyValue::Bool(b) => r@ == if *b {
                "Bool(true)"@
            } else {
                "Bool(false)"@
            },
        },
{
    match v {
        PropertyValue::Text(s) => format!("{:?}", serde_yaml::Value::String(s.clone())),
        PropertyValue::Bool(b) => format!("{:?}", serde_yaml::Value::Bool(*b)),
    }
}

impl PropertyValue {
    /// How the value is written for the user.
    pub fn debug(&self) -> (r: String)
        ensures
            r@ == value_debug(*self),
    {
        yaml_value_debug(self)
    }
}

/// Sets a property of the front matter of the post.
#[derive(Debug)]
pub struct PropertyTask {
    pub name: String,
    pub value: PropertyValue,
}

impl PropertyTask {
    pub fn new(name: String, value: PropertyValue) -> (r: PropertyTask)
        ensures
            r.name == name,
            r.value == value,
    {
        PropertyTask { name, value }
    }
}

/// Creates a folder, with its parents, unless it exists.
#[derive(Debug)]
pub struct EnsureDirectoryTask {
    pub path: String,
}

impl EnsureDirectoryTask {
    pub fn new(path: String) -> (r: EnsureDirectoryTask)
        ensures
            r.path == path,
    {
        EnsureDirectoryTask { path }
    }
}

/// Builds the site with Jekyll.
#[derive(Debug)]
pub struct RenderSiteTask {
    pub rerender: bool,
    pub command: CommandTask,
}

impl RenderSiteTask {
    /// Builds the site with `bundle exec jekyll build`; `rerender` tells
    /// whether it is the build after the indexes are updated.
    pub fn new(rerender: bool) -> (r: RenderSiteTask)
        ensures
            r.rerender == rerender,
            r.command.program@ == "bundle"@,
            str_views(r.command.args@) == seq!["exec"@, "jekyll"@, "build"@],
    {
        let mut args: Vec<String> = Vec::new();
        push_text(&mut args, "exec");
        push_text(&mut args, "jekyll");
        push_text(&mut args, "build");
        assert(str_views(args@) =~= seq!["exec"@, "jekyll"@, "build"@]);
        RenderSiteTask { rerender, command: CommandTask { program: owned("bundle"), args } }
    }
}

/// Runs the script that updates the search index.
#[derive(Debug)]
pub struct UpdateSearchIndexTask {
    pub command: CommandTask,
}

impl UpdateSearchIndexTask {
    pub fn new(environment: &Environment) -> (r: UpdateSearchIndexTask)
        ensures
            r.command.program@ == environment.search_index_script@,
            r.command.args@.len() == 0,
    {
        UpdateSearchIndexTask {
            command: CommandTask {
                program: environment.search_index_script.clone(),
                args: Vec::new(),
            },
        }
    }
}

/// Runs the script that updates the category and series pages.
#[derive(Debug)]
pub struct UpdateCategoriesTask {
    pub command: CommandTask,
}

impl UpdateCategoriesTask {
    pub fn new(environment: &Environment) -> (r: UpdateCategoriesTask)
        ensures
            r.command.program@ == environment.categories_script@,
            r.command.args@.len() == 0,
    {
        UpdateCategoriesTask {
            command: CommandTask {
                program: environment.categories_script.clone(),
                args: Vec::new(),
            },
        }
    }
}

/// Replaces the body of the post.
#[derive(Debug)]
pub struct UpdateBodyTask {
    pub new_content: String,
}

impl UpdateBodyTask {
    pub fn new(new_content: String) -> (r: UpdateBodyTask)
        ensures
            r.new_content == new_content,
    {
        UpdateBodyTask { new_content }
    }
}

/// Writes the post to a file.
#[derive(Debug)]
pub struct SavePostTask {
    pub target_path: String,
}

impl SavePostTask {
    pub fn new(target_path: String) -> (r: SavePostTask)
        ensures
            r.target_path == target_path,
    {
        SavePostTask { target_path }
    }
}

/// Renames a draft file so that it is not offered for publishing again.
#[derive(Debug)]
pub struct MarkPublishedTask {
    pub source_path: String,
    pub date_slug: String,
}

impl MarkPublishedTask {
    pub fn new(source_path: String, date_slug: String) -> (r: MarkPublishedTask)
        ensures
            r.source_path == source_path,
            r.date_slug == date_slug,
    {
        MarkPublishedTask { source_path, date_slug }
    }
}

/// A task of the publishing.
#[derive(Debug)]
pub enum Task {
    ImageTask(ImageTask),
    PropertyTask(PropertyTask),
    EnsureDirectoryTask(EnsureDirectoryTask),
    RenderSiteTask(RenderSiteTask),
    UpdateSearchIndexTask(UpdateSearchIndexTask),
    UpdateCategoriesTask(UpdateCategoriesTask),
    UpdateBodyTask(UpdateBodyTask),
    SavePostTask(SavePostTask),
    MarkPublishedTask(MarkPublishedTask),
}

/// How a task is described to the user.
pub open spec fn task_description(t: Task) -> Seq<char> {
    match t {
        Task::ImageTask(i) => match i.resize {
            Some((size, format)) => if i.add_watermark {
                "Resize "@ + i.source_file@ + " at "@ + format_name(format) + " "@ + size_name(size)
                    + ", watermark and copy to "@ + i.target_file@
            } else {
                "Resize "@ + i.source_file@ + " at "@ + format_name(format) + " "@ + size_name(size)
                    + " and copy to "@ + i.target_file@
            },
            None => if i.add_watermark {
                "Watermark and copy "@ + i.source_file@ + " to "@ + i.target_file@
            } else {
                "Copy "@ + i.source_file@ + " to "@ + i.target_file@
            },
        },
        Task::PropertyTask(p) => "Set property "@ + p.name@ + " to "@ + value_debug(p.value),
        Task::EnsureDirectoryTask(d) => "Ensure directory "@ + d.path@ + " exists"@,
        Task::RenderSiteTask(r) => if r.rerender {
            "Re-render site to pick up new categories and search index."@
        } else {
            "Render the site to pick up the new post for indexing."@
        },
        Task::UpdateSearchIndexTask(_) => "Update search index."@,
        Task::UpdateCategoriesTask(_) => "Update categories and series files."@,
        Task::UpdateBodyTask(_) => "Update image links in content."@,
        Task::SavePostTask(s) => "Save post to "@ + s.target_path@ + "."@,
        Task::MarkPublishedTask(m) => "Add '."@ + m.date_slug@ + ".published' extension to '"@
            + m.source_path@ + "'."@,
    }
}

impl Task {
    /// How the task is described to the user.
    pub fn description(&self) -> (r: String)
        ensures
            r@ == task_description(*self),
    {
        let mut out: Vec<char> = Vec::new();
        match self {
            Task::ImageTask(i) => match &i.resize {
                Some((size, format)) => {
                    push_str(&mut out, "Resize ");
                    push_str(&mut out, i.source_file.as_str());
                    push_str(&mut out, " at ");
                    push_str(&mut out, format.to_string().as_str());
                    push_str(&mut out, " ");
                    push_str(&mut out, size.to_string().as_str());
                    if i.add_watermark {
                        push_str(&mut out, ", watermark and copy to ");
                    } else {
                        push_str(&mut out, " and copy to ");
                    }
                    push_str(&mut out, i.target_file.as_str());
                },
                None => {
                    if i.add_watermark {
                        push_str(&mut out, "Watermark and copy ");
                    } else {
                        push_str(&mut out, "Copy ");
                    }
                    push_str(&mut out, i.source_file.as_str());
                    push_str(&mut out, " to ");
                    push_str(&mut out, i.target_file.as_str());
                },
            },
            Task::PropertyTask(p) => {
                push_str(&mut out, "Set property ");
                push_str(&mut out, p.name.as_str());
                push_str(&mut out, " to ");
                push_str(&mut out, p.value.debug().as_str());
            },
            Task::EnsureDirectoryTask(d) => {
                push_str(&mut out, "Ensure directory ");
                push_str(&mut out, d.path.as_str());
                push_str(&mut out, " exists");
            },
            Task::RenderSiteTask(r) => {
                if r.rerender {
                    push_str(&mut out, "Re-render site to pick up new categories and search index.");
                } else {
                    push_str(&mut out, "Render the site to pick up the new post for indexing.");
                }
            },
            Task::UpdateSearchIndexTask(_) => {
                push_str(&mut out, "Update search index.");
            },
            Task::UpdateCategoriesTask(_) => {
                push_str(&mut out, "Update categories and series files.");
            },
            Task::UpdateBodyTask(_) => {
                push_str(&mut out, "Update image links in content.");
            },
            Task::SavePostTask(s) => {
                push_str(&mut out, "Save post to ");
                push_str(&mut out, s.target_path.as_str());
                push_str(&mut out, ".");
            },
            Task::MarkPublishedTask(m) => {
                push_str(&mut out, "Add '.");
                push_str(&mut out, m.date_slug.as_str());
                push_str(&mut out, ".published' extension to '");
                push_str(&mut out, m.source_path.as_str());
                push_str(&mut out, "'.");
            },
        }
        assert(out@ =~= task_description(*self));
        string_of(&out)
    }
}

/// Why a task failed.
#[derive(Debug)]
pub enum TaskError {
    /// Reading or writing a file failed, with this message.
    Io(String),
    /// Writing the front matter as YAML failed, with this message.
    Yaml(String),
    /// A command ended in failure; it is given as `failure_message` writes it.
    CommandFailed(String),
}

impl TaskError {
    /// The message of the error.
    pub fn to_string(&self) -> (r: String)
        ensures
            match self {
                TaskError::Io(m) => r@ == m@,
                TaskError::Yaml(m) => r@ == m@,
                TaskError::CommandFailed(c) => r@ == "Child command failed: "@ + c@,
            },
    {
        match self {
            TaskError::Io(m) => m.clone(),
            TaskError::Yaml(m) => m.clone(),
            TaskError::CommandFailed(c) => {
                let mut out: Vec<char> = Vec::new();
                push_str(&mut out, "Child command failed: ");
                push_str(&mut out, c.as_str());
                string_of(&out)
            },
        }
    }
}

/// The notice written when a task is added.
pub open spec fn adding_notice(t: Task) -> Seq<char> {
    "Adding task: "@ + task_description(t)
}

/// The notice written when a task is performed.
pub open spec fn completing_notice(t: Task) -> Seq<char> {
    "Completing task: "@ + task_description(t)
}

/// The notice written when `task` is performed.
pub fn completing_notice_text(task: &Task) -> (r: String)
    ensures
        r@ == completing_notice(*task),
{
    let mut out: Vec<char> = Vec::new();
    push_str(&mut out, "Completing task: ");
    push_str(&mut out, task.description().as_str());
    string_of(&out)
}

/// Whether `t` produces an image from the source file `source` (the same
/// path, compared component by component).
pub open spec fn is_image_from(t: Task, source: Seq<char>) -> bool {
    match t {
        Task::ImageTask(i) => same_path(i.source_file@, source),
        _ => false,
    }
}

/// Whether `t` produces an image from `source` with other settings than
/// `add_watermark` and `resize`.
pub open spec fn conflicts_with(
    t: Task,
    source: Seq<char>,
    add_watermark: bool,
    resize: Option<(ImageSize, ImageFormat)>,
) -> bool {
    match t {
        Task::ImageTask(i) => same_path(i.source_file@, source) && (i.add_watermark
            != add_watermark || i.resize != resize),
        _ => false,
    }
}

/// Whether some task of `tasks` produces an image from `source`.
pub open spec fn has_image_from(tasks: Seq<Task>, source: Seq<char>) -> bool {
    exists|k: int| 0 <= k < tasks.len() && is_image_from(#[trigger] tasks[k], source)
}

/// Whether some task of `tasks` produces an image from `source` with other
/// settings than `add_watermark` and `resize`.
pub open spec fn has_conflict(
    tasks: Seq<Task>,
    source: Seq<char>,
    add_watermark: bool,
    resize: Option<(ImageSize, ImageFormat)>,
) -> bool {
    exists|k: int|
        0 <= k < tasks.len() && conflicts_with(#[trigger] tasks[k], source, add_watermark, resize)
}

/// Whether `t` is the task that produces `target` from `source` with these
/// settings, the watermark being `watermark`.
pub open spec fn is_image_task(
    t: Task,
    watermark: Seq<char>,
    source: Seq<char>,
    target: Seq<char>,
    add_watermark: bool,
    resize: Option<(ImageSize, ImageFormat)>,
) -> bool {
    t matches Task::ImageTask(i) && i.source_file@ == source && i.target_file@ == target
        && i.add_watermark == add_watermark && i.resize == resize && (i.command.program@, str_views(
        i.command.args@,
    )) == image_command(watermark, source, target, add_watermark, resize)
}

/// The notices written when `tasks` are added, in order.
pub open spec fn adding_notices(tasks: Seq<Task>) -> Seq<Seq<char>> {
    tasks.map_values(|t: Task| adding_notice(t))
}

/// Whether no two image tasks of `tasks` read the same source file.
pub open spec fn image_sources_distinct(tasks: Seq<Task>) -> bool {
    forall|j: int, k: int|
        0 <= j < k < tasks.len() && tasks[j] is ImageTask ==> !is_image_from(
            #[trigger] tasks[k],
            (#[trigger] tasks[j])->ImageTask_0.source_file@,
        )
}

/// Whether `tasks` has a task that creates the folder `path` (the same path,
/// compared component by component).
pub open spec fn has_directory_task(tasks: Seq<Task>, path: Seq<char>) -> bool {
    exists|k: int|
        0 <= k < tasks.len() && (#[trigger] tasks[k] matches Task::EnsureDirectoryTask(d)
            && same_path(d.path@, path))
}

/// Whether `list` holds the path `p`, compared component by component.
pub open spec fn lists_path(list: Seq<Seq<char>>, p: Seq<char>) -> bool {
    exists|w: int| 0 <= w < list.len() && same_path(#[trigger] list[w], p)
}

/// Whether one of the first `k` tasks of `tasks` produces the file `p`: an
/// image task whose target is that path. Such a file is made by the tool, not
/// an original of the draft.
pub open spec fn produced_before(tasks: Seq<Task>, k: int, p: Seq<char>) -> bool {
    exists|j: int|
        0 <= j < k && (#[trigger] tasks[j] matches Task::ImageTask(i) && same_path(
            i.target_file@,
            p,
        ))
}

/// Whether `p` is the source of one of the first `n` tasks of `tasks`, an
/// image task that reads an original (a file no earlier task produces).
pub open spec fn original_source(tasks: Seq<Task>, n: int, p: Seq<char>) -> bool {
    exists|k: int|
        0 <= k < n && (#[trigger] tasks[k] matches Task::ImageTask(i) && i.source_file@ == p
            && !produced_before(tasks, k, p))
}

/// The files to mark as published after the first `n` tasks of `tasks` are
/// looked at: the draft, then the source of each image task that reads an
/// original (not a file an earlier image task produces) and whose path is not
/// already listed, in order.
pub open spec fn files_to_mark(draft: Seq<char>, tasks: Seq<Task>, n: int) -> Seq<Seq<char>>
    decreases n,
{
    if n <= 0 {
        seq![draft]
    } else {
        let prev = files_to_mark(draft, tasks, n - 1);
        match tasks[n - 1] {
            Task::ImageTask(i) => if lists_path(prev, i.source_file@) || produced_before(
                tasks,
                n - 1,
                i.source_file@,
            ) {
                prev
            } else {
                prev.push(i.source_file@)
            },
            _ => prev,
        }
    }
}

/// The question asked when an image is used twice with other settings.
pub open spec fn conflict_question(source: Seq<char>) -> Seq<char> {
    "image "@ + source
        + " is included more than once with conflicting arguments, only the attributes on the first tag will be used for processing. Are you okay with this?"@
}

/// The tasks of the publishing, in the order they are to be performed, and
/// the notices not yet written.
#[derive(Debug)]
pub struct TaskList {
    tasks: Vec<Task>,
    notices: Vec<String>,
}

impl TaskList {
    /// The tasks, in order.
    pub closed spec fn task_seq(&self) -> Seq<Task> {
        self.tasks@
    }

    /// The notices not yet written, in order.
    pub closed spec fn notice_seq(&self) -> Seq<Seq<char>> {
        str_views(self.notices@)
    }

    /// An empty list.
    pub fn new() -> (r: TaskList)
        ensures
            r.task_seq().len() == 0,
            r.notice_seq().len() == 0,
    {
        TaskList { tasks: Vec::new(), notices: Vec::new() }
    }

    /// The tasks, in order.
    pub fn tasks(&self) -> (r: &Vec<Task>)
        ensures
            r@ == self.task_seq(),
    {
        &self.tasks
    }

    /// The tasks, in order, to be performed.
    pub fn into_tasks(self) -> (r: Vec<Task>)
        ensures
            r@ == self.task_seq(),
    {
        self.tasks
    }

    /// Takes the notices not yet written, to write them.
    pub fn take_notices(&mut self) -> (r: Vec<String>)
        ensures
            str_views(r@) == old(self).notice_seq(),
            final(self).notice_seq().len() == 0,
            final(self).task_seq() == old(self).task_seq(),
    {
        let mut taken: Vec<String> = Vec::new();
        std::mem::swap(&mut taken, &mut self.notices);
        assert(str_views(self.notices@) =~= Seq::<Seq<char>>::empty());
        taken
    }

    /// Queues a notice to write.
    pub fn notice(&mut self, message: String)
        ensures
            final(self).notice_seq() == old(self).notice_seq().push(message@),
            final(self).task_seq() == old(self).task_seq(),
    {
        push_string(&mut self.notices, message);
    }

    /// Adds a task at the end, with a notice that describes it.
    pub fn add(&mut self, task: Task)
        ensures
            final(self).task_seq() == old(self).task_seq().push(task),
            final(self).notice_seq() == old(self).notice_seq().push(adding_notice(task)),
    {
        let mut out: Vec<char> = Vec::new();
        push_str(&mut out, "Adding task: ");
        push_str(&mut out, task.description().as_str());
        push_string(&mut self.notices, string_of(&out));
        self.tasks.push(task);
    }

    /// Adds the task that sets the property `property` to `value`.
    pub fn add_set_property_task(&mut self, property: &str, value: PropertyValue)
        ensures
            final(self).task_seq().len() == old(self).task_seq().len() + 1,
            final(self).task_seq().subrange(0, old(self).task_seq().len() as int) == old(self).task_seq(),
            final(self).task_seq().last() matches Task::PropertyTask(p) && p.name@ == property@ && p.value
                == value,
            final(self).notice_seq() == old(self).notice_seq().push(
                adding_notice(final(self).task_seq().last()),
            ),
    {
        let task = Task::PropertyTask(PropertyTask::new(owned(property), value));
        self.add(task);
        assert(self.task_seq().subrange(0, old(self).task_seq().len() as int) =~= old(self).task_seq());
    }

    /// Adds the task that produces `target_file` from `source_file`, unless a
    /// task already produces an image from the same source. When that task has
    /// the same settings, nothing more is needed; when its settings differ, the
    /// list is left as it is and the user must confirm that the first settings
    /// are kept.
    pub fn add_image_task(
        &mut self,
        environment: &Environment,
        source_file: String,
        target_file: String,
        add_watermark: bool,
        resize: &Option<(ImageSize, ImageFormat)>,
    ) -> (r: Option<Confirmation>)
        ensures
            (exists|k: int|
                0 <= k < old(self).task_seq().len() && conflicts_with(
                    #[trigger] old(self).task_seq()[k],
                    source_file@,
                    add_watermark,
                    *resize,
                )) ==> (r matches Some(c) && c.question@ == conflict_question(source_file@)
                && c.refusal@ == "Please edit the post and try again."@ && final(self).task_seq()
                == old(self).task_seq() && final(self).notice_seq() == old(self).notice_seq()),
            (exists|k: int|
                0 <= k < old(self).task_seq().len() && is_image_from(
                    #[trigger] old(self).task_seq()[k],
                    source_file@,
                )) ==> final(self).task_seq() == old(self).task_seq() && final(self).notice_seq()
                == old(self).notice_seq(),
            (forall|k: int|
                0 <= k < old(self).task_seq().len() ==> !is_image_from(
                    #[trigger] old(self).task_seq()[k],
                    source_file@,
                )) ==> (r is None && final(self).task_seq().len() == old(self).task_seq().len() + 1
                && final(self).task_seq().subrange(0, old(self).task_seq().len() as int)
                == old(self).task_seq() && (final(self).task_seq().last() matches Task::ImageTask(
                i,
            ) && i.source_file@ == source_file@ && i.target_file@ == target_file@ && i.add_watermark
                == add_watermark && i.resize == *resize && (i.command.program@, str_views(
                i.command.args@,
            )) == image_command(
                watermark_path(*environment),
                source_file@,
                target_file@,
                add_watermark,
                *resize,
            )) && final(self).notice_seq() == old(self).notice_seq().push(
                adding_notice(final(self).task_seq().last()),
            )),
            image_sources_distinct(old(self).task_seq()) ==> image_sources_distinct(
                final(self).task_seq(),
            ),
            (r is Some) == exists|k: int|
                0 <= k < old(self).task_seq().len() && conflicts_with(
                    #[trigger] old(self).task_seq()[k],
                    source_file@,
                    add_watermark,
                    *resize,
                ),
            r matches Some(c) ==> c.question@ == conflict_question(source_file@) && c.refusal@
                == "Please edit the post and try again."@,
    {
        let mut found_conflicting = false;
        let mut found_same_source = false;
        let mut k: usize = 0;
        while k < self.tasks.len()
            invariant
                k <= self.tasks@.len(),
                found_conflicting == exists|j: int|
                    0 <= j < k && conflicts_with(
                        #[trigger] self.tasks@[j],
                        source_file@,
                        add_watermark,
                        *resize,
                    ),
                found_same_source == exists|j: int|
                    0 <= j < k && is_image_from(#[trigger] self.tasks@[j], source_file@),
            decreases self.tasks@.len() - k,
        {
            match &self.tasks[k] {
                Task::ImageTask(t) => {
                    if paths_equal(t.source_file.as_str(), source_file.as_str()) {
                        found_same_source = true;
                        if t.add_watermark != add_watermark || !same_resize(&t.resize, resize) {
                            found_conflicting = true;
                        }
                    }
                },
                _ => {},
            }
            proof {
                if found_conflicting {
                    if !(exists|j: int|
                        0 <= j < k && conflicts_with(
                            #[trigger] self.tasks@[j],
                            source_file@,
                            add_watermark,
                            *resize,
                        )) {
                        assert(conflicts_with(self.tasks@[k as int], source_file@, add_watermark, *resize));
                    }
                }
                if found_same_source {
                    if !(exists|j: int| 0 <= j < k && is_image_from(#[trigger] self.tasks@[j], source_file@)) {
                        assert(is_image_from(self.tasks@[k as int], source_file@));
                    }
                }
            }
            k = k + 1;
        }
        if found_conflicting {
            let mut q: Vec<char> = Vec::new();
            push_str(&mut q, "image ");
            push_str(&mut q, source_file.as_str());
            push_str(
                &mut q,
                " is included more than once with conflicting arguments, only the attributes on the first tag will be used for processing. Are you okay with this?",
            );
            return Some(
                Confirmation {
                    question: string_of(&q),
                    refusal: owned("Please edit the post and try again."),
                },
            );
        }
        if !found_same_source {
            let task = ImageTask::new(environment, source_file, target_file, add_watermark, resize);
            let ghost old_tasks = self.tasks@;
            self.add(Task::ImageTask(task));
            proof {
                assert(self.tasks@.subrange(0, old_tasks.len() as int) =~= old_tasks);
                if image_sources_distinct(old_tasks) {
                    assert forall|j: int, m: int|
                        0 <= j < m < self.tasks@.len() && self.tasks@[j] is ImageTask implies !is_image_from(
                        #[trigger] self.tasks@[m],
                        (#[trigger] self.tasks@[j])->ImageTask_0.source_file@,
                    ) by {
                        if m == old_tasks.len() {
                            assert(self.tasks@[j] == old_tasks[j]);
                            assert(!is_image_from(old_tasks[j], source_file@));
                        } else {
                            assert(self.tasks@[j] == old_tasks[j]);
                            assert(self.tasks@[m] == old_tasks[m]);
                        }
                    }
                }
            }
        } else {
            proof {
                let w = choose|j: int| 0 <= j < k && is_image_from(#[trigger] self.tasks@[j], source_file@);
                if !conflicts_with(self.tasks@[w], source_file@, add_watermark, *resize) {
                }
            }
        }
        None
    }

    /// Adds the task that creates the folder `date_slug` in the assets folder,
    /// unless the list already has it.
    pub fn add_assets_directory_task_if_not_present(&mut self, assets_dir: &str, date_slug: &str)
        ensures
            has_directory_task(old(self).task_seq(), join_path(assets_dir@, date_slug@)) ==> (
            final(self).task_seq() == old(self).task_seq()
                && final(self).notice_seq() == old(self).notice_seq()),
            !has_directory_task(old(self).task_seq(), join_path(assets_dir@, date_slug@)) ==> (
            final(self).task_seq().len() == old(self).task_seq().len() + 1
                && final(self).task_seq().subrange(0, old(self).task_seq().len() as int)
                == old(self).task_seq()
                && (final(self).task_seq().last() matches Task::EnsureDirectoryTask(d)
                && d.path@ == join_path(assets_dir@, date_slug@))
                && final(self).notice_seq() == old(self).notice_seq().push(
                adding_notice(final(self).task_seq().last()),
            )),
            has_directory_task(final(self).task_seq(), join_path(assets_dir@, date_slug@)),
            image_sources_distinct(old(self).task_seq()) ==> image_sources_distinct(
                final(self).task_seq(),
            ),
    {
        let path = join(assets_dir, date_slug);
        let mut k: usize = 0;
        while k < self.tasks.len()
            invariant
                k <= self.tasks@.len(),
                path@ == join_path(assets_dir@, date_slug@),
                forall|j: int|
                    0 <= j < k ==> !(#[trigger] self.tasks@[j] matches Task::EnsureDirectoryTask(d)
                        && same_path(d.path@, path@)),
            decreases self.tasks@.len() - k,
        {
            let t = &self.tasks[k];
            assert(*t == self.tasks@[k as int]);
            match t {
                Task::EnsureDirectoryTask(d) => {
                    if paths_equal(d.path.as_str(), path.as_str()) {
                        assert(same_path(d.path@, join_path(assets_dir@, date_slug@)));
                        assert(self.tasks@[k as int] matches Task::EnsureDirectoryTask(e) && same_path(
                            e.path@,
                            join_path(assets_dir@, date_slug@),
                        ));
                        assert(has_directory_task(self.tasks@, join_path(assets_dir@, date_slug@)));
                        return;
                    }
                },
                _ => {},
            }
            k = k + 1;
        }
        let ghost old_tasks = self.tasks@;
        self.add(Task::EnsureDirectoryTask(EnsureDirectoryTask::new(path)));
        proof {
            assert(self.tasks@.subrange(0, old_tasks.len() as int) =~= old_tasks);
            let last = self.tasks@.len() - 1;
            assert(self.tasks@[last] matches Task::EnsureDirectoryTask(d) && d.path@ == join_path(
                assets_dir@,
                date_slug@,
            ));
            assert(same_path(path@, join_path(assets_dir@, date_slug@)));
            if image_sources_distinct(old_tasks) {
                assert forall|j: int, m: int|
                    0 <= j < m < self.tasks@.len() && self.tasks@[j] is ImageTask implies !is_image_from(
                    #[trigger] self.tasks@[m],
                    (#[trigger] self.tasks@[j])->ImageTask_0.source_file@,
                ) by {
                    assert(self.tasks@[j] == old_tasks[j]);
                    if m < old_tasks.len() {
                        assert(self.tasks@[m] == old_tasks[m]);
                    }
                }
            }
        }
    }

    /// Adds the tasks that mark as published the draft `draft_file` and every
    /// original that an image task reads (not a file an earlier image task
    /// produces), each once, the draft first and the others in the order of
    /// their tasks.
    pub fn add_mark_published_task(&mut self, draft_file: String, date_slug: &str)
        ensures
            ({
                let files = files_to_mark(
                    draft_file@,
                    old(self).task_seq(),
                    old(self).task_seq().len() as int,
                );
                &&& final(self).task_seq().len() == old(self).task_seq().len() + files.len()
                &&& final(self).task_seq().subrange(0, old(self).task_seq().len() as int) == old(
                    self,
                ).task_seq()
                &&& forall|j: int|
                    0 <= j < files.len() ==> (#[trigger] final(self).task_seq()[old(
                        self,
                    ).task_seq().len() + j] matches Task::MarkPublishedTask(m) && m.source_path@
                        == files[j] && m.date_slug@ == date_slug@)
                &&& final(self).notice_seq().len() == old(self).notice_seq().len() + files.len()
                &&& final(self).notice_seq().subrange(0, old(self).notice_seq().len() as int)
                    == old(self).notice_seq()
                &&& forall|j: int|
                    0 <= j < files.len() ==> #[trigger] final(self).notice_seq()[old(
                        self,
                    ).notice_seq().len() + j] == adding_notice(
                        final(self).task_seq()[old(self).task_seq().len() + j],
                    )
            }),
            image_sources_distinct(old(self).task_seq()) ==> image_sources_distinct(
                final(self).task_seq(),
            ),
    {
        let ghost old_tasks = self.tasks@;
        let ghost old_notices = str_views(self.notices@);
        let ghost n = old_tasks.len() as int;
        let mut files: Vec<String> = Vec::new();
        files.push(draft_file);
        let mut k: usize = 0;
        while k < self.tasks.len()
            invariant
                k <= self.tasks@.len(),
                self.tasks@ == old_tasks,
                str_views(files@) == files_to_mark(draft_file@, old_tasks, k as int),
            decreases self.tasks@.len() - k,
        {
            let ghost prev = str_views(files@);
            match &self.tasks[k] {
                Task::ImageTask(t) => {
                    if !path_listed(&files, t.source_file.as_str())
                        && !produced_by_earlier(&self.tasks, k, t.source_file.as_str()) {
                        push_string(&mut files, t.source_file.clone());
                    }
                },
                _ => {},
            }
            k = k + 1;
        }
        let ghost fs = str_views(files@);
        let mut i: usize = 0;
        while i < files.len()
            invariant
                i <= files@.len(),
                n == old_tasks.len(),
                fs == str_views(files@),
                self.tasks@.len() == n + i,
                self.tasks@.subrange(0, n) == old_tasks,
                str_views(self.notices@).len() == old_notices.len() + i,
                str_views(self.notices@).subrange(0, old_notices.len() as int) == old_notices,
                forall|j: int|
                    0 <= j < i ==> (#[trigger] self.tasks@[n + j] matches Task::MarkPublishedTask(m)
                        && m.source_path@ == fs[j] && m.date_slug@ == date_slug@),
                forall|j: int|
                    0 <= j < i ==> #[trigger] str_views(self.notices@)[old_notices.len() + j]
                        == adding_notice(self.tasks@[n + j]),
                image_sources_distinct(old_tasks) ==> image_sources_distinct(self.tasks@),
            decreases files@.len() - i,
        {
            let ghost before_tasks = self.tasks@;
            let ghost before_notices = str_views(self.notices@);
            let task = MarkPublishedTask::new(files[i].clone(), owned(date_slug));
            self.add(Task::MarkPublishedTask(task));
            assert(self.tasks@ == before_tasks.push(Task::MarkPublishedTask(task)));
            proof {
                assert(self.tasks@.subrange(0, n) =~= before_tasks.subrange(0, n));
                assert(str_views(self.notices@).subrange(0, old_notices.len() as int) =~= before_notices.subrange(
                    0,
                    old_notices.len() as int,
                ));
                assert forall|j: int|
                    0 <= j < i + 1 implies (#[trigger] self.tasks@[n + j] matches Task::MarkPublishedTask(m)
                    && m.source_path@ == fs[j] && m.date_slug@ == date_slug@) by {
                    if j < i {
                        assert(self.tasks@[n + j] == before_tasks[n + j]);
                    }
                }
                assert forall|j: int|
                    0 <= j < i + 1 implies #[trigger] str_views(self.notices@)[old_notices.len() + j]
                    == adding_notice(self.tasks@[n + j]) by {
                    if j < i {
                        assert(str_views(self.notices@)[old_notices.len() + j] == before_notices[old_notices.len() + j]);
                        assert(self.tasks@[n + j] == before_tasks[n + j]);
                    }
                }
                if image_sources_distinct(old_tasks) {
                    assert forall|j: int, m: int|
                        0 <= j < m < self.tasks@.len() && self.tasks@[j] is ImageTask implies !is_image_from(
                        #[trigger] self.tasks@[m],
                        (#[trigger] self.tasks@[j])->ImageTask_0.source_file@,
                    ) by {
                        if m < before_tasks.len() {
                            assert(self.tasks@[j] == before_tasks[j]);
                            assert(self.tasks@[m] == before_tasks[m]);
                        }
                    }
                }
            }
            i = i + 1;
        }
    }
}

/// Whether one of the first `k` tasks produces the file `p`.
fn produced_by_earlier(tasks: &Vec<Task>, k: usize, p: &str) -> (r: bool)
    requires
        k <= tasks@.len(),
    ensures
        r == produced_before(tasks@, k as int, p@),
{
    let mut j: usize = 0;
    while j < k
        invariant
            j <= k <= tasks@.len(),
            forall|m: int|
                0 <= m < j ==> !(#[trigger] tasks@[m] matches Task::ImageTask(i) && same_path(
                    i.target_file@,
                    p@,
                )),
        decreases k - j,
    {
        match &tasks[j] {
            Task::ImageTask(t) => {
                if paths_equal(t.target_file.as_str(), p) {
                    assert(tasks@[j as int] matches Task::ImageTask(i) && same_path(
                        i.target_file@,
                        p@,
                    ));
                    return true;
                }
            },
            _ => {},
        }
        j = j + 1;
    }
    false
}

/// Whether `list` holds the path `p`, compared component by component.
fn path_listed(list: &Vec<String>, p: &str) -> (r: bool)
    ensures
        r == lists_path(str_views(list@), p@),
{
    let mut i: usize = 0;
    while i < list.len()
        invariant
            i <= list@.len(),
            forall|j: int| 0 <= j < i ==> !same_path(#[trigger] str_views(list@)[j], p@),
        decreases list@.len() - i,
    {
        if paths_equal(list[i].as_str(), p) {
            assert(same_path(str_views(list@)[i as int], p@));
            return true;
        }
        i = i + 1;
    }
    false
}

/// Whether two resize settings are the same.
fn same_resize(a: &Option<(ImageSize, ImageFormat)>, b: &Option<(ImageSize, ImageFormat)>) -> (r: bool)
    ensures
        r == (*a == *b),
{
    match (a, b) {
        (None, None) => true,
        (Some((sa, fa)), Some((sb, fb))) => *sa == *sb && *fa == *fb,
        _ => false,
    }
}

/// The files to mark depend only on the tasks they are read from.
pub proof fn lemma_files_to_mark_prefix(draft: Seq<char>, t1: Seq<Task>, t2: Seq<Task>, n: int)
    requires
        0 <= n <= t1.len(),
        n <= t2.len(),
        forall|k: int| 0 <= k < n ==> t1[k] == t2[k],
    ensures
        files_to_mark(draft, t1, n) == files_to_mark(draft, t2, n),
    decreases n,
{
    if n > 0 {
        lemma_files_to_mark_prefix(draft, t1, t2, n - 1);
        assert(t1[n - 1] == t2[n - 1]);
        if t1[n - 1] is ImageTask {
            let src = t1[n - 1]->ImageTask_0.source_file@;
            assert(produced_before(t1, n - 1, src) == produced_before(t2, n - 1, src)) by {
                if produced_before(t1, n - 1, src) {
                    let j = choose|j: int|
                        0 <= j < n - 1 && (#[trigger] t1[j] matches Task::ImageTask(i) && same_path(
                            i.target_file@,
                            src,
                        ));
                    assert(t2[j] == t1[j]);
                }
                if produced_before(t2, n - 1, src) {
                    let j = choose|j: int|
                        0 <= j < n - 1 && (#[trigger] t2[j] matches Task::ImageTask(i) && same_path(
                            i.target_file@,
                            src,
                        ));
                    assert(t2[j] == t1[j]);
                }
            }
        }
    }
}

/// The files marked as published are all different paths, the draft comes
/// first, the source of every image task that reads an original is among them,
/// and every other one is such a source: no file that an image task produces
/// (such as the image a thumbnail is made from) is marked.
pub proof fn lemma_files_to_mark(draft: Seq<char>, tasks: Seq<Task>, n: int)
    requires
        0 <= n <= tasks.len(),
    ensures
        files_to_mark(draft, tasks, n)[0] == draft,
        files_to_mark(draft, tasks, n).len() >= 1,
        forall|i: int, j: int|
            0 <= i < j < files_to_mark(draft, tasks, n).len() ==> !same_path(
                #[trigger] files_to_mark(draft, tasks, n)[i],
                #[trigger] files_to_mark(draft, tasks, n)[j],
            ),
        forall|k: int|
            0 <= k < n && (#[trigger] tasks[k]) is ImageTask && !produced_before(
                tasks,
                k,
                tasks[k]->ImageTask_0.source_file@,
            ) ==> lists_path(files_to_mark(draft, tasks, n), tasks[k]->ImageTask_0.source_file@),
        forall|w: int|
            1 <= w < files_to_mark(draft, tasks, n).len() ==> original_source(
                tasks,
                n,
                #[trigger] files_to_mark(draft, tasks, n)[w],
            ),
    decreases n,
{
    if n > 0 {
        lemma_files_to_mark(draft, tasks, n - 1);
        let prev = files_to_mark(draft, tasks, n - 1);
        let cur = files_to_mark(draft, tasks, n);
        assert forall|k: int|
            0 <= k < n && (#[trigger] tasks[k]) is ImageTask && !produced_before(
                tasks,
                k,
                tasks[k]->ImageTask_0.source_file@,
            ) implies lists_path(cur, tasks[k]->ImageTask_0.source_file@) by {
            let src = tasks[k]->ImageTask_0.source_file@;
            if k < n - 1 {
                let w = choose|w: int| 0 <= w < prev.len() && same_path(#[trigger] prev[w], src);
                assert(cur[w] == prev[w]);
            } else if !lists_path(prev, src) {
                assert(cur[prev.len() as int] == src);
                assert(same_path(cur[prev.len() as int], src));
            }
        }
        assert forall|i: int, j: int| 0 <= i < j < cur.len() implies !same_path(
            #[trigger] cur[i],
            #[trigger] cur[j],
        ) by {
            if j < prev.len() {
                assert(cur[i] == prev[i] && cur[j] == prev[j]);
            } else {
                assert(cur[i] == prev[i]);
                if same_path(prev[i], cur[j]) {
                    assert(same_path(prev[i], tasks[n - 1]->ImageTask_0.source_file@));
                }
            }
        }
        assert forall|w: int| 1 <= w < cur.len() implies original_source(
            tasks,
            n,
            #[trigger] cur[w],
        ) by {
            if w < prev.len() {
                assert(cur[w] == prev[w]);
                assert(original_source(tasks, n - 1, prev[w]));
                let k = choose|k: int|
                    0 <= k < n - 1 && (#[trigger] tasks[k] matches Task::ImageTask(i)
                        && i.source_file@ == prev[w] && !produced_before(tasks, k, prev[w]));
                assert(tasks[k] matches Task::ImageTask(i) && i.source_file@ == cur[w]
                    && !produced_before(tasks, k, cur[w]));
            } else {
                assert(tasks[n - 1] matches Task::ImageTask(i) && i.source_file@ == cur[w]
                    && !produced_before(tasks, n - 1, cur[w]));
            }
        }
    }
}

/// The resize box of an image command: in landscape the long side across and
/// the short side down, in portrait the short side across and the long side
/// down, for paper sizes and custom sizes alike (a custom size's two numbers
/// are its sides, not a width and a height). The command reads the source,
/// passes `-resize` and that box right after the watermark arguments, if any,
/// and writes the target last.
pub proof fn lemma_resize_box(
    watermark: Seq<char>,
    source: Seq<char>,
    target: Seq<char>,
    add_watermark: bool,
    size: ImageSize,
    format: ImageFormat,
)
    ensures
        ({
            let (across, down) = if format == ImageFormat::Landscape {
                (long_side(size), short_side(size))
            } else {
                (short_side(size), long_side(size))
            };
            let cmd = image_command(watermark, source, target, add_watermark, Some((size, format)));
            let k: int = if add_watermark {
                15
            } else {
                1
            };
            &&& cmd.0 == "magick"@
            &&& cmd.1.len() == k + 3
            &&& cmd.1[0] == source
            &&& cmd.1[k] == "-resize"@
            &&& cmd.1[k + 1] == decimal(across) + seq!['x'] + decimal(down) + seq!['>']
            &&& cmd.1[k + 2] == target
        }),
        size matches ImageSize::Custom(x, y) ==> ({
            let small: nat = if x <= y {
                x as nat
            } else {
                y as nat
            };
            let big: nat = if x <= y {
                y as nat
            } else {
                x as nat
            };
            &&& geometry(size, ImageFormat::Portrait) == decimal(small) + seq!['x'] + decimal(big)
                + seq!['>']
            &&& geometry(size, ImageFormat::Landscape) == decimal(big) + seq!['x'] + decimal(small)
                + seq!['>']
        }),
{
    let cmd = image_command(watermark, source, target, add_watermark, Some((size, format)));
    if add_watermark {
        assert(cmd.1 =~= watermark_args(source, watermark) + seq!["-resize"@, geometry(size, format), target]);
    }
}

} // verus!
