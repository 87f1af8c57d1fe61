//! The folders and scripts of the site, and the file names and paths the
//! publishing reads and writes (Unix paths, `/` separating components).

use vstd::prelude::*;
use crate::text::{
    char_index, chars_eq, chars_eq_str, chars_of, find_char, lemma_char_index, push_chars, push_str,
    string_of, sub_chars,
};
use crate::console::owned;

verus! {

/// `base` joined with `part`, as `Path::join` does on Unix: an absolute `part`
/// replaces `base`; otherwise a `/` is put between them unless `base` is empty
/// or already ends with one.
pub open spec fn join_path(base: Seq<char>, part: Seq<char>) -> Seq<char> {
    if part.len() > 0 && part[0] == '/' {
        part
    } else if base.len() == 0 || base.last() == '/' {
        base + part
    } else {
        base + seq!['/'] + part
    }
}

/// Joins `part` to the path `base`.
pub fn join(base: &str, part: &str) -> (r: String)
    ensures
        r@ == join_path(base@, part@),
{
    let b = chars_of(base);
    let p = chars_of(part);
    if p.len() > 0 && p[0] == '/' {
        return string_of(&p);
    }
    let mut out = b;
    if out.len() > 0 && out[out.len() - 1] != '/' {
        out.push('/');
    }
    push_chars(&mut out, &p);
    assert(out@ =~= join_path(base@, part@));
    string_of(&out)
}

/// The names between the `/` separators of `p` from index `i` on, leaving out
/// empty names and `.`.
pub open spec fn path_parts(p: Seq<char>, i: int) -> Seq<Seq<char>>
    decreases p.len() - i,
{
    if i < 0 || i >= p.len() {
        Seq::empty()
    } else {
        let j = char_index(p, '/', i);
        proof {
            lemma_char_index(p, '/', i);
        }
        let part = p.subrange(i, j);
        let rest = if j < p.len() {
            path_parts(p, j + 1)
        } else {
            Seq::empty()
        };
        if part.len() == 0 || part == seq!['.'] {
            rest
        } else {
            seq![part] + rest
        }
    }
}

/// The components of a path, as `Path::components` gives them on Unix: `/`
/// for the root, `.` for a current folder at the start of a relative path,
/// then the names (`..` standing for a parent folder); empty names and any
/// other `.` are left out.
pub open spec fn path_components(p: Seq<char>) -> Seq<Seq<char>> {
    let head = if p.len() > 0 && p[0] == '/' {
        seq![seq!['/']]
    } else if p.len() > 0 && p[0] == '.' && (p.len() == 1 || p[1] == '/') {
        seq![seq!['.']]
    } else {
        Seq::empty()
    };
    head + path_parts(p, 0)
}

/// Whether two paths are the same path, as `Path` compares them: component by
/// component.
pub open spec fn same_path(a: Seq<char>, b: Seq<char>) -> bool {
    path_components(a) == path_components(b)
}

/// The texts held by a list of character vectors.
pub open spec fn char_views(v: Seq<Vec<char>>) -> Seq<Seq<char>> {
    v.map_values(|x: Vec<char>| x@)
}

fn components_of(p: &str) -> (r: Vec<Vec<char>>)
    ensures
        char_views(r@) == path_components(p@),
{
    let s = chars_of(p);
    let mut out: Vec<Vec<char>> = Vec::new();
    if s.len() > 0 && s[0] == '/' {
        let mut root: Vec<char> = Vec::new();
        root.push('/');
        out.push(root);
    } else if s.len() > 0 && s[0] == '.' && (s.len() == 1 || s[1] == '/') {
        let mut here: Vec<char> = Vec::new();
        here.push('.');
        out.push(here);
    }
    proof {
        assert(char_views(out@) + path_parts(s@, 0) =~= path_components(p@));
    }
    let mut i: usize = 0;
    while i < s.len()
        invariant
            i <= s@.len(),
            s@ == p@,
            char_views(out@) + path_parts(s@, i as int) == path_components(p@),
        decreases s@.len() - i,
    {
        let ghost before = char_views(out@);
        let j = find_char(&s, '/', i);
        let part = sub_chars(&s, i, j);
        let keep = !(part.len() == 0 || (part.len() == 1 && part[0] == '.'));
        proof {
            if part@.len() == 1 && part@[0] == '.' {
                assert(part@ =~= seq!['.']);
            }
        }
        if keep {
            out.push(part);
        }
        proof {
            let rest = if j < s@.len() {
                path_parts(s@, j + 1)
            } else {
                Seq::empty()
            };
            if keep {
                assert(char_views(out@) =~= before.push(part@));
                assert(before.push(part@) + rest =~= before + (seq![part@] + rest));
            } else {
                assert(char_views(out@) =~= before);
            }
        }
        if j >= s.len() {
            i = s.len();
            assert(path_parts(s@, i as int) =~= Seq::<Seq<char>>::empty());
        } else {
            i = j + 1;
        }
    }
    out
}

/// Whether the paths `a` and `b` are the same path, compared component by
/// component.
pub fn paths_equal(a: &str, b: &str) -> (r: bool)
    ensures
        r == same_path(a@, b@),
{
    let x = components_of(a);
    let y = components_of(b);
    if x.len() != y.len() {
        assert(char_views(x@).len() != char_views(y@).len());
        return false;
    }
    let mut i: usize = 0;
    while i < x.len()
        invariant
            x@.len() == y@.len(),
            i <= x@.len(),
            char_views(x@) == path_components(a@),
            char_views(y@) == path_components(b@),
            forall|k: int| 0 <= k < i ==> (#[trigger] x@[k])@ == y@[k]@,
        decreases x@.len() - i,
    {
        if !chars_eq(&x[i], &y[i]) {
            assert(char_views(x@)[i as int] != char_views(y@)[i as int]);
            return false;
        }
        i = i + 1;
    }
    assert(char_views(x@) =~= char_views(y@));
    true
}

/// The index of the last `c` in `s` before index `i`, if any.
pub open spec fn last_index_before(s: Seq<char>, c: char, i: int) -> Option<int>
    decreases i,
{
    if i <= 0 || i > s.len() {
        None
    } else if s[i - 1] == c {
        Some(i - 1)
    } else {
        last_index_before(s, c, i - 1)
    }
}

/// The index of the last `c` in `s`, if any.
pub open spec fn last_index(s: Seq<char>, c: char) -> Option<int> {
    last_index_before(s, c, s.len() as int)
}

proof fn lemma_last_index_before(s: Seq<char>, c: char, i: int)
    requires
        0 <= i <= s.len(),
    ensures
        last_index_before(s, c, i) matches Some(k) ==> 0 <= k < i && s[k] == c,
    decreases i,
{
    if i > 0 && s[i - 1] != c {
        lemma_last_index_before(s, c, i - 1);
    }
}

fn find_last(s: &Vec<char>, c: char) -> (r: Option<usize>)
    ensures
        match r {
            Some(k) => last_index(s@, c) == Some(k as int) && k < s@.len(),
            None => last_index(s@, c) is None,
        },
{
    proof {
        lemma_last_index_before(s@, c, s@.len() as int);
    }
    let mut i: usize = s.len();
    while i > 0 && s[i - 1] != c
        invariant
            i <= s@.len(),
            last_index_before(s@, c, i as int) == last_index(s@, c),
        decreases i,
    {
        i = i - 1;
    }
    if i == 0 {
        None
    } else {
        Some(i - 1)
    }
}

/// The stem and the extension of a file name, as `Path::file_stem` and
/// `Path::extension` give them: split at the last `.`, unless there is none or
/// the name only starts with it (then the whole name is the stem and there is
/// no extension).
pub open spec fn stem_and_extension(name: Seq<char>) -> (Seq<char>, Option<Seq<char>>) {
    if name == seq!['.', '.'] {
        (name, None)
    } else {
        match last_index(name, '.') {
            Some(k) => if k == 0 {
                (name, None)
            } else {
                (name.subrange(0, k), Some(name.subrange(k + 1, name.len() as int)))
            },
            None => (name, None),
        }
    }
}

/// The stem and the extension of the file name `name`.
pub fn file_stem_and_extension(name: &Vec<char>) -> (r: (Vec<char>, Option<Vec<char>>))
    ensures
        r.0@ == stem_and_extension(name@).0,
        match stem_and_extension(name@).1 {
            Some(e) => r.1 matches Some(x) && x@ == e,
            None => r.1 is None,
        },
{
    if name.len() == 2 && name[0] == '.' && name[1] == '.' {
        assert(name@ =~= seq!['.', '.']);
        return (sub_chars(name, 0, name.len()), None);
    }
    assert(name@ != seq!['.', '.']);
    match find_last(name, '.') {
        Some(k) => {
            if k == 0 {
                (sub_chars(name, 0, name.len()), None)
            } else {
                (sub_chars(name, 0, k), Some(sub_chars(name, k + 1, name.len())))
            }
        },
        None => (sub_chars(name, 0, name.len()), None),
    }
}

/// The name of the last component of a path: what follows its last `/`.
pub open spec fn file_name_of(path: Seq<char>) -> Seq<char> {
    match last_index(path, '/') {
        Some(k) => path.subrange(k + 1, path.len() as int),
        None => path,
    }
}

/// The folder part of a path: up to and including its last `/`.
pub open spec fn folder_of(path: Seq<char>) -> Seq<char> {
    match last_index(path, '/') {
        Some(k) => path.subrange(0, k + 1),
        None => Seq::empty(),
    }
}

/// `path` without what `Path` ignores at its end: trailing `/` separators and
/// trailing `.` components.
pub open spec fn strip_trailing(path: Seq<char>) -> Seq<char>
    decreases path.len(),
{
    if path.len() > 0 && path.last() == '/' {
        strip_trailing(path.drop_last())
    } else if path.len() >= 2 && path.last() == '.' && path[path.len() - 2] == '/' {
        strip_trailing(path.drop_last())
    } else {
        path
    }
}

/// Whether `path` has a file name, as `Path::file_name` finds one: its last
/// component, once trailing separators and `.` components are ignored, is
/// neither empty (a root or an empty path), nor `.`, nor `..`.
pub open spec fn has_file_name(path: Seq<char>) -> bool {
    let name = file_name_of(strip_trailing(path));
    name.len() > 0 && name != seq!['.'] && name != seq!['.', '.']
}

/// The file name `name` once published on `date_slug`: its stem, then the new
/// extension `<old extension>.<date_slug>.published` (or
/// `<date_slug>.published` when it had none).
pub open spec fn published_name(name: Seq<char>, date_slug: Seq<char>) -> Seq<char> {
    let (stem, ext) = stem_and_extension(name);
    match ext {
        Some(e) => stem + seq!['.'] + e + seq!['.'] + date_slug + ".published"@,
        None => stem + seq!['.'] + date_slug + ".published"@,
    }
}

/// The path a published source file is renamed to, as `Path::with_extension`
/// gives it with the new extension `<old extension>.<date_slug>.published`:
/// what follows the file stem is replaced. A path without a file name is left
/// as it is.
pub open spec fn published_path(path: Seq<char>, date_slug: Seq<char>) -> Seq<char> {
    if has_file_name(path) {
        let p = strip_trailing(path);
        folder_of(p) + published_name(file_name_of(p), date_slug)
    } else {
        path
    }
}

/// How long `s` is once what `Path` ignores at its end is left out.
fn stripped_len(s: &Vec<char>) -> (n: usize)
    ensures
        n <= s@.len(),
        s@.subrange(0, n as int) == strip_trailing(s@),
{
    let mut n = s.len();
    assert(s@.subrange(0, n as int) =~= s@);
    while n > 0 && (s[n - 1] == '/' || (n >= 2 && s[n - 1] == '.' && s[n - 2] == '/'))
        invariant
            n <= s@.len(),
            strip_trailing(s@.subrange(0, n as int)) == strip_trailing(s@),
        decreases n,
    {
        let ghost q = s@.subrange(0, n as int);
        assert(q.drop_last() =~= s@.subrange(0, n - 1));
        n = n - 1;
    }
    n
}

/// The published form of the file name `name`.
fn published_name_chars(name: &Vec<char>, date_slug: &str) -> (r: Vec<char>)
    ensures
        r@ == published_name(name@, date_slug@),
{
    let (stem, ext) = file_stem_and_extension(name);
    let mut out = stem;
    out.push('.');
    match ext {
        Some(e) => {
            push_chars(&mut out, &e);
            out.push('.');
        },
        None => {},
    }
    push_str(&mut out, date_slug);
    push_str(&mut out, ".published");
    assert(out@ =~= published_name(name@, date_slug@));
    out
}

/// The path that a source file marked as published on `date_slug` is renamed
/// to.
pub fn published_file_path(path: &str, date_slug: &str) -> (r: String)
    ensures
        r@ == published_path(path@, date_slug@),
{
    let all = chars_of(path);
    let n = stripped_len(&all);
    let p = sub_chars(&all, 0, n);
    let (folder, name) = match find_last(&p, '/') {
        Some(k) => (sub_chars(&p, 0, k + 1), sub_chars(&p, k + 1, n)),
        None => (Vec::new(), sub_chars(&p, 0, n)),
    };
    assert(p@.subrange(0, n as int) =~= p@);
    assert(folder@ == folder_of(p@));
    assert(name@ == file_name_of(p@));
    let dot = name.len() == 1 && name[0] == '.';
    let dots = name.len() == 2 && name[0] == '.' && name[1] == '.';
    proof {
        if name@.len() == 1 && name@[0] == '.' {
            assert(name@ =~= seq!['.']);
        }
        if name@.len() == 2 && name@[0] == '.' && name@[1] == '.' {
            assert(name@ =~= seq!['.', '.']);
        }
    }
    if name.len() == 0 || dot || dots {
        return string_of(&all);
    }
    let mut out = folder;
    let published = published_name_chars(&name, date_slug);
    push_chars(&mut out, &published);
    string_of(&out)
}

/// A draft that can be published: its file name and its path.
#[derive(Debug)]
pub struct FileChoice {
    pub name: String,
    pub entry: String,
}

impl FileChoice {
    /// The text that offers the draft: its file name.
    pub fn to_string(&self) -> (r: String)
        ensures
            r@ == self.name@,
    {
        self.name.clone()
    }

    /// The title a post gets when its front matter has none: the stem of the
    /// draft's file name.
    pub fn default_title(&self) -> (r: String)
        ensures
            r@ == stem_and_extension(self.name@).0,
    {
        let n = chars_of(self.name.as_str());
        let (stem, _) = file_stem_and_extension(&n);
        string_of(&stem)
    }
}

/// Whether the file name `name` has the extension `md`.
pub open spec fn is_markdown(name: Seq<char>) -> bool {
    stem_and_extension(name).1 == Some("md"@)
}

fn markdown_stem(name: &str) -> (r: Option<Vec<char>>)
    ensures
        is_markdown(name@) ==> (r matches Some(s) && s@ == stem_and_extension(name@).0),
        !is_markdown(name@) ==> r is None,
{
    let n = chars_of(name);
    let (stem, ext) = file_stem_and_extension(&n);
    match ext {
        Some(e) => {
            if chars_eq_str(&e, "md") {
                Some(stem)
            } else {
                None
            }
        },
        None => None,
    }
}

/// The draft that the file `name` at `entry` in the drafts folder offers: a
/// file with the extension `md`.
pub fn draft_file_choice(name: &str, entry: &str) -> (r: Option<FileChoice>)
    ensures
        is_markdown(name@) ==> (r matches Some(c) && c.name@ == name@ && c.entry@ == entry@),
        !is_markdown(name@) ==> r is None,
{
    match markdown_stem(name) {
        Some(_) => Some(FileChoice { name: owned(name), entry: owned(entry) }),
        None => None,
    }
}

/// The category that the file `name` in the categories folder defines: the
/// stem of a file with the extension `md`, except `Uncategorized`.
pub fn category_name(name: &str) -> (r: Option<String>)
    ensures
        (is_markdown(name@) && stem_and_extension(name@).0 != "Uncategorized"@) ==> (r matches Some(
            c,
        ) && c@ == stem_and_extension(name@).0),
        !(is_markdown(name@) && stem_and_extension(name@).0 != "Uncategorized"@) ==> r is None,
{
    match markdown_stem(name) {
        Some(stem) => {
            if chars_eq_str(&stem, "Uncategorized") {
                None
            } else {
                Some(string_of(&stem))
            }
        },
        None => None,
    }
}

/// The series that the file `name` in the series folder defines: the stem of a
/// file with the extension `md`.
pub fn series_name(name: &str) -> (r: Option<String>)
    ensures
        is_markdown(name@) ==> (r matches Some(c) && c@ == stem_and_extension(name@).0),
        !is_markdown(name@) ==> r is None,
{
    match markdown_stem(name) {
        Some(stem) => Some(string_of(&stem)),
        None => None,
    }
}

/// The folders and scripts of the site, under its root folder.
#[derive(Debug)]
pub struct Environment {
    pub draft_folder: String,
    pub assets_folder: String,
    pub posts_folder: String,
    pub categories_folder: String,
    pub series_folder: String,
    pub categories_script: String,
    pub search_index_script: String,
}

impl Environment {
    /// The folders and scripts of the site whose root folder is `root`:
    /// `_drafts`, `assets`, `_posts`, `categories`, `series`, and the scripts
    /// `_tools/create_categories.js` and `_tools/create_search_index.js`.
    pub fn new(root: &str) -> (r: Environment)
        ensures
            r.draft_folder@ == join_path(root@, "_drafts"@),
            r.assets_folder@ == join_path(root@, "assets"@),
            r.posts_folder@ == join_path(root@, "_posts"@),
            r.categories_folder@ == join_path(root@, "categories"@),
            r.series_folder@ == join_path(root@, "series"@),
            r.categories_script@ == join_path(join_path(root@, "_tools"@), "create_categories.js"@),
            r.search_index_script@ == join_path(
                join_path(root@, "_tools"@),
                "create_search_index.js"@,
            ),
    {
        let tools = join(root, "_tools");
        Environment {
            draft_folder: join(root, "_drafts"),
            assets_folder: join(root, "assets"),
            posts_folder: join(root, "_posts"),
            categories_folder: join(root, "categories"),
            series_folder: join(root, "series"),
            categories_script: join(tools.as_str(), "create_categories.js"),
            search_index_script: join(tools.as_str(), "create_search_index.js"),
        }
    }

    /// The path of the image `filename` in the drafts folder.
    pub fn get_original_image_filename(&self, filename: &str) -> (r: String)
        ensures
            r@ == join_path(self.draft_folder@, filename@),
    {
        join(self.draft_folder.as_str(), filename)
    }

    /// The message when the image `filename` is not in the drafts folder.
    pub fn missing_image_message(filename: &str) -> (r: String)
        ensures
            r@ == "The image "@ + filename@ + " was not found. Please edit your post and try again."@,
    {
        let mut out: Vec<char> = Vec::new();
        push_str(&mut out, "The image ");
        push_str(&mut out, filename);
        push_str(&mut out, " was not found. Please edit your post and try again.");
        string_of(&out)
    }
}

} // verus!
