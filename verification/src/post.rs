//! A post: its front matter, read as YAML between two `---` lines at the top
//! of the file, and its body, the rest of the file.

use vstd::prelude::*;
use crate::text::{chars_of, push_str, string_of, sub_chars};
use crate::tasks::{value_debug, PropertyValue};

verus! {

/// Whether `c` ends a line: a line feed or a carriage return.
pub open spec fn is_line_break(c: char) -> bool {
    c == '\n' || c == '\r'
}

/// Whether the front matter may close at `e`: a line break followed by `---`.
pub open spec fn closes_at(s: Seq<char>, e: int) -> bool {
    0 <= e && e + 4 <= s.len() && is_line_break(s[e]) && s[e + 1] == '-' && s[e + 2] == '-' && s[e
        + 3] == '-'
}

/// The first index at or after `e` where the front matter may close (or the
/// length of `s`).
pub open spec fn first_close(s: Seq<char>, e: int) -> int
    decreases s.len() - e,
{
    if e >= s.len() {
        s.len() as int
    } else if closes_at(s, e) {
        e
    } else {
        first_close(s, e + 1)
    }
}

proof fn lemma_first_close(s: Seq<char>, e: int)
    requires
        0 <= e <= s.len(),
    ensures
        e <= first_close(s, e) <= s.len(),
        first_close(s, e) < s.len() ==> closes_at(s, first_close(s, e)),
        forall|j: int| e <= j < first_close(s, e) ==> !closes_at(s, j),
    decreases s.len() - e,
{
    if e < s.len() && !closes_at(s, e) {
        lemma_first_close(s, e + 1);
    }
}

/// Whether `s` opens with a front matter line: `---` and a line break.
pub open spec fn opens_front_matter(s: Seq<char>) -> bool {
    s.len() >= 4 && s[0] == '-' && s[1] == '-' && s[2] == '-' && is_line_break(s[3])
}

/// The front matter text and the body of a post file, as the pattern
/// `^(?:-{3}(?:\n|\r)([\w\W]+?)(?:\n|\r)-{3})?([\w\W]*)*` reads them: when the
/// file opens with `---` and a line break, the front matter is the shortest
/// non-empty text followed by a line break and `---`, and the body is what
/// comes after that `---`; otherwise there is no front matter and the body is
/// the whole file.
pub open spec fn post_parts(s: Seq<char>) -> (Option<Seq<char>>, Seq<char>) {
    if opens_front_matter(s) && first_close(s, 5) < s.len() {
        let e = first_close(s, 5);
        (Some(s.subrange(4, e)), s.subrange(e + 4, s.len() as int))
    } else {
        (None, s)
    }
}

/// Whether `text` is `---`, the line break `c1`, the front matter `f`, the
/// line break `c2`, `---` and the body `b`.
pub open spec fn framed(text: Seq<char>, c1: char, f: Seq<char>, c2: char, b: Seq<char>) -> bool {
    is_line_break(c1) && is_line_break(c2) && text == seq!['-', '-', '-', c1] + f + seq![
        c2,
        '-',
        '-',
        '-',
    ] + b
}

/// The two parts of a post file.
pub struct PostParts {
    /// The text of the front matter, if the file has one.
    pub front_matter: Option<String>,
    /// The rest of the file.
    pub body: String,
}

/// Splits the text of a post file into its front matter text and its body.
/// With a front matter, the file is `---`, a line break, the front matter, a
/// line break, `---` and the body; without one, the body is the whole file.
pub fn split_post(text: &str) -> (r: PostParts)
    ensures
        match post_parts(text@) {
            (Some(f), b) => r.front_matter matches Some(x) && x@ == f && r.body@ == b,
            (None, b) => r.front_matter is None && r.body@ == b,
        },
        match r.front_matter {
            Some(f) => exists|c1: char, c2: char| #[trigger] framed(text@, c1, f@, c2, r.body@),
            None => r.body@ == text@,
        },
{
    let s = chars_of(text);
    if s.len() >= 4 && s[0] == '-' && s[1] == '-' && s[2] == '-' && (s[3] == '\n' || s[3]
        == '\r') && s.len() > 5 {
        proof {
            lemma_first_close(s@, 5);
        }
        let mut e: usize = 5;
        while e < s.len() && !(s.len() - e >= 4 && (s[e] == '\n' || s[e] == '\r') && s[e + 1]
            == '-' && s[e + 2] == '-' && s[e + 3] == '-')
            invariant
                5 <= e <= s@.len(),
                first_close(s@, e as int) == first_close(s@, 5),
            decreases s@.len() - e,
        {
            e = e + 1;
        }
        if e < s.len() {
            let f = sub_chars(&s, 4, e);
            let b = sub_chars(&s, e + 4, s.len());
            let fs = string_of(&f);
            let bs = string_of(&b);
            proof {
                let c1 = s@[3];
                let c2 = s@[e as int];
                assert(s@ =~= seq!['-', '-', '-', c1] + fs@ + seq![c2, '-', '-', '-'] + bs@);
                assert(framed(text@, c1, fs@, c2, bs@));
            }
            let r = PostParts { front_matter: Some(fs), body: bs };
            proof {
                let c1 = s@[3];
                let c2 = s@[e as int];
                assert(r.front_matter matches Some(x) && framed(text@, c1, x@, c2, r.body@));
            }
            return r;
        }
    }
    proof {
        if opens_front_matter(s@) && s@.len() <= 5 {
            assert(first_close(s@, 5) == s@.len());
        }
    }
    PostParts { front_matter: None, body: string_of(&s) }
}

/// The text of a post file written from its front matter, already written as
/// YAML, and its body: `---`, a line break, the YAML, `---`, a line break and
/// the body.
pub fn post_file_text(yaml: &str, body: &str) -> (r: String)
    ensures
        r@ == "---\n"@ + yaml@ + "---\n"@ + body@,
{
    let mut out: Vec<char> = Vec::new();
    push_str(&mut out, "---\n");
    push_str(&mut out, yaml);
    push_str(&mut out, "---\n");
    push_str(&mut out, body);
    string_of(&out)
}

/// An item of a YAML sequence, as the checks of a post read it.
#[derive(Debug)]
pub struct YamlItem {
    /// Its text, when it is a string.
    pub text: Option<String>,
    /// How it is written for the user (its debugging form).
    pub debug: String,
}

/// What an item of a YAML sequence holds.
pub struct YamlItemView {
    pub text: Option<Seq<char>>,
    pub debug: Seq<char>,
}

impl View for YamlItem {
    type V = YamlItemView;

    open spec fn view(&self) -> YamlItemView {
        YamlItemView {
            text: match self.text {
                Some(t) => Some(t@),
                None => None,
            },
            debug: self.debug@,
        }
    }
}

/// The views of the items of a sequence.
pub open spec fn item_views(items: Seq<YamlItem>) -> Seq<YamlItemView> {
    items.map_values(|i: YamlItem| i@)
}

/// A value of the front matter, as the checks of a post read it.
#[derive(Debug)]
pub struct YamlField {
    /// Its text when it reads as a string; otherwise the message of the
    /// error of reading it as one.
    pub text: Result<String, String>,
    /// Its items, when it is a sequence.
    pub items: Option<Vec<YamlItem>>,
    /// How it is written for the user (its debugging form).
    pub debug: String,
}

/// What a value of the front matter holds.
pub struct YamlFieldView {
    pub text: Result<Seq<char>, Seq<char>>,
    pub items: Option<Seq<YamlItemView>>,
    pub debug: Seq<char>,
}

impl View for YamlField {
    type V = YamlFieldView;

    open spec fn view(&self) -> YamlFieldView {
        YamlFieldView {
            text: match self.text {
                Ok(t) => Ok(t@),
                Err(e) => Err(e@),
            },
            items: match self.items {
                Some(v) => Some(item_views(v@)),
                None => None,
            },
            debug: self.debug@,
        }
    }
}

/// An entry of a YAML mapping as it is read: its key when the key is a
/// string, and its value.
#[derive(Debug)]
pub struct YamlEntry {
    pub key: Option<String>,
    pub value: YamlField,
}

/// What an entry of a YAML mapping holds.
pub struct YamlEntryView {
    pub key: Option<Seq<char>>,
    pub value: YamlFieldView,
}

impl View for YamlEntry {
    type V = YamlEntryView;

    open spec fn view(&self) -> YamlEntryView {
        YamlEntryView {
            key: match self.key {
                Some(k) => Some(k@),
                None => None,
            },
            value: self.value@,
        }
    }
}

/// The views of the entries of a mapping.
pub open spec fn entry_views(entries: Seq<YamlEntry>) -> Seq<YamlEntryView> {
    entries.map_values(|e: YamlEntry| e@)
}

/// A property of the front matter whose name is a string.
#[derive(Debug)]
pub struct FrontMatterEntry {
    pub key: String,
    pub value: YamlField,
}

/// What a property of the front matter holds.
pub struct FrontMatterEntryView {
    pub key: Seq<char>,
    pub value: YamlFieldView,
}

impl View for FrontMatterEntry {
    type V = FrontMatterEntryView;

    open spec fn view(&self) -> FrontMatterEntryView {
        FrontMatterEntryView { key: self.key@, value: self.value@ }
    }
}

/// The front matter of a post: its properties whose names are strings, in
/// order.
#[derive(Debug)]
pub struct FrontMatter {
    pub entries: Vec<FrontMatterEntry>,
}

impl View for FrontMatter {
    type V = Seq<FrontMatterEntryView>;

    open spec fn view(&self) -> Seq<FrontMatterEntryView> {
        self.entries@.map_values(|e: FrontMatterEntry| e@)
    }
}

/// A post: its front matter and its body.
#[derive(Debug)]
pub struct Post {
    pub front_matter: FrontMatter,
    pub body: String,
}

/// What `serde_yaml::from_str::<Option<serde_yaml::Mapping>>(yaml)` reads:
/// the entries of the mapping (or none for a null document), each with its
/// key when that is a plain (untagged) string, the value read as a string (or
/// the message of that error), its items when it is a sequence, and the `{:?}`
/// forms; or the message of the error when `yaml` is not such a document.
pub uninterp spec fn yaml_front_matter(yaml: Seq<char>) -> Result<Option<Seq<YamlEntryView>>, Seq<char>>;

/// The YAML mapping of a front matter, kept so that it can be written back.
#[verifier::external_type_specification]
#[verifier::external_body]
pub struct ExMapping(serde_yaml::Mapping);

/// What a serde_yaml mapping holds, entry by entry in its order, each read
/// as `yaml_front_matter` reads the entries of a document.
pub uninterp spec fn mapping_entries(m: serde_yaml::Mapping) -> Seq<YamlEntryView>;

/// Reads the YAML text of a front matter with serde_yaml, as a mapping or
/// null, and converts each entry: its key when it is a `Value::String`, its
/// value read as a `String` (`serde_yaml::from_value`), its items
/// (`as_sequence`, each with `as_str`) and the `{:?}` forms of the values; the
/// mapping itself comes back too, holding those entries. What serde_yaml reads
/// from a text is only named (`yaml_front_matter`).
#[verifier::external_body]
fn read_front_matter(yaml: &str) -> (r: Result<Option<(Vec<YamlEntry>, serde_yaml::Mapping)>, String>)
    ensures
        match yaml_front_matter(yaml@) {
            Ok(Some(f)) => r matches Ok(Some(m)) && entry_views(m.0@) == f && mapping_entries(m.1)
                == f,
            Ok(None) => r matches Ok(None),
            Err(e) => r matches Err(m) && m@ == e,
        },
{
    let parsed = serde_yaml::from_str::<Option<serde_yaml::Mapping>>(yaml).map_err(|e| e.to_string())?;
    Ok(parsed.map(|m| (m.iter().map(|(k, v)| YamlEntry {
        key: match k { serde_yaml::Value::String(s) => Some(s.clone()), _ => None },
        value: YamlField {
            text: serde_yaml::from_value(v.clone()).map_err(|e| e.to_string()),
            items: v.as_sequence().map(|s| s.iter().map(|i| YamlItem { text: i.as_str().map(String::from), debug: format!("{:?}", i) }).collect()),
            debug: format!("{:?}", v),
        },
    }).collect(), m)))
}

/// An empty serde_yaml mapping (`Mapping::new`).
#[verifier::external_body]
fn new_mapping() -> (r: serde_yaml::Mapping)
    ensures
        mapping_entries(r) == Seq::<YamlEntryView>::empty(),
{
    serde_yaml::Mapping::new()
}

/// The index of the first entry of `entries` whose key is the string `key`.
pub open spec fn key_index(entries: Seq<YamlEntryView>, key: Seq<char>, i: int) -> Option<int>
    decreases entries.len() - i,
{
    if i < 0 || i >= entries.len() {
        None
    } else if entries[i].key == Some(key) {
        Some(i)
    } else {
        key_index(entries, key, i + 1)
    }
}

/// Whether `v` is what serde_yaml reads from the value `value` stands for: a
/// `Value::String`, read back as its text, or a `Value::Bool`, which does not
/// read as a string; neither is a sequence, and its `{:?}` form is
/// `value_debug`.
pub open spec fn holds_value(v: YamlFieldView, value: PropertyValue) -> bool {
    &&& v.items is None
    &&& v.debug == value_debug(value)
    &&& match value {
        PropertyValue::Text(s) => v.text == Ok::<Seq<char>, Seq<char>>(s@),
        PropertyValue::Bool(_) => v.text is Err,
    }
}

/// Whether `after` is `before` with the string key `name` set to `value`: the
/// entry with that key gets the new value in its place, or, when there is
/// none, a new entry comes last.
pub open spec fn property_set(
    before: Seq<YamlEntryView>,
    after: Seq<YamlEntryView>,
    name: Seq<char>,
    value: PropertyValue,
) -> bool {
    match key_index(before, name, 0) {
        Some(i) => {
            &&& after.len() == before.len()
            &&& forall|j: int| 0 <= j < before.len() && j != i ==> #[trigger] after[j] == before[j]
            &&& after[i].key == Some(name)
            &&& holds_value(after[i].value, value)
        },
        None => {
            &&& after.len() == before.len() + 1
            &&& after.subrange(0, before.len() as int) == before
            &&& after.last().key == Some(name)
            &&& holds_value(after.last().value, value)
        },
    }
}

/// `Mapping::insert` with the key `Value::String(name)` and the value that
/// `value` stands for (`Value::String` or `Value::Bool`). The mapping keeps
/// its keys unique and in order, so the entry with that key, if any, takes
/// the new value in place; otherwise the entry is added last. What the new
/// value reads as is stated except the message of reading a boolean as a
/// string, which is left open.
#[verifier::external_body]
fn insert_property(m: &mut serde_yaml::Mapping, name: &str, value: &PropertyValue)
    ensures
        property_set(mapping_entries(*old(m)), mapping_entries(*final(m)), name@, *value),
{
    let v = match value {
        PropertyValue::Text(s) => serde_yaml::Value::String(s.clone()),
        PropertyValue::Bool(b) => serde_yaml::Value::Bool(*b),
    };
    m.insert(serde_yaml::Value::String(name.to_owned()), v);
}

/// `serde_yaml::to_string` of the mapping. What it writes depends on the whole
/// YAML values, not only on what the library reads of them, so nothing is
/// stated of the text.
#[verifier::external_body]
fn write_mapping(m: &serde_yaml::Mapping) -> (r: Result<String, String>)
{
    serde_yaml::to_string(m).map_err(|e| e.to_string())
}

/// The properties among `entries` whose names are strings, in order.
pub open spec fn string_entries(entries: Seq<YamlEntryView>) -> Seq<FrontMatterEntryView>
    decreases entries.len(),
{
    if entries.len() == 0 {
        Seq::empty()
    } else {
        let rest = string_entries(entries.drop_first());
        match entries[0].key {
            Some(k) => seq![FrontMatterEntryView { key: k, value: entries[0].value }] + rest,
            None => rest,
        }
    }
}

/// The front matter that a read YAML document gives: no property for a null
/// document, otherwise its properties whose names are strings.
pub open spec fn front_matter_from(parsed: Result<Option<Seq<YamlEntryView>>, Seq<char>>) -> Result<
    Seq<FrontMatterEntryView>,
    Seq<char>,
> {
    match parsed {
        Ok(Some(entries)) => Ok(string_entries(entries)),
        Ok(None) => Ok(Seq::empty()),
        Err(e) => Err(e),
    }
}

/// The front matter of a post file's text: none when the file has no front
/// matter, otherwise what its YAML text gives.
pub open spec fn post_front_matter(text: Seq<char>) -> Result<Seq<FrontMatterEntryView>, Seq<char>> {
    match post_parts(text).0 {
        Some(yaml) => front_matter_from(yaml_front_matter(yaml)),
        None => Ok(Seq::empty()),
    }
}

/// The front matter that a read YAML document gives: an error stays an error,
/// a null document gives no property, and otherwise only the entries whose
/// keys are strings are kept, in order.
pub fn front_matter_of(parsed: Result<Option<Vec<YamlEntry>>, String>) -> (r: Result<FrontMatter, String>)
    ensures
        match front_matter_from(
            match parsed {
                Ok(Some(m)) => Ok(Some(entry_views(m@))),
                Ok(None) => Ok(None),
                Err(e) => Err(e@),
            },
        ) {
            Ok(f) => r matches Ok(m) && m@ == f,
            Err(e) => r matches Err(m) && m@ == e,
        },
{
    match parsed {
        Err(e) => Err(e),
        Ok(None) => {
            let fm = FrontMatter { entries: Vec::new() };
            assert(fm@ =~= Seq::<FrontMatterEntryView>::empty());
            Ok(fm)
        },
        Ok(Some(mut m)) => {
            let ghost all = entry_views(m@);
            let mut kept: Vec<FrontMatterEntry> = Vec::new();
            let mut rest: Vec<YamlEntry> = Vec::new();
            // Take the entries out from the back, so that they come back in order.
            while m.len() > 0
                invariant
                    entry_views(m@) + entry_views(rest@).reverse() == all,
                decreases m@.len(),
            {
                let ghost before = m@;
                let ghost rb = rest@;
                let e = m.pop().unwrap();
                proof {
                    assert(before =~= m@.push(e));
                    assert(entry_views(before) =~= entry_views(m@).push(e@));
                    assert(entry_views(rb.push(e)).reverse() =~= seq![e@] + entry_views(rb).reverse());
                }
                rest.push(e);
            }
            assert(entry_views(rest@).reverse() == all);
            while rest.len() > 0
                invariant
                    kept@.map_values(|e: FrontMatterEntry| e@) + string_entries(
                        entry_views(rest@).reverse(),
                    ) == string_entries(all),
                decreases rest@.len(),
            {
                let ghost rb = rest@;
                let e = rest.pop().unwrap();
                let ghost kb = kept@;
                proof {
                    assert(rb =~= rest@.push(e));
                    let tail = entry_views(rest@).reverse();
                    assert(entry_views(rb).reverse() =~= seq![e@] + tail);
                    assert((seq![e@] + tail).drop_first() =~= tail);
                }
                match e.key {
                    Some(k) => {
                        kept.push(FrontMatterEntry { key: k, value: e.value });
                        proof {
                            let tail = entry_views(rest@).reverse();
                            let x = kept@.last()@;
                            assert(kept@.map_values(|e: FrontMatterEntry| e@) =~= kb.map_values(
                                |e: FrontMatterEntry| e@,
                            ).push(x));
                            assert(kb.map_values(|e: FrontMatterEntry| e@).push(x) + string_entries(tail)
                                =~= kb.map_values(|e: FrontMatterEntry| e@) + (seq![x] + string_entries(tail)));
                        }
                    },
                    None => {},
                }
            }
            assert(entry_views(rest@).reverse() =~= Seq::<YamlEntryView>::empty());
            let fm = FrontMatter { entries: kept };
            assert(fm@ =~= string_entries(all));
            Ok(fm)
        },
    }
}

/// A post read from its file: the post, and the YAML mapping of its front
/// matter (none when the file has none or it is null), kept to be written
/// back.
pub struct LoadedPost {
    pub post: Post,
    pub yaml: Option<serde_yaml::Mapping>,
}

/// What the YAML mapping of a loaded post holds: nothing when it has none.
pub open spec fn yaml_entries(yaml: Option<serde_yaml::Mapping>) -> Seq<YamlEntryView> {
    match yaml {
        Some(m) => mapping_entries(m),
        None => Seq::empty(),
    }
}

/// Reads a post file's text: its front matter, as the YAML between its `---`
/// lines gives it (none when there are no such lines), and its body. The
/// error is that of reading the YAML. The YAML mapping is kept when the front
/// matter reads as one, holding every entry read.
pub fn load_post_text(text: &str) -> (r: Result<LoadedPost, String>)
    ensures
        match post_front_matter(text@) {
            Ok(f) => r matches Ok(p) && p.post.front_matter@ == f && p.post.body@ == post_parts(
                text@,
            ).1,
            Err(e) => r matches Err(m) && m@ == e,
        },
        r matches Ok(p) ==> match post_parts(text@).0 {
            Some(y) => match yaml_front_matter(y) {
                Ok(Some(f)) => p.yaml matches Some(m) && mapping_entries(m) == f,
                _ => p.yaml is None,
            },
            None => p.yaml is None,
        },
{
    let parts = split_post(text);
    let (parsed, yaml) = match &parts.front_matter {
        Some(y) => match read_front_matter(y.as_str()) {
            Ok(Some((entries, mapping))) => (Ok(Some(entries)), Some(mapping)),
            Ok(None) => (Ok(None), None),
            Err(e) => (Err(e), None),
        },
        None => (Ok(None), None),
    };
    match front_matter_of(parsed) {
        Ok(front_matter) => Ok(LoadedPost { post: Post { front_matter, body: parts.body }, yaml }),
        Err(e) => Err(e),
    }
}

impl LoadedPost {
    /// Sets the property `name` of the front matter to `value` in the YAML
    /// mapping to be written back (an empty one when the post had none); the
    /// post is left as it is.
    pub fn set_property(&mut self, name: &str, value: &PropertyValue)
        ensures
            final(self).yaml is Some,
            property_set(yaml_entries(old(self).yaml), yaml_entries(final(self).yaml), name@, *value),
            final(self).post == old(self).post,
    {
        let mut m = match self.yaml.take() {
            Some(m) => m,
            None => new_mapping(),
        };
        insert_property(&mut m, name, value);
        self.yaml = Some(m);
    }

    /// The text of the post's file: `---`, a line break, its front matter as
    /// serde_yaml writes the YAML mapping (an empty one when the post has
    /// none), `---`, a line break and the body; or the error of writing the
    /// YAML.
    pub fn file_text(&self) -> (r: Result<String, String>)
        ensures
            r matches Ok(t) ==> exists|y: Seq<char>|
                t@ == "---\n"@ + y + "---\n"@ + self.post.body@,
    {
        let written = match &self.yaml {
            Some(m) => write_mapping(m),
            None => write_mapping(&new_mapping()),
        };
        match written {
            Ok(y) => {
                let t = post_file_text(y.as_str(), self.post.body.as_str());
                assert(t@ == "---\n"@ + y@ + "---\n"@ + self.post.body@);
                Ok(t)
            },
            Err(e) => Err(e),
        }
    }
}

/// The index of the first entry of `entries` from `i` on named `key`, if any.
pub open spec fn entry_index(entries: Seq<FrontMatterEntry>, key: Seq<char>, i: int) -> Option<int>
    decreases entries.len() - i,
{
    if i < 0 || i >= entries.len() {
        None
    } else if entries[i].key@ == key {
        Some(i)
    } else {
        entry_index(entries, key, i + 1)
    }
}

/// The value of the property `key`, if the front matter sets it.
pub open spec fn property(fm: FrontMatter, key: Seq<char>) -> Option<YamlField> {
    match entry_index(fm.entries@, key, 0) {
        Some(i) => Some(fm.entries@[i].value),
        None => None,
    }
}

impl FrontMatter {
    /// The value of the property `key`, if the front matter sets it.
    pub fn get(&self, key: &str) -> (r: Option<&YamlField>)
        ensures
            match property(*self, key@) {
                Some(v) => r == Some(&v),
                None => r is None,
            },
    {
        let mut i: usize = 0;
        while i < self.entries.len()
            invariant
                i <= self.entries@.len(),
                entry_index(self.entries@, key@, 0) == entry_index(self.entries@, key@, i as int),
            decreases self.entries@.len() - i,
        {
            if crate::text::str_eq(self.entries[i].key.as_str(), key) {
                return Some(&self.entries[i].value);
            }
            i = i + 1;
        }
        None
    }
}

/// Reading back a written post: when the front matter is written as the
/// non-empty YAML text `y` followed by a line break (as serde_yaml ends its
/// output), and no line break inside `y` is followed by `---`, the file that
/// `post_file_text` writes splits into the front matter `y` and the body,
/// which gains the line break that ended the closing `---` line.
pub proof fn lemma_read_written_post(y: Seq<char>, body: Seq<char>)
    requires
        y.len() >= 1,
        forall|i: int| 1 <= i < y.len() ==> !closes_at(y + "\n---"@, i),
    ensures
        post_parts("---\n"@ + y.push('\n') + "---\n"@ + body) == (
            Some(y),
            seq!['\n'] + body,
        ),
{
    reveal_strlit("---\n");
    reveal_strlit("\n---");
    let s = "---\n"@ + y.push('\n') + "---\n"@ + body;
    let t = y + "\n---"@;
    let e: int = y.len() + 4int;
    assert forall|j: int| 0 <= j < t.len() implies s[4 + j] == #[trigger] t[j] by {}
    assert(closes_at(s, e));
    assert forall|j: int| 5 <= j < e implies !closes_at(s, j) by {
        assert(!closes_at(t, j - 4));
        if closes_at(s, j) {
            assert(s[j] == t[j - 4]);
            assert(s[j + 1] == t[j - 3]);
            assert(s[j + 2] == t[j - 2]);
            assert(s[j + 3] == t[j - 1]);
        }
    }
    lemma_first_close(s, 5);
    assert(first_close(s, 5) == e);
    assert(s.subrange(4, e) =~= y);
    assert(s.subrange(e + 4, s.len() as int) =~= seq!['\n'] + body);
}

} // verus!
