//! The image directives of a draft: `\drafting\image`, optionally followed by
//! spaces and attributes in square brackets, then optionally by spaces and an
//! alternative text in braces. This module finds them, left to right and
//! without overlap, and puts the text that replaces each in its place.

use vstd::prelude::*;
use crate::text::{
    char_index, chars_of, chars_occur_at, find_char, lemma_char_index, occurs_at, push_chars,
    string_of, sub_chars,
};

verus! {

/// The text that starts an image directive: `\drafting\image`.
pub open spec fn tag_literal() -> Seq<char> {
    seq!['\\', 'd', 'r', 'a', 'f', 't', 'i', 'n', 'g', '\\', 'i', 'm', 'a', 'g', 'e']
}

/// The index of the first character of `s` at or after `i` that is not a
/// space (or the length of `s`).
pub open spec fn space_run(s: Seq<char>, i: int) -> int
    decreases s.len() - i,
{
    if i >= s.len() {
        s.len() as int
    } else if i >= 0 && s[i] == ' ' {
        space_run(s, i + 1)
    } else {
        i
    }
}

/// The run of spaces from `i` ends within `s`, at a character that is not a
/// space.
pub proof fn lemma_space_run(s: Seq<char>, i: int)
    requires
        0 <= i <= s.len(),
    ensures
        i <= space_run(s, i) <= s.len(),
        space_run(s, i) < s.len() ==> s[space_run(s, i)] != ' ',
    decreases s.len() - i,
{
    if i < s.len() && s[i] == ' ' {
        lemma_space_run(s, i + 1);
    }
}

/// An image directive found in a text.
pub struct TagView {
    /// Where it starts (at the `\drafting\image` text).
    pub start: int,
    /// Where it ends (after its last character).
    pub end: int,
    /// The text between its square brackets, if it has them.
    pub attributes: Option<Seq<char>>,
    /// The text between its braces, if it has them.
    pub alt: Option<Seq<char>>,
}

/// The group `open ... close` starting at `i` in `s`, where the text inside
/// holds no `close`: its inside and the index after it, if there is one.
pub open spec fn bracketed(s: Seq<char>, i: int, open: char, close: char) -> Option<(Seq<char>, int)> {
    if 0 <= i < s.len() && s[i] == open && char_index(s, close, i + 1) < s.len() {
        Some((s.subrange(i + 1, char_index(s, close, i + 1)), char_index(s, close, i + 1) + 1))
    } else {
        None
    }
}

/// The directive that starts at `start`, where `\drafting\image` occurs. Each
/// optional part is taken when it is there, spaces before it included.
pub open spec fn tag_at(s: Seq<char>, start: int) -> TagView {
    let q = space_run(s, start + tag_literal().len());
    let (attributes, p) = match bracketed(s, q, '[', ']') {
        Some((inside, after)) => (Some(inside), after),
        None => (None, q),
    };
    let r = space_run(s, p);
    let (alt, end) = match bracketed(s, r, '{', '}') {
        Some((inside, after)) => (Some(inside), after),
        None => (None, r),
    };
    TagView { start, end, attributes, alt }
}

/// The first index at or after `i` where `\drafting\image` occurs (or the
/// length of `s`).
pub open spec fn next_literal(s: Seq<char>, i: int) -> int
    decreases s.len() - i,
{
    if i >= s.len() {
        s.len() as int
    } else if occurs_at(s, tag_literal(), i) {
        i
    } else {
        next_literal(s, i + 1)
    }
}

/// The next `\drafting\image` from `i` is found where it occurs, and none
/// occurs before it.
pub proof fn lemma_next_literal(s: Seq<char>, i: int)
    requires
        0 <= i <= s.len(),
    ensures
        i <= next_literal(s, i) <= s.len(),
        next_literal(s, i) < s.len() ==> occurs_at(s, tag_literal(), next_literal(s, i)),
        forall|j: int| i <= j < next_literal(s, i) ==> !occurs_at(s, tag_literal(), j),
    decreases s.len() - i,
{
    if i < s.len() && !occurs_at(s, tag_literal(), i) {
        lemma_next_literal(s, i + 1);
    }
}

/// A directive ends after its `\drafting\image` text and within `s`.
pub proof fn lemma_tag_at(s: Seq<char>, start: int)
    requires
        occurs_at(s, tag_literal(), start),
    ensures
        start + tag_literal().len() <= tag_at(s, start).end <= s.len(),
        tag_at(s, start).start == start,
{
    let q = space_run(s, start + tag_literal().len());
    lemma_space_run(s, start + tag_literal().len());
    if 0 <= q < s.len() && s[q] == '[' {
        lemma_char_index(s, ']', q + 1);
    }
    let p = match bracketed(s, q, '[', ']') {
        Some((inside, after)) => after,
        None => q,
    };
    lemma_space_run(s, p);
    let r = space_run(s, p);
    if 0 <= r < s.len() && s[r] == '{' {
        lemma_char_index(s, '}', r + 1);
    }
}

/// The directives of `s` from index `i` on: the leftmost one, then those after
/// it, never overlapping.
pub open spec fn scan_tags(s: Seq<char>, i: int) -> Seq<TagView>
    decreases s.len() - i,
{
    if i < 0 || i >= s.len() {
        Seq::empty()
    } else {
        let j = next_literal(s, i);
        if j >= s.len() {
            Seq::empty()
        } else {
            proof {
                lemma_next_literal(s, i);
                lemma_tag_at(s, j);
            }
            seq![tag_at(s, j)] + scan_tags(s, tag_at(s, j).end)
        }
    }
}

/// The directives of a text, as the pattern
/// `\\drafting\\image *(?:\[([^]]*)\])? *(?:\{([^\}]*)\})?` finds them, leftmost first.
pub open spec fn draft_image_tags(s: Seq<char>) -> Seq<TagView> {
    scan_tags(s, 0)
}

/// Whether `tags` lie in `s` in order, each within bounds and none overlapping
/// the next.
pub open spec fn tags_in_order(s: Seq<char>, tags: Seq<TagView>) -> bool {
    &&& forall|k: int| 0 <= k < tags.len() ==> 0 <= (#[trigger] tags[k]).start <= tags[k].end <= s.len()
    &&& forall|k: int| 0 <= k < tags.len() - 1 ==> (#[trigger] tags[k]).end <= tags[k + 1].start
}

/// A directive found in a text, with its place and parts.
#[derive(Debug)]
pub struct DraftImageTag {
    /// Where it starts, in characters.
    pub start: usize,
    /// Where it ends, in characters.
    pub end: usize,
    /// The text between its square brackets, if it has them.
    pub attributes: Option<String>,
    /// The text between its braces, if it has them.
    pub alt: Option<String>,
}

impl View for DraftImageTag {
    type V = TagView;

    open spec fn view(&self) -> TagView {
        TagView {
            start: self.start as int,
            end: self.end as int,
            attributes: match self.attributes {
                Some(a) => Some(a@),
                None => None,
            },
            alt: match self.alt {
                Some(a) => Some(a@),
                None => None,
            },
        }
    }
}

/// The views of the directives in `tags`.
pub open spec fn tag_views(tags: Seq<DraftImageTag>) -> Seq<TagView> {
    tags.map_values(|t: DraftImageTag| t@)
}

fn skip_spaces(s: &Vec<char>, i: usize) -> (r: usize)
    requires
        i <= s@.len(),
    ensures
        r as int == space_run(s@, i as int),
        i <= r <= s@.len(),
{
    proof {
        lemma_space_run(s@, i as int);
    }
    let mut k = i;
    while k < s.len() && s[k] == ' '
        invariant
            i <= k <= s@.len(),
            space_run(s@, k as int) == space_run(s@, i as int),
        decreases s@.len() - k,
    {
        k = k + 1;
    }
    k
}

fn read_bracketed(s: &Vec<char>, i: usize, open: char, close: char) -> (r: Option<(Vec<char>, usize)>)
    requires
        i <= s@.len(),
    ensures
        match bracketed(s@, i as int, open, close) {
            Some((inside, after)) => r matches Some((v, a)) && v@ == inside && a as int == after
                && a <= s@.len(),
            None => r is None,
        },
{
    if i < s.len() && s[i] == open {
        let c = find_char(s, close, i + 1);
        if c < s.len() {
            return Some((sub_chars(s, i + 1, c), c + 1));
        }
    }
    None
}

fn find_literal(s: &Vec<char>, lit: &Vec<char>, i: usize) -> (r: usize)
    requires
        i <= s@.len(),
        lit@ == tag_literal(),
    ensures
        r as int == next_literal(s@, i as int),
{
    proof {
        lemma_next_literal(s@, i as int);
    }
    let mut k = i;
    while k < s.len() && !chars_occur_at(s, lit, k)
        invariant
            i <= k <= s@.len(),
            lit@ == tag_literal(),
            next_literal(s@, k as int) == next_literal(s@, i as int),
        decreases s@.len() - k,
    {
        k = k + 1;
    }
    k
}

fn tag_literal_chars() -> (r: Vec<char>)
    ensures
        r@ == tag_literal(),
{
    let mut v: Vec<char> = Vec::new();
    v.push('\\');
    v.push('d');
    v.push('r');
    v.push('a');
    v.push('f');
    v.push('t');
    v.push('i');
    v.push('n');
    v.push('g');
    v.push('\\');
    v.push('i');
    v.push('m');
    v.push('a');
    v.push('g');
    v.push('e');
    assert(v@ =~= tag_literal());
    v
}

/// Finds the image directives of `source`, left to right, as the pattern
/// `\\drafting\\image *(?:\[([^]]*)\])? *(?:\{([^\}]*)\})?` does: at the
/// leftmost `\drafting\image`, the spaces after it, then the attributes in
/// square brackets if a closing bracket follows, then spaces, then the
/// alternative text in braces if a closing brace follows; the search goes on
/// after the end of each directive.
pub fn find_draft_image_tags(source: &str) -> (r: Vec<DraftImageTag>)
    ensures
        tag_views(r@) == draft_image_tags(source@),
{
    let s = chars_of(source);
    let lit = tag_literal_chars();
    let mut tags: Vec<DraftImageTag> = Vec::new();
    let mut i: usize = 0;
    while i < s.len()
        invariant
            i <= s@.len(),
            s@ == source@,
            lit@ == tag_literal(),
            tag_views(tags@) + scan_tags(s@, i as int) == draft_image_tags(source@),
        ensures
            tag_views(tags@) == draft_image_tags(source@),
        decreases s@.len() - i,
    {
        proof {
            if i >= s@.len() {
                assert(scan_tags(s@, i as int) =~= Seq::<TagView>::empty());
            }
        }
        let j = find_literal(&s, &lit, i);
        if j >= s.len() {
            proof {
                assert(scan_tags(s@, i as int) =~= Seq::<TagView>::empty());
                assert(tag_views(tags@) + Seq::<TagView>::empty() =~= tag_views(tags@));
            }
            break;
        }
        proof {
            lemma_next_literal(s@, i as int);
            lemma_tag_at(s@, j as int);
        }
        let q = skip_spaces(&s, j + 15);
        let (attributes, p) = match read_bracketed(&s, q, '[', ']') {
            Some((inside, after)) => (Some(string_of(&inside)), after),
            None => (None, q),
        };
        let r = skip_spaces(&s, p);
        let (alt, end) = match read_bracketed(&s, r, '{', '}') {
            Some((inside, after)) => (Some(string_of(&inside)), after),
            None => (None, r),
        };
        let tag = DraftImageTag { start: j, end, attributes, alt };
        assert(tag@ == tag_at(s@, j as int));
        let ghost before = tags@;
        tags.push(tag);
        proof {
            assert(tag_views(tags@) =~= tag_views(before).push(tag_at(s@, j as int)));
            assert(scan_tags(s@, i as int) == seq![tag_at(s@, j as int)] + scan_tags(s@, end as int));
            assert(tag_views(tags@) + scan_tags(s@, end as int) =~= tag_views(before) + scan_tags(
                s@,
                i as int,
            ));
        }
        i = end;
    }
    tags
}

/// The text of `s` from `from` on, with the directives `tags[k..]` replaced
/// by `reps[k..]`.
pub open spec fn spliced(s: Seq<char>, tags: Seq<TagView>, reps: Seq<Seq<char>>, k: int, from: int) -> Seq<
    char,
>
    decreases tags.len() - k,
{
    if k < 0 || k >= tags.len() {
        s.subrange(from, s.len() as int)
    } else {
        s.subrange(from, tags[k].start) + reps[k] + spliced(s, tags, reps, k + 1, tags[k].end)
    }
}

/// The message of the last failed replacement, if any failed.
pub open spec fn last_error(outcomes: Seq<Result<String, String>>) -> Option<Seq<char>>
    decreases outcomes.len(),
{
    if outcomes.len() == 0 {
        None
    } else {
        match outcomes.last() {
            Err(e) => Some(e@),
            Ok(_) => last_error(outcomes.drop_last()),
        }
    }
}

/// The replacement texts of the successful replacements (empty for a failed
/// one).
pub open spec fn replacement_texts(outcomes: Seq<Result<String, String>>) -> Seq<Seq<char>> {
    outcomes.map_values(
        |o: Result<String, String>|
            match o {
                Ok(t) => t@,
                Err(_) => Seq::empty(),
            },
    )
}

/// The text of each directive, as it stands in `s`.
pub open spec fn tag_texts(s: Seq<char>, tags: Seq<TagView>) -> Seq<Seq<char>> {
    tags.map_values(|t: TagView| s.subrange(t.start, t.end))
}

impl DraftImageTag {
    /// The attributes and the alternative text of the directive, or the
    /// reason it cannot be processed when one of them is missing.
    pub fn arguments(&self) -> (r: Result<(String, String), String>)
        ensures
            match (self.attributes, self.alt) {
                (Some(a), Some(b)) => r matches Ok((x, y)) && x@ == a@ && y@ == b@,
                (Some(_), None) => r matches Err(e) && e@
                    == "A drafting.image tag was found without alt text."@,
                (None, _) => r matches Err(e) && e@
                    == "A drafting.image tag was found without attributes."@,
            },
    {
        match (&self.attributes, &self.alt) {
            (Some(a), Some(b)) => Ok((a.clone(), b.clone())),
            (Some(_), None) => Err(
                crate::console::owned("A drafting.image tag was found without alt text."),
            ),
            (None, _) => Err(
                crate::console::owned("A drafting.image tag was found without attributes."),
            ),
        }
    }
}

/// Puts the outcome of each directive in its place: when every replacement
/// succeeded, the text with each directive replaced by its replacement;
/// otherwise the message of the last failure.
pub fn replace_all_draft_image_tags(
    source: &str,
    tags: &Vec<DraftImageTag>,
    outcomes: Vec<Result<String, String>>,
) -> (r: Result<String, String>)
    requires
        tags_in_order(source@, tag_views(tags@)),
        outcomes@.len() == tags@.len(),
    ensures
        match last_error(outcomes@) {
            Some(e) => r matches Err(m) && m@ == e,
            None => r matches Ok(t) && t@ == spliced(
                source@,
                tag_views(tags@),
                replacement_texts(outcomes@),
                0,
                0,
            ),
        },
{
    let s = chars_of(source);
    let ghost views = tag_views(tags@);
    let ghost reps = replacement_texts(outcomes@);
    let mut out: Vec<char> = Vec::new();
    let mut error: Option<String> = None;
    let mut from: usize = 0;
    let mut k: usize = 0;
    while k < tags.len()
        invariant
            s@ == source@,
            views == tag_views(tags@),
            reps == replacement_texts(outcomes@),
            tags_in_order(source@, views),
            outcomes@.len() == tags@.len(),
            k <= tags@.len(),
            from <= s@.len(),
            k < tags@.len() ==> from <= views[k as int].start,
            k > 0 ==> from == views[k - 1].end,
            k == 0 ==> from == 0,
            out@ + spliced(s@, views, reps, k as int, from as int) == spliced(s@, views, reps, 0, 0),
            match error {
                Some(e) => last_error(outcomes@.subrange(0, k as int)) == Some(e@),
                None => last_error(outcomes@.subrange(0, k as int)) is None,
            },
        decreases tags@.len() - k,
    {
        let tag = &tags[k];
        assert(views[k as int] == tag@);
        let before = sub_chars(&s, from, tag.start);
        push_chars(&mut out, &before);
        match &outcomes[k] {
            Ok(t) => {
                let tc = chars_of(t.as_str());
                push_chars(&mut out, &tc);
            },
            Err(e) => {
                error = Some(e.clone());
            },
        }
        proof {
            assert(outcomes@.subrange(0, k + 1).drop_last() =~= outcomes@.subrange(0, k as int));
            assert(reps[k as int] == match outcomes@[k as int] {
                Ok(t) => t@,
                Err(_) => Seq::<char>::empty(),
            });
            assert(spliced(s@, views, reps, k as int, from as int) == s@.subrange(
                from as int,
                views[k as int].start,
            ) + reps[k as int] + spliced(s@, views, reps, k + 1, views[k as int].end));
            if k + 1 < tags@.len() {
                assert(views[k as int].end <= views[k + 1].start);
            }
        }
        if outcomes[k].is_ok() {
            assert(out@ + spliced(s@, views, reps, k + 1, tag.end as int) =~= spliced(
                s@,
                views,
                reps,
                0,
                0,
            ));
        } else {
            assert(out@ + reps[k as int] + spliced(s@, views, reps, k + 1, tag.end as int) =~= spliced(
                s@,
                views,
                reps,
                0,
                0,
            ));
            let ghost e = Seq::<char>::empty();
            assert(reps[k as int] =~= e);
            assert(out@ + reps[k as int] =~= out@);
        }
        from = tag.end;
        k = k + 1;
    }
    assert(outcomes@.subrange(0, k as int) =~= outcomes@);
    match error {
        Some(e) => Err(e),
        None => {
            let rest = sub_chars(&s, from, s.len());
            push_chars(&mut out, &rest);
            assert(out@ =~= spliced(s@, views, reps, 0, 0));
            Ok(string_of(&out))
        },
    }
}

/// The directives found from index `i` on start at or after `i` and lie in
/// order, each within the text.
proof fn lemma_scan_in_order(s: Seq<char>, i: int)
    requires
        0 <= i,
    ensures
        tags_in_order(s, scan_tags(s, i)),
        forall|k: int| 0 <= k < scan_tags(s, i).len() ==> i <= (#[trigger] scan_tags(s, i)[k]).start,
        forall|k: int|
            0 <= k < scan_tags(s, i).len() ==> occurs_at(
                s,
                tag_literal(),
                (#[trigger] scan_tags(s, i)[k]).start,
            ),
    decreases s.len() - i,
{
    if i < s.len() {
        let j = next_literal(s, i);
        lemma_next_literal(s, i);
        if j < s.len() {
            lemma_tag_at(s, j);
            let t = tag_at(s, j);
            lemma_scan_in_order(s, t.end);
            let rest = scan_tags(s, t.end);
            let all = scan_tags(s, i);
            assert(all == seq![t] + rest);
            assert forall|k: int| 0 <= k < all.len() implies i <= (#[trigger] all[k]).start by {
                if k > 0 {
                    assert(all[k] == rest[k - 1]);
                }
            }
            assert forall|k: int| 0 <= k < all.len() implies occurs_at(
                s,
                tag_literal(),
                (#[trigger] all[k]).start,
            ) by {
                if k > 0 {
                    assert(all[k] == rest[k - 1]);
                }
            }
            assert forall|k: int| 0 <= k < all.len() implies 0 <= (#[trigger] all[k]).start
                <= all[k].end <= s.len() by {
                if k > 0 {
                    assert(all[k] == rest[k - 1]);
                }
            }
            assert forall|k: int| 0 <= k < all.len() - 1 implies (#[trigger] all[k]).end
                <= all[k + 1].start by {
                assert(all[k + 1] == rest[k]);
                if k > 0 {
                    assert(all[k] == rest[k - 1]);
                }
            }
        }
    }
}

/// The directives of a text lie in order, each within the text and starting
/// with `\drafting\image`; and no `\drafting\image` starts outside of them.
pub proof fn lemma_tags_well_placed(s: Seq<char>)
    ensures
        tags_in_order(s, draft_image_tags(s)),
        forall|k: int|
            0 <= k < draft_image_tags(s).len() ==> occurs_at(
                s,
                tag_literal(),
                (#[trigger] draft_image_tags(s)[k]).start,
            ),
        forall|j: int|
            occurs_at(s, tag_literal(), j) ==> exists|k: int|
                0 <= k < draft_image_tags(s).len() && (#[trigger] draft_image_tags(s)[k]).start <= j
                    < draft_image_tags(s)[k].end,
{
    lemma_scan_in_order(s, 0);
    assert forall|j: int| occurs_at(s, tag_literal(), j) implies exists|k: int|
        0 <= k < draft_image_tags(s).len() && (#[trigger] draft_image_tags(s)[k]).start <= j
            < draft_image_tags(s)[k].end by {
        lemma_scan_covers(s, 0, j);
    }
}

/// An occurrence of `\drafting\image` at or after `i` lies within one of the
/// directives found from `i` on.
proof fn lemma_scan_covers(s: Seq<char>, i: int, j: int)
    requires
        0 <= i <= j,
        occurs_at(s, tag_literal(), j),
    ensures
        exists|k: int|
            0 <= k < scan_tags(s, i).len() && (#[trigger] scan_tags(s, i)[k]).start <= j
                < scan_tags(s, i)[k].end,
    decreases s.len() - i,
{
    let n = next_literal(s, i);
    lemma_next_literal(s, i);
    assert(j < s.len());
    assert(n <= j);
    lemma_tag_at(s, n);
    let t = tag_at(s, n);
    let all = scan_tags(s, i);
    assert(all == seq![t] + scan_tags(s, t.end));
    if j < t.end {
        assert(all[0] == t);
    } else {
        lemma_scan_covers(s, t.end, j);
        let rest = scan_tags(s, t.end);
        let k = choose|k: int| 0 <= k < rest.len() && (#[trigger] rest[k]).start <= j < rest[k].end;
        assert(all[k + 1] == rest[k]);
    }
}

/// Replacing every directive by its own text gives the text back.
pub proof fn lemma_splice_own_text(s: Seq<char>, tags: Seq<TagView>)
    requires
        tags_in_order(s, tags),
    ensures
        spliced(s, tags, tag_texts(s, tags), 0, 0) == s,
{
    if tags.len() > 0 {
        lemma_splice_own_text_from(s, tags, 0, 0);
    } else {
        assert(s.subrange(0, s.len() as int) =~= s);
    }
}

proof fn lemma_splice_own_text_from(s: Seq<char>, tags: Seq<TagView>, k: int, from: int)
    requires
        tags_in_order(s, tags),
        0 <= k <= tags.len(),
        0 <= from <= s.len(),
        k < tags.len() ==> from <= tags[k].start,
    ensures
        spliced(s, tags, tag_texts(s, tags), k, from) == s.subrange(from, s.len() as int),
    decreases tags.len() - k,
{
    if k < tags.len() {
        let t = tags[k];
        if k + 1 < tags.len() {
            assert(tags[k].end <= tags[k + 1].start);
        }
        lemma_splice_own_text_from(s, tags, k + 1, t.end);
        assert(tag_texts(s, tags)[k] == s.subrange(t.start, t.end));
        assert(s.subrange(from, t.start) + s.subrange(t.start, t.end) + s.subrange(
            t.end,
            s.len() as int,
        ) =~= s.subrange(from, s.len() as int));
    }
}

} // verus!
