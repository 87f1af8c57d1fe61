//! The checks made on a draft before it is published: the properties of its
//! front matter, its categories, series and excerpt, and the confirmations an
//! image directive may need. Each check gives the yes-or-no questions to ask,
//! in order; publishing stops at the first one answered no.

use vstd::prelude::*;
use crate::text::{contains_seq, list_contains, push_str, str_contains, string_of};
use crate::console::{confirmation, owned, Confirmation};
use crate::image::{format_name, size_name, ImageFormat, ImageSize};
use crate::post::{property, FrontMatter, Post, YamlField, YamlItem};
use crate::tasks::{adding_notice, PropertyValue, TaskList};

verus! {

/// What a list of confirmations asks, and what each refusal says.
pub open spec fn confirmation_views(v: Seq<Confirmation>) -> Seq<(Seq<char>, Seq<char>)> {
    v.map_values(|c: Confirmation| c@)
}

/// Whether `list` holds the text `item`.
pub open spec fn listed(list: Seq<String>, item: Seq<char>) -> bool {
    exists|i: int| 0 <= i < list.len() && (#[trigger] list[i])@ == item
}

/// The refusal of an image confirmation.
pub open spec fn edit_post() -> Seq<char> {
    "Please edit the post and try again."@
}

/// The refusal of a category confirmation.
pub open spec fn correct_categories() -> Seq<char> {
    "Please correct property categories in the post metadata."@
}

/// The refusal of a series confirmation.
pub open spec fn correct_series() -> Seq<char> {
    "Please correct property series in the post metadata."@
}

/// The notice written when a property is already set.
pub open spec fn property_set_notice(name: Seq<char>, value: YamlField) -> Seq<char> {
    "Property "@ + name + " is set to "@ + value.debug@
}

/// Reads the property `property` of the front matter as text. When it is set,
/// a notice says so and its text is the result (an error when it is not a
/// string); when it is not, a task is added that sets it to `default`, which
/// is the result.
pub fn set_property_if_not_set(
    front_matter: &FrontMatter,
    property_name: &str,
    default: &str,
    tasks: &mut TaskList,
) -> (r: Result<String, String>)
    ensures
        match property(*front_matter, property_name@) {
            Some(v) => {
                &&& final(tasks).task_seq() == old(tasks).task_seq()
                &&& final(tasks).notice_seq() == old(tasks).notice_seq().push(
                    property_set_notice(property_name@, v),
                )
                &&& match v.text {
                    Ok(t) => r matches Ok(x) && x@ == t@,
                    Err(m) => r matches Err(e) && e@ == m@,
                }
            },
            None => {
                &&& r matches Ok(x) && x@ == default@
                &&& final(tasks).task_seq().len() == old(tasks).task_seq().len() + 1
                &&& final(tasks).task_seq().subrange(0, old(tasks).task_seq().len() as int) == old(
                    tasks,
                ).task_seq()
                &&& (final(tasks).task_seq().last() matches crate::tasks::Task::PropertyTask(p)
                    && p.name@ == property_name@ && (p.value matches PropertyValue::Text(d) && d@
                    == default@))
                &&& final(tasks).notice_seq() == old(tasks).notice_seq().push(
                    adding_notice(final(tasks).task_seq().last()),
                )
            },
        },
{
    match front_matter.get(property_name) {
        Some(v) => {
            let mut out: Vec<char> = Vec::new();
            push_str(&mut out, "Property ");
            push_str(&mut out, property_name);
            push_str(&mut out, " is set to ");
            push_str(&mut out, v.debug.as_str());
            tasks.notice(string_of(&out));
            match &v.text {
                Ok(t) => Ok(t.clone()),
                Err(m) => Err(m.clone()),
            }
        },
        None => {
            tasks.add_set_property_task(property_name, PropertyValue::Text(owned(default)));
            Ok(owned(default))
        },
    }
}

/// The question about a category not in the list of categories.
pub open spec fn new_category_question(category: Seq<char>) -> Seq<char> {
    "Did you intend to create the new category "@ + category + "?"@
}

/// The confirmations a category needs: none when it is in `list`, otherwise
/// whether a new category is meant.
pub open spec fn category_checks(list: Seq<String>, category: Seq<char>) -> Seq<(Seq<char>, Seq<char>)> {
    if listed(list, category) {
        Seq::empty()
    } else {
        seq![(new_category_question(category), correct_categories())]
    }
}

/// Asks whether a new category is meant when `category` is not in
/// `category_list`.
pub fn confirm_category(category_list: &Vec<String>, category: &str) -> (r: Option<Confirmation>)
    ensures
        listed(category_list@, category@) ==> r is None,
        !listed(category_list@, category@) ==> (r matches Some(c) && c@ == (
            new_category_question(category@),
            correct_categories(),
        )),
{
    if list_contains(category_list, category) {
        None
    } else {
        let mut q: Vec<char> = Vec::new();
        push_str(&mut q, "Did you intend to create the new category ");
        push_str(&mut q, category);
        push_str(&mut q, "?");
        Some(confirmation(string_of(&q), "Please correct property categories in the post metadata."))
    }
}

/// The confirmations the first `n` items of a categories sequence need.
pub open spec fn item_checks(list: Seq<String>, items: Seq<YamlItem>, n: int) -> Seq<
    (Seq<char>, Seq<char>),
>
    decreases n,
{
    if n <= 0 {
        Seq::empty()
    } else {
        item_checks(list, items, n - 1) + match items[n - 1].text {
            Some(c) => category_checks(list, c@),
            None => seq![
                (
                    "Property categories contains a non-string "@ + items[n - 1].debug@
                        + ". Are you sure that is correct?"@,
                    correct_categories(),
                ),
            ],
        }
    }
}

/// The confirmations the categories of a front matter need: whether no
/// category is meant when there is none; for a sequence, each item in turn;
/// for a single category, that one; anything else must be confirmed.
pub open spec fn categories_checks(fm: FrontMatter, list: Seq<String>) -> Seq<(Seq<char>, Seq<char>)> {
    match property(fm, "categories"@) {
        None => seq![
            ("Property categories is not set. Is that correct?"@, correct_categories()),
        ],
        Some(v) => match v.items {
            Some(items) => item_checks(list, items@, items@.len() as int),
            None => match v.text {
                Ok(c) => category_checks(list, c@),
                Err(_) => seq![
                    (
                        "Property categories is not a sequence or string. Are you sure that is correct?"@,
                        correct_categories(),
                    ),
                ],
            },
        },
    }
}

fn push_confirmation(v: &mut Vec<Confirmation>, c: Confirmation)
    ensures
        confirmation_views(final(v)@) == confirmation_views(old(v)@).push(c@),
{
    let ghost before = v@;
    v.push(c);
    assert(confirmation_views(v@) =~= confirmation_views(before).push(c@));
}

/// The confirmations the categories of the post need, in order.
pub fn confirm_categories(front_matter: &FrontMatter, category_list: &Vec<String>) -> (r: Vec<
    Confirmation,
>)
    ensures
        confirmation_views(r@) == categories_checks(*front_matter, category_list@),
{
    let mut out: Vec<Confirmation> = Vec::new();
    match front_matter.get("categories") {
        None => {
            push_confirmation(
                &mut out,
                confirmation(
                    owned("Property categories is not set. Is that correct?"),
                    "Please correct property categories in the post metadata.",
                ),
            );
        },
        Some(v) => match &v.items {
            Some(items) => {
                let mut i: usize = 0;
                while i < items.len()
                    invariant
                        i <= items@.len(),
                        confirmation_views(out@) == item_checks(category_list@, items@, i as int),
                    decreases items@.len() - i,
                {
                    match &items[i].text {
                        Some(c) => {
                            match confirm_category(category_list, c.as_str()) {
                                Some(q) => push_confirmation(&mut out, q),
                                None => {},
                            }
                        },
                        None => {
                            let mut q: Vec<char> = Vec::new();
                            push_str(&mut q, "Property categories contains a non-string ");
                            push_str(&mut q, items[i].debug.as_str());
                            push_str(&mut q, ". Are you sure that is correct?");
                            push_confirmation(
                                &mut out,
                                confirmation(
                                    string_of(&q),
                                    "Please correct property categories in the post metadata.",
                                ),
                            );
                        },
                    }
                    assert(confirmation_views(out@) =~= item_checks(
                        category_list@,
                        items@,
                        i + 1,
                    ));
                    i = i + 1;
                }
            },
            None => match &v.text {
                Ok(c) => {
                    match confirm_category(category_list, c.as_str()) {
                        Some(q) => push_confirmation(&mut out, q),
                        None => {},
                    }
                },
                Err(_) => {
                    push_confirmation(
                        &mut out,
                        confirmation(
                            owned(
                                "Property categories is not a sequence or string. Are you sure that is correct?",
                            ),
                            "Please correct property categories in the post metadata.",
                        ),
                    );
                },
            },
        },
    }
    assert(confirmation_views(out@) =~= categories_checks(*front_matter, category_list@));
    out
}

/// The confirmation the series of a front matter needs: none when there is
/// none or it is in the list; whether a new series is meant otherwise; and
/// one when it is not a string.
pub open spec fn series_check(fm: FrontMatter, list: Seq<String>) -> Option<(Seq<char>, Seq<char>)> {
    match property(fm, "series"@) {
        None => None,
        Some(v) => match v.text {
            Ok(s) => if listed(list, s@) {
                None
            } else {
                Some(("Did you intend to create the new series "@ + s@ + "?"@, correct_series()))
            },
            Err(_) => Some(
                ("Property series is not a string. Are you sure that is correct?"@, correct_series()),
            ),
        },
    }
}

/// The confirmation the series of the post needs, if any.
pub fn confirm_series(front_matter: &FrontMatter, series_list: &Vec<String>) -> (r: Option<Confirmation>)
    ensures
        match series_check(*front_matter, series_list@) {
            Some(c) => r matches Some(x) && x@ == c,
            None => r is None,
        },
{
    match front_matter.get("series") {
        None => None,
        Some(v) => match &v.text {
            Ok(s) => {
                if list_contains(series_list, s.as_str()) {
                    None
                } else {
                    let mut q: Vec<char> = Vec::new();
                    push_str(&mut q, "Did you intend to create the new series ");
                    push_str(&mut q, s.as_str());
                    push_str(&mut q, "?");
                    Some(
                        confirmation(
                            string_of(&q),
                            "Please correct property series in the post metadata.",
                        ),
                    )
                }
            },
            Err(_) => Some(
                confirmation(
                    owned("Property series is not a string. Are you sure that is correct?"),
                    "Please correct property series in the post metadata.",
                ),
            ),
        },
    }
}

/// The confirmation a post needs when it has neither an `excerpt` property
/// nor a `<!--more-->` mark in its body.
pub open spec fn excerpt_check(post: Post) -> Option<(Seq<char>, Seq<char>)> {
    if property(post.front_matter, "excerpt"@) is Some {
        None
    } else if contains_seq(post.body@, "<!--more-->"@) {
        None
    } else {
        Some(
            (
                "You don't have <!--more--> tag or an excerpt property. Are you sure that is correct?"@,
                "Please correct excerpt in the post."@,
            ),
        )
    }
}

/// The confirmation the excerpt of the post needs, if any.
pub fn confirm_excerpt(post: &Post) -> (r: Option<Confirmation>)
    ensures
        match excerpt_check(*post) {
            Some(c) => r matches Some(x) && x@ == c,
            None => r is None,
        },
{
    if post.front_matter.get("excerpt").is_some() {
        None
    } else if str_contains(post.body.as_str(), "<!--more-->") {
        None
    } else {
        Some(
            confirmation(
                owned(
                    "You don't have <!--more--> tag or an excerpt property. Are you sure that is correct?",
                ),
                "Please correct excerpt in the post.",
            ),
        )
    }
}

/// Asks to confirm that the image `filename` is not to be watermarked.
pub fn confirm_no_watermark(filename: &str) -> (r: Confirmation)
    ensures
        r@ == (
            "Are you sure you don't want to add a watermark to "@ + filename@ + "?"@,
            edit_post(),
        ),
{
    let mut q: Vec<char> = Vec::new();
    push_str(&mut q, "Are you sure you don't want to add a watermark to ");
    push_str(&mut q, filename);
    push_str(&mut q, "?");
    confirmation(string_of(&q), "Please edit the post and try again.")
}

/// Asks to confirm that the image `filename` is not to be resized.
pub fn confirm_no_resize(filename: &str) -> (r: Confirmation)
    ensures
        r@ == ("Are you sure you don't want to resize "@ + filename@ + "?"@, edit_post()),
{
    let mut q: Vec<char> = Vec::new();
    push_str(&mut q, "Are you sure you don't want to resize ");
    push_str(&mut q, filename);
    push_str(&mut q, "?");
    confirmation(string_of(&q), "Please edit the post and try again.")
}

/// Asks to confirm that the image `filename`, linked in full, has no size, so
/// that no thumbnail can be made.
pub fn confirm_no_size_for_thumbnail(filename: &str) -> (r: Confirmation)
    ensures
        r@ == (
            "No size was given for '"@ + filename@
                + "', but a full link was requested. A thumbnail can't be generated without knowing the full size. Are you sure you don't want to specify the size?"@,
            edit_post(),
        ),
{
    let mut q: Vec<char> = Vec::new();
    push_str(&mut q, "No size was given for '");
    push_str(&mut q, filename);
    push_str(
        &mut q,
        "', but a full link was requested. A thumbnail can't be generated without knowing the full size. Are you sure you don't want to specify the size?",
    );
    confirmation(string_of(&q), "Please edit the post and try again.")
}

/// Asks to confirm that the image `filename`, wider than the content column,
/// is shown at full size rather than as a thumbnail.
pub fn confirm_large_image(filename: &str, size: &ImageSize, format: &ImageFormat) -> (r: Confirmation)
    ensures
        r@ == (
            "An image size of "@ + size_name(*size) + " "@ + format_name(*format)
                + " is rather large to include without a thumbnail. Are you sure you don't want to add a 'full-size' attribute to the tag for '"@
                + filename@ + "'?"@,
            edit_post(),
        ),
{
    let mut q: Vec<char> = Vec::new();
    push_str(&mut q, "An image size of ");
    push_str(&mut q, size.to_string().as_str());
    push_str(&mut q, " ");
    push_str(&mut q, format.to_string().as_str());
    push_str(
        &mut q,
        " is rather large to include without a thumbnail. Are you sure you don't want to add a 'full-size' attribute to the tag for '",
    );
    push_str(&mut q, filename);
    push_str(&mut q, "'?");
    confirmation(string_of(&q), "Please edit the post and try again.")
}

} // verus!
