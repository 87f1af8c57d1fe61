# blog_publish

Prepares a draft post of a Jekyll site for publishing: it asks which draft to
publish, checks its front matter, processes its `\drafting\image[...]{...}`
directives, and lists the tasks that copy, resize and watermark its images,
save the post in `_posts`, mark the drafts as published and rebuild the site.
The tasks are performed only once the user agrees.

The library in `src/` is written in Verus: every function carries a contract,
and the verifier proves each one, except for a few small trusted wrappers
(marked `#[verifier::external_body]`) around calls into std, chrono, slugify
and serde_yaml, whose contracts are taken as given.

- `text`: characters, decimal numbers, trimming and case folding.
- `console`: the text of messages and questions, and how typed answers are
  judged.
- `image`: image formats and sizes, and the attributes of an image directive.
- `tags`: finding image directives in a draft and putting their replacements
  in place.
- `post`: reading a post file (its front matter read with serde_yaml) and
  body, the properties of the front matter, setting them and writing the
  file back.
- `date`: the front matter date and the date part used in names.
- `environment`: the site's folders and the file names and paths it uses.
- `tasks`: the tasks of a publication and the list that collects them.
- `checks`: the confirmations asked about a draft before it is published.
- `publish`: the recipes offered and the steps of publishing a draft.

`app/` is the program around it: the terminal, the file system and the
commands that the tasks run.
