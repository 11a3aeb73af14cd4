//! What the catalog pages compute from attributes and uploads.

use vstd::prelude::*;
use vstd::string::StringExecFns;
use crate::attribute::{shown, tag_views, TagView, VarTag};
use crate::digest::{digest_text, hash_password};
use crate::error::AuthError;
use crate::text::{join, joined, split_words, views, words};
use crate::vocabulary::{tag_words, tags_accepted, validate_tags};

verus! {

/// The attributes of a variant as a reader sees them: what is shown for each,
/// with one space between neighbours.
pub open spec fn shown_line(tags: Seq<TagView>) -> Seq<char> {
    joined(tags.map_values(|t: TagView| shown(t)), " "@)
}

/// Writes the attributes of a variant as a reader sees them.
pub fn shown_text(tags: &Vec<VarTag>) -> (line: String)
    ensures
        line@ == shown_line(tag_views(tags@)),
{
    let ghost all = tag_views(tags@).map_values(|t: TagView| shown(t));
    let mut parts: Vec<String> = Vec::new();
    let mut i: usize = 0;
    while i < tags.len()
        invariant
            i <= tags.len(),
            all == tag_views(tags@).map_values(|t: TagView| shown(t)),
            views(parts@) == all.take(i as int),
        decreases tags.len() - i,
    {
        let ghost before = parts@;
        let part = tags[i].caption();
        parts.push(part);
        assert(views(parts@) == views(before).push(part@));
        assert(all.take(i as int + 1) == all.take(i as int).push(part@));
        i += 1;
    }
    assert(all.take(tags.len() as int) == all);
    join(&parts, " ")
}

/// The text stored for a submitted variant: the vocabulary words of its
/// attributes, with one space between neighbours.
pub open spec fn submitted_line(tags: Seq<TagView>) -> Seq<char> {
    joined(tag_words(tags), " "@)
}

/// Checks a submitted variant against the vocabulary and writes the text to
/// store for it. One attribute outside the vocabulary, or none at all,
/// refuses the submission.
pub fn submitted_text(tags: &Vec<VarTag>) -> (line: Result<String, AuthError>)
    ensures
        match line {
            Ok(text) => tags_accepted(tag_views(tags@)) && text@ == submitted_line(
                tag_views(tags@),
            ),
            Err(e) => e == AuthError::UnrecognizedTag && !tags_accepted(tag_views(tags@)),
        },
{
    match validate_tags(tags) {
        Ok(tokens) => Ok(join(&tokens, " ")),
        Err(e) => Err(e),
    }
}

/// `word` between two percent signs: the pattern that matches every text
/// in which `word` occurs.
pub open spec fn containing(word: Seq<char>) -> Seq<char> {
    "%"@ + word + "%"@
}

/// The patterns for the first two words of `text`, where it has two.
pub open spec fn first_two_patterns(text: Seq<char>) -> Option<(Seq<char>, Seq<char>)> {
    if words(text).len() < 2 {
        None
    } else {
        Some((containing(words(text)[0]), containing(words(text)[1])))
    }
}

/// Puts `word` between two percent signs.
fn pattern_for(word: &str) -> (pattern: String)
    ensures
        pattern@ == containing(word@),
{
    let mut pattern = "%".to_owned();
    pattern.append(word);
    pattern.append("%");
    pattern
}

/// The two patterns by which a variant is looked up: one for each of the
/// first two words of `text`. A text of fewer than two words has none.
pub fn lookup_patterns(text: &str) -> (patterns: Option<(String, String)>)
    ensures
        match patterns {
            Some((first, second)) => first_two_patterns(text@) == Some((first@, second@)),
            None => first_two_patterns(text@) is None,
        },
{
    let tags = split_words(text);
    if tags.len() < 2 {
        return None;
    }
    assert(views(tags@)[0] == tags@[0]@);
    assert(views(tags@)[1] == tags@[1]@);
    Some((pattern_for(tags[0].as_str()), pattern_for(tags[1].as_str())))
}

/// The file name of an uploaded image: the digest of its contents, a dot and
/// the extension.
pub open spec fn image_file_name(contents: Seq<char>, extension: Seq<char>) -> Seq<char> {
    digest_text(contents) + "."@ + extension
}

/// Names the file of an uploaded image after its contents.
pub fn name_image(contents: &str, extension: &str) -> (name: String)
    ensures
        name@ == image_file_name(contents@, extension@),
{
    let mut name = hash_password(contents);
    name.append(".");
    name.append(extension);
    name
}

} // verus!
