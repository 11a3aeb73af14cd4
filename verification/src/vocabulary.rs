//! The vocabulary of variant tags that may be submitted: three sizes, three
//! colours and the two fastenings.

use vstd::prelude::*;
use crate::attribute::{tag_views, TagView, VarTag};
use crate::error::AuthError;
use crate::text::{same_text, views};

verus! {

/// The words of the vocabulary, in the order of the table.
pub open spec fn vocabulary_words() -> Seq<Seq<char>> {
    seq!["small"@, "medium"@, "large"@, "white"@, "red"@, "blue"@, "fitted"@, "snap"@]
}

/// The word of the vocabulary that names an attribute, if one does.
pub open spec fn tag_word(tag: TagView) -> Option<Seq<char>> {
    match tag {
        TagView::Size(label) => if label == "small"@ || label == "medium"@ || label == "large"@ {
            Some(label)
        } else {
            None
        },
        TagView::Color(label) => if label == "white"@ || label == "red"@ || label == "blue"@ {
            Some(label)
        } else {
            None
        },
        TagView::Fitted(fitted) => Some(
            if fitted {
                "fitted"@
            } else {
                "snap"@
            },
        ),
    }
}

/// Whether every candidate is a word of `vocabulary`, and there is at least
/// one candidate.
pub open spec fn accepted(candidates: Seq<Seq<char>>, vocabulary: Seq<Seq<char>>) -> bool {
    &&& candidates.len() > 0
    &&& forall|i: int| 0 <= i < candidates.len() ==> vocabulary.contains(#[trigger] candidates[i])
}

/// Whether every attribute is named by a word of the vocabulary, and there is
/// at least one attribute.
pub open spec fn tags_accepted(tags: Seq<TagView>) -> bool {
    &&& tags.len() > 0
    &&& forall|i: int| 0 <= i < tags.len() ==> tag_word(#[trigger] tags[i]) is Some
}

/// The words that name the attributes of `tags`.
pub open spec fn tag_words(tags: Seq<TagView>) -> Seq<Seq<char>> {
    tags.map_values(|t: TagView| tag_word(t).unwrap())
}

/// The table has one meaning: the word that names an attribute is a word of
/// the vocabulary, and every word of the vocabulary names an attribute.
pub proof fn lemma_vocabulary_agrees()
    ensures
        forall|tag: TagView|
            (#[trigger] tag_word(tag)) is Some ==> vocabulary_words().contains(
                tag_word(tag).unwrap(),
            ),
        forall|i: int|
            0 <= i < vocabulary_words().len() ==> exists|tag: TagView| #[trigger]
                tag_word(tag) == Some(#[trigger] vocabulary_words()[i]),
{
    let table = vocabulary_words();
    assert forall|tag: TagView| (#[trigger] tag_word(tag)) is Some implies table.contains(
        tag_word(tag).unwrap(),
    ) by {
        let word = tag_word(tag).unwrap();
        match tag {
            TagView::Size(label) => {
                if label == "small"@ {
                    assert(table[0] == word);
                } else if label == "medium"@ {
                    assert(table[1] == word);
                } else {
                    assert(table[2] == word);
                }
            },
            TagView::Color(label) => {
                if label == "white"@ {
                    assert(table[3] == word);
                } else if label == "red"@ {
                    assert(table[4] == word);
                } else {
                    assert(table[5] == word);
                }
            },
            TagView::Fitted(fitted) => {
                if fitted {
                    assert(table[6] == word);
                } else {
                    assert(table[7] == word);
                }
            },
        }
    }
    assert forall|i: int| 0 <= i < table.len() implies exists|tag: TagView| #[trigger]
        tag_word(tag) == Some(#[trigger] table[i]) by {
        let tag = if i < 3 {
            TagView::Size(table[i])
        } else if i < 6 {
            TagView::Color(table[i])
        } else {
            TagView::Fitted(i == 6)
        };
        assert(tag_word(tag) == Some(table[i]));
    }
}

/// The vocabulary as a vector.
pub fn canonical_vocabulary() -> (table: Vec<String>)
    ensures
        views(table@) == vocabulary_words(),
{
    let mut table: Vec<String> = Vec::new();
    table.push("small".to_owned());
    table.push("medium".to_owned());
    table.push("large".to_owned());
    table.push("white".to_owned());
    table.push("red".to_owned());
    table.push("blue".to_owned());
    table.push("fitted".to_owned());
    table.push("snap".to_owned());
    assert(views(table@) =~= vocabulary_words());
    table
}

/// Whether `word` occurs in `list`.
pub fn contains_word(list: &Vec<String>, word: &str) -> (found: bool)
    ensures
        found == views(list@).contains(word@),
{
    let mut i: usize = 0;
    while i < list.len()
        invariant
            i <= list.len(),
            forall|j: int| 0 <= j < i ==> views(list@)[j] != word@,
        decreases list.len() - i,
    {
        if same_text(list[i].as_str(), word) {
            assert(views(list@)[i as int] == word@);
            return true;
        }
        i += 1;
    }
    false
}

/// Checks a submission against `vocabulary`. The candidates come back
/// unchanged when there is at least one and each is a word of the vocabulary;
/// otherwise the whole submission is refused.
pub fn validate_against_vocabulary(candidates: &Vec<String>, vocabulary: &Vec<String>) -> (checked:
    Result<Vec<String>, AuthError>)
    ensures
        match checked {
            Ok(tokens) => accepted(views(candidates@), views(vocabulary@)) && views(tokens@)
                == views(candidates@),
            Err(e) => e == AuthError::UnrecognizedTag && !accepted(
                views(candidates@),
                views(vocabulary@),
            ),
        },
{
    if candidates.len() == 0 {
        return Err(AuthError::UnrecognizedTag);
    }
    let mut tokens: Vec<String> = Vec::new();
    let mut i: usize = 0;
    while i < candidates.len()
        invariant
            i <= candidates.len(),
            views(tokens@) == views(candidates@).take(i as int),
            forall|j: int|
                0 <= j < i ==> views(vocabulary@).contains(#[trigger] views(candidates@)[j]),
        decreases candidates.len() - i,
    {
        if !contains_word(vocabulary, candidates[i].as_str()) {
            assert(!views(vocabulary@).contains(views(candidates@)[i as int]));
            return Err(AuthError::UnrecognizedTag);
        }
        let ghost before = tokens@;
        let token = candidates[i].clone();
        tokens.push(token);
        assert(views(tokens@) == views(before).push(token@));
        assert(views(candidates@).take(i as int + 1) == views(candidates@).take(i as int).push(
            token@,
        ));
        i += 1;
    }
    assert(views(candidates@).take(candidates.len() as int) == views(candidates@));
    Ok(tokens)
}

/// Checks a submission against the vocabulary of this module.
pub fn validate_vocabulary(candidates: &Vec<String>) -> (checked: Result<Vec<String>, AuthError>)
    ensures
        match checked {
            Ok(tokens) => accepted(views(candidates@), vocabulary_words()) && views(tokens@)
                == views(candidates@),
            Err(e) => e == AuthError::UnrecognizedTag && !accepted(
                views(candidates@),
                vocabulary_words(),
            ),
        },
{
    let table = canonical_vocabulary();
    validate_against_vocabulary(candidates, &table)
}

/// The word of the vocabulary that names `tag`, if one does.
pub fn vocabulary_word(tag: &VarTag) -> (word: Option<String>)
    ensures
        match word {
            Some(w) => tag_word(tag@) == Some(w@),
            None => tag_word(tag@) is None,
        },
{
    match tag {
        VarTag::Size(label) => {
            let l = label.as_str();
            if same_text(l, "small") || same_text(l, "medium") || same_text(l, "large") {
                Some(label.clone())
            } else {
                None
            }
        },
        VarTag::Color(label) => {
            let l = label.as_str();
            if same_text(l, "white") || same_text(l, "red") || same_text(l, "blue") {
                Some(label.clone())
            } else {
                None
            }
        },
        VarTag::Fitted(fitted) => if *fitted {
            Some("fitted".to_owned())
        } else {
            Some("snap".to_owned())
        },
    }
}

/// Checks submitted attributes against the vocabulary and gives the word for
/// each. One attribute outside the vocabulary, or none at all, refuses the
/// whole submission.
pub fn validate_tags(tags: &Vec<VarTag>) -> (checked: Result<Vec<String>, AuthError>)
    ensures
        match checked {
            Ok(tokens) => tags_accepted(tag_views(tags@)) && views(tokens@) == tag_words(
                tag_views(tags@),
            ),
            Err(e) => e == AuthError::UnrecognizedTag && !tags_accepted(tag_views(tags@)),
        },
{
    if tags.len() == 0 {
        return Err(AuthError::UnrecognizedTag);
    }
    let mut tokens: Vec<String> = Vec::new();
    let mut i: usize = 0;
    while i < tags.len()
        invariant
            i <= tags.len(),
            views(tokens@) == tag_words(tag_views(tags@)).take(i as int),
            forall|j: int| 0 <= j < i ==> tag_word(#[trigger] tag_views(tags@)[j]) is Some,
        decreases tags.len() - i,
    {
        match vocabulary_word(&tags[i]) {
            Some(token) => {
                let ghost before = tokens@;
                tokens.push(token);
                assert(views(tokens@) == views(before).push(token@));
                assert(tag_words(tag_views(tags@)).take(i as int + 1) == tag_words(
                    tag_views(tags@),
                ).take(i as int).push(token@));
            },
            None => {
                assert(tag_word(tag_views(tags@)[i as int]) is None);
                return Err(AuthError::UnrecognizedTag);
            },
        }
        i += 1;
    }
    assert(tag_words(tag_views(tags@)).take(tags.len() as int) == tag_words(tag_views(tags@)));
    Ok(tokens)
}

} // verus!
