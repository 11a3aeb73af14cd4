//! Variant attributes (size, colour, fastening) and their text form: one
//! token per attribute, tokens separated by whitespace.

use vstd::prelude::*;
use vstd::string::StringExecFns;
use crate::text::{
    capitalize, capitalized, join, joined, lowercase_of, same_text, split_words, starts_with,
    strip_prefix, views, words,
};

verus! {

/// One attribute of a product variant.
#[derive(Debug, PartialEq, Eq)]
pub enum VarTag {
    /// A size, with its label.
    Size(String),
    /// A colour, with its label.
    Color(String),
    /// The fastening: `true` is fitted, `false` is snap.
    Fitted(bool),
}

/// A `VarTag` as a mathematical value.
pub enum TagView {
    Size(Seq<char>),
    Color(Seq<char>),
    Fitted(bool),
}

impl View for VarTag {
    type V = TagView;

    open spec fn view(&self) -> TagView {
        match self {
            VarTag::Size(label) => TagView::Size(label@),
            VarTag::Color(label) => TagView::Color(label@),
            VarTag::Fitted(fitted) => TagView::Fitted(*fitted),
        }
    }
}

impl Clone for VarTag {
    fn clone(&self) -> (copy: VarTag)
        ensures
            copy@ == self@,
    {
        match self {
            VarTag::Size(label) => VarTag::Size(label.clone()),
            VarTag::Color(label) => VarTag::Color(label.clone()),
            VarTag::Fitted(fitted) => VarTag::Fitted(*fitted),
        }
    }
}

/// The attribute that a token stands for, if any: `size` or `color` followed
/// by a label, or exactly `fitted` or `snap`.
pub open spec fn classify(token: Seq<char>) -> Option<TagView> {
    if starts_with(token, "size"@) {
        Some(TagView::Size(token.skip(4)))
    } else if starts_with(token, "color"@) {
        Some(TagView::Color(token.skip(5)))
    } else if token == "fitted"@ {
        Some(TagView::Fitted(true))
    } else if token == "snap"@ {
        Some(TagView::Fitted(false))
    } else {
        None
    }
}

/// A label as it is shown and stored: in lowercase but for its first
/// character, which is in uppercase.
pub open spec fn shown_label(label: Seq<char>) -> Seq<char> {
    capitalized(lowercase_of(label))
}

/// What a reader sees for an attribute: the label, or `Fitted` or `Snap`.
pub open spec fn shown(tag: TagView) -> Seq<char> {
    match tag {
        TagView::Size(label) => shown_label(label),
        TagView::Color(label) => shown_label(label),
        TagView::Fitted(fitted) => if fitted {
            "Fitted"@
        } else {
            "Snap"@
        },
    }
}

/// The token that stands for an attribute in stored text.
pub open spec fn token_of(tag: TagView) -> Seq<char> {
    match tag {
        TagView::Size(label) => "size"@ + shown_label(label),
        TagView::Color(label) => "color"@ + shown_label(label),
        TagView::Fitted(fitted) => if fitted {
            "fitted"@
        } else {
            "snap"@
        },
    }
}

/// The attribute that `classify` gives back for the token of `tag`.
pub open spec fn canonical(tag: TagView) -> TagView {
    match tag {
        TagView::Size(label) => TagView::Size(shown_label(label)),
        TagView::Color(label) => TagView::Color(shown_label(label)),
        TagView::Fitted(fitted) => TagView::Fitted(fitted),
    }
}

/// The views of a vector of attributes.
pub open spec fn tag_views(tags: Seq<VarTag>) -> Seq<TagView> {
    tags.map_values(|t: VarTag| t@)
}

/// The attributes that a sequence of tokens stands for, in order; a token
/// that stands for none is left out.
pub open spec fn classify_all(tokens: Seq<Seq<char>>) -> Seq<TagView>
    decreases tokens.len(),
{
    if tokens.len() == 0 {
        Seq::empty()
    } else {
        let head = classify_all(tokens.drop_last());
        match classify(tokens.last()) {
            Some(tag) => head.push(tag),
            None => head,
        }
    }
}

/// The attributes that a stored text holds.
pub open spec fn decoded(text: Seq<char>) -> Seq<TagView> {
    classify_all(words(text))
}

/// The tokens of a sequence of attributes.
pub open spec fn tokens_of(tags: Seq<TagView>) -> Seq<Seq<char>> {
    tags.map_values(|t: TagView| token_of(t))
}

/// The stored text of a sequence of attributes.
pub open spec fn encoded(tags: Seq<TagView>) -> Seq<char> {
    joined(tokens_of(tags), " "@)
}

/// Writes a label as it is shown.
fn show_label(label: &str) -> (out: String)
    ensures
        out@ == shown_label(label@),
{
    let lower = label.to_lowercase();
    capitalize(lower.as_str())
}

impl VarTag {
    /// The token that stands for this attribute in stored text: `size` or
    /// `color` followed by the label as it is shown, or `fitted` or `snap`.
    /// `from_str` reads it back.
    pub fn to_string(&self) -> (out: String)
        ensures
            out@ == token_of(self@),
    {
        match self {
            VarTag::Size(label) => {
                let mut out = "size".to_owned();
                out.append(show_label(label.as_str()).as_str());
                out
            },
            VarTag::Color(label) => {
                let mut out = "color".to_owned();
                out.append(show_label(label.as_str()).as_str());
                out
            },
            VarTag::Fitted(fitted) => if *fitted {
                "fitted".to_owned()
            } else {
                "snap".to_owned()
            },
        }
    }

    /// What a reader sees for this attribute: the label, or `Fitted` or
    /// `Snap`.
    pub fn caption(&self) -> (out: String)
        ensures
            out@ == shown(self@),
    {
        match self {
            VarTag::Size(label) => show_label(label.as_str()),
            VarTag::Color(label) => show_label(label.as_str()),
            VarTag::Fitted(fitted) => if *fitted {
                "Fitted".to_owned()
            } else {
                "Snap".to_owned()
            },
        }
    }

    /// Reads one token. Fails on a token that stands for no attribute.
    pub fn from_str(s: &str) -> (parsed: Result<VarTag, ()>)
        ensures
            match parsed {
                Ok(tag) => classify(s@) == Some(tag@),
                Err(_) => classify(s@) is None,
            },
    {
        proof {
            reveal_strlit("size");
            reveal_strlit("color");
        }
        if let Some(label) = strip_prefix(s, "size") {
            Ok(VarTag::Size(label))
        } else if let Some(label) = strip_prefix(s, "color") {
            Ok(VarTag::Color(label))
        } else if same_text(s, "fitted") {
            Ok(VarTag::Fitted(true))
        } else if same_text(s, "snap") {
            Ok(VarTag::Fitted(false))
        } else {
            Err(())
        }
    }
}

/// Reads the attributes out of a stored text. Tokens that stand for no
/// attribute are skipped.
pub fn decode(text: &str) -> (tags: Vec<VarTag>)
    ensures
        tag_views(tags@) == decoded(text@),
{
    let tokens = split_words(text);
    let mut tags: Vec<VarTag> = Vec::new();
    let mut i: usize = 0;
    while i < tokens.len()
        invariant
            i <= tokens.len(),
            views(tokens@) == words(text@),
            tag_views(tags@) == classify_all(views(tokens@).take(i as int)),
        decreases tokens.len() - i,
    {
        let ghost prev = views(tokens@).take(i as int);
        let ghost next = views(tokens@).take(i as int + 1);
        assert(next.drop_last() == prev);
        assert(next.last() == tokens@[i as int]@);
        match VarTag::from_str(tokens[i].as_str()) {
            Ok(tag) => {
                let ghost before = tags@;
                tags.push(tag);
                assert(tag_views(tags@) == tag_views(before).push(tag@));
            },
            Err(_) => {},
        }
        i += 1;
    }
    assert(views(tokens@).take(tokens.len() as int) == views(tokens@));
    tags
}

/// Writes attributes as stored text: their tokens with one space between
/// neighbours.
pub fn encode(tags: &Vec<VarTag>) -> (text: String)
    ensures
        text@ == encoded(tag_views(tags@)),
{
    let mut tokens: Vec<String> = Vec::new();
    let mut i: usize = 0;
    while i < tags.len()
        invariant
            i <= tags.len(),
            views(tokens@) == tokens_of(tag_views(tags@)).take(i as int),
        decreases tags.len() - i,
    {
        let ghost before = tokens@;
        let token = tags[i].to_string();
        tokens.push(token);
        assert(views(tokens@) == views(before).push(token@));
        assert(tokens_of(tag_views(tags@)).take(i as int + 1) == tokens_of(
            tag_views(tags@),
        ).take(i as int).push(token@));
        i += 1;
    }
    assert(tokens_of(tag_views(tags@)).take(tags.len() as int) == tokens_of(tag_views(tags@)));
    join(&tokens, " ")
}

} // verus!
