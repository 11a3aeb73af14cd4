//! Postal addresses and the single line of text in which one is stored.

use vstd::prelude::*;
use crate::text::{char_is_space, is_space, join, joined, views};

verus! {

/// What follows the last `sep` in `s`; all of `s` where it holds no `sep`.
pub open spec fn last_field(s: Seq<char>, sep: char) -> Seq<char>
    decreases s.len(),
{
    if s.len() == 0 || s.last() == sep {
        Seq::empty()
    } else {
        last_field(s.drop_last(), sep).push(s.last())
    }
}

/// The fields of `s` that a `sep` ends.
pub open spec fn closed_fields(s: Seq<char>, sep: char) -> Seq<Seq<char>>
    decreases s.len(),
{
    if s.len() == 0 {
        Seq::empty()
    } else if s.last() == sep {
        closed_fields(s.drop_last(), sep).push(last_field(s.drop_last(), sep))
    } else {
        closed_fields(s.drop_last(), sep)
    }
}

/// The fields of `s`: what stands before, between and after its separators.
/// There is one field more than there are separators.
pub open spec fn fields(s: Seq<char>, sep: char) -> Seq<Seq<char>> {
    closed_fields(s, sep).push(last_field(s, sep))
}

/// Where the part of `s` that `trimmed` keeps begins: the place of its first
/// character that is no whitespace, or the length of `s`.
pub open spec fn kept_from(s: Seq<char>) -> int
    decreases s.len(),
{
    if s.len() == 0 {
        0
    } else if kept_from(s.drop_last()) < s.len() - 1 {
        kept_from(s.drop_last())
    } else if is_space(s.last()) {
        s.len() as int
    } else {
        s.len() - 1
    }
}

/// Where the part of `s` that `trimmed` keeps ends: behind its last character
/// that is no whitespace, or 0.
pub open spec fn kept_to(s: Seq<char>) -> int
    decreases s.len(),
{
    if s.len() == 0 {
        0
    } else if is_space(s.last()) {
        kept_to(s.drop_last())
    } else {
        s.len() as int
    }
}

/// `s` without the whitespace at its two ends.
pub open spec fn trimmed(s: Seq<char>) -> Seq<char> {
    if kept_from(s) < kept_to(s) {
        s.subrange(kept_from(s), kept_to(s))
    } else {
        Seq::empty()
    }
}

/// Splits `text` at every `sep`.
pub fn split_fields(text: &str, sep: char) -> (out: Vec<String>)
    ensures
        views(out@) == fields(text@, sep),
{
    let mut out: Vec<String> = Vec::new();
    let mut field = String::new();
    for c in it: text.chars()
        invariant
            it.seq() == text@,
            views(out@) == closed_fields(text@.take(it.index() as int), sep),
            field@ == last_field(text@.take(it.index() as int), sep),
    {
        let ghost before = text@.take(it.index() as int);
        let ghost after = text@.take(it.index() as int + 1);
        assert(after.drop_last() == before);
        assert(after.last() == c);
        if c == sep {
            let ghost old_out = out@;
            out.push(field);
            assert(views(out@) == views(old_out).push(field@));
            field = String::new();
        } else {
            field.push(c);
        }
    }
    assert(text@.take(text@.len() as int) == text@);
    let ghost old_out = out@;
    out.push(field);
    assert(views(out@) == views(old_out).push(field@));
    out
}

/// Removes the whitespace at the two ends of `text`.
pub fn trim(text: &str) -> (out: String)
    ensures
        out@ == trimmed(text@),
{
    let total = text.unicode_len();
    let mut from: usize = 0;
    let mut to: usize = 0;
    let mut n: usize = 0;
    for c in it: text.chars()
        invariant
            it.seq() == text@,
            total == text@.len(),
            n == it.index(),
            from == kept_from(text@.take(n as int)),
            to == kept_to(text@.take(n as int)),
            from <= n,
            to <= n,
            n <= text@.len(),
    {
        let ghost before = text@.take(n as int);
        let ghost after = text@.take(n as int + 1);
        assert(after.drop_last() == before);
        assert(after.last() == c);
        assert(n < text@.len());
        if char_is_space(c) {
            if from == n {
                from = n + 1;
            }
        } else {
            to = n + 1;
        }
        n = n + 1;
    }
    assert(text@.take(text@.len() as int) == text@);
    if from < to {
        text.substring_char(from, to).to_owned()
    } else {
        String::new()
    }
}

/// A postal address.
#[derive(Debug, PartialEq, Eq)]
pub struct Address {
    pub address_line_1: String,
    /// The city.
    pub admin_area_2: String,
    /// The state.
    pub admin_area_1: String,
    pub postal_code: String,
    pub country_code: String,
}

/// An `Address` as a mathematical value: its five parts, in the order in
/// which they are written.
pub open spec fn address_parts(a: Address) -> Seq<Seq<char>> {
    seq![a.address_line_1@, a.admin_area_2@, a.admin_area_1@, a.postal_code@, a.country_code@]
}

/// The line that is stored for an address: its parts, with a comma and a
/// space between neighbours.
pub open spec fn address_line(parts: Seq<Seq<char>>) -> Seq<char> {
    joined(parts, ", "@)
}

/// The parts that a stored line holds: its five fields between commas, each
/// without the whitespace at its ends. A line with another number of fields
/// holds no address.
pub open spec fn parts_in(line: Seq<char>) -> Option<Seq<Seq<char>>> {
    if fields(line, ',').len() == 5 {
        Some(fields(line, ',').map_values(|f: Seq<char>| trimmed(f)))
    } else {
        None
    }
}

/// Writes an address as the line that is stored for it.
pub fn format_address(address: &Address) -> (line: String)
    ensures
        line@ == address_line(address_parts(*address)),
{
    let mut parts: Vec<String> = Vec::new();
    parts.push(address.address_line_1.clone());
    parts.push(address.admin_area_2.clone());
    parts.push(address.admin_area_1.clone());
    parts.push(address.postal_code.clone());
    parts.push(address.country_code.clone());
    assert(views(parts@) == address_parts(*address));
    join(&parts, ", ")
}

/// Reads an address from a stored line. There is none where the line does
/// not have five fields.
pub fn parse_address(line: &str) -> (address: Option<Address>)
    ensures
        match address {
            Some(a) => parts_in(line@) == Some(address_parts(a)),
            None => parts_in(line@) is None,
        },
{
    let parts = split_fields(line, ',');
    if parts.len() != 5 {
        return None;
    }
    assert(forall|i: int| 0 <= i < 5 ==> views(parts@)[i] == (#[trigger] parts@[i])@);
    let address = Address {
        address_line_1: trim(parts[0].as_str()),
        admin_area_2: trim(parts[1].as_str()),
        admin_area_1: trim(parts[2].as_str()),
        postal_code: trim(parts[3].as_str()),
        country_code: trim(parts[4].as_str()),
    };
    assert(address_parts(address) == fields(line@, ',').map_values(|f: Seq<char>| trimmed(f)));
    Some(address)
}

/// What `trimmed` keeps lies between two bounds inside the text; nothing but
/// whitespace stands before the first bound and behind the second; and where
/// anything is kept, it begins and ends with a character that is no
/// whitespace.
pub proof fn lemma_trimmed_bounds(s: Seq<char>)
    ensures
        0 <= kept_from(s) <= s.len(),
        0 <= kept_to(s) <= s.len(),
        forall|i: int| 0 <= i < kept_from(s) ==> is_space(#[trigger] s[i]),
        forall|i: int| kept_to(s) <= i < s.len() ==> is_space(#[trigger] s[i]),
        kept_from(s) < s.len() ==> !is_space(s[kept_from(s)]),
        kept_to(s) > 0 ==> !is_space(s[kept_to(s) - 1]),
        kept_from(s) < s.len() <==> kept_to(s) > 0,
        kept_from(s) < s.len() ==> kept_from(s) < kept_to(s),
    decreases s.len(),
{
    if s.len() > 0 {
        let front = s.drop_last();
        lemma_trimmed_bounds(front);
        assert(forall|i: int| 0 <= i < front.len() ==> front[i] == s[i]);
    }
}

} // verus!
