//! The shopping cart: a list of lines, each a product under a name and a
//! variant with a quantity. What else a line carries is up to the caller.

use vstd::prelude::*;
use crate::text::same_text;

verus! {

/// One line of a cart. `detail` is carried along and never read.
#[derive(Debug, PartialEq, Eq)]
pub struct CartLine<T> {
    pub name: String,
    pub variant: String,
    pub quantity: u32,
    pub detail: T,
}

impl<T> CartLine<T> {
    /// Whether the line is for `name` in the variant `variant`.
    pub open spec fn is_for(self, name: Seq<char>, variant: Seq<char>) -> bool {
        self.name@ == name && self.variant@ == variant
    }

    /// The same line with another quantity.
    pub open spec fn with_quantity(self, quantity: u32) -> CartLine<T> {
        CartLine { quantity, ..self }
    }

    /// Tells whether the line is for `name` in the variant `variant`.
    pub fn matches(&self, name: &str, variant: &str) -> (same: bool)
        ensures
            same == self.is_for(name@, variant@),
    {
        same_text(self.name.as_str(), name) && same_text(self.variant.as_str(), variant)
    }
}

/// The place of the first line for `name` in the variant `variant`, if the
/// cart has one.
pub open spec fn first_line<T>(lines: Seq<CartLine<T>>, name: Seq<char>, variant: Seq<char>)
    -> Option<int>
    decreases lines.len(),
{
    if lines.len() == 0 {
        None
    } else {
        match first_line(lines.drop_last(), name, variant) {
            Some(i) => Some(i),
            None => if lines.last().is_for(name, variant) {
                Some(lines.len() - 1)
            } else {
                None
            },
        }
    }
}

/// The cart after `new` was put in: where it has a line for the same name
/// and variant, the first such line grows by the quantity of `new`; else
/// `new` becomes its last line, with the quantity 1.
pub open spec fn put_in<T>(lines: Seq<CartLine<T>>, new: CartLine<T>) -> Seq<CartLine<T>> {
    match first_line(lines, new.name@, new.variant@) {
        Some(i) => lines.update(i, lines[i].with_quantity((lines[i].quantity + new.quantity) as u32)),
        None => lines.push(new.with_quantity(1)),
    }
}

/// Whether `new` can be put in without a quantity leaving the range of
/// `u32`.
pub open spec fn can_put_in<T>(lines: Seq<CartLine<T>>, new: CartLine<T>) -> bool {
    first_line(lines, new.name@, new.variant@) matches Some(i) ==> lines[i].quantity + new.quantity
        <= u32::MAX
}

/// The sum of the quantities of all lines.
pub open spec fn total_quantity<T>(lines: Seq<CartLine<T>>) -> int
    decreases lines.len(),
{
    if lines.len() == 0 {
        0
    } else {
        total_quantity(lines.drop_last()) + lines.last().quantity
    }
}

/// The cart without its lines for `name` in the variant `variant`.
pub open spec fn taken_out<T>(lines: Seq<CartLine<T>>, name: Seq<char>, variant: Seq<char>) -> Seq<
    CartLine<T>,
>
    decreases lines.len(),
{
    if lines.len() == 0 {
        Seq::empty()
    } else if lines.last().is_for(name, variant) {
        taken_out(lines.drop_last(), name, variant)
    } else {
        taken_out(lines.drop_last(), name, variant).push(lines.last())
    }
}

/// The first line of a cart that matches is at a place inside the cart, it
/// matches, and no line before it does.
pub proof fn lemma_first_line<T>(lines: Seq<CartLine<T>>, name: Seq<char>, variant: Seq<char>)
    ensures
        match first_line(lines, name, variant) {
            Some(i) => 0 <= i < lines.len() && lines[i].is_for(name, variant) && forall|j: int|
                0 <= j < i ==> !(#[trigger] lines[j]).is_for(name, variant),
            None => forall|j: int| 0 <= j < lines.len() ==> !(#[trigger] lines[j]).is_for(
                name,
                variant,
            ),
        },
    decreases lines.len(),
{
    if lines.len() > 0 {
        lemma_first_line(lines.drop_last(), name, variant);
        assert(forall|j: int| 0 <= j < lines.len() - 1 ==> lines.drop_last()[j] == lines[j]);
    }
}

/// The place of the first line for `name` in the variant `variant`.
pub fn find_line<T>(lines: &Vec<CartLine<T>>, name: &str, variant: &str) -> (place: Option<usize>)
    ensures
        match place {
            Some(i) => first_line(lines@, name@, variant@) == Some(i as int) && i < lines.len(),
            None => first_line(lines@, name@, variant@) is None,
        },
{
    let mut i: usize = 0;
    while i < lines.len()
        invariant
            i <= lines.len(),
            first_line(lines@.take(i as int), name@, variant@) is None,
        decreases lines.len() - i,
    {
        assert(lines@.take(i as int + 1).drop_last() == lines@.take(i as int));
        if lines[i].matches(name, variant) {
            proof {
                lemma_first_line_of_prefix(lines@, i as int + 1, name@, variant@);
            }
            return Some(i);
        }
        i += 1;
    }
    assert(lines@.take(lines.len() as int) == lines@);
    None
}

/// A match inside a prefix of the cart is the first match of the whole cart.
pub proof fn lemma_first_line_of_prefix<T>(
    lines: Seq<CartLine<T>>,
    n: int,
    name: Seq<char>,
    variant: Seq<char>,
)
    requires
        0 <= n <= lines.len(),
        first_line(lines.take(n), name, variant) is Some,
    ensures
        first_line(lines, name, variant) == first_line(lines.take(n), name, variant),
    decreases lines.len() - n,
{
    if n < lines.len() {
        assert(lines.take(n + 1).drop_last() == lines.take(n));
        lemma_first_line_of_prefix(lines, n + 1, name, variant);
    } else {
        assert(lines.take(n) == lines);
    }
}

/// Puts `new` in the cart.
pub fn add_line<T>(lines: &mut Vec<CartLine<T>>, new: CartLine<T>)
    requires
        can_put_in(old(lines)@, new),
    ensures
        final(lines)@ == put_in(old(lines)@, new),
{
    match find_line(lines, new.name.as_str(), new.variant.as_str()) {
        Some(i) => {
            let ghost before = lines@;
            let sum = lines[i].quantity + new.quantity;
            lines[i].quantity = sum;
            assert(lines@ == before.update(i as int, before[i as int].with_quantity(sum)));
        },
        None => {
            let mut new = new;
            new.quantity = 1;
            lines.push(new);
        },
    }
}

/// The sum of the quantities of all lines, where it fits in `u32`.
pub fn count_items<T>(lines: &Vec<CartLine<T>>) -> (count: Option<u32>)
    ensures
        match count {
            Some(n) => n == total_quantity(lines@),
            None => total_quantity(lines@) > u32::MAX,
        },
{
    let mut sum: u32 = 0;
    let mut i: usize = 0;
    while i < lines.len()
        invariant
            i <= lines.len(),
            sum == total_quantity(lines@.take(i as int)),
        decreases lines.len() - i,
    {
        assert(lines@.take(i as int + 1).drop_last() == lines@.take(i as int));
        match sum.checked_add(lines[i].quantity) {
            Some(next) => {
                sum = next;
            },
            None => {
                proof {
                    lemma_total_grows(lines@, i as int + 1);
                }
                return None;
            },
        }
        i += 1;
    }
    assert(lines@.take(lines.len() as int) == lines@);
    Some(sum)
}

/// A quantity read as a signed number of 32 bits: the upper half of the
/// range of `u32` stands for the negative numbers.
pub open spec fn signed(quantity: u32) -> int {
    if quantity <= i32::MAX {
        quantity as int
    } else {
        quantity - 0x1_0000_0000
    }
}

/// The sum of the quantities of all lines, each read as a signed number.
pub open spec fn signed_total<T>(lines: Seq<CartLine<T>>) -> int
    decreases lines.len(),
{
    if lines.len() == 0 {
        0
    } else {
        signed_total(lines.drop_last()) + signed(lines.last().quantity)
    }
}

/// Whether the signed quantities can be summed from the first line on
/// without a sum leaving the range of `i32`.
pub open spec fn signed_sums_fit<T>(lines: Seq<CartLine<T>>) -> bool {
    forall|n: int|
        0 <= n <= lines.len() ==> i32::MIN <= #[trigger] signed_total(lines.take(n)) <= i32::MAX
}

/// The sum of the quantities of all lines, each read as a signed number of
/// 32 bits, where no sum on the way leaves the range of `i32`.
pub fn count_signed<T>(lines: &Vec<CartLine<T>>) -> (count: Option<i32>)
    ensures
        match count {
            Some(n) => signed_sums_fit(lines@) && n == signed_total(lines@),
            None => !signed_sums_fit(lines@),
        },
{
    let mut sum: i32 = 0;
    let mut i: usize = 0;
    while i < lines.len()
        invariant
            i <= lines.len(),
            sum == signed_total(lines@.take(i as int)),
            forall|n: int|
                0 <= n <= i ==> i32::MIN <= #[trigger] signed_total(lines@.take(n)) <= i32::MAX,
        decreases lines.len() - i,
    {
        assert(lines@.take(i as int + 1).drop_last() == lines@.take(i as int));
        let quantity = lines[i].quantity;
        let read: i32 = if quantity <= 0x7fff_ffff {
            quantity as i32
        } else {
            (quantity as i64 - 0x1_0000_0000) as i32
        };
        match sum.checked_add(read) {
            Some(next) => {
                sum = next;
            },
            None => {
                assert(!(i32::MIN <= signed_total(lines@.take(i as int + 1)) <= i32::MAX));
                return None;
            },
        }
        i += 1;
    }
    assert(lines@.take(lines.len() as int) == lines@);
    Some(sum)
}

/// The quantities of a prefix of the cart sum to no more than those of the
/// whole cart.
pub proof fn lemma_total_grows<T>(lines: Seq<CartLine<T>>, n: int)
    requires
        0 <= n <= lines.len(),
    ensures
        total_quantity(lines.take(n)) <= total_quantity(lines),
    decreases lines.len() - n,
{
    if n < lines.len() {
        assert(lines.take(n + 1).drop_last() == lines.take(n));
        lemma_total_grows(lines, n + 1);
    } else {
        assert(lines.take(n) == lines);
    }
}

/// What is left after taking out holds no line for the name and variant,
/// and is no longer than the cart was; a cart without such a line stays as
/// it is.
pub proof fn lemma_taken_out<T>(lines: Seq<CartLine<T>>, name: Seq<char>, variant: Seq<char>)
    ensures
        taken_out(lines, name, variant).len() <= lines.len(),
        forall|i: int|
            0 <= i < taken_out(lines, name, variant).len() ==> !(#[trigger] taken_out(
                lines,
                name,
                variant,
            )[i]).is_for(name, variant),
        first_line(lines, name, variant) is None ==> taken_out(lines, name, variant) == lines,
    decreases lines.len(),
{
    if lines.len() > 0 {
        let front = lines.drop_last();
        lemma_taken_out(front, name, variant);
        if first_line(lines, name, variant) is None {
            assert(front.push(lines.last()) == lines);
        }
    }
}

/// Takes the lines for `name` in the variant `variant` out of the cart and
/// returns what is left, in order.
pub fn remove_lines<T>(lines: Vec<CartLine<T>>, name: &str, variant: &str) -> (left: Vec<
    CartLine<T>,
>)
    ensures
        left@ == taken_out(lines@, name@, variant@),
{
    let ghost all = lines@;
    let mut left: Vec<CartLine<T>> = Vec::new();
    for line in it: lines
        invariant
            it.seq() == all,
            left@ == taken_out(all.take(it.index() as int), name@, variant@),
    {
        assert(all.take(it.index() as int + 1).drop_last() == all.take(it.index() as int));
        if !line.matches(name, variant) {
            left.push(line);
        }
    }
    assert(all.take(all.len() as int) == all);
    left
}

} // verus!
