//! Subscriber counts as the tables write them: a decimal literal, scaled by
//! the unit of the table it stands in.

use vstd::prelude::*;
use crate::text::{chars_of, digit, is_digit, string_of, strip_spaces, without_spaces};

verus! {

/// The characters a count is written with: the decimal digits and the point.
pub open spec fn is_amount_char(c: char) -> bool {
    is_digit(c) || c == '.'
}

/// The first `n` characters of `s` are its longest run of amount characters
/// from the start.
pub open spec fn is_amount_run(s: Seq<char>, n: int) -> bool {
    &&& 0 <= n <= s.len()
    &&& forall|i: int| 0 <= i < n ==> is_amount_char(s[i])
    &&& n < s.len() ==> !is_amount_char(s[n])
}

/// The longest run of amount characters that `s` starts with.
pub open spec fn leading_amount(s: Seq<char>) -> Seq<char> {
    s.take(choose|n: int| is_amount_run(s, n))
}

/// `t` is a decimal literal: it starts with a digit, holds digits and points
/// only, and at most one point.
pub open spec fn is_decimal(t: Seq<char>) -> bool {
    &&& t.len() > 0
    &&& is_digit(t[0])
    &&& forall|i: int| 0 <= i < t.len() ==> is_amount_char(t[i])
    &&& forall|i: int, j: int| 0 <= i < j < t.len() ==> !(t[i] == '.' && t[j] == '.')
}

/// The count that the text of a cell holds: the longest run of amount
/// characters at the start of the text, its spaces taken out first, where
/// that run is a decimal literal.
pub open spec fn amount_in(text: Seq<char>) -> Option<Seq<char>> {
    let token = leading_amount(without_spaces(text));
    if is_decimal(token) {
        Some(token)
    } else {
        None
    }
}

/// A text has one longest run of amount characters at its start: where the
/// first `n` characters are such a run, they are [`leading_amount`].
pub proof fn lemma_amount_run_is_leading(s: Seq<char>, n: int)
    requires
        is_amount_run(s, n),
    ensures
        leading_amount(s) == s.take(n),
{
    let chosen = choose|m: int| is_amount_run(s, m);
    assert(is_amount_run(s, chosen));
    if chosen < n {
        assert(is_amount_char(s[chosen]));
    }
    if n < chosen {
        assert(is_amount_char(s[n]));
    }
}

/// Every text has a longest run of amount characters at its start, and
/// [`leading_amount`] is that run.
pub proof fn lemma_leading_amount(s: Seq<char>)
    ensures
        is_amount_run(s, leading_amount(s).len() as int),
        leading_amount(s) == s.take(leading_amount(s).len() as int),
{
    let n = lemma_amount_run_after(s, 0);
    lemma_amount_run_is_leading(s, n);
}

/// A run of amount characters that reaches `from` ends somewhere.
proof fn lemma_amount_run_after(s: Seq<char>, from: int) -> (n: int)
    requires
        0 <= from <= s.len(),
        forall|i: int| 0 <= i < from ==> is_amount_char(s[i]),
    ensures
        is_amount_run(s, n),
    decreases s.len() - from,
{
    if from < s.len() && is_amount_char(s[from]) {
        lemma_amount_run_after(s, from + 1)
    } else {
        from
    }
}

pub fn amount_char(c: char) -> (b: bool)
    ensures
        b == is_amount_char(c),
{
    digit(c) || c == '.'
}

/// Cuts `chars` down to the longest run of amount characters it starts with.
pub fn take_amount(chars: &Vec<char>) -> (token: Vec<char>)
    ensures
        token@ == leading_amount(chars@),
{
    let mut n: usize = 0;
    while n < chars.len() && amount_char(chars[n])
        invariant
            n <= chars.len(),
            forall|i: int| 0 <= i < n ==> is_amount_char(chars@[i]),
        decreases chars.len() - n,
    {
        n += 1;
    }
    proof {
        lemma_amount_run_is_leading(chars@, n as int);
    }
    let mut token = chars.clone();
    token.truncate(n);
    token
}

/// Whether `chars` is a decimal literal.
pub fn decimal(chars: &Vec<char>) -> (b: bool)
    ensures
        b == is_decimal(chars@),
{
    if chars.len() == 0 || !digit(chars[0]) {
        return false;
    }
    let mut point: bool = false;
    let ghost mut point_at: int = 0;
    let mut i: usize = 0;
    while i < chars.len()
        invariant
            i <= chars.len(),
            forall|k: int| 0 <= k < i ==> is_amount_char(chars@[k]),
            forall|k: int, l: int| 0 <= k < l < i ==> !(chars@[k] == '.' && chars@[l] == '.'),
            point ==> 0 <= point_at < i && chars@[point_at] == '.',
            !point ==> forall|k: int| 0 <= k < i ==> chars@[k] != '.',
        decreases chars.len() - i,
    {
        let c = chars[i];
        if c == '.' {
            if point {
                assert(!is_decimal(chars@)) by {
                    assert(chars@[point_at] == '.' && chars@[i as int] == '.');
                }
                return false;
            }
            point = true;
            proof {
                point_at = i as int;
            }
        } else if !digit(c) {
            assert(!is_amount_char(chars@[i as int]));
            return false;
        }
        i += 1;
    }
    true
}

/// A subscriber count: the decimal literal that its cell gave, and the
/// factor by which the unit of its table scales it. The count itself is the
/// literal's value times the factor; a literal has no sign, so no count is
/// below zero.
#[derive(Debug, PartialEq, Eq)]
pub struct Subscribers {
    literal: String,
    multiplier: usize,
}

/// What a [`Subscribers`] value holds.
pub struct SubscribersView {
    pub literal: Seq<char>,
    pub multiplier: usize,
}

impl View for Subscribers {
    type V = SubscribersView;

    closed spec fn view(&self) -> SubscribersView {
        SubscribersView { literal: self.literal@, multiplier: self.multiplier }
    }
}

impl Subscribers {
    #[verifier::type_invariant]
    closed spec fn well_formed(&self) -> bool {
        is_decimal(self.literal@)
    }

    /// Reads the count out of the text of a cell, to be scaled by
    /// `multiplier`. Spaces in the text count for nothing, and what follows
    /// the number is left out. There is a count where the text then starts
    /// with a decimal literal.
    pub fn read(text: &str, multiplier: usize) -> (count: Option<Subscribers>)
        ensures
            match amount_in(text@) {
                Some(literal) => count is Some && count->0@ == (SubscribersView {
                    literal,
                    multiplier,
                }),
                None => count is None,
            },
    {
        let cleaned = strip_spaces(&chars_of(text));
        let token = take_amount(&cleaned);
        if decimal(&token) {
            Some(Subscribers { literal: string_of(&token), multiplier })
        } else {
            None
        }
    }

    /// The decimal literal of the count.
    pub fn literal(&self) -> (literal: &str)
        ensures
            literal@ == self@.literal,
            is_decimal(literal@),
    {
        proof {
            use_type_invariant(self);
        }
        self.literal.as_str()
    }

    /// The factor that scales the literal.
    pub fn multiplier(&self) -> (multiplier: usize)
        ensures
            multiplier == self@.multiplier,
    {
        self.multiplier
    }
}

} // verus!
