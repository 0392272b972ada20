//! Cleaning of names: the notes at the end of a name are cut off, so that
//! no name ends in a bracketed annotation or in an escaped line break.

use vstd::prelude::*;
use crate::text::{chars_of, is_whitespace, string_of, whitespace};

verus! {

/// `s` ends in an escaped line break: a backslash and then the letter `n`.
pub open spec fn ends_in_escape(s: Seq<char>) -> bool {
    s.len() >= 2 && s[s.len() - 1] == 'n' && s[s.len() - 2] == '\\'
}

/// `s` ends in a bracketed annotation: its last character is `)`, and a `(`
/// stands somewhere before it, whatever stands between the two.
pub open spec fn ends_in_annotation(s: Seq<char>) -> bool {
    s.len() >= 1 && s[s.len() - 1] == ')' && s.contains('(')
}

/// `s` ends in a note: an escaped line break or a bracketed annotation.
pub open spec fn ends_in_note(s: Seq<char>) -> bool {
    ends_in_escape(s) || ends_in_annotation(s)
}

/// Where the run of backslashes starts that ends before `end`.
pub open spec fn backslashes_start(s: Seq<char>, end: int) -> int
    decreases end,
{
    if end > 0 && s[end - 1] == '\\' {
        backslashes_start(s, end - 1)
    } else {
        end
    }
}

/// Where the run of whitespace starts that ends before `end`.
pub open spec fn whitespace_start(s: Seq<char>, end: int) -> int
    decreases end,
{
    if end > 0 && is_whitespace(s[end - 1]) {
        whitespace_start(s, end - 1)
    } else {
        end
    }
}

/// The place of the last `(` before `end`, and `-1` where there is none.
pub open spec fn last_open(s: Seq<char>, end: int) -> int
    decreases end,
{
    if end <= 0 {
        -1
    } else if s[end - 1] == '(' {
        end - 1
    } else {
        last_open(s, end - 1)
    }
}

/// Where the note starts in which `s` ends, and the length of `s` where it
/// ends in none. An escaped line break starts with the first of the
/// backslashes before its `n`. An annotation reaches from the last `(` of
/// the text to its end, and starts with the whitespace before that bracket.
pub open spec fn note_start(s: Seq<char>) -> int {
    if ends_in_escape(s) {
        backslashes_start(s, s.len() - 1)
    } else if ends_in_annotation(s) {
        whitespace_start(s, last_open(s, s.len() as int))
    } else {
        s.len() as int
    }
}

/// `s` without the notes at its end: the note in which `s` ends is cut off,
/// then the note in which the rest ends, until what is left ends in none.
pub open spec fn stripped(s: Seq<char>) -> Seq<char>
    decreases s.len(),
{
    let start = note_start(s);
    if 0 <= start < s.len() {
        stripped(s.take(start))
    } else {
        s
    }
}

/// A run that ends before `end` starts at `end` or before it.
proof fn lemma_runs(s: Seq<char>, end: int)
    requires
        0 <= end,
    ensures
        0 <= backslashes_start(s, end) <= end,
        0 <= whitespace_start(s, end) <= end,
    decreases end,
{
    if end > 0 {
        lemma_runs(s, end - 1);
    }
}

/// The last `(` before `end` is a `(`, and no `(` stands between it and
/// `end`.
proof fn lemma_last_open(s: Seq<char>, end: int)
    requires
        0 <= end <= s.len(),
    ensures
        -1 <= last_open(s, end) < end,
        last_open(s, end) >= 0 ==> s[last_open(s, end)] == '(',
        forall|i: int| last_open(s, end) < i < end ==> s[i] != '(',
    decreases end,
{
    if end > 0 && s[end - 1] != '(' {
        lemma_last_open(s, end - 1);
    }
}

/// A text that ends in a note has a note of one character at least, and a
/// text that ends in none has none.
pub proof fn lemma_note_start(s: Seq<char>)
    ensures
        0 <= note_start(s) <= s.len(),
        ends_in_note(s) <==> note_start(s) < s.len(),
{
    let n = s.len() as int;
    if ends_in_escape(s) {
        lemma_runs(s, n - 1);
        assert(backslashes_start(s, n - 1) == backslashes_start(s, n - 2));
        lemma_runs(s, n - 2);
    } else if ends_in_annotation(s) {
        lemma_last_open(s, n);
        let at = choose|i: int| 0 <= i < s.len() && s[i] == '(';
        assert(s[at] == '(');
        assert(last_open(s, n) >= 0);
        lemma_runs(s, last_open(s, n));
    }
}

/// What is left of a text is a part of it from its start, and ends in no
/// note; a text that ends in no note is left whole.
pub proof fn lemma_stripped(s: Seq<char>)
    ensures
        stripped(s).len() <= s.len(),
        stripped(s) == s.take(stripped(s).len() as int),
        !ends_in_note(stripped(s)),
        !ends_in_note(s) ==> stripped(s) == s,
    decreases s.len(),
{
    lemma_note_start(s);
    let start = note_start(s);
    if 0 <= start < s.len() {
        let rest = s.take(start);
        lemma_stripped(rest);
        assert(rest.take(stripped(rest).len() as int) == s.take(stripped(rest).len() as int));
    } else {
        assert(s.take(s.len() as int) == s);
    }
}

/// Finds where the note starts in which `chars` ends.
pub fn find_note(chars: &Vec<char>) -> (start: usize)
    ensures
        start == note_start(chars@),
        start <= chars.len(),
        start < chars.len() <==> ends_in_note(chars@),
{
    let n: usize = chars.len();
    let ghost s = chars@;
    proof {
        lemma_note_start(s);
    }
    if n >= 2 && chars[n - 1] == 'n' && chars[n - 2] == '\\' {
        let mut start: usize = n - 1;
        while start > 0 && chars[start - 1] == '\\'
            invariant
                start <= n - 1,
                n == chars.len(),
                s == chars@,
                backslashes_start(s, n - 1) == backslashes_start(s, start as int),
            decreases start,
        {
            start -= 1;
        }
        return start;
    }
    if n >= 1 && chars[n - 1] == ')' {
        let mut end: usize = n;
        while end > 0 && chars[end - 1] != '('
            invariant
                end <= n,
                n == chars.len(),
                s == chars@,
                last_open(s, n as int) == last_open(s, end as int),
            decreases end,
        {
            end -= 1;
        }
        if end > 0 {
            let open: usize = end - 1;
            assert(s[open as int] == '(');
            let mut start: usize = open;
            while start > 0 && whitespace(chars[start - 1])
                invariant
                    start <= open,
                    open < n,
                    n == chars.len(),
                    s == chars@,
                    whitespace_start(s, open as int) == whitespace_start(s, start as int),
                decreases start,
            {
                start -= 1;
            }
            return start;
        }
        proof {
            lemma_last_open(s, n as int);
            if s.contains('(') {
                let at = choose|i: int| 0 <= i < s.len() && s[i] == '(';
                assert(s[at] == '(');
            }
        }
    }
    n
}

/// Removes the notes at the end of `text`: escaped line breaks, and
/// bracketed annotations with the whitespace before them. What comes back
/// is a part of `text` from its start and ends in no note; a text that ends
/// in no note comes back as it is.
pub fn strip_note(text: &str) -> (cleaned: String)
    ensures
        cleaned@ == stripped(text@),
        cleaned@.len() <= text@.len(),
        cleaned@ == text@.take(cleaned@.len() as int),
        !ends_in_note(cleaned@),
        !ends_in_note(text@) ==> cleaned@ == text@,
{
    let mut chars = chars_of(text);
    loop
        invariant
            stripped(chars@) == stripped(text@),
        ensures
            stripped(chars@) == stripped(text@),
            !ends_in_note(chars@),
        decreases chars.len(),
    {
        let start = find_note(&chars);
        if start >= chars.len() {
            break;
        }
        chars.truncate(start);
    }
    proof {
        lemma_note_start(chars@);
        lemma_stripped(text@);
    }
    string_of(&chars)
}

} // verus!
