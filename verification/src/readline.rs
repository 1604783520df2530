//! The line reader's part that computes: what a line of input is once it
//! has been read.

use crate::text::{from_chars_range, to_chars};
use vstd::prelude::*;

verus! {

/// A reader of lines from the terminal: the prompt that it shows.
pub struct DefaultReader {
    pub prompt: String,
}

/// Whether a character is white space.
pub open spec fn is_space(c: char) -> bool {
    let n = c as u32;
    (0x09 <= n <= 0x0d) || n == 0x20 || n == 0x85 || n == 0xa0 || n == 0x1680 || (0x2000 <= n
        <= 0x200a) || n == 0x2028 || n == 0x2029 || n == 0x202f || n == 0x205f || n == 0x3000
}

/// The index of the first character at or after `i` that is no white
/// space; the length where there is none.
pub open spec fn trim_start(s: Seq<char>, i: nat) -> nat
    decreases s.len() - i,
{
    if i < s.len() && is_space(s[i as int]) {
        trim_start(s, i + 1)
    } else {
        i
    }
}

/// The index after the last character before `j` and not before `from`
/// that is no white space; `from` where there is none.
pub open spec fn trim_end(s: Seq<char>, from: nat, j: nat) -> nat
    decreases j,
{
    if from < j <= s.len() && is_space(s[j - 1]) {
        trim_end(s, from, (j - 1) as nat)
    } else {
        j
    }
}

/// The text without the white space at its ends.
pub open spec fn trimmed(s: Seq<char>) -> Seq<char> {
    let from = trim_start(s, 0);
    let to = trim_end(s, from, s.len());
    if from <= to <= s.len() {
        s.subrange(from as int, to as int)
    } else {
        Seq::empty()
    }
}

/// The line that a read gave: none where the read failed or met the end
/// of the input, else the text without the white space at its ends.
pub open spec fn line_spec(read: Option<usize>, input: Seq<char>) -> Option<Seq<char>> {
    match read {
        Some(n) => if n == 0 {
            None
        } else {
            Some(trimmed(input))
        },
        None => None,
    }
}

fn space(c: char) -> (r: bool)
    ensures
        r == is_space(c),
{
    let n = c as u32;
    (0x09 <= n && n <= 0x0d) || n == 0x20 || n == 0x85 || n == 0xa0 || n == 0x1680 || (0x2000 <= n
        && n <= 0x200a) || n == 0x2028 || n == 0x2029 || n == 0x202f || n == 0x205f || n == 0x3000
}

/// The text without the white space at its ends.
pub fn trim(input: &str) -> (r: String)
    ensures
        r@ == trimmed(input@),
{
    let chars = to_chars(input);
    let n = chars.len();
    let mut from: usize = 0;
    while from < n && space(chars[from])
        invariant
            from <= n,
            n == chars.len(),
            chars@ == input@,
            trim_start(input@, 0) == trim_start(input@, from as nat),
        decreases n - from,
    {
        from += 1;
    }
    let mut to: usize = n;
    while from < to && space(chars[to - 1])
        invariant
            from <= to <= n,
            n == chars.len(),
            chars@ == input@,
            trim_end(input@, from as nat, n as nat) == trim_end(input@, from as nat, to as nat),
        decreases to,
    {
        to -= 1;
    }
    from_chars_range(&chars, from, to)
}

impl DefaultReader {
    /// A reader that shows `prompt`.
    pub fn new(prompt: String) -> (r: DefaultReader)
        ensures
            r.prompt@ == prompt@,
    {
        DefaultReader { prompt: prompt }
    }

    /// The line that a read gave. `read` is the number of bytes that came
    /// in, or `None` where the read failed; `input` is what came in.
    pub fn line(&self, read: Option<usize>, input: &str) -> (r: Option<String>)
        ensures
            match r {
                Some(text) => line_spec(read, input@) == Some(text@),
                None => line_spec(read, input@) is None,
            },
    {
        match read {
            Some(n) => {
                if n == 0 {
                    None
                } else {
                    Some(trim(input))
                }
            },
            None => None,
        }
    }
}

} // verus!
