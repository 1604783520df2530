//! The world outside the interpreter: where printed lines go and where
//! files and lines of input come from.

use crate::text::owned;
use vstd::prelude::*;

verus! {

/// What the interpreter asks of its surroundings. Nothing is promised of
/// the answers: the evaluator is verified for every one of them.
pub trait Host {
    /// Shows one line of text.
    fn print_line(&mut self, line: &str);

    /// The contents of the file at `path`, or `None` where it cannot be read.
    fn read_file(&mut self, path: &str) -> Option<String>;

    /// Shows `prompt` and gives the next line of input, or `None` at its end.
    fn read_line(&mut self, prompt: &str) -> Option<String>;
}

/// A host that talks to nobody: it keeps what was printed, and answers
/// from a table of files and a list of input lines.
pub struct Scripted {
    pub printed: Vec<String>,
    pub files: Vec<(String, String)>,
    pub input: Vec<String>,
    pub consumed: usize,
}

impl Scripted {
    /// A host with nothing printed, no files and no input.
    pub fn new() -> (host: Scripted)
        ensures
            host.printed@.len() == 0,
            host.files@.len() == 0,
            host.input@.len() == 0,
            host.consumed == 0,
    {
        Scripted { printed: Vec::new(), files: Vec::new(), input: Vec::new(), consumed: 0 }
    }

    /// Keeps the line as printed.
    pub fn record(&mut self, line: &str)
        ensures
            final(self).printed@.len() == old(self).printed@.len() + 1,
            final(self).printed@.last()@ == line@,
            final(self).files == old(self).files,
            final(self).input == old(self).input,
            final(self).consumed == old(self).consumed,
    {
        self.printed.push(owned(line));
    }

    /// The contents of the first file in the table with the path `path`.
    pub fn lookup(&self, path: &str) -> (r: Option<String>)
        ensures
            match r {
                Some(text) => exists|i: int|
                    0 <= i < self.files@.len() && (#[trigger] self.files@[i]).0@ == path@
                        && self.files@[i].1@ == text@,
                None => forall|i: int|
                    0 <= i < self.files@.len() ==> (#[trigger] self.files@[i]).0@ != path@,
            },
    {
        let wanted = owned(path);
        let mut i: usize = 0;
        while i < self.files.len()
            invariant
                i <= self.files.len(),
                wanted@ == path@,
                forall|j: int| 0 <= j < i ==> (#[trigger] self.files@[j]).0@ != path@,
            decreases self.files.len() - i,
        {
            if self.files[i].0 == wanted {
                return Some(self.files[i].1.clone());
            }
            i += 1;
        }
        None
    }

    /// The next line of input that was not handed out yet.
    pub fn next_line(&mut self) -> (r: Option<String>)
        ensures
            final(self).printed == old(self).printed,
            final(self).files == old(self).files,
            final(self).input == old(self).input,
            match r {
                Some(line) => old(self).consumed < old(self).input@.len() && line@ == old(
                    self,
                ).input@[old(self).consumed as int]@ && final(self).consumed == old(self).consumed
                    + 1,
                None => old(self).consumed >= old(self).input@.len() && final(self).consumed
                    == old(self).consumed,
            },
    {
        if self.consumed < self.input.len() {
            let line = self.input[self.consumed].clone();
            self.consumed = self.consumed + 1;
            Some(line)
        } else {
            None
        }
    }
}

impl Host for Scripted {
    /// Keeps the line as printed.
    fn print_line(&mut self, line: &str)
        ensures
            final(self).printed@.len() == old(self).printed@.len() + 1,
            final(self).printed@.last()@ == line@,
            final(self).files == old(self).files,
            final(self).input == old(self).input,
            final(self).consumed == old(self).consumed,
    {
        self.record(line);
    }

    /// The contents of the first file in the table with the path `path`.
    fn read_file(&mut self, path: &str) -> (r: Option<String>)
        ensures
            *final(self) == *old(self),
            match r {
                Some(text) => exists|i: int|
                    0 <= i < old(self).files@.len() && (#[trigger] old(self).files@[i]).0@ == path@
                        && old(self).files@[i].1@ == text@,
                None => forall|i: int|
                    0 <= i < old(self).files@.len() ==> (#[trigger] old(self).files@[i]).0@
                        != path@,
            },
    {
        self.lookup(path)
    }

    /// The next line of input that was not handed out yet; the prompt is
    /// shown to nobody.
    fn read_line(&mut self, prompt: &str) -> (r: Option<String>)
        ensures
            final(self).printed == old(self).printed,
            final(self).files == old(self).files,
            final(self).input == old(self).input,
            match r {
                Some(line) => old(self).consumed < old(self).input@.len() && line@ == old(
                    self,
                ).input@[old(self).consumed as int]@ && final(self).consumed == old(self).consumed
                    + 1,
                None => old(self).consumed >= old(self).input@.len() && final(self).consumed
                    == old(self).consumed,
            },
    {
        self.next_line()
    }
}

} // verus!
