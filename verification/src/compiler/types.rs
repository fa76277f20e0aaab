use vstd::prelude::*;

verus! {

/// A word of the source with the line and column where it starts.
#[derive(Clone, Debug, PartialEq)]
pub struct NumWord {
    pub word: String,
    pub line: usize,
    pub col: usize,
}

impl NumWord {
    pub fn new(word: String, line: usize, col: usize) -> (r: NumWord)
        ensures
            r.word@ == word@,
            r.line == line,
            r.col == col,
    {
        NumWord { word, line, col }
    }
}

} // verus!
