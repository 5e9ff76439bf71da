//! What the parser reports of text that it cannot parse.
use vstd::prelude::*;

verus! {

/// One defect found while parsing, as a message for the reader.
#[derive(Debug, PartialEq)]
pub struct ParsingError(pub String);

impl Clone for ParsingError {
    fn clone(&self) -> (res: Self)
        ensures
            res == *self,
    {
        ParsingError(self.0.clone())
    }
}

impl View for ParsingError {
    type V = Seq<char>;

    open spec fn view(&self) -> Seq<char> {
        self.0@
    }
}

} // verus!
