//! Where in a configuration file something was found.

use crate::utils::text::{decimal, push_decimal};
use vstd::prelude::*;
use vstd::string::StringExecFns;

verus! {

/// A position in a file.
#[derive(Debug)]
pub struct Location {
    file: String,
    line: usize,
    column: usize,
}

/// What a `Location` stands for.
pub struct LocationView {
    pub file: Seq<char>,
    pub line: nat,
    pub column: nat,
}

impl LocationView {
    /// The position as it is shown to a reader.
    pub open spec fn text(self) -> Seq<char> {
        "in file "@ + self.file + ", line "@ + decimal(self.line) + ", column "@ + decimal(
            self.column,
        )
    }
}

impl View for Location {
    type V = LocationView;

    closed spec fn view(&self) -> LocationView {
        LocationView { file: self.file@, line: self.line as nat, column: self.column as nat }
    }
}

impl Location {
    /// The position at `line` and `column` of `file`.
    pub fn new(file: String, line: usize, column: usize) -> (location: Location)
        ensures
            location@ == (LocationView {
                file: file@,
                line: line as nat,
                column: column as nat,
            }),
    {
        Location { file, line, column }
    }

    /// The position as it is shown to a reader.
    pub fn to_string(&self) -> (text: String)
        ensures
            text@ == self@.text(),
    {
        let mut text = String::from_str("in file ");
        text.append(self.file.as_str());
        text.append(", line ");
        push_decimal(&mut text, self.line);
        text.append(", column ");
        push_decimal(&mut text, self.column);
        text
    }
}

} // verus!
