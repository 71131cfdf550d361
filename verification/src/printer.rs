//! Laying text out for a terminal: indented lines, lists, blocks.
//!
//! A `Printer` keeps track of the indentation and of whether a line has been
//! begun. Each of its methods hands back the text to write next.

use crate::actions::commands::texts_of;
use crate::utils::text::{lines, lines_of, repeat, repeated};
use vstd::prelude::*;
use vstd::string::StrSliceExecFns;
use vstd::string::StringExecFns;
use vstd::string::StringSliceAdditionalSpecFns;

verus! {

/// Keeps the indentation and the place on the line.
#[derive(Debug)]
pub struct Printer {
    indent: usize,
    new_line: bool,
}

/// What a `Printer` stands for.
pub struct PrinterView {
    /// How many levels the printer is indented.
    pub indent: nat,
    /// Whether the next text begins a line.
    pub new_line: bool,
}

impl PrinterView {
    /// The indentation due before the next text: two spaces for each level
    /// at the start of a line, nothing within a line.
    pub open spec fn pad(self) -> Seq<char> {
        if self.new_line {
            repeated("  "@, self.indent)
        } else {
            Seq::empty()
        }
    }

    /// A piece of text as it is written: after a space and the indentation.
    pub open spec fn piece(self, value: Seq<char>) -> Seq<char> {
        " "@ + self.pad() + value
    }
}

/// The items of a list in a row, with a comma and a space between them.
pub open spec fn joined(items: Seq<Seq<char>>) -> Seq<char>
    decreases items.len(),
{
    if items.len() == 0 {
        Seq::empty()
    } else if items.len() == 1 {
        items[0]
    } else {
        joined(items.drop_last()) + ", "@ + items.last()
    }
}

/// The lines of a block, each written as a piece on a line of its own.
pub open spec fn block(printer: PrinterView, lines: Seq<Seq<char>>) -> Seq<char>
    decreases lines.len(),
{
    if lines.len() == 0 {
        Seq::empty()
    } else {
        block(printer, lines.drop_last()) + printer.piece(lines.last()) + "\n"@
    }
}

impl View for Printer {
    type V = PrinterView;

    closed spec fn view(&self) -> PrinterView {
        PrinterView { indent: self.indent as nat, new_line: self.new_line }
    }
}

impl Printer {
    /// A printer at the start of a line, not indented.
    pub fn new() -> (printer: Printer)
        ensures
            printer@ == (PrinterView { indent: 0, new_line: true }),
    {
        Printer { indent: 0, new_line: true }
    }

    /// The indentation due before the next text.
    pub fn pad(&self) -> (padding: String)
        ensures
            padding@ == self@.pad(),
    {
        if self.new_line {
            repeat("  ", self.indent)
        } else {
            String::new()
        }
    }

    /// Indents what follows by one more level.
    pub fn indent(&mut self)
        requires
            old(self)@.indent < usize::MAX,
        ensures
            final(self)@ == (PrinterView { indent: old(self)@.indent + 1, ..old(self)@ }),
    {
        self.indent += 1;
    }

    /// Indents what follows by one level less.
    pub fn unindent(&mut self)
        requires
            old(self)@.indent > 0,
        ensures
            final(self)@ == (PrinterView {
                indent: (old(self)@.indent - 1) as nat,
                ..old(self)@
            }),
    {
        self.indent -= 1;
    }

    /// Ends the line.
    pub fn println(&mut self) -> (text: String)
        ensures
            text@ == "\n"@,
            final(self)@ == (PrinterView { new_line: true, ..old(self)@ }),
    {
        self.new_line = true;
        String::from_str("\n")
    }

    /// Writes `value` and stays on the line.
    pub fn print_text(&mut self, value: &str) -> (text: String)
        ensures
            text@ == old(self)@.piece(value@),
            final(self)@ == (PrinterView { new_line: false, ..old(self)@ }),
    {
        let mut text = String::from_str(" ");
        let padding = self.pad();
        text.append(padding.as_str());
        text.append(value);
        self.new_line = false;
        text
    }

    /// Writes `value` and ends the line.
    pub fn println_text(&mut self, value: &str) -> (text: String)
        ensures
            text@ == old(self)@.piece(value@) + "\n"@,
            final(self)@ == (PrinterView { new_line: true, ..old(self)@ }),
    {
        let mut text = String::from_str(" ");
        let padding = self.pad();
        text.append(padding.as_str());
        text.append(value);
        text.append("\n");
        self.new_line = true;
        text
    }

    /// Writes the items of a list in a row and ends the line.
    pub fn println_list(&mut self, value: &Vec<String>) -> (text: String)
        ensures
            text@ == old(self)@.piece(joined(texts_of(value@))) + "\n"@,
            final(self)@ == (PrinterView { new_line: true, ..old(self)@ }),
    {
        let ghost items = texts_of(value@);
        let mut text = String::from_str(" ");
        let padding = self.pad();
        text.append(padding.as_str());
        let ghost lead = text@;
        let mut i: usize = 0;
        assert(items.take(0) =~= Seq::<Seq<char>>::empty());
        assert(lead + joined(items.take(0)) =~= lead);
        while i < value.len()
            invariant
                i <= value.len(),
                items == texts_of(value@),
                text@ == lead + joined(items.take(i as int)),
            decreases value.len() - i,
        {
            proof {
                assert(items.take(i + 1).drop_last() =~= items.take(i as int));
                assert(items.take(i + 1).last() == value[i as int]@);
                if i > 0 {
                    assert(items.take(i + 1).len() > 1);
                } else {
                    assert(items.take(1)[0] == value[0]@);
                }
            }
            if i > 0 {
                text.append(", ");
            }
            text.append(value[i].as_str());
            assert(text@ =~= lead + joined(items.take(i + 1)));
            i += 1;
        }
        assert(items.take(i as int) =~= items);
        text.append("\n");
        self.new_line = true;
        assert(text@ =~= old(self)@.piece(joined(items)) + "\n"@);
        text
    }

    /// Writes each line of `value` on a line of its own.
    pub fn print_multiline(&mut self, value: &str) -> (text: String)
        ensures
            text@ == block(old(self)@, lines_of(value@)),
            final(self)@ == (PrinterView { new_line: true, ..old(self)@ }),
    {
        let all = lines(value);
        let ghost written = lines_of(value@);
        let mut text = String::new();
        let mut i: usize = 0;
        assert(written.take(0) =~= Seq::<Seq<char>>::empty());
        while i < all.len()
            invariant
                i <= all.len(),
                self@ == old(self)@,
                all.len() == written.len(),
                forall|j: int| 0 <= j < all.len() ==> all[j]@ == #[trigger] written[j],
                text@ == block(old(self)@, written.take(i as int)),
            decreases all.len() - i,
        {
            proof {
                assert(written.take(i + 1).drop_last() =~= written.take(i as int));
                assert(written.take(i + 1).last() == written[i as int]);
            }
            let padding = self.pad();
            text.append(" ");
            text.append(padding.as_str());
            text.append(all[i]);
            text.append("\n");
            assert(text@ =~= block(old(self)@, written.take(i + 1)));
            i += 1;
        }
        assert(written.take(i as int) =~= written);
        self.new_line = true;
        text
    }
}

/// A text that is not to be shown.
pub struct SensitiveStr<'a> {
    value: &'a str,
}

impl<'a> SensitiveStr<'a> {
    /// Hides `value`.
    pub fn from(value: &'a str) -> (hidden: SensitiveStr<'a>)
        ensures
            hidden.hides() == value@,
    {
        SensitiveStr { value }
    }

    /// The text that is hidden.
    pub closed spec fn hides(&self) -> Seq<char> {
        self.value@
    }

    /// What is shown in place of the text: an asterisk for each of its
    /// bytes.
    pub fn to_string(&self) -> (shown: String)
        ensures
            shown@ == repeated("*"@, vstd::utf8::encode_utf8(self.hides()).len()),
    {
        repeat("*", self.value.as_bytes().len())
    }
}

} // verus!
