//! The error value of the crate, and how it is shown.
//!
//! An error is a tree: a message, an error caused by another, an error tied
//! to a place in a file, or several errors collected side by side. A printer
//! receives the tree line by line, with the depth at which each line stands.

use crate::utils::location::{Location, LocationView};
use crate::utils::text::{decimal, push_decimal, repeat, repeated};
use vstd::prelude::*;
use vstd::string::StringExecFns;

verus! {

/// What went wrong.
#[derive(Debug)]
pub enum Error {
    /// A fixed message.
    StaticMessage(&'static str),
    /// A message made for the occasion.
    DynamicMessage(String),
    /// An error, and the error that caused it.
    Because(Box<Error>, Box<Error>),
    /// An error, and where in a file it was found.
    At(Box<Error>, Location),
    /// Errors that were met independently, in the order they were met.
    Multiple(Vec<Error>),
}

/// What a fallible operation of the crate gives.
pub type Result<T> = std::result::Result<T, Error>;

/// What an `Error` stands for: the same tree over plain text.
pub enum ErrorView {
    Message(Seq<char>),
    Because(Box<ErrorView>, Box<ErrorView>),
    At(Box<ErrorView>, LocationView),
    Multiple(Seq<ErrorView>),
}

/// One piece of text handed to a printer, with the depth the printer had.
pub enum Printed {
    /// Text that ends its line.
    Line { depth: nat, text: Seq<char> },
    /// Text after which the line goes on.
    Inline { depth: nat, text: Seq<char> },
}

/// The views of a list of errors, in order.
pub open spec fn views_of(errors: Seq<Error>) -> Seq<ErrorView> {
    Seq::new(errors.len(), |i: int| errors[i]@)
}

impl Error {
    /// The tree this error stands for.
    pub open spec fn tree(&self) -> ErrorView
        decreases self,
    {
        match self {
            Error::StaticMessage(message) => ErrorView::Message(message@),
            Error::DynamicMessage(message) => ErrorView::Message(message@),
            Error::Because(error, cause) => ErrorView::Because(
                Box::new(error.tree()),
                Box::new(cause.tree()),
            ),
            Error::At(error, location) => ErrorView::At(Box::new(error.tree()), location@),
            Error::Multiple(errors) => ErrorView::Multiple(
                Seq::new(
                    errors@.len(),
                    |i: int|
                        if 0 <= i < errors@.len() {
                            errors@[i].tree()
                        } else {
                            ErrorView::Message(Seq::empty())
                        },
                ),
            ),
        }
    }
}

impl View for Error {
    type V = ErrorView;

    open spec fn view(&self) -> ErrorView {
        self.tree()
    }
}

/// An error that holds several shows the views of those it holds.
pub proof fn lemma_view_of_multiple(errors: Vec<Error>)
    ensures
        Error::Multiple(errors)@ == ErrorView::Multiple(views_of(errors@)),
{
    let shown = Error::Multiple(errors)@;
    assert(shown->Multiple_0 =~= views_of(errors@));
}

impl ErrorView {
    /// The line that introduces the cause of an error.
    pub open spec fn cause_heading() -> Seq<char> {
        "due to the following error(s) :"@
    }

    /// What the detailed form hands to a printer that stands at `depth`.
    pub open spec fn detailed(self, depth: nat) -> Seq<Printed>
        decreases self,
    {
        match self {
            ErrorView::Message(message) => seq![Printed::Line { depth, text: message }],
            ErrorView::Because(error, cause) => error.detailed(depth) + seq![
                Printed::Line { depth, text: Self::cause_heading() },
            ] + cause.detailed(depth + 1),
            ErrorView::At(error, location) => error.detailed(depth) + seq![
                Printed::Line { depth: depth + 1, text: location.text() },
            ],
            ErrorView::Multiple(errors) => Self::detailed_all(errors, depth),
        }
    }

    /// The detailed forms of several errors, one after the other.
    pub open spec fn detailed_all(errors: Seq<ErrorView>, depth: nat) -> Seq<Printed>
        decreases errors,
    {
        if errors.len() == 0 {
            Seq::empty()
        } else {
            Self::detailed_all(errors.drop_last(), depth) + errors.last().detailed(depth)
        }
    }

    /// How many levels the detailed form indents below where it starts.
    pub open spec fn nesting(self) -> nat
        decreases self,
    {
        match self {
            ErrorView::Message(_) => 0,
            ErrorView::Because(error, cause) => if error.nesting() > cause.nesting() + 1 {
                error.nesting()
            } else {
                cause.nesting() + 1
            },
            ErrorView::At(error, _) => if error.nesting() > 1 {
                error.nesting()
            } else {
                1
            },
            ErrorView::Multiple(errors) => Self::nesting_all(errors),
        }
    }

    /// The deepest nesting among several errors.
    pub open spec fn nesting_all(errors: Seq<ErrorView>) -> nat
        decreases errors,
    {
        if errors.len() == 0 {
            0
        } else if Self::nesting_all(errors.drop_last()) > errors.last().nesting() {
            Self::nesting_all(errors.drop_last())
        } else {
            errors.last().nesting()
        }
    }

    /// The one-line form: the message itself, or how many errors stand behind
    /// it.
    pub open spec fn compact(self) -> Seq<char> {
        match self {
            ErrorView::Message(message) => message,
            ErrorView::Because(_, _) => "1 error"@,
            ErrorView::At(_, _) => "1 error"@,
            ErrorView::Multiple(errors) => decimal(errors.len()) + " errors"@,
        }
    }
}

/// No error among several nests deeper than all of them together.
pub proof fn lemma_nesting_all_bounds(errors: Seq<ErrorView>, i: int)
    requires
        0 <= i < errors.len(),
    ensures
        errors[i].nesting() <= ErrorView::nesting_all(errors),
        ErrorView::nesting_all(errors.take(i)) <= ErrorView::nesting_all(errors),
    decreases errors.len(),
{
    let shorter = errors.drop_last();
    if i < errors.len() - 1 {
        lemma_nesting_all_bounds(shorter, i);
        assert(shorter[i] == errors[i]);
        assert(shorter.take(i) == errors.take(i));
    } else {
        assert(errors.take(i) == shorter);
    }
}

/// Several errors nest no deeper than a level that none of them exceeds.
pub proof fn lemma_nesting_all_within(errors: Seq<ErrorView>, levels: nat)
    requires
        forall|i: int| 0 <= i < errors.len() ==> (#[trigger] errors[i]).nesting() <= levels,
    ensures
        ErrorView::nesting_all(errors) <= levels,
    decreases errors.len(),
{
    if errors.len() > 0 {
        let shorter = errors.drop_last();
        assert forall|i: int| 0 <= i < shorter.len() implies (#[trigger] shorter[i]).nesting()
            <= levels by {
            assert(shorter[i] == errors[i]);
        }
        lemma_nesting_all_within(shorter, levels);
        assert(errors.last() == errors[errors.len() - 1]);
    }
}

/// Receives an error piece by piece. Implementations decide how the pieces
/// reach the reader; the contract fixes which pieces they were handed and at
/// which depth.
pub trait ErrorPrinter {
    /// How far the printer is indented.
    spec fn depth(&self) -> nat;

    /// Everything the printer has been handed so far.
    spec fn printed(&self) -> Seq<Printed>;

    /// Indents what follows by one more level.
    fn indent(&mut self)
        requires
            old(self).depth() < usize::MAX,
        ensures
            final(self).depth() == old(self).depth() + 1,
            final(self).printed() == old(self).printed(),
    ;

    /// Indents what follows by one level less.
    fn unindent(&mut self)
        requires
            old(self).depth() > 0,
        ensures
            final(self).depth() == old(self).depth() - 1,
            final(self).printed() == old(self).printed(),
    ;

    /// Takes `text` as the rest of a line.
    fn print_error(&mut self, text: &str)
        ensures
            final(self).depth() == old(self).depth(),
            final(self).printed() == old(self).printed().push(
                Printed::Line { depth: old(self).depth(), text: text@ },
            ),
    ;

    /// Takes `text` as a part of a line that goes on.
    fn print_error_inline(&mut self, text: &str)
        ensures
            final(self).depth() == old(self).depth(),
            final(self).printed() == old(self).printed().push(
                Printed::Inline { depth: old(self).depth(), text: text@ },
            ),
    ;
}

impl Error {
    /// An error that carries `message`.
    pub fn message(message: &str) -> (error: Error)
        ensures
            error@ == ErrorView::Message(message@),
    {
        Error::DynamicMessage(String::from_str(message))
    }

    /// This error, with `error` as its cause.
    pub fn because(self, error: Error) -> (caused: Error)
        ensures
            caused@ == ErrorView::Because(Box::new(self@), Box::new(error@)),
    {
        Error::Because(Box::new(self), Box::new(error))
    }

    /// This error, tied to `location`.
    pub fn at(self, location: Location) -> (placed: Error)
        ensures
            placed@ == ErrorView::At(Box::new(self@), location@),
    {
        Error::At(Box::new(self), location)
    }

    /// This error, tied to a position in `file`.
    pub fn in_file(self, file: String, line: usize, column: usize) -> (placed: Error)
        ensures
            placed@ == ErrorView::At(
                Box::new(self@),
                LocationView { file: file@, line: line as nat, column: column as nat },
            ),
    {
        Error::At(Box::new(self), Location::new(file, line, column))
    }

    /// This error and `other` side by side. An error that already holds
    /// several takes `other` as its last; any other error becomes the first of
    /// two.
    pub fn and(self, other: Error) -> (both: Error)
        ensures
            both@ == (match self@ {
                ErrorView::Multiple(errors) => ErrorView::Multiple(errors.push(other@)),
                _ => ErrorView::Multiple(seq![self@, other@]),
            }),
    {
        match self {
            Error::Multiple(mut list) => {
                proof {
                    lemma_view_of_multiple(list);
                }
                let ghost before = list@;
                list.push(other);
                proof {
                    lemma_view_of_multiple(list);
                    assert(views_of(list@) =~= views_of(before).push(other@));
                }
                Error::Multiple(list)
            },
            any => {
                let ghost first = any@;
                let mut list: Vec<Error> = Vec::new();
                list.push(any);
                list.push(other);
                proof {
                    lemma_view_of_multiple(list);
                    assert(views_of(list@) =~= seq![first, other@]);
                }
                Error::Multiple(list)
            },
        }
    }

    /// Whether the detailed form indents no more than `levels` levels below
    /// where it starts.
    pub fn nests_within(&self, levels: usize) -> (fits: bool)
        ensures
            fits == (self@.nesting() <= levels),
        decreases self,
    {
        match self {
            Error::StaticMessage(_) => true,
            Error::DynamicMessage(_) => true,
            Error::Because(error, cause) => error.nests_within(levels) && levels > 0
                && cause.nests_within(levels - 1),
            Error::At(error, _) => levels > 0 && error.nests_within(levels),
            Error::Multiple(errors) => {
                proof {
                    lemma_view_of_multiple(*errors);
                }
                let ghost shown = views_of(errors@);
                let mut i: usize = 0;
                while i < errors.len()
                    invariant
                        i <= errors.len(),
                        shown == views_of(errors@),
                        self@ == ErrorView::Multiple(shown),
                        *self == Error::Multiple(*errors),
                        forall|j: int| 0 <= j < i ==> (#[trigger] shown[j]).nesting() <= levels,
                    decreases errors.len() - i,
                {
                    if !errors[i].nests_within(levels) {
                        proof {
                            lemma_nesting_all_bounds(shown, i as int);
                        }
                        return false;
                    }
                    i += 1;
                }
                proof {
                    lemma_nesting_all_within(shown, levels as nat);
                }
                true
            },
        }
    }

    /// Hands the one-line form to `printer`, without ending the line.
    pub fn display_very_compact<P: ErrorPrinter>(&self, printer: &mut P)
        ensures
            final(printer).depth() == old(printer).depth(),
            final(printer).printed() == old(printer).printed().push(
                Printed::Inline { depth: old(printer).depth(), text: self@.compact() },
            ),
    {
        match self {
            Error::StaticMessage(message) => printer.print_error_inline(message),
            Error::DynamicMessage(message) => printer.print_error_inline(message.as_str()),
            Error::Because(_, _) => printer.print_error_inline("1 error"),
            Error::At(_, _) => printer.print_error_inline("1 error"),
            Error::Multiple(errors) => {
                proof {
                    lemma_view_of_multiple(*errors);
                }
                let mut text = String::new();
                push_decimal(&mut text, errors.len());
                text.append(" errors");
                assert(text@ == decimal(errors.len() as nat) + " errors"@);
                printer.print_error_inline(text.as_str())
            },
        }
    }

    /// Hands the whole tree to `printer`: each message on a line of its own, a
    /// cause one level deeper under a heading, a location one level deeper
    /// under its error, and collected errors one after the other. The printer
    /// ends at the depth it started from.
    pub fn display_detailed<P: ErrorPrinter>(&self, printer: &mut P)
        requires
            old(printer).depth() + self@.nesting() <= usize::MAX,
        ensures
            final(printer).depth() == old(printer).depth(),
            final(printer).printed() == old(printer).printed() + self@.detailed(
                old(printer).depth(),
            ),
        decreases self,
    {
        let ghost depth = printer.depth();
        let ghost before = printer.printed();
        match self {
            Error::StaticMessage(message) => {
                printer.print_error(message);
                assert(printer.printed() =~= before + self@.detailed(depth));
            },
            Error::DynamicMessage(message) => {
                printer.print_error(message.as_str());
                assert(printer.printed() =~= before + self@.detailed(depth));
            },
            Error::Because(error, cause) => {
                error.display_detailed(printer);
                printer.print_error("due to the following error(s) :");
                printer.indent();
                cause.display_detailed(printer);
                printer.unindent();
                assert(printer.printed() =~= before + self@.detailed(depth));
            },
            Error::At(error, location) => {
                error.display_detailed(printer);
                printer.indent();
                let place = location.to_string();
                printer.print_error(place.as_str());
                printer.unindent();
                assert(printer.printed() =~= before + self@.detailed(depth));
            },
            Error::Multiple(errors) => {
                proof {
                    lemma_view_of_multiple(*errors);
                }
                let ghost shown = views_of(errors@);
                let mut i: usize = 0;
                assert(shown.take(0) =~= Seq::<ErrorView>::empty());
                while i < errors.len()
                    invariant
                        i <= errors.len(),
                        shown == views_of(errors@),
                        self@ == ErrorView::Multiple(shown),
                        *self == Error::Multiple(*errors),
                        depth + ErrorView::nesting_all(shown) <= usize::MAX,
                        printer.depth() == depth,
                        printer.printed() == before + ErrorView::detailed_all(
                            shown.take(i as int),
                            depth,
                        ),
                    decreases errors.len() - i,
                {
                    proof {
                        lemma_nesting_all_bounds(shown, i as int);
                        assert(shown.take(i + 1).drop_last() =~= shown.take(i as int));
                        assert(shown.take(i + 1).last() == errors@[i as int]@);
                    }
                    errors[i].display_detailed(printer);
                    assert(printer.printed() =~= before + ErrorView::detailed_all(
                        shown.take(i + 1),
                        depth,
                    ));
                    i += 1;
                }
                assert(shown.take(i as int) =~= shown);
            },
        }
    }

    /// The detailed form as text, as `MinimalErrorMessageBuilder` lays it out.
    pub fn to_detailed_string(&self) -> (text: String)
        requires
            self@.nesting() <= usize::MAX,
        ensures
            text@ == rendered(self@.detailed(0)),
    {
        let mut builder = MinimalErrorMessageBuilder::new();
        self.display_detailed(&mut builder);
        assert(Seq::<Printed>::empty() + self@.detailed(0) =~= self@.detailed(0));
        builder.into_string()
    }
}

/// Whether a printer that has been handed `items` stands at the start of a
/// line.
pub open spec fn at_line_start(items: Seq<Printed>) -> bool {
    items.len() == 0 || items.last() is Line
}

/// The text of one piece: a space, the indentation if the piece starts a
/// line (two spaces for each level), the text, and a line feed if the piece
/// ends its line.
pub open spec fn rendered_piece(piece: Printed, starts_line: bool) -> Seq<char> {
    match piece {
        Printed::Line { depth, text } => " "@ + (if starts_line {
            repeated("  "@, depth)
        } else {
            Seq::empty()
        }) + text + "\n"@,
        Printed::Inline { depth, text } => " "@ + (if starts_line {
            repeated("  "@, depth)
        } else {
            Seq::empty()
        }) + text,
    }
}

/// The text that `items` make up when laid out one after the other.
pub open spec fn rendered(items: Seq<Printed>) -> Seq<char>
    decreases items.len(),
{
    if items.len() == 0 {
        Seq::empty()
    } else {
        rendered(items.drop_last()) + rendered_piece(
            items.last(),
            at_line_start(items.drop_last()),
        )
    }
}

/// A printer that lays errors out as plain text.
pub struct MinimalErrorMessageBuilder {
    indent: usize,
    new_line: bool,
    string: String,
    pieces: Ghost<Seq<Printed>>,
}

impl MinimalErrorMessageBuilder {
    #[verifier::type_invariant]
    spec fn well_formed(self) -> bool {
        &&& self.string@ == rendered(self.pieces@)
        &&& self.new_line == at_line_start(self.pieces@)
    }

    /// The text laid out so far.
    pub closed spec fn text(&self) -> Seq<char> {
        self.string@
    }

    /// A builder without text, at the start of a line, not indented.
    pub fn new() -> (builder: MinimalErrorMessageBuilder)
        ensures
            builder.depth() == 0,
            builder.printed() == Seq::<Printed>::empty(),
            builder.text() == Seq::<char>::empty(),
    {
        MinimalErrorMessageBuilder {
            indent: 0,
            new_line: true,
            string: String::new(),
            pieces: Ghost(Seq::empty()),
        }
    }

    /// The indentation due before the next piece: two spaces for each level
    /// at the start of a line, nothing within a line.
    pub fn pad(&self) -> (padding: String)
        ensures
            padding@ == (if at_line_start(self.printed()) {
                repeated("  "@, self.depth())
            } else {
                Seq::empty()
            }),
    {
        proof {
            use_type_invariant(self);
        }
        if self.new_line {
            repeat("  ", self.indent)
        } else {
            String::new()
        }
    }

    /// The text laid out so far.
    pub fn into_string(self) -> (text: String)
        ensures
            text@ == self.text(),
            text@ == rendered(self.printed()),
    {
        proof {
            use_type_invariant(&self);
        }
        self.string
    }

    fn emit(&mut self, text: &str, ends_line: bool)
        ensures
            final(self).depth() == old(self).depth(),
            final(self).printed() == old(self).printed().push(
                if ends_line {
                    Printed::Line { depth: old(self).depth(), text: text@ }
                } else {
                    Printed::Inline { depth: old(self).depth(), text: text@ }
                },
            ),
    {
        proof {
            use_type_invariant(&*self);
        }
        let padding = self.pad();
        let ghost piece = if ends_line {
            Printed::Line { depth: self.indent as nat, text: text@ }
        } else {
            Printed::Inline { depth: self.indent as nat, text: text@ }
        };
        let ghost before = self.pieces@;
        let mut string = String::new();
        string.append(self.string.as_str());
        string.append(" ");
        string.append(padding.as_str());
        string.append(text);
        if ends_line {
            string.append("\n");
        }
        proof {
            assert(before.push(piece).drop_last() =~= before);
            assert(string@ =~= rendered(before) + rendered_piece(piece, at_line_start(before)));
        }
        *self = MinimalErrorMessageBuilder {
            indent: self.indent,
            new_line: ends_line,
            string,
            pieces: Ghost(before.push(piece)),
        };
    }
}

impl ErrorPrinter for MinimalErrorMessageBuilder {
    closed spec fn depth(&self) -> nat {
        self.indent as nat
    }

    closed spec fn printed(&self) -> Seq<Printed> {
        self.pieces@
    }

    fn indent(&mut self) {
        proof {
            use_type_invariant(&*self);
        }
        self.indent += 1;
    }

    fn unindent(&mut self) {
        proof {
            use_type_invariant(&*self);
        }
        self.indent -= 1;
    }

    fn print_error(&mut self, text: &str) {
        self.emit(text, true);
    }

    fn print_error_inline(&mut self, text: &str) {
        self.emit(text, false);
    }
}

} // verus!
