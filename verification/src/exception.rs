//! The errors that reading articles can end in.

use vstd::prelude::*;

verus! {

/// An error of article processing, named after the exception it stands for.
#[derive(Debug)]
pub enum Exception {
    IllegalArgument(String),
    Runtime(String),
    /// A failed read, with the text of the I/O error.
    IO(String),
    NullPointer,
    DateTimeParse,
}

/// An [`Exception`] with its message taken as a sequence of characters.
pub enum ExceptionView {
    IllegalArgument(Seq<char>),
    Runtime(Seq<char>),
    IO(Seq<char>),
    NullPointer,
    DateTimeParse,
}

impl View for Exception {
    type V = ExceptionView;

    open spec fn view(&self) -> ExceptionView {
        match self {
            Exception::IllegalArgument(m) => ExceptionView::IllegalArgument(m@),
            Exception::Runtime(m) => ExceptionView::Runtime(m@),
            Exception::IO(m) => ExceptionView::IO(m@),
            Exception::NullPointer => ExceptionView::NullPointer,
            Exception::DateTimeParse => ExceptionView::DateTimeParse,
        }
    }
}

/// A result with its value and its error taken by their views.
pub open spec fn view_outcome<T: View>(r: Result<T, Exception>) -> Result<T::V, ExceptionView> {
    match r {
        Ok(v) => Ok(v@),
        Err(e) => Err(e@),
    }
}

impl ExceptionView {
    /// The text that describes the error.
    pub open spec fn message(self) -> Seq<char> {
        match self {
            ExceptionView::IllegalArgument(m) => "IllegalArgumentException: "@ + m + "\n"@,
            ExceptionView::Runtime(m) => "RuntimeException: "@ + m + "\n"@,
            ExceptionView::IO(m) => "IOException: "@ + m + "\n"@,
            ExceptionView::NullPointer => "NullPointerException"@,
            ExceptionView::DateTimeParse => "DateTimeParseException"@,
        }
    }
}

impl Exception {
    /// The text that describes the error: the exception's name, and for those
    /// that carry one, `": "`, the message and a line break.
    pub fn message(&self) -> (r: String)
        ensures
            r@ == self@.message(),
    {
        match self {
            Exception::IllegalArgument(m) => {
                let mut r = String::from_str("IllegalArgumentException: ");
                r.append(m.as_str());
                r.append("\n");
                r
            },
            Exception::Runtime(m) => {
                let mut r = String::from_str("RuntimeException: ");
                r.append(m.as_str());
                r.append("\n");
                r
            },
            Exception::IO(m) => {
                let mut r = String::from_str("IOException: ");
                r.append(m.as_str());
                r.append("\n");
                r
            },
            Exception::NullPointer => String::from_str("NullPointerException"),
            Exception::DateTimeParse => String::from_str("DateTimeParseException"),
        }
    }
}

} // verus!
