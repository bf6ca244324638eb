//! The errors that reading posts can end in, named after the exceptions
//! they stand for.

use vstd::prelude::*;

verus! {

/// An error of post processing.
#[derive(Debug)]
pub enum Exception {
    IllegalArgumentException(String),
    IllegalStateException(String),
    /// An error with its message and the error that caused it.
    RuntimeException(String, Box<Exception>),
    DateTimeParseException,
    /// A failed read, with the text of the I/O error.
    UncheckedIOException(String),
    URISyntaxException(String),
}

/// An [`Exception`] with its messages taken as sequences of characters.
pub enum ExceptionView {
    IllegalArgumentException(Seq<char>),
    IllegalStateException(Seq<char>),
    RuntimeException(Seq<char>, Box<ExceptionView>),
    DateTimeParseException,
    UncheckedIOException(Seq<char>),
    URISyntaxException(Seq<char>),
}

/// The view of an exception, its cause included.
pub open spec fn exception_view(e: Exception) -> ExceptionView
    decreases e,
{
    match e {
        Exception::IllegalArgumentException(m) => ExceptionView::IllegalArgumentException(m@),
        Exception::IllegalStateException(m) => ExceptionView::IllegalStateException(m@),
        Exception::RuntimeException(m, cause) => ExceptionView::RuntimeException(
            m@,
            Box::new(exception_view(*cause)),
        ),
        Exception::DateTimeParseException => ExceptionView::DateTimeParseException,
        Exception::UncheckedIOException(m) => ExceptionView::UncheckedIOException(m@),
        Exception::URISyntaxException(m) => ExceptionView::URISyntaxException(m@),
    }
}

impl View for Exception {
    type V = ExceptionView;

    open spec fn view(&self) -> ExceptionView {
        exception_view(*self)
    }
}

/// A result with its value and its error taken by their views.
pub open spec fn outcome<T: View>(r: Result<T, Exception>) -> Result<T::V, ExceptionView> {
    match r {
        Ok(v) => Ok(v@),
        Err(e) => Err(e@),
    }
}

/// The error that reports a failure to create a post from `file`: the message
/// is `prefix` followed by the file, and the cause is kept.
pub open spec fn failure_in_file(prefix: Seq<char>, file: Seq<char>, cause: ExceptionView) -> ExceptionView {
    ExceptionView::RuntimeException(prefix + file, Box::new(cause))
}

impl Exception {
    /// Wraps `cause` in a `RuntimeException` whose message is `prefix`
    /// followed by `file`.
    pub fn failure_in_file(prefix: &str, file: &str, cause: Exception) -> (r: Exception)
        ensures
            r@ == failure_in_file(prefix@, file@, cause@),
    {
        let mut message = String::from_str(prefix);
        message.append(file);
        Exception::RuntimeException(message, Box::new(cause))
    }
}

} // verus!
