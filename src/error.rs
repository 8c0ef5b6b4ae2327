use vstd::prelude::*;
use vstd::string::*;

verus! {

/// An error with a message and, optionally, the error that caused it.
#[derive(Debug)]
pub struct Error {
    pub message: String,
    pub inner_error: Box<Option<Error>>,
}

/// The text of an error chain: each message, joined by `" -> "`.
pub open spec fn chain_text(e: Error) -> Seq<char>
    decreases e,
{
    match *e.inner_error {
        Some(inner) => e.message@ + " -> "@ + chain_text(inner),
        None => e.message@,
    }
}

/// `e` holds `message` and no cause.
pub open spec fn is_plain(e: Error, message: Seq<char>) -> bool {
    e.message@ == message && *e.inner_error == None::<Error>
}

impl Error {
    pub fn new(message: &str) -> (r: Error)
        ensures
            is_plain(r, message@),
    {
        Error { message: message.to_string(), inner_error: Box::new(None) }
    }

    /// Attaches the text of a cause as the inner error, replacing any earlier one.
    pub fn with_inner_error(self, cause: &str) -> (r: Error)
        ensures
            r.message@ == self.message@,
            match *r.inner_error {
                Some(inner) => is_plain(inner, cause@),
                None => false,
            },
    {
        let mut e = self;
        e.inner_error = Box::new(Some(Error::new(cause)));
        e
    }

    /// The whole chain as one line, outermost message first.
    pub fn describe(&self) -> (r: String)
        ensures
            r@ == chain_text(*self),
        decreases *self,
    {
        let mut text = self.message.clone();
        match &*self.inner_error {
            Some(inner) => {
                let rest = inner.describe();
                text.append(" -> ");
                text.append(rest.as_str());
            },
            None => {},
        }
        text
    }
}

} // verus!
