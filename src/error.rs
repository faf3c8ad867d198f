use vstd::prelude::*;

verus! {

/// The library's error: a human-readable message.
#[derive(Debug)]
pub struct Error(String);

impl View for Error {
    type V = Seq<char>;

    closed spec fn view(&self) -> Seq<char> {
        self.0@
    }
}

/// Results whose failure is an [`Error`].
pub type Result<T> = std::result::Result<T, Error>;

impl Error {
    /// An error that carries `msg`.
    pub fn new(msg: &str) -> (r: Self)
        ensures
            r@ == msg@,
    {
        Error(String::from_str(msg))
    }

    /// The message as it was given.
    pub fn text(&self) -> (r: String)
        ensures
            r@ == self@,
    {
        self.0.clone()
    }

    /// The message as shown to a user.
    pub fn display(&self) -> (r: String)
        ensures
            r@ == "Oh no, something bad went down: "@ + self@,
    {
        let r = String::from_str("Oh no, something bad went down: ");
        r.concat(self.0.as_str())
    }
}

/// The text of a failure that `with_context` prefixes with `msg`.
pub open spec fn in_context(msg: Seq<char>, err: Seq<char>) -> Seq<char> {
    msg + ": "@ + err
}

/// Adding a description of the attempted action to a failure.
pub trait WithMessage<T>: Sized {
    /// `r` is `self` with `msg` put in front of its failure text.
    spec fn context_of(&self, msg: Seq<char>, r: &Result<T>) -> bool;

    fn with_context(self, msg: &str) -> (r: Result<T>)
        ensures
            self.context_of(msg@, &r),
    ;
}

/// Failures given as their text (`e.to_string()` of an I/O or encoding error).
impl<T> WithMessage<T> for std::result::Result<T, String> {
    open spec fn context_of(&self, msg: Seq<char>, r: &Result<T>) -> bool {
        match (self, r) {
            (Ok(v), Ok(w)) => v == w,
            (Err(e), Err(f)) => f@ == in_context(msg, e@),
            _ => false,
        }
    }

    fn with_context(self, msg: &str) -> (r: Result<T>) {
        match self {
            Err(err) => {
                let m = String::from_str(msg);
                let m = m.concat(": ");
                let m = m.concat(err.as_str());
                Err(Error(m))
            },
            Ok(val) => Ok(val),
        }
    }
}

} // verus!
