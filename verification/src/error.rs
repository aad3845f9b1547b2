//! The library's error type around I/O failures.
use vstd::prelude::*;
use vstd::string::StringExecFns;

verus! {

#[verifier::external_type_specification]
#[verifier::external_body]
pub struct ExIoError(std::io::Error);

#[derive(Debug)]
pub enum NsqError {
    IOError(std::io::Error),
}

/// The text that starts the description of an [`NsqError`].
pub open spec fn io_error_prefix() -> Seq<char> {
    seq!['I', 'O', ' ', 'e', 'r', 'r', 'o', 'r', ':', ' ']
}

/// Calls `ToString::to_string` on an I/O error, which formats it with its
/// `Display`. The text of an error from the operating system depends on the
/// machine, so nothing is claimed of it.
#[verifier::external_body]
fn io_error_text(err: &std::io::Error) -> String {
    err.to_string()
}

impl NsqError {
    /// `IO error: ` followed by the description of the I/O error.
    pub fn to_string(&self) -> (s: String)
        ensures
            s@.len() >= 10,
            s@.take(10) == io_error_prefix(),
    {
        let NsqError::IOError(err) = self;
        let text = io_error_text(err);
        let s = NsqError::describe(text.as_str());
        assert(s@.take(10) =~= io_error_prefix());
        s
    }

    /// `IO error: ` followed by `text`.
    pub fn describe(text: &str) -> (s: String)
        ensures
            s@ == io_error_prefix() + text@,
    {
        let mut s = String::from_str("IO error: ");
        proof {
            reveal_strlit("IO error: ");
        }
        assert(s@ =~= io_error_prefix());
        s.append(text);
        s
    }
}

impl From<std::io::Error> for NsqError {
    fn from(err: std::io::Error) -> (e: NsqError) {
        NsqError::IOError(err)
    }
}

impl vstd::std_specs::convert::FromSpecImpl<std::io::Error> for NsqError {
    open spec fn obeys_from_spec() -> bool {
        true
    }

    open spec fn from_spec(err: std::io::Error) -> NsqError {
        NsqError::IOError(err)
    }
}

} // verus!
