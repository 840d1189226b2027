//! Error numbers of the operating system.

use vstd::prelude::*;

verus! {

/// An error of `std::io`.
#[verifier::external_type_specification]
#[verifier::external_body]
pub struct ExIoError(std::io::Error);

/// The error number of the system that an error carries, if it carries one.
pub uninterp spec fn raw_os_code(e: std::io::Error) -> Option<i32>;

/// `std::io::Error::last_os_error` hands out what the system last reported. That is a number of
/// the system's own, so the error carries one; which one it is depends on the system.
pub assume_specification[ std::io::Error::last_os_error ]() -> (e: std::io::Error)
    ensures
        raw_os_code(e) is Some,
;

/// `std::io::Error::raw_os_error` gives the error number that the error carries.
pub assume_specification[ std::io::Error::raw_os_error ](e: &std::io::Error) -> (code: Option<i32>)
    ensures
        code == raw_os_code(*e),
;

/// `std::io::Error::from_raw_os_error` makes an error that carries the given number.
pub assume_specification[ std::io::Error::from_raw_os_error ](code: i32) -> (e: std::io::Error)
    ensures
        raw_os_code(e) == Some(code),
;

/// The error number is one that `std::io::Error::last_os_error` handed out.
pub open spec fn reported(err: Error) -> bool {
    exists|e: std::io::Error| #[trigger]
        call_ensures(std::io::Error::last_os_error, (), e) && raw_os_code(e) == Some(err.code())
}

/// The error that a function gives.
fn error_of<F: Fn() -> std::io::Error>(f: F) -> (e: std::io::Error)
    requires
        call_requires(f, ()),
    ensures
        call_ensures(f, (), e),
{
    f()
}

/// An error number.
#[derive(Clone, Copy, Debug, PartialEq, Eq, Structural)]
pub struct Error(i32);

pub type Result<T> = std::result::Result<T, Error>;

impl Error {
    /// The error number.
    pub closed spec fn code(self) -> i32 {
        self.0
    }

    pub fn new(errno: i32) -> (e: Error)
        ensures
            e.code() == errno,
    {
        Error(errno)
    }

    /// The error that the system last reported to this thread.
    pub fn last() -> (err: Error)
        ensures
            reported(err),
    {
        Error::from(error_of(std::io::Error::last_os_error))
    }

    pub fn errno(self) -> (code: i32)
        ensures
            code == self.code(),
    {
        self.0
    }
}

impl From<std::io::Error> for Error {
    fn from(e: std::io::Error) -> (r: Self)
        ensures
            r.code() == match raw_os_code(e) {
                Some(code) => code,
                None => 0,
            },
    {
        match e.raw_os_error() {
            Some(code) => Error::new(code),
            None => Error::new(0),
        }
    }
}

impl vstd::std_specs::convert::FromSpecImpl<std::io::Error> for Error {
    open spec fn obeys_from_spec() -> bool {
        true
    }

    closed spec fn from_spec(e: std::io::Error) -> Self {
        match raw_os_code(e) {
            Some(code) => Error(code),
            None => Error(0),
        }
    }
}

impl From<Error> for std::io::Error {
    fn from(err: Error) -> (e: std::io::Error)
        ensures
            raw_os_code(e) == Some(err.code()),
    {
        std::io::Error::from_raw_os_error(err.0)
    }
}

impl vstd::std_specs::convert::FromSpecImpl<Error> for std::io::Error {
    open spec fn obeys_from_spec() -> bool {
        false
    }

    open spec fn from_spec(err: Error) -> Self {
        arbitrary()
    }
}

/// Fails with the error that the system last reported to this thread.
pub fn errno_result<T>() -> (r: Result<T>)
    ensures
        r matches Err(err) && reported(err),
{
    Err(Error::last())
}

/// An error number comes back from an error of `std::io` that carries it.
pub proof fn lemma_io_error_round_trip(err: Error, e: std::io::Error)
    requires
        raw_os_code(e) == Some(err.code()),
    ensures
        <Error as vstd::std_specs::convert::FromSpec<std::io::Error>>::from_spec(e) == err,
{
}

} // verus!
