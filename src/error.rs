//! Errors of a dithering run.
use vstd::prelude::*;
use crate::mode;

verus! {

/// A failed read or write, with the path and the cause.
#[derive(Clone, Debug, PartialEq, Eq)]
pub struct IOError {
    pub path: String,
    pub cause: String,
}

/// Everything that stops a run.
#[derive(Clone, Debug, PartialEq, Eq)]
pub enum Error {
    /// A bad `--color` option.
    Color(mode::Error),
    /// A bit depth outside `1..=7`.
    BadBitDepth(u8),
    /// A palette mode with a bit depth above one.
    IncompatibleOptions,
    /// A `--dither` name that names no algorithm.
    UnknownDitherer(String),
    /// The input could not be read.
    Input(IOError),
    /// The output could not be written.
    Output(IOError),
}

impl From<mode::Error> for Error {
    fn from(e: mode::Error) -> (r: Error)
        ensures
            r == Error::Color(e),
    {
        Error::Color(e)
    }
}

impl vstd::std_specs::convert::FromSpecImpl<mode::Error> for Error {
    open spec fn obeys_from_spec() -> bool {
        true
    }

    open spec fn from_spec(e: mode::Error) -> Error {
        Error::Color(e)
    }
}

} // verus!
