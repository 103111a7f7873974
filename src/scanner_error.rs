use vstd::prelude::*;

verus! {

#[verifier::external_type_specification]
#[verifier::external_body]
pub struct ExParseIntError(std::num::ParseIntError);

#[verifier::external_type_specification]
#[verifier::external_body]
pub struct ExParseFloatError(std::num::ParseFloatError);

/// What can go wrong while scanning: the source failed to read, or a token
/// was not a number of the requested type.
#[derive(Debug)]
pub enum ScannerError {
    IOError(std::io::Error),
    ParseIntError(std::num::ParseIntError),
    ParseFloatError(std::num::ParseFloatError),
}

impl From<std::io::Error> for ScannerError {
    fn from(err: std::io::Error) -> (r: ScannerError)
        ensures
            r == ScannerError::IOError(err),
    {
        ScannerError::IOError(err)
    }
}

impl vstd::std_specs::convert::FromSpecImpl<std::io::Error> for ScannerError {
    open spec fn obeys_from_spec() -> bool {
        true
    }

    open spec fn from_spec(v: std::io::Error) -> ScannerError {
        ScannerError::IOError(v)
    }
}

impl From<std::num::ParseIntError> for ScannerError {
    fn from(err: std::num::ParseIntError) -> (r: ScannerError)
        ensures
            r == ScannerError::ParseIntError(err),
    {
        ScannerError::ParseIntError(err)
    }
}

impl vstd::std_specs::convert::FromSpecImpl<std::num::ParseIntError> for ScannerError {
    open spec fn obeys_from_spec() -> bool {
        true
    }

    open spec fn from_spec(v: std::num::ParseIntError) -> ScannerError {
        ScannerError::ParseIntError(v)
    }
}

impl From<std::num::ParseFloatError> for ScannerError {
    fn from(err: std::num::ParseFloatError) -> (r: ScannerError)
        ensures
            r == ScannerError::ParseFloatError(err),
    {
        ScannerError::ParseFloatError(err)
    }
}

impl vstd::std_specs::convert::FromSpecImpl<std::num::ParseFloatError> for ScannerError {
    open spec fn obeys_from_spec() -> bool {
        true
    }

    open spec fn from_spec(v: std::num::ParseFloatError) -> ScannerError {
        ScannerError::ParseFloatError(v)
    }
}

} // verus!
