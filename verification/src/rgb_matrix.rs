//! What the board needs to know of the pixel-matrix sign: the shape of its
//! panels, and what can go wrong when the sign or its font is set up.

use vstd::prelude::*;
use vstd::string::*;

verus! {

/// Why the sign could not be set up, as contracts see it.
pub enum MatrixFailure {
    HardwareInitError(Seq<char>),
    ConfigError(Seq<char>),
}

/// Why the sign could not be set up.
#[derive(Clone, Debug, PartialEq, Eq)]
pub enum RGBMatrixError {
    /// The driver did not come up.
    HardwareInitError(String),
    /// The sign was asked for in a shape that no sign has.
    ConfigError(String),
}

impl View for RGBMatrixError {
    type V = MatrixFailure;

    open spec fn view(&self) -> MatrixFailure {
        match self {
            RGBMatrixError::HardwareInitError(msg) => MatrixFailure::HardwareInitError(msg@),
            RGBMatrixError::ConfigError(msg) => MatrixFailure::ConfigError(msg@),
        }
    }
}

/// What is said of a failure to set up the sign.
pub open spec fn matrix_failure_message(failure: MatrixFailure) -> Seq<char> {
    match failure {
        MatrixFailure::HardwareInitError(msg) => "Hardware initialization error: "@ + msg,
        MatrixFailure::ConfigError(msg) => "Configuration error: "@ + msg,
    }
}

impl RGBMatrixError {
    /// What is said of the failure.
    pub fn message(&self) -> (r: String)
        ensures
            r@ == matrix_failure_message(self@),
    {
        match self {
            RGBMatrixError::HardwareInitError(msg) => {
                let mut out = String::from_str("Hardware initialization error: ");
                out.append(msg.as_str());
                out
            },
            RGBMatrixError::ConfigError(msg) => {
                let mut out = String::from_str("Configuration error: ");
                out.append(msg.as_str());
                out
            },
        }
    }
}

/// Why a font could not be loaded.
#[derive(Clone, Debug, PartialEq, Eq)]
pub enum FontError {
    FontLoadError(String),
}

impl View for FontError {
    type V = Seq<char>;

    /// The reason given.
    open spec fn view(&self) -> Seq<char> {
        match self {
            FontError::FontLoadError(msg) => msg@,
        }
    }
}

impl FontError {
    /// What is said of the failure.
    pub fn message(&self) -> (r: String)
        ensures
            r@ == "Font load Error: "@ + self@,
    {
        match self {
            FontError::FontLoadError(msg) => {
                let mut out = String::from_str("Font load Error: ");
                out.append(msg.as_str());
                out
            },
        }
    }
}

/// The shape of a sign: the rows of one panel, the panels in a chain, and
/// the chains side by side. All three are positive.
#[derive(Clone, Copy, Debug, PartialEq, Eq, Structural)]
pub struct MatrixShape {
    pub rows: i32,
    pub chained: i32,
    pub parallel: i32,
}

impl MatrixShape {
    /// The shape with the given numbers. A number that is not positive is
    /// refused as a configuration error that says "Invalid dimensions".
    pub fn new(rows: i32, chained: i32, parallel: i32) -> (r: Result<Self, RGBMatrixError>)
        ensures
            match r {
                Ok(shape) => rows > 0 && chained > 0 && parallel > 0 && shape == (MatrixShape {
                    rows,
                    chained,
                    parallel,
                }),
                Err(error) => (rows <= 0 || chained <= 0 || parallel <= 0) && error@
                    == MatrixFailure::ConfigError("Invalid dimensions"@),
            },
    {
        if rows <= 0 || chained <= 0 || parallel <= 0 {
            return Err(RGBMatrixError::ConfigError(String::from_str("Invalid dimensions")));
        }
        Ok(MatrixShape { rows, chained, parallel })
    }
}

} // verus!
