//! Encoder for a category/key-value configuration text format: fields as
//! `name = value` lines, nested groups as braced categories, sequences as
//! repeated keys, and fixed-size groupings as comma-joined tuples.

use vstd::prelude::*;
use vstd::string::*;

pub mod laws;
pub mod model;
pub mod ser;
pub mod text;
pub mod value;

pub use ser::to_string;
pub use ser::Serializer;
pub use value::Payload;
pub use value::Value;

verus! {

/// The errors an encode call can end with.
#[derive(Debug, Clone, PartialEq)]
pub enum Error {
    /// A failure raised by a value's own encoding logic, propagated unchanged.
    Message(String),
    /// A permanent capability gap of the format, named by the feature.
    NotSupported(&'static str),
    /// An internal-consistency violation: an expected trailing pattern was
    /// missing when a retroactive edit was attempted. Carries the buffer
    /// snapshot at failure time.
    UnexpectedSequence(String),
}

impl View for Error {
    type V = crate::model::ErrView;

    open spec fn view(&self) -> crate::model::ErrView {
        match self {
            Error::Message(m) => crate::model::ErrView::Message(m@),
            Error::NotSupported(t) => crate::model::ErrView::NotSupported(t@),
            Error::UnexpectedSequence(m) => crate::model::ErrView::Unexpected(m@),
        }
    }
}

/// The human-readable text of an error.
pub open spec fn spec_describe(e: crate::model::ErrView) -> Seq<char> {
    match e {
        crate::model::ErrView::Message(m) => m,
        crate::model::ErrView::NotSupported(t) => t + " is not supported (yet)"@,
        crate::model::ErrView::Unexpected(m) => "Unexpected Sequence: \n"@ + m,
    }
}

impl Error {
    /// Renders the error as the text a caller would report.
    pub fn describe(&self) -> (r: String)
        ensures
            r@ == spec_describe(self@),
    {
        match self {
            Error::Message(m) => m.clone(),
            Error::NotSupported(t) => {
                let mut s: String = (*t).to_owned();
                s.append(" is not supported (yet)");
                s
            },
            Error::UnexpectedSequence(m) => {
                let mut s: String = "Unexpected Sequence: \n".to_owned();
                s.append(m.as_str());
                s
            },
        }
    }
}

} // verus!
