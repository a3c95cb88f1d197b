//! The error kinds a synchronization can end with. Any failure aborts the
//! whole sync: a call yields either a fully populated tree or one error,
//! never a silently incomplete tree.

use vstd::prelude::*;

verus! {

/// A failure of one synchronization pass.
///
/// `Args` is a malformed or unsatisfiable argument (a requested database
/// absent from the catalog); `DB` is any failure reported by the underlying
/// query executor; `Unknow` is a catalog value outside the finite understood
/// set (an unknown table-type tag, an unparsable version string, a missing
/// expected result column).
#[derive(Debug)]
pub enum DBError {
    Args(String),
    DB(String),
    Unknow(String),
}

/// Ghost mirror of [`DBError`].
pub ghost enum ErrorV {
    Args(Seq<char>),
    DB(Seq<char>),
    Unknow(Seq<char>),
}

impl View for DBError {
    type V = ErrorV;

    open spec fn view(&self) -> ErrorV {
        match self {
            DBError::Args(s) => ErrorV::Args(s@),
            DBError::DB(s) => ErrorV::DB(s@),
            DBError::Unknow(s) => ErrorV::Unknow(s@),
        }
    }
}

impl DeepView for DBError {
    type V = ErrorV;

    open spec fn deep_view(&self) -> ErrorV {
        self.view()
    }
}

impl DBError {
    /// The descriptive text carried by the error.
    pub fn message(&self) -> (r: &str)
        ensures
            r@ == self.text(),
    {
        match self {
            DBError::Args(s) => s.as_str(),
            DBError::DB(s) => s.as_str(),
            DBError::Unknow(s) => s.as_str(),
        }
    }

    /// The text carried by the error, as a sequence of characters.
    pub open spec fn text(&self) -> Seq<char> {
        match self {
            DBError::Args(s) => s@,
            DBError::DB(s) => s@,
            DBError::Unknow(s) => s@,
        }
    }
}

} // verus!
