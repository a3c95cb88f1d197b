//! Small shared helpers: the per-table map key for multi-schema engines,
//! and the conversion of raw catalog yes/no flags.

use vstd::prelude::*;

use crate::error::{DBError, ErrorV};
use crate::text::str_eq;

verus! {

/// The map key for per-table metadata on multi-schema engines.
#[derive(Debug)]
pub struct TableKey {
    /// The schema a table belongs to.
    pub schema: String,
    /// The name of the table.
    pub table: String,
}

impl View for TableKey {
    type V = (Seq<char>, Seq<char>);

    open spec fn view(&self) -> (Seq<char>, Seq<char>) {
        (self.schema@, self.table@)
    }
}

impl DeepView for TableKey {
    type V = (Seq<char>, Seq<char>);

    open spec fn deep_view(&self) -> (Seq<char>, Seq<char>) {
        self.view()
    }
}

/// The boolean a raw catalog yes/no flag denotes, or `None` for a value
/// outside the understood set.
pub open spec fn yes_no_spec(s: Seq<char>) -> Option<bool> {
    if s == "YES"@ || s == "Y"@ || s == "1"@ {
        Some(true)
    } else if s == "NO"@ || s == "N"@ || s == "0"@ {
        Some(false)
    } else {
        None
    }
}

/// Convert a raw catalog yes/no flag; a value outside the understood set is
/// an unrecognized-data error.
pub fn convert_yes_no(s: &str) -> (r: Result<bool, DBError>)
    ensures
        r is Ok <==> yes_no_spec(s@) is Some,
        r matches Ok(b) ==> Some(b) == yes_no_spec(s@),
        r matches Err(e) ==> e@ == ErrorV::Unknow("unrecognized isNullable type "@ + s@),
{
    if str_eq(s, "YES") || str_eq(s, "Y") || str_eq(s, "1") {
        Ok(true)
    } else if str_eq(s, "NO") || str_eq(s, "N") || str_eq(s, "0") {
        Ok(false)
    } else {
        let mut m = String::from_str("unrecognized isNullable type ");
        m.append(s);
        Err(DBError::Unknow(m))
    }
}

} // verus!
