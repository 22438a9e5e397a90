//! Showing optional values in log lines.
use vstd::prelude::*;

verus! {

/// The text shown for a missing value.
pub open spec fn none_text() -> Seq<char> {
    "None"@
}

/// Shows an optional value with a function of the caller's choice.
pub trait DisplayOptionBy<T> {
    /// The value shown by `f`, or `None` when there is no value.
    fn display_by<F: Fn(&T) -> String>(&self, f: F) -> (res: String)
        requires
            forall|v: &T| #[trigger] f.requires((v,)),
    ;
}

impl<T> DisplayOptionBy<T> for Option<T> {
    fn display_by<F: Fn(&T) -> String>(&self, f: F) -> (res: String)
        ensures
            match self {
                Some(v) => f.ensures((v,), res),
                None => res@ == none_text(),
            },
    {
        match self {
            Some(v) => f(v),
            None => String::from_str("None"),
        }
    }
}

} // verus!
