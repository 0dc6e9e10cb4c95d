//! The pinned goal line.
use super::error::ContextError;
use crate::text::{blank, is_blank};
use vstd::prelude::*;

verus! {

/// The verbatim original user query, pinned for the continuation goal line.
///
/// It is made once, from the query as it was received, and nothing changes it
/// afterwards: requirements in the query cannot be summarized away.
#[derive(Debug, PartialEq, Eq)]
pub struct PinnedGoal {
    text: String,
}

impl View for PinnedGoal {
    type V = Seq<char>;

    closed spec fn view(&self) -> Seq<char> {
        self.text@
    }
}

impl Clone for PinnedGoal {
    fn clone(&self) -> (r: Self)
        ensures
            r == *self,
    {
        proof {
            use_type_invariant(self);
        }
        PinnedGoal { text: self.text.clone() }
    }
}

impl PinnedGoal {
    #[verifier::type_invariant]
    spec fn valid(self) -> bool {
        !is_blank(self.text@)
    }

    /// Pin the query exactly as it was received; a blank one is rejected.
    pub fn new(original_query: &str) -> (r: Result<Self, ContextError>)
        ensures
            match r {
                Ok(goal) => !is_blank(original_query@) && goal@ == original_query@,
                Err(e) => is_blank(original_query@) && e == ContextError::EmptyGoal,
            },
    {
        if blank(original_query) {
            return Err(ContextError::EmptyGoal);
        }
        Ok(PinnedGoal { text: original_query.to_owned() })
    }

    /// The query, verbatim.
    pub fn as_str(&self) -> (r: &str)
        ensures
            r@ == self@,
            !is_blank(r@),
    {
        proof {
            use_type_invariant(self);
        }
        self.text.as_str()
    }

    /// Pin a stored query again, under the same rule as [`Self::new`].
    pub fn try_from(query: String) -> (r: Result<Self, ContextError>)
        ensures
            match r {
                Ok(goal) => !is_blank(query@) && goal@ == query@,
                Err(e) => is_blank(query@) && e == ContextError::EmptyGoal,
            },
    {
        Self::new(query.as_str())
    }

    /// The query, verbatim, for storage.
    pub fn into_string(self) -> (r: String)
        ensures
            r@ == self@,
            !is_blank(r@),
    {
        proof {
            use_type_invariant(&self);
        }
        self.text
    }
}

} // verus!
