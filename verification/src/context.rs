//! The part of a message context that values are matched under: the locales
//! that the user asked for.

use vstd::prelude::*;
use vstd::string::*;
use crate::locale::{all_negotiable, check_all_negotiable};

verus! {

/// The locales that were requested, the most wanted first.
pub struct MessageContext {
    locales: Vec<String>,
}

impl View for MessageContext {
    type V = Seq<Seq<char>>;

    /// The requested locale tags in their order.
    closed spec fn view(&self) -> Seq<Seq<char>> {
        self.locales.deep_view()
    }
}

impl MessageContext {
    /// Negotiation can take every tag that a context holds.
    #[verifier::type_invariant]
    spec fn negotiable(&self) -> bool {
        all_negotiable(self.locales.deep_view())
    }

    /// A context for the requested locales, which may be none at all. There is
    /// a context for them unless negotiation cannot take one of the tags.
    pub fn new(locales: Vec<String>) -> (context: Option<MessageContext>)
        ensures
            context is Some <==> all_negotiable(locales.deep_view()),
            context matches Some(c) ==> c@ == locales.deep_view(),
    {
        if check_all_negotiable(&locales) {
            Some(MessageContext { locales })
        } else {
            None
        }
    }

    /// The requested locale tags in their order.
    pub fn locales(&self) -> (locales: &Vec<String>)
        ensures
            locales.deep_view() == self@,
            all_negotiable(self@),
    {
        proof {
            use_type_invariant(self);
        }
        &self.locales
    }
}

} // verus!
