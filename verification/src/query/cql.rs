//! Queries in the Confluence query language.

use vstd::prelude::*;
use vstd::string::*;
use crate::query::{contains_condition, eq_condition, in_condition, quoted};
use crate::text::{joined, text_eq, texts};

verus! {

/// The field names a user.
pub open spec fn is_user_field(field: Seq<char>) -> bool {
    field == "creator"@ || field == "contributor"@ || field == "mention"@
}

/// The operand of an equality condition: `@me` on a user field stands for
/// the current user; any other value is quoted.
pub open spec fn normalized(field: Seq<char>, value: Seq<char>) -> Seq<char> {
    if is_user_field(field) && value == "@me"@ {
        "currentUser()"@
    } else {
        quoted(value)
    }
}

/// Builds a query from conditions that must all hold.
pub struct CqlBuilder {
    conditions: Vec<String>,
}

impl View for CqlBuilder {
    type V = Seq<Seq<char>>;

    closed spec fn view(&self) -> Seq<Seq<char>> {
        texts(self.conditions@)
    }
}

impl CqlBuilder {
    /// A builder without conditions.
    pub fn new() -> (r: Self)
        ensures
            r@ == Seq::<Seq<char>>::empty(),
    {
        let r = CqlBuilder { conditions: Vec::new() };
        proof {
            assert(r@ =~= Seq::<Seq<char>>::empty());
        }
        r
    }

    fn with(self, condition: String) -> (r: Self)
        ensures
            r@ == self@.push(condition@),
    {
        let mut conditions = self.conditions;
        conditions.push(condition);
        let r = CqlBuilder { conditions };
        proof {
            assert(r@ =~= self@.push(condition@));
        }
        r
    }

    /// Adds the condition `field = value`.
    pub fn eq(self, field: &str, value: &str) -> (r: Self)
        ensures
            r@ == self@.push(eq_condition(field@, normalized(field@, value@))),
    {
        let operand = Self::normalize_value(field, value);
        self.with(crate::query::make_eq(field, operand.as_str()))
    }

    /// Adds the condition `field IN (value, ...)`; no values, no condition.
    pub fn in_list(self, field: &str, values: &[String]) -> (r: Self)
        ensures
            r@ == if values@.len() == 0 {
                self@
            } else {
                self@.push(in_condition(field@, values@))
            },
    {
        if values.len() == 0 {
            return self;
        }
        self.with(crate::query::make_in(field, values))
    }

    /// Adds the condition `field ~ value`.
    pub fn contains(self, field: &str, value: &str) -> (r: Self)
        ensures
            r@ == self@.push(contains_condition(field@, value@)),
    {
        self.with(crate::query::make_contains(field, value))
    }

    /// The query: the conditions joined by ` AND `, or the empty text where
    /// there are none.
    pub fn finish(self) -> (r: String)
        ensures
            r@ == joined(self@, " AND "@),
    {
        crate::text::join(&self.conditions, " AND ")
    }

    /// Escapes a value and puts it between double quotes.
    pub fn escape_and_quote(value: &str) -> (r: String)
        ensures
            r@ == quoted(value@),
    {
        crate::query::escape_and_quote(value)
    }

    /// The operand that stands for `value` in an equality on `field`.
    pub fn normalize_value(field: &str, value: &str) -> (r: String)
        ensures
            r@ == normalized(field@, value@),
    {
        let user = text_eq(field, "creator") || text_eq(field, "contributor") || text_eq(
            field,
            "mention",
        );
        if user && text_eq(value, "@me") {
            String::from_str("currentUser()")
        } else {
            crate::query::escape_and_quote(value)
        }
    }
}

impl Default for CqlBuilder {
    fn default() -> (r: Self)
        ensures
            r@ == Seq::<Seq<char>>::empty(),
    {
        CqlBuilder::new()
    }
}

} // verus!
