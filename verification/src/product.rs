//! The products that the client knows by name.

use vstd::prelude::*;

verus! {

/// A product.
#[derive(Clone, Copy, Debug, PartialEq, Eq, Structural)]
pub enum ProductKind {
    Jira,
    Confluence,
    Bitbucket,
    Jsm,
    Opsgenie,
    Bamboo,
}

/// The arguments handed through to a product's own commands.
#[derive(Debug, Clone)]
pub struct ProductArgs {
    pub passthrough: Vec<String>,
}

impl Default for ProductArgs {
    fn default() -> (r: Self)
        ensures
            r.passthrough@.len() == 0,
    {
        ProductArgs { passthrough: Vec::new() }
    }
}

/// What there is to tell the user about a product without commands.
#[derive(Clone, Copy, Debug, PartialEq, Eq, Structural)]
pub enum ProductNotice {
    /// Nothing was asked of the product: support is on its way.
    ComingSoon,
    /// A command was asked for that does not exist yet.
    NotImplemented,
}

impl ProductKind {
    /// The name of the product in lower case.
    pub open spec fn name(self) -> Seq<char> {
        match self {
            ProductKind::Jira => "jira"@,
            ProductKind::Confluence => "confluence"@,
            ProductKind::Bitbucket => "bitbucket"@,
            ProductKind::Jsm => "jsm"@,
            ProductKind::Opsgenie => "opsgenie"@,
            ProductKind::Bamboo => "bamboo"@,
        }
    }

    /// The name of the product in lower case.
    pub fn as_str(&self) -> (r: &'static str)
        ensures
            r@ == self.name(),
    {
        match self {
            ProductKind::Jira => "jira",
            ProductKind::Confluence => "confluence",
            ProductKind::Bitbucket => "bitbucket",
            ProductKind::Jsm => "jsm",
            ProductKind::Opsgenie => "opsgenie",
            ProductKind::Bamboo => "bamboo",
        }
    }
}

/// Handles a command for a product that has none yet: nothing is done, and
/// the result says which notice the user is owed.
pub fn handle(product: ProductKind, args: &ProductArgs) -> (r: ProductNotice)
    ensures
        r == if args.passthrough@.len() == 0 {
            ProductNotice::ComingSoon
        } else {
            ProductNotice::NotImplemented
        },
{
    if args.passthrough.len() == 0 {
        ProductNotice::ComingSoon
    } else {
        ProductNotice::NotImplemented
    }
}

} // verus!
