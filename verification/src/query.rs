//! Builders for the query languages of the products, and the quoting rules
//! they share.

use vstd::prelude::*;
use vstd::string::*;

pub mod cql;
pub mod jql;

verus! {

/// What one character becomes inside a quoted value: a backslash and a
/// double quote each get a backslash in front, anything else stays.
pub open spec fn escaped_char(c: char) -> Seq<char> {
    if c == '\\' {
        "\\\\"@
    } else if c == '"' {
        "\\\""@
    } else {
        seq![c]
    }
}

/// A value with each of its characters escaped.
pub open spec fn escaped(value: Seq<char>) -> Seq<char>
    decreases value.len(),
{
    if value.len() == 0 {
        Seq::empty()
    } else {
        escaped(value.drop_last()) + escaped_char(value.last())
    }
}

/// A value as it stands in a query: escaped, between double quotes.
pub open spec fn quoted(value: Seq<char>) -> Seq<char> {
    "\""@ + escaped(value) + "\""@
}

/// An equality condition.
pub open spec fn eq_condition(field: Seq<char>, operand: Seq<char>) -> Seq<char> {
    field + " = "@ + operand
}

/// A text search condition.
pub open spec fn contains_condition(field: Seq<char>, value: Seq<char>) -> Seq<char> {
    field + " ~ "@ + quoted(value)
}

/// The values of a membership condition, each quoted.
pub open spec fn quoted_all(values: Seq<String>) -> Seq<Seq<char>> {
    Seq::new(values.len(), |i: int| quoted(values[i]@))
}

/// A membership condition.
pub open spec fn in_condition(field: Seq<char>, values: Seq<String>) -> Seq<char> {
    field + " IN ("@ + crate::text::joined(quoted_all(values), ", "@) + ")"@
}

/// Escapes a value and puts it between double quotes.
pub fn escape_and_quote(value: &str) -> (r: String)
    ensures
        r@ == quoted(value@),
{
    let n = value.unicode_len();
    let mut out = String::from_str("\"");
    let mut i: usize = 0;
    while i < n
        invariant
            i <= n,
            n == value@.len(),
            out@ == "\""@ + escaped(value@.take(i as int)),
        decreases n - i,
    {
        let c = value.get_char(i);
        proof {
            let head = value@.take(i as int + 1);
            assert(head.drop_last() =~= value@.take(i as int));
            assert(head.last() == c);
        }
        if c == '\\' {
            out.append("\\\\");
        } else if c == '"' {
            out.append("\\\"");
        } else {
            out.append(value.substring_char(i, i + 1));
            proof {
                assert(value@.subrange(i as int, i + 1) =~= seq![c]);
            }
        }
        proof {
            assert(out@ =~= "\""@ + escaped(value@.take(i as int + 1)));
        }
        i = i + 1;
    }
    proof {
        assert(value@.take(n as int) =~= value@);
    }
    out.append("\"");
    out
}

/// The text of an equality condition.
pub fn make_eq(field: &str, operand: &str) -> (r: String)
    ensures
        r@ == eq_condition(field@, operand@),
{
    String::from_str(field).concat(" = ").concat(operand)
}

/// The text of a text search condition.
pub fn make_contains(field: &str, value: &str) -> (r: String)
    ensures
        r@ == contains_condition(field@, value@),
{
    let operand = escape_and_quote(value);
    String::from_str(field).concat(" ~ ").concat(operand.as_str())
}

/// The text of a membership condition.
pub fn make_in(field: &str, values: &[String]) -> (r: String)
    ensures
        r@ == in_condition(field@, values@),
{
    let n = values.len();
    let mut parts: Vec<String> = Vec::new();
    let mut i: usize = 0;
    while i < n
        invariant
            i <= n,
            n == values@.len(),
            parts@.len() == i,
            forall|j: int| 0 <= j < i ==> (#[trigger] parts@[j])@ == quoted(values@[j]@),
        decreases n - i,
    {
        parts.push(escape_and_quote(values[i].as_str()));
        i = i + 1;
    }
    proof {
        assert(crate::text::texts(parts@) =~= quoted_all(values@));
    }
    let list = crate::text::join(&parts, ", ");
    String::from_str(field).concat(" IN (").concat(list.as_str()).concat(")")
}

} // verus!
