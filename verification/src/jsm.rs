//! Fields of a service desk request.

use vstd::prelude::*;

verus! {

/// One field of a request: its identifier, its label, and its value where
/// it has one.
#[derive(Debug, Clone, PartialEq, Eq)]
pub struct RequestField {
    pub field_id: String,
    pub label: String,
    pub value: Option<String>,
}

/// The code of a character with the letters `A` to `Z` taken for `a` to
/// `z`.
pub open spec fn folded(c: char) -> u32 {
    if 'A' <= c && c <= 'Z' {
        (c as u32 + 32) as u32
    } else {
        c as u32
    }
}

/// Two texts are the same but for the case of their ASCII letters.
pub open spec fn same_ignoring_case(a: Seq<char>, b: Seq<char>) -> bool {
    a.len() == b.len() && forall|i: int| 0 <= i < a.len() ==> folded(a[i]) == folded(b[i])
}

/// The field is known as `name`, by its identifier or by its label,
/// whatever the case of the letters.
pub open spec fn known_as(field: RequestField, name: Seq<char>) -> bool {
    same_ignoring_case(field.field_id@, name) || same_ignoring_case(field.label@, name)
}

/// The position of the first field that is known as `name` and has a
/// value.
pub open spec fn value_position(fields: Seq<RequestField>, name: Seq<char>) -> Option<int>
    decreases fields.len(),
{
    if fields.len() == 0 {
        None
    } else {
        match value_position(fields.drop_last(), name) {
            Some(at) => Some(at),
            None => if known_as(fields.last(), name) && fields.last().value is Some {
                Some(fields.len() - 1)
            } else {
                None
            },
        }
    }
}

/// The value of the first field that is known as `name` and has a value,
/// or the empty text where there is none.
pub open spec fn value_of(fields: Seq<RequestField>, name: Seq<char>) -> Seq<char> {
    match value_position(fields, name) {
        Some(at) => fields[at].value->0@,
        None => Seq::empty(),
    }
}

fn fold(c: char) -> (r: u32)
    ensures
        r == folded(c),
{
    if c >= 'A' && c <= 'Z' {
        c as u32 + 32
    } else {
        c as u32
    }
}

/// Whether two texts are the same but for the case of their ASCII letters.
pub fn eq_ignore_ascii_case(a: &str, b: &str) -> (r: bool)
    ensures
        r == same_ignoring_case(a@, b@),
{
    let n = a.unicode_len();
    if b.unicode_len() != n {
        return false;
    }
    let mut i: usize = 0;
    while i < n
        invariant
            i <= n,
            n == a@.len(),
            n == b@.len(),
            forall|j: int| 0 <= j < i ==> folded(a@[j]) == folded(b@[j]),
        decreases n - i,
    {
        if fold(a.get_char(i)) != fold(b.get_char(i)) {
            return false;
        }
        i = i + 1;
    }
    true
}

/// Where `value_position` finds a field, the field is known as `name` and
/// has a value, and no field before it does; where it finds none, no field
/// does.
pub proof fn lemma_value_position(fields: Seq<RequestField>, name: Seq<char>)
    ensures
        match value_position(fields, name) {
            Some(at) => 0 <= at < fields.len() && known_as(fields[at], name) && fields[at].value
                is Some && forall|j: int|
                0 <= j < at ==> !(known_as(#[trigger] fields[j], name) && fields[j].value is Some),
            None => forall|j: int|
                0 <= j < fields.len() ==> !(known_as(#[trigger] fields[j], name)
                    && fields[j].value is Some),
        },
    decreases fields.len(),
{
    if fields.len() > 0 {
        lemma_value_position(fields.drop_last(), name);
        match value_position(fields.drop_last(), name) {
            Some(at) => {
                assert forall|j: int| 0 <= j < at implies !(known_as(#[trigger] fields[j], name)
                    && fields[j].value is Some) by {
                    assert(fields.drop_last()[j] == fields[j]);
                }
            },
            None => {
                assert forall|j: int| 0 <= j < fields.len() - 1 implies !(known_as(
                    #[trigger] fields[j],
                    name,
                ) && fields[j].value is Some) by {
                    assert(fields.drop_last()[j] == fields[j]);
                }
            },
        }
    }
}

/// The value of the field known as `id_or_label`, by its identifier or by
/// its label, or the empty text where no such field has a value.
pub fn field_value<'a>(fields: &'a [RequestField], id_or_label: &str) -> (r: &'a str)
    ensures
        r@ == value_of(fields@, id_or_label@),
{
    let n = fields.len();
    let mut i: usize = 0;
    while i < n
        invariant
            i <= n,
            n == fields@.len(),
            forall|j: int|
                0 <= j < i ==> !(known_as(#[trigger] fields@[j], id_or_label@) && fields@[j].value
                    is Some),
        decreases n - i,
    {
        if eq_ignore_ascii_case(fields[i].field_id.as_str(), id_or_label) || eq_ignore_ascii_case(
            fields[i].label.as_str(),
            id_or_label,
        ) {
            match &fields[i].value {
                Some(value) => {
                    proof {
                        lemma_value_position(fields@, id_or_label@);
                    }
                    return value.as_str();
                },
                None => {},
            }
        }
        i = i + 1;
    }
    proof {
        lemma_value_position(fields@, id_or_label@);
        reveal_strlit("");
        assert(""@ =~= Seq::<char>::empty());
    }
    ""
}

} // verus!
