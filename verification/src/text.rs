//! Small operations on text that the rest of the library shares.

use vstd::prelude::*;
use vstd::string::*;

verus! {

/// The texts of a sequence of strings.
pub open spec fn texts(strings: Seq<String>) -> Seq<Seq<char>> {
    Seq::new(strings.len(), |i: int| strings[i]@)
}

/// The parts written one after the other with `separator` between each two.
pub open spec fn joined(parts: Seq<Seq<char>>, separator: Seq<char>) -> Seq<char>
    decreases parts.len(),
{
    if parts.len() == 0 {
        Seq::empty()
    } else if parts.len() == 1 {
        parts[0]
    } else {
        joined(parts.drop_last(), separator) + separator + parts.last()
    }
}

/// Whether two texts are the same, character by character.
pub fn text_eq(a: &str, b: &str) -> (r: bool)
    ensures
        r == (a@ == b@),
{
    let n = a.unicode_len();
    if b.unicode_len() != n {
        return false;
    }
    let mut i: usize = 0;
    while i < n
        invariant
            i <= n,
            n == a@.len(),
            n == b@.len(),
            forall|j: int| 0 <= j < i ==> a@[j] == b@[j],
        decreases n - i,
    {
        if a.get_char(i) != b.get_char(i) {
            return false;
        }
        i = i + 1;
    }
    proof {
        assert(a@ =~= b@);
    }
    true
}

/// Joins the strings with `separator` between each two.
pub fn join(parts: &Vec<String>, separator: &str) -> (r: String)
    ensures
        r@ == joined(texts(parts@), separator@),
{
    let mut out = String::new();
    let n = parts.len();
    let mut i: usize = 0;
    while i < n
        invariant
            i <= n,
            n == parts@.len(),
            out@ == joined(texts(parts@).take(i as int), separator@),
        decreases n - i,
    {
        proof {
            let head = texts(parts@).take(i as int + 1);
            assert(head.drop_last() =~= texts(parts@).take(i as int));
            assert(head.last() == parts@[i as int]@);
        }
        if i > 0 {
            out.append(separator);
        }
        out.append(parts[i].as_str());
        proof {
            if i == 0 {
                assert(out@ =~= parts@[0]@);
            }
        }
        i = i + 1;
    }
    proof {
        assert(texts(parts@).take(n as int) =~= texts(parts@));
    }
    out
}

/// The text in upper case, as `str::to_uppercase` of the standard library
/// gives it.
pub uninterp spec fn uppercase(text: Seq<char>) -> Seq<char>;

/// Calls `str::to_uppercase`. The result depends on the text alone and is
/// named [`uppercase`]; nothing more is claimed about it.
#[verifier::external_body]
pub(crate) fn to_uppercase(text: &str) -> (r: String)
    ensures
        r@ == uppercase(text@),
{
    text.to_uppercase()
}

/// `text` without `prefix` at its start, or `text` itself where it does
/// not start with `prefix`.
pub open spec fn without_prefix(text: Seq<char>, prefix: Seq<char>) -> Seq<char> {
    if prefix.is_prefix_of(text) {
        text.skip(prefix.len() as int)
    } else {
        text
    }
}

/// Whether `text` starts with `prefix`.
pub fn starts_with(text: &str, prefix: &str) -> (r: bool)
    ensures
        r == prefix@.is_prefix_of(text@),
{
    let n = prefix.unicode_len();
    if text.unicode_len() < n {
        return false;
    }
    let mut i: usize = 0;
    while i < n
        invariant
            i <= n,
            n == prefix@.len(),
            n <= text@.len(),
            forall|j: int| 0 <= j < i ==> text@[j] == prefix@[j],
        decreases n - i,
    {
        if text.get_char(i) != prefix.get_char(i) {
            proof {
                if prefix@.is_prefix_of(text@) {
                    assert(text@.subrange(0, n as int)[i as int] == prefix@[i as int]);
                }
            }
            return false;
        }
        i = i + 1;
    }
    proof {
        assert(text@.subrange(0, n as int) =~= prefix@);
    }
    true
}

/// Takes `prefix` off the start of `text` where it stands there.
pub fn strip_prefix<'a>(text: &'a str, prefix: &str) -> (r: &'a str)
    ensures
        r@ == without_prefix(text@, prefix@),
{
    if starts_with(text, prefix) {
        let r = text.substring_char(prefix.unicode_len(), text.unicode_len());
        proof {
            assert(r@ =~= text@.skip(prefix@.len() as int));
        }
        r
    } else {
        text
    }
}

/// The position of the first entry under `key`, if there is one.
pub open spec fn position<V>(entries: Seq<(String, V)>, key: Seq<char>) -> Option<int>
    decreases entries.len(),
{
    if entries.len() == 0 {
        None
    } else {
        match position(entries.drop_last(), key) {
            Some(i) => Some(i),
            None => if entries.last().0@ == key {
                Some(entries.len() - 1)
            } else {
                None
            },
        }
    }
}

/// Where `position` finds a key, the key is there, and nowhere before;
/// where it finds none, the key is nowhere.
pub proof fn lemma_position<V>(entries: Seq<(String, V)>, key: Seq<char>)
    ensures
        match position(entries, key) {
            Some(i) => 0 <= i < entries.len() && entries[i].0@ == key && forall|j: int|
                0 <= j < i ==> (#[trigger] entries[j]).0@ != key,
            None => forall|j: int| 0 <= j < entries.len() ==> (#[trigger] entries[j]).0@ != key,
        },
    decreases entries.len(),
{
    if entries.len() > 0 {
        lemma_position(entries.drop_last(), key);
        match position(entries.drop_last(), key) {
            Some(i) => {
                assert forall|j: int| 0 <= j < i implies (#[trigger] entries[j]).0@ != key by {
                    assert(entries.drop_last()[j] == entries[j]);
                }
            },
            None => {
                assert forall|j: int| 0 <= j < entries.len() - 1 implies (#[trigger] entries[j]).0@
                    != key by {
                    assert(entries.drop_last()[j] == entries[j]);
                }
            },
        }
    }
}

/// The first place at which a key stands is its position.
pub proof fn lemma_position_found<V>(entries: Seq<(String, V)>, key: Seq<char>, i: int)
    requires
        0 <= i < entries.len(),
        entries[i].0@ == key,
        forall|j: int| 0 <= j < i ==> (#[trigger] entries[j]).0@ != key,
    ensures
        position(entries, key) == Some(i),
{
    lemma_position(entries, key);
}

/// Finds the first entry under `key`.
pub fn find_key<V>(entries: &Vec<(String, V)>, key: &str) -> (r: Option<usize>)
    ensures
        match r {
            Some(i) => position(entries@, key@) == Some(i as int) && i < entries@.len(),
            None => position(entries@, key@) is None,
        },
{
    let n = entries.len();
    let mut i: usize = 0;
    while i < n
        invariant
            i <= n,
            n == entries@.len(),
            forall|j: int| 0 <= j < i ==> (#[trigger] entries@[j]).0@ != key@,
        decreases n - i,
    {
        if text_eq(entries[i].0.as_str(), key) {
            proof {
                lemma_position_found(entries@, key@, i as int);
            }
            return Some(i);
        }
        i = i + 1;
    }
    proof {
        lemma_position(entries@, key@);
    }
    None
}

/// The order of texts: character by character, a text before every
/// longer text that starts with it.
pub open spec fn text_less(a: Seq<char>, b: Seq<char>) -> bool
    decreases a.len(),
{
    if b.len() == 0 {
        false
    } else if a.len() == 0 {
        true
    } else if a[0] == b[0] {
        text_less(a.drop_first(), b.drop_first())
    } else {
        a[0] < b[0]
    }
}

/// Of two texts, one comes before the other or they are the same, and
/// only one of the three holds.
pub proof fn lemma_text_order_total(a: Seq<char>, b: Seq<char>)
    ensures
        a == b || text_less(a, b) || text_less(b, a),
        !(text_less(a, b) && text_less(b, a)),
        a == b ==> !text_less(a, b),
    decreases a.len(),
{
    if a.len() > 0 && b.len() > 0 && a[0] == b[0] {
        lemma_text_order_total(a.drop_first(), b.drop_first());
        if a.drop_first() == b.drop_first() {
            assert(a =~= seq![a[0]] + a.drop_first());
            assert(b =~= seq![b[0]] + b.drop_first());
        }
    } else if a.len() == 0 && b.len() == 0 {
        assert(a =~= b);
    }
}

/// What comes before a text comes before everything after it.
pub proof fn lemma_text_order_transitive(a: Seq<char>, b: Seq<char>, c: Seq<char>)
    requires
        text_less(a, b),
        text_less(b, c),
    ensures
        text_less(a, c),
    decreases a.len(),
{
    if a.len() > 0 && a[0] == b[0] && b[0] == c[0] {
        lemma_text_order_transitive(a.drop_first(), b.drop_first(), c.drop_first());
    }
}

/// Whether `a` comes before `b`.
pub fn less_than(a: &str, b: &str) -> (r: bool)
    ensures
        r == text_less(a@, b@),
{
    let n = a.unicode_len();
    let m = b.unicode_len();
    let mut i: usize = 0;
    proof {
        assert(a@.skip(0) =~= a@);
        assert(b@.skip(0) =~= b@);
    }
    loop
        invariant
            i <= n,
            i <= m,
            n == a@.len(),
            m == b@.len(),
            text_less(a@, b@) == text_less(a@.skip(i as int), b@.skip(i as int)),
        decreases n - i,
    {
        if i >= m {
            return false;
        }
        if i >= n {
            return true;
        }
        let x = a.get_char(i);
        let y = b.get_char(i);
        proof {
            assert(a@.skip(i as int)[0] == x);
            assert(b@.skip(i as int)[0] == y);
            assert(a@.skip(i as int).drop_first() =~= a@.skip(i as int + 1));
            assert(b@.skip(i as int).drop_first() =~= b@.skip(i as int + 1));
        }
        if x != y {
            return x < y;
        }
        i = i + 1;
    }
}

/// The texts stand in order, none twice.
pub open spec fn strictly_sorted(keys: Seq<String>) -> bool {
    forall|i: int, j: int|
        0 <= i < j < keys.len() ==> text_less((#[trigger] keys[i])@, (#[trigger] keys[j])@)
}

/// `key` is among the texts.
pub open spec fn holds_text(keys: Seq<String>, key: Seq<char>) -> bool {
    exists|i: int| 0 <= i < keys.len() && (#[trigger] keys[i])@ == key
}

/// Puts `key` in its place among texts that stand in order, unless it is
/// there already.
pub fn insert_sorted(keys: &mut Vec<String>, key: &str)
    requires
        strictly_sorted(old(keys)@),
    ensures
        strictly_sorted(final(keys)@),
        forall|k: Seq<char>|
            #[trigger] holds_text(final(keys)@, k) <==> (holds_text(old(keys)@, k) || k == key@),
{
    let ghost before = keys@;
    let n = keys.len();
    let mut i: usize = 0;
    while i < n && less_than(keys[i].as_str(), key)
        invariant
            i <= n,
            n == keys@.len(),
            keys@ == before,
            forall|j: int| 0 <= j < i ==> text_less((#[trigger] before[j])@, key@),
        decreases n - i,
    {
        i = i + 1;
    }
    if i < n && text_eq(keys[i].as_str(), key) {
        proof {
            assert forall|k: Seq<char>| #[trigger]
                holds_text(before, k) <==> (holds_text(before, k) || k == key@) by {
                if k == key@ {
                    assert(before[i as int]@ == k);
                }
            }
        }
        return ;
    }
    let fresh = String::from_str(key);
    keys.insert(i, fresh);
    proof {
        let after = keys@;
        assert(after =~= before.insert(i as int, fresh));
        assert forall|x: int, y: int| 0 <= x < y < after.len() implies text_less(
            (#[trigger] after[x])@,
            (#[trigger] after[y])@,
        ) by {
            if y == i {
                assert(after[x] == before[x]);
            } else if x == i {
                assert(after[y] == before[y - 1]);
                lemma_text_order_total(before[i as int]@, key@);
                if y - 1 > i {
                    assert(text_less(before[i as int]@, before[y - 1]@));
                    lemma_text_order_transitive(key@, before[i as int]@, before[y - 1]@);
                }
            } else {
                let bx = if x < i { x } else { x - 1 };
                let by = if y < i { y } else { y - 1 };
                assert(after[x] == before[bx]);
                assert(after[y] == before[by]);
            }
        }
        assert forall|k: Seq<char>| #[trigger]
            holds_text(after, k) <==> (holds_text(before, k) || k == key@) by {
            if holds_text(after, k) {
                let x = choose|x: int| 0 <= x < after.len() && (#[trigger] after[x])@ == k;
                if x < i {
                    assert(before[x]@ == k);
                } else if x > i {
                    assert(before[x - 1]@ == k);
                }
            }
            if holds_text(before, k) {
                let x = choose|x: int| 0 <= x < before.len() && (#[trigger] before[x])@ == k;
                if x < i {
                    assert(after[x]@ == k);
                } else {
                    assert(after[x + 1]@ == k);
                }
            }
            if k == key@ {
                assert(after[i as int]@ == k);
            }
        }
    }
}

} // verus!
