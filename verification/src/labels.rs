//! Changes to the labels of an issue.

use vstd::prelude::*;
use crate::text::{text_eq, texts};

verus! {

/// What to do with the labels given: add them to those an issue has, take
/// them away from those, or put them in their place.
#[derive(Debug, Clone, Copy, PartialEq, Eq, Structural)]
pub enum LabelAction {
    Add,
    Remove,
    Replace,
}

/// `current` with each of `labels` put at its end, in order, unless it is
/// there by then.
pub open spec fn with_added(current: Seq<Seq<char>>, labels: Seq<Seq<char>>) -> Seq<Seq<char>>
    decreases labels.len(),
{
    if labels.len() == 0 {
        current
    } else {
        let before = with_added(current, labels.drop_last());
        if before.contains(labels.last()) {
            before
        } else {
            before.push(labels.last())
        }
    }
}

/// `current` without those that are among `labels`, the others in their
/// order.
pub open spec fn without(current: Seq<Seq<char>>, labels: Seq<Seq<char>>) -> Seq<Seq<char>>
    decreases current.len(),
{
    if current.len() == 0 {
        Seq::empty()
    } else {
        let before = without(current.drop_last(), labels);
        if labels.contains(current.last()) {
            before
        } else {
            before.push(current.last())
        }
    }
}

/// The labels of an issue after the action.
pub open spec fn relabelled(
    action: LabelAction,
    current: Seq<Seq<char>>,
    labels: Seq<Seq<char>>,
) -> Seq<Seq<char>> {
    match action {
        LabelAction::Add => with_added(current, labels),
        LabelAction::Remove => without(current, labels),
        LabelAction::Replace => labels,
    }
}

/// Whether `label` is among `labels`.
pub fn has_label(labels: &Vec<String>, label: &str) -> (r: bool)
    ensures
        r == texts(labels@).contains(label@),
{
    let n = labels.len();
    let mut i: usize = 0;
    while i < n
        invariant
            i <= n,
            n == labels@.len(),
            forall|j: int| 0 <= j < i ==> texts(labels@)[j] != label@,
        decreases n - i,
    {
        if text_eq(labels[i].as_str(), label) {
            proof {
                assert(texts(labels@)[i as int] == label@);
            }
            return true;
        }
        i = i + 1;
    }
    false
}

/// Works out the labels of an issue that has the labels `current`, for an
/// action with the labels `labels`.
pub fn apply_labels(action: LabelAction, current: Vec<String>, labels: Vec<String>) -> (r: Vec<
    String,
>)
    ensures
        texts(r@) == relabelled(action, texts(current@), texts(labels@)),
{
    match action {
        LabelAction::Add => {
            let mut result = current;
            let n = labels.len();
            let mut i: usize = 0;
            while i < n
                invariant
                    i <= n,
                    n == labels@.len(),
                    texts(result@) == with_added(texts(current@), texts(labels@).take(i as int)),
                decreases n - i,
            {
                let ghost held = texts(result@);
                proof {
                    let upto = texts(labels@).take(i as int + 1);
                    assert(upto.drop_last() =~= texts(labels@).take(i as int));
                    assert(upto.last() == labels@[i as int]@);
                }
                if !has_label(&result, labels[i].as_str()) {
                    result.push(labels[i].clone());
                    proof {
                        assert(texts(result@) =~= held.push(labels@[i as int]@));
                    }
                }
                i = i + 1;
            }
            proof {
                assert(texts(labels@).take(n as int) =~= texts(labels@));
            }
            result
        },
        LabelAction::Remove => {
            let mut result: Vec<String> = Vec::new();
            let n = current.len();
            let mut i: usize = 0;
            proof {
                assert(texts(result@) =~= without(texts(current@).take(0), texts(labels@)));
            }
            while i < n
                invariant
                    i <= n,
                    n == current@.len(),
                    texts(result@) == without(texts(current@).take(i as int), texts(labels@)),
                decreases n - i,
            {
                let ghost held = texts(result@);
                proof {
                    let upto = texts(current@).take(i as int + 1);
                    assert(upto.drop_last() =~= texts(current@).take(i as int));
                    assert(upto.last() == current@[i as int]@);
                }
                if !has_label(&labels, current[i].as_str()) {
                    result.push(current[i].clone());
                    proof {
                        assert(texts(result@) =~= held.push(current@[i as int]@));
                    }
                }
                i = i + 1;
            }
            proof {
                assert(texts(current@).take(n as int) =~= texts(current@));
            }
            result
        },
        LabelAction::Replace => labels,
    }
}

} // verus!
