//! What the geometry kernel reports, and how it is told to the user.

use crate::document::{Document, DocumentModel};
use crate::features::FeatureId;
use crate::regen::RegenError;
use crate::scalar::Scalar;
use crate::sketch::ProfileElem;
use vstd::prelude::*;

verus! {

/// A failure of the geometry kernel, in its own words.
#[derive(Clone, PartialEq, Eq, Debug)]
pub struct KernelError(pub String);

/// What is shown for a feature's failure.
pub open spec fn explanation(error: RegenError<KernelError>, doc: DocumentModel) -> Seq<char> {
    match error {
        RegenError::Backend { source, .. } => source.0@,
        RegenError::MissingInput { input, .. } => match doc.history.index(input) {
            Some(i) => "needs '"@ + doc.history.features[i].name + "' (suppressed)"@,
            None => "needs a step that was deleted"@,
        },
        RegenError::Invalid { reason, .. } => reason@,
    }
}

/// What is shown for a feature's failure.
pub fn error_message(error: &RegenError<KernelError>, doc: &Document) -> (r: String)
    ensures
        r@ == explanation(*error, doc@),
{
    match error {
        RegenError::Backend { source, .. } => String::from_str(source.0.as_str()),
        RegenError::MissingInput { input, .. } => match doc.history.get(*input) {
            Some(f) => {
                let mut text = String::from_str("needs '");
                text.append(f.name.as_str());
                text.append("' (suppressed)");
                text
            },
            None => String::from_str("needs a step that was deleted"),
        },
        RegenError::Invalid { reason, .. } => String::from_str(reason),
    }
}

/// What is shown for each failure of a rebuild, in order.
pub open spec fn explanations(errors: Seq<RegenError<KernelError>>, doc: DocumentModel) -> Seq<
    (FeatureId, Seq<char>),
> {
    Seq::new(errors.len(), |i: int| (errors[i].culprit(), explanation(errors[i], doc)))
}

/// What is shown for each failure of a rebuild, in order.
pub fn problems(errors: &[RegenError<KernelError>], doc: &Document) -> (r: Vec<(FeatureId, String)>)
    ensures
        crate::panel::texts(r@) == explanations(errors@, doc@),
{
    let mut r: Vec<(FeatureId, String)> = Vec::new();
    let mut i: usize = 0;
    while i < errors.len()
        invariant
            i <= errors@.len(),
            r@.len() == i,
            forall|k: int|
                0 <= k < i ==> (#[trigger] r@[k]).0 == errors@[k].culprit() && r@[k].1@
                    == explanation(errors@[k], doc@),
        decreases errors@.len() - i,
    {
        r.push((errors[i].feature(), error_message(&errors[i], doc)));
        i += 1;
    }
    assert(crate::panel::texts(r@) =~= explanations(errors@, doc@));
    r
}

/// One, which marks a cubic.
pub open spec fn cubic_mark() -> Scalar {
    Scalar { bits: 0x3ff0_0000_0000_0000 }
}

/// A segment as five numbers: whether it is a cubic, and its two handles, zero for
/// a straight one.
pub open spec fn segment_numbers(e: ProfileElem) -> Seq<Scalar> {
    let zero = Scalar { bits: 0 };
    match e {
        ProfileElem::Line { .. } => seq![zero, zero, zero, zero, zero],
        ProfileElem::Bezier { c1, c2, .. } => seq![cubic_mark(), c1[0], c1[1], c2[0], c2[1]],
    }
}

/// Where each of the first `n` segments begins, as one list of coordinates.
pub open spec fn start_numbers(elements: Seq<ProfileElem>, n: nat) -> Seq<Scalar>
    decreases n,
{
    if n == 0 {
        seq![]
    } else {
        let p = elements[n - 1].first();
        start_numbers(elements, (n - 1) as nat).push(p[0]).push(p[1])
    }
}

/// The numbers of the first `n` segments, one after the other.
pub open spec fn all_numbers(elements: Seq<ProfileElem>, n: nat) -> Seq<Scalar>
    decreases n,
{
    if n == 0 {
        seq![]
    } else {
        all_numbers(elements, (n - 1) as nat) + segment_numbers(elements[n - 1])
    }
}

/// A closed boundary as the kernel takes it: where its segments begin, and five
/// numbers for each.
pub fn flat_profile(elements: &[ProfileElem]) -> (r: (Vec<Scalar>, Vec<Scalar>))
    ensures
        r.0@ == start_numbers(elements@, elements@.len()),
        r.1@ == all_numbers(elements@, elements@.len()),
{
    let zero = Scalar::zero();
    let mut points: Vec<Scalar> = Vec::new();
    let mut segments: Vec<Scalar> = Vec::new();
    let mut i: usize = 0;
    while i < elements.len()
        invariant
            i <= elements@.len(),
            zero == (Scalar { bits: 0 }),
            points@ == start_numbers(elements@, i as nat),
            segments@ == all_numbers(elements@, i as nat),
        decreases elements@.len() - i,
    {
        let e = elements[i];
        let p = e.start();
        points.push(p[0]);
        points.push(p[1]);
        let ghost before = segments@;
        let numbers: [Scalar; 5] = match e {
            ProfileElem::Line { .. } => [zero, zero, zero, zero, zero],
            ProfileElem::Bezier { c1, c2, .. } => [Scalar::one(), c1[0], c1[1], c2[0], c2[1]],
        };
        segments.push(numbers[0]);
        segments.push(numbers[1]);
        segments.push(numbers[2]);
        segments.push(numbers[3]);
        segments.push(numbers[4]);
        assert(segments@ =~= before + segment_numbers(e));
        i += 1;
    }
    (points, segments)
}

/// An open path as the kernel takes it: where its segments begin and where the
/// last one ends, and five numbers for each.
pub fn flat_path(elements: &[ProfileElem]) -> (r: (Vec<Scalar>, Vec<Scalar>))
    ensures
        r.0@ == (if elements@.len() == 0 {
            seq![]
        } else {
            let p = elements@.last().last();
            start_numbers(elements@, elements@.len()).push(p[0]).push(p[1])
        }),
        r.1@ == all_numbers(elements@, elements@.len()),
{
    let (mut points, segments) = flat_profile(elements);
    if elements.len() > 0 {
        let p = match elements[elements.len() - 1] {
            ProfileElem::Line { b, .. } => b,
            ProfileElem::Bezier { b, .. } => b,
        };
        points.push(p[0]);
        points.push(p[1]);
    }
    (points, segments)
}

/// The kernel gets every segment: two numbers for where it begins and five for itself,
/// in order, of which the first tells a cubic from a straight one and the others are
/// the coordinates of its two handles.
pub proof fn law_the_kernel_gets_every_segment(elements: Seq<ProfileElem>, n: nat, i: int)
    requires
        n <= elements.len(),
        0 <= i < n,
    ensures
        start_numbers(elements, n).len() == 2 * n,
        all_numbers(elements, n).len() == 5 * n,
        ({
            let (starts, numbers) = (start_numbers(elements, n), all_numbers(elements, n));
            match elements[i] {
                ProfileElem::Line { a, .. } => {
                    &&& starts[2 * i] == a[0] && starts[2 * i + 1] == a[1]
                    &&& numbers[5 * i].equals(Scalar { bits: 0 })
                },
                ProfileElem::Bezier { a, c1, c2, .. } => {
                    &&& starts[2 * i] == a[0] && starts[2 * i + 1] == a[1]
                    &&& !numbers[5 * i].equals(Scalar { bits: 0 })
                    &&& numbers[5 * i + 1] == c1[0] && numbers[5 * i + 2] == c1[1]
                    &&& numbers[5 * i + 3] == c2[0] && numbers[5 * i + 4] == c2[1]
                },
            }
        }),
    decreases n,
{
    lemma_number_counts(elements, (n - 1) as nat);
    if i < n - 1 {
        law_the_kernel_gets_every_segment(elements, (n - 1) as nat, i);
    }
}

proof fn lemma_number_counts(elements: Seq<ProfileElem>, n: nat)
    ensures
        start_numbers(elements, n).len() == 2 * n,
        all_numbers(elements, n).len() == 5 * n,
    decreases n,
{
    if n > 0 {
        lemma_number_counts(elements, (n - 1) as nat);
    }
}

/// A failure is explained by what it is: the kernel's own words, or the reason, or the
/// missing feature by its name where it is still in the history.
pub proof fn law_failures_are_explained(
    error: RegenError<KernelError>,
    doc: DocumentModel,
    i: int,
)
    ensures
        match error {
            RegenError::Backend { source, .. } => explanation(error, doc) == source.0@,
            RegenError::Invalid { reason, .. } => explanation(error, doc) == reason@,
            RegenError::MissingInput { input, .. } => {
                &&& doc.history.well_formed() && 0 <= i < doc.history.features.len()
                    && doc.history.features[i].id == input ==> exists|before: Seq<char>,
                    after: Seq<char>,
                |
                    explanation(error, doc) == #[trigger] (before + doc.history.features[i].name
                        + after)
                &&& (forall|j: int|
                    0 <= j < doc.history.features.len() ==> (
                    #[trigger] doc.history.features[j]).id != input) ==> explanation(error, doc)
                    == "needs a step that was deleted"@
            },
        },
{
    if let RegenError::MissingInput { input, .. } = error {
        crate::history::lemma_position(doc.history.features, input, 0);
        if doc.history.well_formed() && 0 <= i < doc.history.features.len()
            && doc.history.features[i].id == input {
            let p = doc.history.index(input)->Some_0;
            if p < i {
                assert(doc.history.features[p].id != doc.history.features[i].id);
            }
            assert(explanation(error, doc) == "needs '"@ + doc.history.features[i].name
                + "' (suppressed)"@);
        }
    }
}

} // verus!
