//! The answers to a batch request, each with the identifier it answers.
//!
//! The catalog answers a batch request with one entry for each identifier
//! that was asked about, in the order of the request. Nothing in an entry
//! says which identifier it is for: only its place does.

use vstd::prelude::*;
use crate::data::{PackageDependencies, PackageDependents, PackageRef, PackageRefView, refs_view, clone_refs};
use crate::error::Error;
use crate::backend::texts;
use crate::purl::{PackageUrl, text_of};

verus! {

/// Each identifier with the entry at its place.
pub open spec fn aligned<T>(purls: Seq<PackageUrl>, results: Seq<T>) -> Seq<(PackageUrl, T)> {
    Seq::new(purls.len(), |i: int| (purls[i], results[i]))
}

/// Aligned answers have one entry for each identifier, and the entry at a
/// place holds the identifier and the answer at that place, whatever the
/// answer holds.
pub proof fn lemma_aligned_by_position<T>(purls: Seq<PackageUrl>, results: Seq<T>, i: int)
    requires
        purls.len() == results.len(),
        0 <= i < purls.len(),
    ensures
        aligned(purls, results).len() == purls.len(),
        aligned(purls, results)[i].0 == purls[i],
        aligned(purls, results)[i].1 == results[i],
{
}

/// The payload of a batch request has one text for each identifier, and
/// the text at a place is the text of the identifier at that
/// place. With [`lemma_aligned_by_position`]: what is asked at a place is
/// answered at that place.
pub proof fn lemma_asked_by_position(purls: Seq<PackageUrl>, i: int)
    requires
        0 <= i < purls.len(),
    ensures
        texts(purls).len() == purls.len(),
        texts(purls)[i] == text_of(purls[i]@),
{
}

/// What is wrong with an answer that cannot be aligned.
pub const MISALIGNED: &'static str = "The answer does not hold one entry for each identifier";

/// The values of a vector in reverse order.
fn reversed<T>(v: Vec<T>) -> (r: Vec<T>)
    ensures
        r@ == v@.reverse(),
{
    let ghost all = v@;
    let mut rest = v;
    let mut r: Vec<T> = Vec::new();
    while rest.len() > 0
        invariant
            rest@ == all.take(rest@.len() as int),
            rest@.len() <= all.len(),
            r@.len() + rest@.len() == all.len(),
            forall|j: int| 0 <= j < r@.len() ==> r@[j] == all[all.len() - 1 - j],
        decreases rest.len(),
    {
        let x = rest.pop().unwrap();
        r.push(x);
    }
    assert(r@ =~= all.reverse());
    r
}

/// Pairs each identifier of a batch request with the entry that answers
/// it: the entry at the same place.
///
/// An answer that does not have exactly one entry for each identifier
/// cannot be aligned and does not have the expected shape.
pub fn align<T>(purls: Vec<PackageUrl>, results: Vec<T>) -> (r: Result<Vec<(PackageUrl, T)>, Error>)
    ensures
        r is Ok <==> purls@.len() == results@.len(),
        r matches Ok(v) ==> v@ == aligned(purls@, results@),
        r matches Err(e) ==> e matches Error::DecodeFailed(reason) && reason@ == MISALIGNED@,
{
    if purls.len() != results.len() {
        return Err(Error::DecodeFailed(MISALIGNED.to_owned()));
    }
    let ghost keys = purls@;
    let ghost values = results@;
    let mut a = reversed(purls);
    let mut b = reversed(results);
    let mut out: Vec<(PackageUrl, T)> = Vec::new();
    while a.len() > 0
        invariant
            keys.len() == values.len(),
            a@.len() == b@.len(),
            a@.len() <= keys.len(),
            a@ == keys.reverse().take(a@.len() as int),
            b@ == values.reverse().take(b@.len() as int),
            out@.len() + a@.len() == keys.len(),
            forall|j: int| 0 <= j < out@.len() ==> out@[j] == (keys[j], values[j]),
        decreases a.len(),
    {
        let k = a.pop().unwrap();
        let v = b.pop().unwrap();
        out.push((k, v));
    }
    assert(out@ =~= aligned(keys, values));
    Ok(out)
}

/// The pointers of the first entry, or none where there is no entry.
pub open spec fn first_or_empty(entries: Seq<Seq<PackageRefView>>) -> Seq<PackageRefView> {
    if entries.len() > 0 {
        entries[0]
    } else {
        Seq::empty()
    }
}

/// How many pointers the first entry holds; nothing where there is no
/// entry.
pub open spec fn first_len(entries: Seq<Seq<PackageRefView>>) -> Option<usize> {
    if entries.len() > 0 {
        Some(entries[0].len() as usize)
    } else {
        None
    }
}

/// Lists of dependencies as texts.
pub open spec fn dependencies_view(v: Seq<PackageDependencies>) -> Seq<Seq<PackageRefView>> {
    Seq::new(v.len(), |i: int| v[i]@)
}

/// Lists of dependents as texts.
pub open spec fn dependents_view(v: Seq<PackageDependents>) -> Seq<Seq<PackageRefView>> {
    Seq::new(v.len(), |i: int| v[i]@)
}

/// The dependencies of the one package that was asked about: the first
/// entry of the answer.
pub fn first_dependencies(data: &Vec<PackageDependencies>) -> (r: Vec<PackageRef>)
    ensures
        refs_view(r@) == first_or_empty(dependencies_view(data@)),
{
    if data.len() > 0 {
        clone_refs(&data[0].0)
    } else {
        let r: Vec<PackageRef> = Vec::new();
        assert(refs_view(r@) =~= Seq::<PackageRefView>::empty());
        r
    }
}

/// The dependents of the one package that was asked about: the first
/// entry of the answer.
pub fn first_dependents(data: &Vec<PackageDependents>) -> (r: Vec<PackageRef>)
    ensures
        refs_view(r@) == first_or_empty(dependents_view(data@)),
{
    if data.len() > 0 {
        clone_refs(&data[0].0)
    } else {
        let r: Vec<PackageRef> = Vec::new();
        assert(refs_view(r@) =~= Seq::<PackageRefView>::empty());
        r
    }
}

/// How many dependencies the one package that was asked about has.
pub fn count_dependencies(data: &Vec<PackageDependencies>) -> (r: Option<usize>)
    ensures
        r == first_len(dependencies_view(data@)),
{
    if data.len() > 0 {
        Some(data[0].0.len())
    } else {
        None
    }
}

/// How many dependents the one package that was asked about has.
pub fn count_dependents(data: &Vec<PackageDependents>) -> (r: Option<usize>)
    ensures
        r == first_len(dependents_view(data@)),
{
    if data.len() > 0 {
        Some(data[0].0.len())
    } else {
        None
    }
}

} // verus!
