//! The labels by which a tree of polynomials grows: the label that a node
//! gives to a new child, and whether that label is still free.

use vstd::prelude::*;
use polynomial::Polynomial;
use crate::linear::{coefficient_slice, coefficients};

verus! {

/// The coefficients without the zeros at their end.
pub open spec fn trimmed(data: Seq<i64>) -> Seq<i64>
    decreases data.len(),
{
    if data.len() > 0 && data.last() == 0 {
        trimmed(data.drop_last())
    } else {
        data
    }
}

/// Calls `Polynomial::new`, which drops the zeros at the end of the
/// coefficients that it is given and keeps the others as they are. The
/// contract is not proved: it says so of the coefficients of the result.
#[verifier::external_body]
fn polynomial_of(data: Vec<i64>) -> (p: Polynomial<i64>)
    ensures
        coefficients(p) == trimmed(data@),
{
    Polynomial::new(data)
}

/// The coefficients of the label that a tree of `k` nodes gives to a new
/// child of a node whose label has the coefficients `data`: below a label
/// with a term in `n`, the number `k - 1` plus the constant; below a
/// number, `n` plus that number plus `1 - k`; below the zero polynomial,
/// `n` plus `1 - k`.
pub open spec fn child_coefficients(k: int, data: Seq<i64>) -> Seq<int> {
    if data.len() > 1 {
        seq![k - 1 + data[0]]
    } else if data.len() == 1 {
        seq![data[0] + 1 - k, 1]
    } else {
        seq![1 - k, 1]
    }
}

/// Whether a coefficient can be stored.
pub open spec fn storable(c: int) -> bool {
    i64::MIN <= c <= i64::MAX
}

/// Whether the label of the new child can be stored: its first coefficient
/// is the only one that may be too large.
pub open spec fn child_storable(k: int, data: Seq<i64>) -> bool {
    storable(child_coefficients(k, data)[0])
}

/// The coefficients of the new child's label as they are stored.
pub open spec fn child_stored(k: int, data: Seq<i64>) -> Seq<i64> {
    child_coefficients(k, data).map_values(|c: int| c as i64)
}

/// The coefficients of the label of the new child, or `None` where they
/// cannot be stored.
pub fn child_label(k: usize, data: &[i64]) -> (label: Option<Vec<i64>>)
    ensures
        child_storable(k as int, data@) ==> label.is_some() && label.unwrap()@ == child_stored(
            k as int,
            data@,
        ),
        !child_storable(k as int, data@) ==> label.is_none(),
{
    let nodes: i128 = k as i128;
    let constant: i128 = if data.len() > 0 {
        data[0] as i128
    } else {
        0
    };
    let first: i128 = if data.len() > 1 {
        nodes - 1 + constant
    } else {
        constant + 1 - nodes
    };
    if first < i64::MIN as i128 || first > i64::MAX as i128 {
        return None;
    }
    let mut out: Vec<i64> = Vec::new();
    out.push(first as i64);
    if data.len() <= 1 {
        out.push(1);
    }
    assert(out@ =~= child_stored(k as int, data@));
    Some(out)
}

/// The label of the new child of a node with the label `label` in a tree
/// of `k` nodes, or `None` where its coefficients cannot be stored.
pub fn child_polynomial(k: usize, label: &Polynomial<i64>) -> (child: Option<Polynomial<i64>>)
    ensures
        child_storable(k as int, coefficients(*label)) ==> child.is_some() && coefficients(
            child.unwrap(),
        ) == trimmed(child_stored(k as int, coefficients(*label))),
        !child_storable(k as int, coefficients(*label)) ==> child.is_none(),
{
    match child_label(k, coefficient_slice(label)) {
        Some(data) => Some(polynomial_of(data)),
        None => None,
    }
}

/// Whether one of `labels` has the coefficients `data`.
pub open spec fn carried(labels: Seq<&Polynomial<i64>>, data: Seq<i64>) -> bool {
    exists|j: int| 0 <= j < labels.len() && coefficients(*#[trigger] labels[j]) == data
}

/// Whether two slices hold the same numbers.
fn same_numbers(a: &[i64], b: &[i64]) -> (same: bool)
    ensures
        same == (a@ == b@),
{
    if a.len() != b.len() {
        return false;
    }
    let mut i: usize = 0;
    while i < a.len()
        invariant
            i <= a.len(),
            a.len() == b.len(),
            forall|k: int| 0 <= k < i ==> a@[k] == b@[k],
        decreases a.len() - i,
    {
        if a[i] != b[i] {
            return false;
        }
        i += 1;
    }
    assert(a@ =~= b@);
    true
}

/// Whether one of `labels` is the polynomial `f`: whether it has the
/// coefficients of `f`.
pub fn carries(labels: &Vec<&Polynomial<i64>>, f: &Polynomial<i64>) -> (found: bool)
    ensures
        found == carried(labels@, coefficients(*f)),
{
    let wanted = coefficient_slice(f);
    let mut j: usize = 0;
    while j < labels.len()
        invariant
            j <= labels.len(),
            wanted@ == coefficients(*f),
            forall|k: int| 0 <= k < j ==> coefficients(*#[trigger] labels@[k]) != coefficients(*f),
        decreases labels.len() - j,
    {
        if same_numbers(coefficient_slice(labels[j]), wanted) {
            return true;
        }
        j += 1;
    }
    false
}

} // verus!
