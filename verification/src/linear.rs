//! Polynomials with integer coefficients as labels, shown as a linear term
//! in `n`.

use vstd::prelude::*;
use polynomial::Polynomial;
use crate::prettyprint::PrettyPrint;
use crate::text::{append_signed, signed_decimal};

verus! {

/// The polynomial of the `polynomial` crate. The library carries such a
/// value through and looks at it only through its coefficients.
#[verifier::external_type_specification]
#[verifier::external_body]
#[verifier::reject_recursive_types(T)]
pub struct ExPolynomial<T>(Polynomial<T>);

/// The coefficients that a polynomial holds, the constant one first.
pub uninterp spec fn coefficients(p: Polynomial<i64>) -> Seq<i64>;

/// Calls `Polynomial::data`, which hands out the coefficients that the
/// polynomial holds, as a slice. The contract is not proved: it gives the
/// contents of that slice the name `coefficients` and claims nothing of
/// what they are.
#[verifier::external_body]
pub(crate) fn coefficient_slice(p: &Polynomial<i64>) -> (data: &[i64])
    ensures
        data@ == coefficients(*p),
{
    p.data()
}

/// The text for a polynomial with the given coefficients: `0` where there
/// are none, the number where there is one, and else the term in `n` and
/// the constant, of which a coefficient 1 and a constant 0 are left out.
/// Coefficients after the second are not shown.
pub open spec fn linear_text(data: Seq<i64>) -> Seq<char> {
    if data.len() == 0 {
        seq!['0']
    } else if data.len() == 1 {
        signed_decimal(data[0] as int)
    } else {
        let term = if data[1] != 1 {
            signed_decimal(data[1] as int).push('n')
        } else {
            seq!['n']
        };
        let constant = if data[0] > 0 {
            seq!['+'] + signed_decimal(data[0] as int)
        } else if data[0] < 0 {
            signed_decimal(data[0] as int)
        } else {
            Seq::empty()
        };
        term + constant
    }
}

/// The text for a polynomial with the given coefficients.
pub fn linear_string(data: &[i64]) -> (text: String)
    ensures
        text@ == linear_text(data@),
{
    let mut out = String::new();
    proof {
        reveal_strlit("0");
        reveal_strlit("n");
        reveal_strlit("+");
    }
    if data.len() == 0 {
        out.append("0");
    } else if data.len() == 1 {
        append_signed(&mut out, data[0]);
    } else {
        let constant = data[0];
        let linear = data[1];
        if linear != 1 {
            append_signed(&mut out, linear);
        }
        out.append("n");
        if constant != 0 {
            if constant > 0 {
                out.append("+");
            }
            append_signed(&mut out, constant);
        }
    }
    out
}

impl PrettyPrint for Polynomial<i64> {
    open spec fn pretty_text(&self) -> Seq<char> {
        linear_text(coefficients(*self))
    }

    fn ascii(&self) -> (text: String) {
        linear_string(coefficient_slice(self))
    }
}

} // verus!
