//! The columns in which the residuals of an orbit determination are written.

use crate::text::{decimal, index_text};
use vstd::prelude::*;

verus! {

/// The text of column `k` of the residuals of a measurement of `dim` components,
/// behind the column `epoch` of the epoch: the prefit residual of each component,
/// then the postfit residual of each.
pub open spec fn residual_column(epoch: Seq<char>, dim: int, k: int) -> Seq<char> {
    if k == 0 {
        epoch
    } else if k <= dim {
        "prefit_"@ + decimal((k - 1) as nat)
    } else {
        "postfit_"@ + decimal((k - 1 - dim) as nat)
    }
}

/// The headers of the columns of the residuals of a measurement of `dim`
/// components: the column `epoch` of the epoch, the prefit residuals and the
/// postfit residuals.
pub fn header(epoch: &str, dim: usize) -> (r: Vec<String>)
    requires
        2 * dim + 1 <= usize::MAX,
    ensures
        r@.len() == 2 * dim + 1,
        forall|k: int| 0 <= k < r@.len() ==> (#[trigger] r@[k])@ == residual_column(
            epoch@,
            dim as int,
            k,
        ),
{
    let mut r: Vec<String> = Vec::with_capacity(2 * dim + 1);
    r.push(String::from_str(epoch));
    let mut i: usize = 0;
    while i < dim
        invariant
            i <= dim,
            2 * dim + 1 <= usize::MAX,
            r@.len() == i + 1,
            forall|k: int| 0 <= k < r@.len() ==> (#[trigger] r@[k])@ == residual_column(
                epoch@,
                dim as int,
                k,
            ),
        decreases dim - i,
    {
        let number = index_text(i);
        r.push(String::from_str("prefit_").concat(number.as_str()));
        i = i + 1;
    }
    let mut j: usize = 0;
    while j < dim
        invariant
            j <= dim,
            2 * dim + 1 <= usize::MAX,
            r@.len() == dim + j + 1,
            forall|k: int| 0 <= k < r@.len() ==> (#[trigger] r@[k])@ == residual_column(
                epoch@,
                dim as int,
                k,
            ),
        decreases dim - j,
    {
        let number = index_text(j);
        r.push(String::from_str("postfit_").concat(number.as_str()));
        j = j + 1;
    }
    r
}

} // verus!
