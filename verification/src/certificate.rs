//! Work reports and scratch sizing of fine-operator certification.
use vstd::prelude::*;
use crate::error::MultiwayError;
use crate::scratch::try_reserve_exact;

verus! {

/// Actual fine-operator applications attempted by the last admitted certificate.
#[derive(Debug, Clone, Copy, PartialEq, Eq, Structural)]
pub struct CertificateWorkReport {
    /// Unweighted incidence applications to the candidate coefficients.
    pub incidence_applications: usize,
    /// Weighted adjoint applications for residual gradient and reference RHS.
    pub adjoint_applications: usize,
}

impl Default for CertificateWorkReport {
    fn default() -> (r: Self)
        ensures
            r.incidence_applications == 0,
            r.adjoint_applications == 0,
    {
        CertificateWorkReport { incidence_applications: 0, adjoint_applications: 0 }
    }
}

/// Byte width of one stored certificate value.
pub open spec fn value_bytes_spec() -> int {
    8
}

/// The context named by every sizing failure of this module.
pub open spec fn is_certificate_context(context: &'static str) -> bool {
    context@ == "certificate workspace"@
}

fn overflow() -> (e: MultiwayError)
    ensures
        e matches MultiwayError::WorkspaceSizeOverflow { context } && is_certificate_context(
            context,
        ),
{
    proof {
        reveal_strlit("certificate workspace");
    }
    MultiwayError::WorkspaceSizeOverflow { context: "certificate workspace" }
}

/// Checked byte size of `count` stored values; a size past `isize::MAX`
/// cannot be allocated and is refused.
pub fn bytes(count: usize) -> (r: Result<usize, MultiwayError>)
    ensures
        r is Ok <==> count * value_bytes_spec() <= isize::MAX,
        r matches Ok(v) ==> v == count * value_bytes_spec(),
        r matches Err(e) ==> e matches MultiwayError::WorkspaceSizeOverflow { context }
            && is_certificate_context(context),
{
    match count.checked_mul(8) {
        Some(n) => {
            if n <= isize::MAX as usize {
                Ok(n)
            } else {
                Err(overflow())
            }
        },
        None => Err(overflow()),
    }
}

/// Payload of one tuple residual and two coefficient vectors.
pub open spec fn required_payload_spec(rows: int, cols: int) -> int {
    rows * value_bytes_spec() + cols * value_bytes_spec() * 2
}

/// Requested exclusive certificate scratch for `rows` tuples and `cols`
/// coefficients: one residual of `rows` values and two vectors of `cols`.
pub fn required_payload_bytes(rows: usize, cols: usize) -> (r: Result<usize, MultiwayError>)
    ensures
        r is Ok <==> {
            &&& rows * value_bytes_spec() <= isize::MAX
            &&& cols * value_bytes_spec() <= isize::MAX
            &&& required_payload_spec(rows as int, cols as int) <= usize::MAX
        },
        r matches Ok(v) ==> v == required_payload_spec(rows as int, cols as int),
        r matches Err(e) ==> e matches MultiwayError::WorkspaceSizeOverflow { context }
            && is_certificate_context(context),
{
    let row_bytes = bytes(rows)?;
    let col_bytes = bytes(cols)?;
    let both = match col_bytes.checked_mul(2) {
        Some(v) => v,
        None => return Err(overflow()),
    };
    match row_bytes.checked_add(both) {
        Some(v) => Ok(v),
        None => Err(overflow()),
    }
}

/// A vector of `count` copies of `fill`, reserved fallibly.
///
/// A byte size that [`bytes`] refuses fails before any reservation; a refused
/// reservation is reported with the prepared-solve context.
pub fn vector<T: Copy>(count: usize, fill: T) -> (r: Result<Vec<T>, MultiwayError>)
    ensures
        count * value_bytes_spec() > isize::MAX ==> (r matches Err(
            MultiwayError::WorkspaceSizeOverflow { context },
        ) && is_certificate_context(context)),
        r matches Ok(v) ==> v@ == Seq::new(count as nat, |i: int| fill),
        r matches Err(MultiwayError::WorkspaceSizeOverflow { .. }) ==> count * value_bytes_spec()
            > isize::MAX,
        r matches Err(MultiwayError::WorkspaceAllocation { .. }) ==> count * value_bytes_spec()
            <= isize::MAX,
        r matches Err(e) ==> e is WorkspaceSizeOverflow || e is WorkspaceAllocation,
        count * vstd::layout::size_of::<T>() > isize::MAX ==> r is Err,
        count == 0 ==> r is Ok,
{
    bytes(count)?;
    let mut values: Vec<T> = Vec::new();
    match try_reserve_exact(&mut values, count) {
        Ok(()) => {},
        Err(source) => {
            return Err(MultiwayError::WorkspaceAllocation { context: "prepared solve vector", source });
        },
    }
    let mut i: usize = 0;
    while i < count
        invariant
            i <= count,
            values@ == Seq::new(i as nat, |j: int| fill),
        decreases count - i,
    {
        values.push(fill);
        i = i + 1;
    }
    Ok(values)
}

} // verus!
