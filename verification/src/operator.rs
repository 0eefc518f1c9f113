use vstd::prelude::*;

verus! {

#[verifier::external_type_specification]
#[verifier::external_body]
pub struct ExOperator(opendal::Operator);

#[verifier::external_type_specification]
#[verifier::external_body]
pub struct ExOpendalError(opendal::Error);

/// Relies on opendal's `Operator::from_iter` for the `HdfsNative`
/// service: it builds a live backend handle from exactly the given
/// key/value configuration, and reports a construction failure as an
/// error instead of returning a handle. Whether it succeeds depends on
/// the backend, so nothing more is assumed of the outcome.
#[verifier::external_body]
pub(crate) fn build_operator(entries: &Vec<(String, String)>) -> Result<
    opendal::Operator,
    opendal::Error,
> {
    opendal::Operator::from_iter::<opendal::services::HdfsNative>(
        entries.iter().map(|p| (p.0.clone(), p.1.clone())),
    )
}

/// Relies on the `Debug` rendering of `opendal::Error` for the verbatim
/// description of a backend construction failure.
#[verifier::external_body]
pub(crate) fn backend_error_text(e: &opendal::Error) -> String {
    format!("{:?}", e)
}

} // verus!
