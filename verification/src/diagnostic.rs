//! What the generators report about the declarations they are given.

use vstd::prelude::*;

verus! {

/// `proc_macro2::Span`: a position in the source text. The library only
/// carries it from a declaration to the diagnostic about that declaration;
/// nothing is known of what a span holds.
#[verifier::external_type_specification]
#[verifier::external_body]
pub struct ExSpan(proc_macro2::Span);

/// A message for the author of the declarations, and the position in the
/// source that it is about.
pub struct Diagnostic {
    pub span: proc_macro2::Span,
    pub message: String,
}

} // verus!
