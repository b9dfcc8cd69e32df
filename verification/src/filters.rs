//! The `with_zero` template filter: the canonical display string of a
//! numeric value, showing exactly one digit after the decimal point when the
//! fractional part is zero and the natural decimal string otherwise.

use vstd::prelude::*;

use crate::decimal::Decimal;

verus! {

/// A value handed to a template filter.
pub enum TemplateValue {
    /// A numeric value, integer-valued or fractional.
    Number(Decimal),
    /// A text value.
    Text(String),
    /// A boolean value.
    Boolean(bool),
    /// The absent value.
    Null,
}

/// The failure of a template filter applied to a value outside its domain.
#[derive(Clone, Copy, Debug, PartialEq, Eq, Structural)]
pub enum FilterError {
    /// The `with_zero` filter was applied to a non-numeric value.
    NonNumericValue,
}

impl FilterError {
    /// A human-readable description of the failure.
    pub fn message(&self) -> (r: &'static str)
        ensures
            r@ == "Filter `with_zero` received non-numeric type"@,
    {
        "Filter `with_zero` received non-numeric type"
    }
}

/// Formats a numeric value for the rendered document: a whole value shows
/// exactly one zero after the decimal point, a fractional value shows its
/// natural decimal string, and a non-numeric value is rejected.
pub fn with_zero(value: &TemplateValue) -> (r: Result<String, FilterError>)
    ensures
        value matches TemplateValue::Number(d) ==> r matches Ok(s) && s@
            == d.spec_with_zero_text(),
        !(value is Number) ==> r == Err::<String, FilterError>(FilterError::NonNumericValue),
{
    match value {
        TemplateValue::Number(d) => Ok(d.to_text_with_zero()),
        _ => Err(FilterError::NonNumericValue),
    }
}

/// A whole value is formatted as its sign and integer digits followed by
/// `.0`.
pub proof fn lemma_with_zero_whole(d: Decimal)
    requires
        d.wf(),
        d.frac_part@.len() == 0,
    ensures
        d.spec_with_zero_text() == d.spec_sign_text() + d.int_part@ + seq!['.', '0'],
{
    assert(d.spec_with_zero_text() =~= d.spec_sign_text() + d.int_part@ + seq!['.', '0']);
}

/// A value with a nonzero fractional part is formatted as its natural
/// decimal string: no digit is added or rounded away.
pub proof fn lemma_with_zero_fractional(d: Decimal)
    requires
        d.wf(),
        d.frac_part@.len() > 0,
    ensures
        d.spec_with_zero_text() == d.spec_natural_text(),
{
    assert(d.spec_with_zero_text() =~= d.spec_natural_text());
}

} // verus!
