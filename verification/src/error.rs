//! Errors of the HTML discovery step.

use vstd::prelude::*;

verus! {

/// Errors that can occur while locating the header JSON in an HTML page.
#[derive(Debug)]
pub enum BmsTableError {
    /// The `<meta name="bmstable">` tag was not found or its `content` attribute is empty.
    MetaTagNotFound,
    /// An HTML selector could not be parsed.
    SelectorParse(String),
}

} // verus!
