//! The elements of an export, read from its lines.

use crate::json::values_model;
use crate::streaming::{element_texts, parse_all, read_array_file_to_values, MalformedElement};
use vstd::prelude::*;

verus! {

/// Reads the elements of an export from its lines: the document of each
/// element in order, or the text of the first element that holds none.
///
/// This takes the whole export and returns all its elements: it holds as
/// much as the export is long. Only `ArrayReader::push_line`, fed line by
/// line, holds no more than one element.
pub fn read_array_to_iter(lines: &Vec<String>) -> (r: Result<
    Vec<serde_json::Value>,
    MalformedElement,
>)
    ensures
        match parse_all(element_texts(lines.deep_view())) {
            Ok(models) => r matches Ok(values) && values_model(values@) == models,
            Err(text) => r matches Err(e) && e.text@ == text,
        },
{
    read_array_file_to_values(lines)
}

} // verus!
