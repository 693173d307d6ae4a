//! Multipart request construction: one form part per batch entry.
//!
//! A part's field name and filename metadata are both the entry's base name,
//! and its body is the file at the entry's path, opened lazily when the
//! request is later streamed; so a part here carries the source path, not
//! the file's contents. Entry order is preserved, and repeated base names
//! from different directories pass through unchanged.

use vstd::prelude::*;
use crate::collector::UploadBatch;

verus! {

/// One part of the multipart form: its field name, its filename metadata,
/// and the path of the file whose contents the part will carry.
pub struct FormPart {
    pub field_name: String,
    pub file_name: String,
    pub source_path: String,
}

/// Build the multipart form's parts from a batch: one part per entry, in
/// entry order, named by the entry's base name on both the field and the
/// filename, sourcing the entry's file.
pub fn build(batch: &UploadBatch) -> (parts: Vec<FormPart>)
    ensures
        parts@.len() == batch.entries@.len(),
        forall|k: int|
            0 <= k < batch.entries@.len() ==> {
                &&& (#[trigger] parts@[k]).field_name@ == batch.entries@[k].base_name@
                &&& parts@[k].file_name@ == batch.entries@[k].base_name@
                &&& parts@[k].source_path@ == batch.entries@[k].absolute_path@
            },
{
    let mut parts: Vec<FormPart> = Vec::new();
    let mut idx: usize = 0;
    while idx < batch.entries.len()
        invariant
            idx <= batch.entries@.len(),
            parts@.len() == idx,
            forall|k: int|
                0 <= k < idx ==> {
                    &&& (#[trigger] parts@[k]).field_name@ == batch.entries@[k].base_name@
                    &&& parts@[k].file_name@ == batch.entries@[k].base_name@
                    &&& parts@[k].source_path@ == batch.entries@[k].absolute_path@
                },
        decreases batch.entries@.len() - idx,
    {
        let entry = &batch.entries[idx];
        parts.push(
            FormPart {
                field_name: entry.base_name.clone(),
                file_name: entry.base_name.clone(),
                source_path: entry.absolute_path.clone(),
            },
        );
        idx += 1;
    }
    parts
}

} // verus!
