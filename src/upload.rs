use vstd::prelude::*;

use crate::digest::digest_of;
use crate::error::ProofError;
use crate::store::{copy_bytes, put_view};
use crate::text::text_equals;
use crate::validator::ProofValidator;

verus! {

/// One field of a multipart request: its name, if any, and its content.
pub struct UploadField {
    pub name: Option<String>,
    pub data: Vec<u8>,
}

/// Whether a field is the one that carries the module: it is named `file`.
pub open spec fn is_file_field(f: UploadField) -> bool {
    f.name is Some && f.name->0@ == "file"@
}

/// Index `i` holds the first `file` field.
pub open spec fn first_file_at(fields: Seq<UploadField>, i: int) -> bool {
    &&& 0 <= i < fields.len()
    &&& is_file_field(fields[i])
    &&& forall|j: int| 0 <= j < i ==> !is_file_field(#[trigger] fields[j])
}

/// Whether any field is named `file`.
pub open spec fn has_file_field(fields: Seq<UploadField>) -> bool {
    exists|i: int| 0 <= i < fields.len() && is_file_field(#[trigger] fields[i])
}

fn field_is_file(f: &UploadField) -> (r: bool)
    ensures
        r == is_file_field(*f),
{
    proof {
        reveal_strlit("file");
    }
    match &f.name {
        Some(n) => text_equals(n.as_str(), "file"),
        None => false,
    }
}

fn find_file(fields: &Vec<UploadField>) -> (r: Option<usize>)
    ensures
        r is Some ==> first_file_at(fields@, r->0 as int),
        r is None ==> !has_file_field(fields@),
{
    let mut i: usize = 0;
    while i < fields.len()
        invariant
            i <= fields@.len(),
            forall|j: int| 0 <= j < i ==> !is_file_field(#[trigger] fields@[j]),
        decreases fields@.len() - i,
    {
        if field_is_file(&fields[i]) {
            return Some(i);
        }
        i = i + 1;
    }
    None
}

/// The content of the first field named `file`; `InvalidInput` when there is none.
pub fn select_file(fields: &Vec<UploadField>) -> (r: Result<Vec<u8>, ProofError>)
    ensures
        r is Ok <==> has_file_field(fields@),
        r is Ok ==> exists|i: int| first_file_at(fields@, i) && r->Ok_0@ == fields@[i].data@,
        r is Err ==> r->Err_0 == ProofError::InvalidInput,
{
    match find_file(fields) {
        Some(i) => Ok(copy_bytes(fields[i].data.as_slice())),
        None => Err(ProofError::InvalidInput),
    }
}

/// Stores the module of an upload request and returns its digest. A request without a
/// `file` field is `InvalidInput` and leaves the store untouched.
pub fn upload(v: &mut ProofValidator, fields: &Vec<UploadField>) -> (r: Result<String, ProofError>)
    requires
        old(v).wf(),
    ensures
        final(v).wf(),
        r is Ok <==> has_file_field(fields@),
        r is Err ==> r->Err_0 == ProofError::InvalidInput && final(v)@ == old(v)@,
        r is Ok ==> exists|i: int|
            first_file_at(fields@, i) && r->Ok_0@ == digest_of(fields@[i].data@) && final(v)@.blobs
                == put_view(old(v)@.blobs, fields@[i].data@),
        final(v)@.records == old(v)@.records,
        final(v)@.executions == old(v)@.executions,
{
    match find_file(fields) {
        Some(i) => Ok(v.store_module(fields[i].data.as_slice())),
        None => Err(ProofError::InvalidInput),
    }
}

} // verus!
