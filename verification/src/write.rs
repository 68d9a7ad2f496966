//! A status write: which object, and what to merge into it.

use vstd::prelude::*;

use crate::json::{Json, JsonView};
use crate::resources::{str_or, text_or, ObjectMeta};

verus! {

/// A merge patch for the status of one object.
pub struct StatusWrite {
    /// Namespace.
    pub namespace: String,
    /// Name.
    pub name: String,
    /// What to merge.
    pub patch: Json,
}

/// What a status write holds.
pub struct WriteView {
    /// Namespace.
    pub namespace: Seq<char>,
    /// Name.
    pub name: Seq<char>,
    /// What to merge.
    pub patch: JsonView,
}

impl View for StatusWrite {
    type V = WriteView;

    open spec fn view(&self) -> WriteView {
        WriteView { namespace: self.namespace@, name: self.name@, patch: self.patch@ }
    }
}

/// What an optional status write holds.
pub open spec fn opt_write(w: Option<StatusWrite>) -> Option<WriteView> {
    match w {
        Some(x) => Some(x@),
        None => None,
    }
}

/// The write of `patch` to the object; one without a namespace is in `default`.
pub open spec fn write_to(meta: ObjectMeta, patch: JsonView) -> WriteView {
    WriteView {
        namespace: text_or(meta.namespace, "default"@),
        name: text_or(meta.name, ""@),
        patch,
    }
}

/// The write of `patch` to the object; one without a namespace is in `default`.
pub fn write_status(meta: &ObjectMeta, patch: Json) -> (r: StatusWrite)
    ensures
        r@ == write_to(*meta, patch@),
{
    StatusWrite {
        namespace: str_or(&meta.namespace, "default").to_owned(),
        name: str_or(&meta.name, "").to_owned(),
        patch,
    }
}

} // verus!
