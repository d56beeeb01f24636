//! Standards: normative documents, always published.
use vstd::prelude::*;

use crate::registry::{RegistryError, RegistryFault};
use crate::text::{trim, trimmed};

verus! {

/// A standard.
#[derive(Debug)]
pub struct Standard {
    pub id: String,
    pub title: String,
    pub summary: String,
    pub body: String,
    pub author: String,
    pub status: String,
    pub updated_at: String,
}

/// Files a standard: checks its id and returns it as it is stored.
pub fn put(
    id: &str,
    title: &str,
    summary: &str,
    body: &str,
    author: &str,
    now: &str,
) -> (r: Result<Standard, RegistryError>)
    ensures
        if trimmed(id@).len() == 0 {
            r matches Err(e) && e@ == RegistryFault::Validation("standard needs an id"@)
        } else {
            r matches Ok(s) && s.id@ == trimmed(id@) && s.title@ == title@ && s.summary@ == summary@
                && s.body@ == body@ && s.author@ == author@ && s.status@ == "published"@
                && s.updated_at@ == now@
        },
        r is Ok <==> trimmed(id@).len() > 0,
        r is Ok ==> r->Ok_0.status@ == "published"@,
{
    let id = trim(id);
    if id.as_str().is_empty() {
        return Err(RegistryError::validation("standard needs an id"));
    }
    Ok(
        Standard {
            id,
            title: title.to_owned(),
            summary: summary.to_owned(),
            body: body.to_owned(),
            author: author.to_owned(),
            status: "published".to_owned(),
            updated_at: now.to_owned(),
        },
    )
}

} // verus!
