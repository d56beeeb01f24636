//! Recipes: named compositions of catalog services, moderated like guidance.
use vstd::prelude::*;

use crate::json::Json;
use crate::registry::guidance::{document_slug, filed_under, moderation, submission_status};
use crate::registry::{RegistryError, RegistryFault};
use crate::text::{contents_ref, copy_texts, text_eq, texts};

verus! {

/// A recipe.
#[derive(Debug)]
pub struct Recipe {
    pub slug: String,
    pub name: String,
    pub summary: String,
    pub body: String,
    /// The composition itself; the store does not look into it.
    pub spec: Json,
    pub tags: Vec<String>,
    pub author: String,
    pub status: String,
    pub updated_at: String,
}

/// Files a recipe: checks its name and returns it as it is stored.
pub fn put(
    slug: Option<&str>,
    name: &str,
    summary: &str,
    body: &str,
    spec: &Json,
    tags: &Vec<String>,
    author: &str,
    published: bool,
    now: &str,
) -> (r: Result<Recipe, RegistryError>)
    ensures
        ({
            let filed = filed_under(
                contents_ref(slug),
                name@,
            );
            if filed.len() == 0 {
                r matches Err(e) && e@ == RegistryFault::Validation("recipe needs a name or slug"@)
            } else {
                r matches Ok(g) && g.slug@ == filed && g.name@ == name@ && g.summary@ == summary@
                    && g.body@ == body@ && g.spec@ == spec@ && texts(g.tags@) == texts(tags@)
                    && g.author@ == author@ && g.status@ == moderation(published) && g.updated_at@
                    == now@
            }
        }),
{
    let slug = document_slug(slug, name);
    if slug.as_str().is_empty() {
        return Err(RegistryError::validation("recipe needs a name or slug"));
    }
    Ok(
        Recipe {
            slug,
            name: name.to_owned(),
            summary: summary.to_owned(),
            body: body.to_owned(),
            spec: spec.copy(),
            tags: copy_texts(tags),
            author: author.to_owned(),
            status: submission_status(published),
            updated_at: now.to_owned(),
        },
    )
}

/// Whether a reader sees a recipe.
pub fn is_listed(recipe: &Recipe, include_pending: bool) -> (r: bool)
    ensures
        r == (include_pending || recipe.status@ == "published"@),
{
    include_pending || text_eq(recipe.status.as_str(), "published")
}

} // verus!
