//! Data model of the publish pipeline: credentials, per-article metadata and
//! the article itself. All values are plain strings loaded once per run and
//! immutable afterwards; the loaders that fill them live outside this crate.

use vstd::prelude::*;

verus! {

/// Blog account credentials: used only for the transport-layer authentication
/// of the publish request, never embedded in the rendered entry document.
pub struct Env {
    pub hatena_id: String,
    pub password: String,
    pub blog_id: String,
}

/// Per-article publish configuration. `draft` and `preview` are free-form
/// wire tokens passed through verbatim; `category` is an ordered list,
/// duplicates allowed, possibly empty.
pub struct Config {
    pub title: String,
    pub draft: String,
    pub preview: String,
    pub category: Vec<String>,
}

/// The unit of work to publish: the raw Markdown body together with its
/// metadata. Consumed exactly once by the entry renderer.
pub struct Content {
    pub body: String,
    pub config: Config,
}

/// The views of a category list, element by element, order kept.
pub open spec fn category_views(cats: Seq<String>) -> Seq<Seq<char>> {
    cats.map_values(|s: String| s@)
}

} // verus!
