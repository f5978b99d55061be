use vstd::prelude::*;

verus! {

/// Arguments of a documentation request: a `::`-separated item path.
pub struct GetDocsArgs {
    pub path: String,
}

/// Arguments of a search: the query, and optionally the one library to search.
pub struct SearchDocsArgs {
    pub query: String,
    pub crate_name: Option<String>,
}

/// Arguments of a module listing: a `::`-separated module path.
pub struct GetModuleArgs {
    pub path: String,
}

/// Arguments of a root listing: the library's name.
pub struct ListCrateItemsArgs {
    pub crate_name: String,
}

pub struct ListDepsResult {
    pub dependencies: Vec<String>,
}

pub struct SearchDocsResult {
    pub matches: Vec<ItemSummary>,
}

/// A name (or path) and the kind of item it names.
pub struct ItemSummary {
    pub name: String,
    pub kind: String,
}

impl View for ItemSummary {
    type V = (Seq<char>, Seq<char>);

    open spec fn view(&self) -> (Seq<char>, Seq<char>) {
        (self.name@, self.kind@)
    }
}

pub struct GetModuleResult {
    pub items: Vec<ItemSummary>,
}

pub struct ListCrateItemsResult {
    pub items: Vec<ItemSummary>,
}

} // verus!
