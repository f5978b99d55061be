/// The command line's shape.
pub mod cmd;
/// File names and build arguments for generating a documentation graph.
pub mod doc_gen;
/// Documentation graphs: items in order, looked up by identifier.
pub mod graph;
/// The path indexer, loaded libraries and their queries, the library cache and search.
pub mod index;
/// The documentation page of an item.
pub mod markdown;
/// Items and type expressions of a documentation graph.
pub mod model;
/// Rendering of type expressions, bounds and generic parameter lists.
pub mod render;
/// Similarity scoring and ranking of search matches.
pub mod search;
/// Path tables: canonical paths to identifiers.
pub mod table;
/// Text helpers.
pub mod text;
/// Request and response values.
pub mod types;
/// Workspace packages and the resolution of library names to packages.
pub mod workspace;
