use vstd::prelude::*;
use vstd::string::*;
use dashmap::DashMap;
use crate::graph::{contains_id, Crate};
use crate::markdown::{generate_item_markdown, item_markdown};
use crate::model::{Item, ItemEnum, StructKind};
use crate::search::{
    first_n, insert_by_score, is_match, lemma_insert_at, lemma_insert_first_n, lemma_rank_keeps,
    lemma_rank_members, lemma_rank_sorted, non_increasing, rank, similarity_bits, str_contains,
    top_matches, Candidate, MAX_RESULTS, THRESHOLD_BITS,
};
use crate::table::{apply_writes, lemma_apply_writes_append, table_get, PathTable, TableView};
use crate::types::ItemSummary;
use crate::workspace::{resolve_package, PackageInfo, Workspace};

verus! {

// ---------------------------------------------------------------------------
// The path indexer: which (path, identifier) pairs a graph records, in order.
// ---------------------------------------------------------------------------

pub open spec fn child_path(prefix: Seq<char>, name: Seq<char>) -> Seq<char> {
    prefix + "::"@ + name
}

/// For each identifier that resolves to a named item: `prefix::name -> id`.
pub open spec fn named_member_writes(krate: Crate, ids: Seq<u32>, prefix: Seq<char>) -> TableView
    decreases ids.len(),
{
    if ids.len() == 0 {
        Seq::empty()
    } else {
        let rest = named_member_writes(krate, ids.drop_last(), prefix);
        match krate.lookup(ids.last()) {
            Some(m) => match m.name {
                Some(n) => rest.push((child_path(prefix, n@), m.id)),
                None => rest,
            },
            None => rest,
        }
    }
}

/// The members of the implementation blocks `impl_ids`, flattened under `prefix`.
pub open spec fn impl_member_writes(krate: Crate, impl_ids: Seq<u32>, prefix: Seq<char>) -> TableView
    decreases impl_ids.len(),
{
    if impl_ids.len() == 0 {
        Seq::empty()
    } else {
        let rest = impl_member_writes(krate, impl_ids.drop_last(), prefix);
        match krate.lookup(impl_ids.last()) {
            Some(b) => match b.inner {
                ItemEnum::Impl { items, .. } => rest + named_member_writes(krate, items@, prefix),
                _ => rest,
            },
            None => rest,
        }
    }
}

/// The identifiers of the positional fields that were not stripped.
pub open spec fn present_ids(ids: Seq<Option<u32>>) -> Seq<u32>
    decreases ids.len(),
{
    if ids.len() == 0 {
        Seq::empty()
    } else {
        match ids.last() {
            Some(id) => present_ids(ids.drop_last()).push(id),
            None => present_ids(ids.drop_last()),
        }
    }
}

pub open spec fn field_ids(kind: StructKind) -> Seq<u32> {
    match kind {
        StructKind::Unit => Seq::empty(),
        StructKind::Tuple(ids) => present_ids(ids@),
        StructKind::Plain { fields, .. } => fields@,
    }
}

/// How many more modules a descent may enter below `ancestors`.
pub open spec fn depth_left(krate: Crate, ancestors: Seq<u32>) -> nat {
    if ancestors.len() < krate.item_list().len() {
        (krate.item_list().len() - ancestors.len()) as nat
    } else {
        0
    }
}

/// What visiting `item` at `path` records. `ancestors` are the modules on the
/// way down, which are not entered again. Since they are distinct items of the
/// graph, a descent never holds more of them than the graph has items; the
/// bound on `below` only makes that visible to the termination argument.
pub open spec fn visit_writes(krate: Crate, item: Item, path: Seq<char>, ancestors: Seq<u32>) -> TableView
    decreases depth_left(krate, ancestors), 0nat, 0nat,
{
    seq![(path, item.id)] + match item.inner {
        ItemEnum::Module { items } => {
            let below = ancestors.push(item.id);
            if below.len() <= krate.item_list().len() {
                module_writes(krate, items@, path, below)
            } else {
                Seq::empty()
            }
        },
        ItemEnum::Struct { kind, impls, .. } => named_member_writes(krate, field_ids(kind), path)
            + impl_member_writes(krate, impls@, path),
        ItemEnum::Enum { variants, impls, .. } => named_member_writes(krate, variants@, path)
            + impl_member_writes(krate, impls@, path),
        _ => Seq::empty(),
    }
}

/// What visiting the children `ids` of a module at `path` records.
pub open spec fn module_writes(krate: Crate, ids: Seq<u32>, path: Seq<char>, ancestors: Seq<u32>) -> TableView
    decreases depth_left(krate, ancestors), 1nat, ids.len(),
{
    if ids.len() == 0 {
        Seq::empty()
    } else {
        let rest = module_writes(krate, ids.drop_last(), path, ancestors);
        match krate.lookup(ids.last()) {
            Some(c) => match c.name {
                Some(n) => if ancestors.contains(c.id) {
                    rest
                } else {
                    rest + visit_writes(krate, c, child_path(path, n@), ancestors)
                },
                None => rest,
            },
            None => rest,
        }
    }
}

/// Everything indexing a graph under `crate_name` records, from its root module.
pub open spec fn index_writes(krate: Crate, crate_name: Seq<char>) -> TableView {
    match krate.lookup(krate.root_id()) {
        Some(root) => visit_writes(krate, root, crate_name, Seq::empty()),
        None => Seq::empty(),
    }
}

/// The path table of a graph indexed under `crate_name`.
pub open spec fn path_table_of(krate: Crate, crate_name: Seq<char>) -> TableView {
    apply_writes(Seq::empty(), index_writes(krate, crate_name))
}

proof fn lemma_record_then(t: TableView, w: (Seq<char>, u32), rest: TableView)
    ensures
        apply_writes(t, seq![w] + rest) == apply_writes(crate::table::table_insert(t, w.0, w.1), rest),
{
    lemma_apply_writes_append(t, seq![w], rest);
    assert(seq![w].drop_last() =~= TableView::empty());
    assert(apply_writes(t, TableView::empty()) == t);
    assert(seq![w].last() == w);
    assert(apply_writes(t, seq![w]) == crate::table::table_insert(t, w.0, w.1));
}

fn join_path(prefix: &String, name: &String) -> (r: String)
    ensures
        r@ == child_path(prefix@, name@),
{
    let mut s = prefix.clone();
    s.append("::");
    s.append(name.as_str());
    s
}

fn add_named_members(krate: &Crate, ids: &Vec<u32>, prefix: &String, table: &mut PathTable)
    requires
        krate.wf(),
    ensures
        final(table)@ == apply_writes(old(table)@, named_member_writes(*krate, ids@, prefix@)),
{
    let mut i: usize = 0;
    assert(named_member_writes(*krate, ids@.subrange(0, 0), prefix@) =~= TableView::empty());
    while i < ids.len()
        invariant
            i <= ids.len(),
            krate.wf(),
            table@ == apply_writes(
                old(table)@,
                named_member_writes(*krate, ids@.subrange(0, i as int), prefix@),
            ),
        decreases ids.len() - i,
    {
        let ghost before = named_member_writes(*krate, ids@.subrange(0, i as int), prefix@);
        proof {
            assert(ids@.subrange(0, i + 1).drop_last() =~= ids@.subrange(0, i as int));
        }
        match krate.get(ids[i]) {
            Some(m) => match &m.name {
                Some(n) => {
                    let path = join_path(prefix, n);
                    proof {
                        let w = (path@, m.id);
                        assert(before.push(w).drop_last() =~= before);
                    }
                    table.insert(path, m.id);
                },
                None => {},
            },
            None => {},
        }
        i = i + 1;
    }
    proof {
        assert(ids@.subrange(0, ids@.len() as int) =~= ids@);
    }
}

fn add_impl_members(krate: &Crate, impl_ids: &Vec<u32>, prefix: &String, table: &mut PathTable)
    requires
        krate.wf(),
    ensures
        final(table)@ == apply_writes(old(table)@, impl_member_writes(*krate, impl_ids@, prefix@)),
{
    let mut i: usize = 0;
    assert(impl_member_writes(*krate, impl_ids@.subrange(0, 0), prefix@) =~= TableView::empty());
    while i < impl_ids.len()
        invariant
            i <= impl_ids.len(),
            krate.wf(),
            table@ == apply_writes(
                old(table)@,
                impl_member_writes(*krate, impl_ids@.subrange(0, i as int), prefix@),
            ),
        decreases impl_ids.len() - i,
    {
        let ghost before = impl_member_writes(*krate, impl_ids@.subrange(0, i as int), prefix@);
        proof {
            assert(impl_ids@.subrange(0, i + 1).drop_last() =~= impl_ids@.subrange(0, i as int));
        }
        match krate.get(impl_ids[i]) {
            Some(b) => match &b.inner {
                ItemEnum::Impl { items, .. } => {
                    proof {
                        lemma_apply_writes_append(
                            old(table)@,
                            before,
                            named_member_writes(*krate, items@, prefix@),
                        );
                    }
                    add_named_members(krate, items, prefix, table);
                },
                _ => {},
            },
            None => {},
        }
        i = i + 1;
    }
    proof {
        assert(impl_ids@.subrange(0, impl_ids@.len() as int) =~= impl_ids@);
    }
}

fn present_field_ids(ids: &Vec<Option<u32>>) -> (r: Vec<u32>)
    ensures
        r@ == present_ids(ids@),
{
    let mut r: Vec<u32> = Vec::new();
    let mut i: usize = 0;
    while i < ids.len()
        invariant
            i <= ids.len(),
            r@ == present_ids(ids@.subrange(0, i as int)),
        decreases ids.len() - i,
    {
        proof {
            assert(ids@.subrange(0, i + 1).drop_last() =~= ids@.subrange(0, i as int));
        }
        match ids[i] {
            Some(id) => {
                r.push(id);
            },
            None => {},
        }
        i = i + 1;
    }
    proof {
        assert(ids@.subrange(0, ids@.len() as int) =~= ids@);
    }
    r
}

fn traverse_item(
    krate: &Crate,
    item: &Item,
    current_path: String,
    ancestors: &mut Vec<u32>,
    table: &mut PathTable,
)
    requires
        krate.wf(),
    ensures
        final(ancestors)@ == old(ancestors)@,
        final(table)@ == apply_writes(
            old(table)@,
            visit_writes(*krate, *item, current_path@, old(ancestors)@),
        ),
    decreases depth_left(*krate, ancestors@), 0nat, 0nat,
{
    let ghost t0 = table@;
    let ghost rest = visit_writes(*krate, *item, current_path@, ancestors@).drop_first();
    proof {
        assert(visit_writes(*krate, *item, current_path@, ancestors@) =~= seq![
            (current_path@, item.id),
        ] + rest);
        lemma_record_then(t0, (current_path@, item.id), rest);
    }
    table.insert(current_path.clone(), item.id);
    match &item.inner {
        ItemEnum::Module { items } => {
            if ancestors.len() < krate.items().len() {
                assert(rest =~= module_writes(*krate, items@, current_path@, ancestors@.push(item.id)));
                ancestors.push(item.id);
                traverse_children(krate, items, &current_path, ancestors, table);
                ancestors.pop();
                proof {
                    assert(ancestors@ =~= old(ancestors)@);
                }
            } else {
                assert(rest =~= TableView::empty());
            }
        },
        ItemEnum::Struct { kind, impls, .. } => {
            let ghost t1 = table@;
            let fields = match kind {
                StructKind::Unit => Vec::new(),
                StructKind::Tuple(ids) => present_field_ids(ids),
                StructKind::Plain { fields, .. } => fields.clone(),
            };
            assert(fields@ == field_ids(*kind));
            assert(rest =~= named_member_writes(*krate, fields@, current_path@)
                + impl_member_writes(*krate, impls@, current_path@));
            proof {
                lemma_apply_writes_append(
                    t1,
                    named_member_writes(*krate, fields@, current_path@),
                    impl_member_writes(*krate, impls@, current_path@),
                );
            }
            add_named_members(krate, &fields, &current_path, table);
            add_impl_members(krate, impls, &current_path, table);
        },
        ItemEnum::Enum { variants, impls, .. } => {
            let ghost t1 = table@;
            assert(rest =~= named_member_writes(*krate, variants@, current_path@)
                + impl_member_writes(*krate, impls@, current_path@));
            proof {
                lemma_apply_writes_append(
                    t1,
                    named_member_writes(*krate, variants@, current_path@),
                    impl_member_writes(*krate, impls@, current_path@),
                );
            }
            add_named_members(krate, variants, &current_path, table);
            add_impl_members(krate, impls, &current_path, table);
        },
        _ => {
            assert(rest =~= TableView::empty());
        },
    }
}

fn traverse_children(
    krate: &Crate,
    ids: &Vec<u32>,
    path: &String,
    ancestors: &mut Vec<u32>,
    table: &mut PathTable,
)
    requires
        krate.wf(),
    ensures
        final(ancestors)@ == old(ancestors)@,
        final(table)@ == apply_writes(old(table)@, module_writes(*krate, ids@, path@, old(ancestors)@)),
    decreases depth_left(*krate, ancestors@), 1nat, ids@.len(),
{
    let mut i: usize = 0;
    assert(module_writes(*krate, ids@.subrange(0, 0), path@, ancestors@) =~= TableView::empty());
    while i < ids.len()
        invariant
            i <= ids.len(),
            krate.wf(),
            ancestors@ == old(ancestors)@,
            table@ == apply_writes(
                old(table)@,
                module_writes(*krate, ids@.subrange(0, i as int), path@, ancestors@),
            ),
        decreases ids.len() - i,
    {
        let ghost before = module_writes(*krate, ids@.subrange(0, i as int), path@, ancestors@);
        proof {
            assert(ids@.subrange(0, i + 1).drop_last() =~= ids@.subrange(0, i as int));
        }
        match krate.get(ids[i]) {
            Some(c) => match &c.name {
                Some(n) => {
                    if !contains_id(ancestors, c.id) {
                        let child = join_path(path, n);
                        proof {
                            lemma_apply_writes_append(
                                old(table)@,
                                before,
                                visit_writes(*krate, *c, child@, ancestors@),
                            );
                        }
                        traverse_item(krate, c, child, ancestors, table);
                    }
                },
                None => {},
            },
            None => {},
        }
        i = i + 1;
    }
    proof {
        assert(ids@.subrange(0, ids@.len() as int) =~= ids@);
    }
}

/// Indexes a graph under `crate_name`: every item reachable from its root module
/// gets its canonical path.
pub fn build_path_map(krate: &Crate, crate_name: &str) -> (r: PathTable)
    requires
        krate.wf(),
    ensures
        r@ == path_table_of(*krate, crate_name@),
{
    let mut table = PathTable::new();
    let mut ancestors: Vec<u32> = Vec::new();
    match krate.get(krate.root()) {
        Some(root) => {
            traverse_item(krate, root, String::from_str(crate_name), &mut ancestors, &mut table);
        },
        None => {},
    }
    table
}

// ---------------------------------------------------------------------------
// Item kinds and summaries.
// ---------------------------------------------------------------------------

/// The kind name that summaries and search results give an item.
pub open spec fn item_kind(k: ItemEnum) -> Seq<char> {
    match k {
        ItemEnum::Module { .. } => "module"@,
        ItemEnum::ExternCrate => "extern_crate"@,
        ItemEnum::Use { .. } => "import"@,
        ItemEnum::Union { .. } => "union"@,
        ItemEnum::Struct { .. } => "struct"@,
        ItemEnum::StructField(_) => "struct_field"@,
        ItemEnum::Enum { .. } => "enum"@,
        ItemEnum::Variant(_) => "variant"@,
        ItemEnum::Function { .. } => "function"@,
        ItemEnum::TypeAlias { .. } => "type_alias"@,
        ItemEnum::Trait { .. } => "trait"@,
        ItemEnum::TraitAlias => "trait_alias"@,
        ItemEnum::Impl { .. } => "impl"@,
        ItemEnum::Static { .. } => "static"@,
        ItemEnum::Macro => "macro"@,
        ItemEnum::ProcMacro => "proc_macro"@,
        ItemEnum::Primitive => "primitive"@,
        ItemEnum::AssocConst => "assoc_const"@,
        ItemEnum::AssocType => "assoc_type"@,
        _ => "other"@,
    }
}

/// The kind name of an item.
pub fn get_item_kind(item: &Item) -> (r: String)
    ensures
        r@ == item_kind(item.inner),
{
    let k = match &item.inner {
        ItemEnum::Module { .. } => "module",
        ItemEnum::ExternCrate => "extern_crate",
        ItemEnum::Use { .. } => "import",
        ItemEnum::Union { .. } => "union",
        ItemEnum::Struct { .. } => "struct",
        ItemEnum::StructField(_) => "struct_field",
        ItemEnum::Enum { .. } => "enum",
        ItemEnum::Variant(_) => "variant",
        ItemEnum::Function { .. } => "function",
        ItemEnum::TypeAlias { .. } => "type_alias",
        ItemEnum::Trait { .. } => "trait",
        ItemEnum::TraitAlias => "trait_alias",
        ItemEnum::Impl { .. } => "impl",
        ItemEnum::Static { .. } => "static",
        ItemEnum::Macro => "macro",
        ItemEnum::ProcMacro => "proc_macro",
        ItemEnum::Primitive => "primitive",
        ItemEnum::AssocConst => "assoc_const",
        ItemEnum::AssocType => "assoc_type",
        _ => "other",
    };
    String::from_str(k)
}

/// The name a listing shows for an item: its own, else a re-export's.
pub open spec fn summary_name(item: Item) -> Option<Seq<char>> {
    match item.name {
        Some(n) => Some(n@),
        None => match item.inner {
            ItemEnum::Use { name, .. } => Some(name@),
            _ => None,
        },
    }
}

/// The summaries of the children `ids` that resolve to an item with a name.
pub open spec fn child_summaries(krate: Crate, ids: Seq<u32>) -> Seq<(Seq<char>, Seq<char>)>
    decreases ids.len(),
{
    if ids.len() == 0 {
        Seq::empty()
    } else {
        let rest = child_summaries(krate, ids.drop_last());
        match krate.lookup(ids.last()) {
            Some(c) => match summary_name(c) {
                Some(n) => rest.push((n, item_kind(c.inner))),
                None => rest,
            },
            None => rest,
        }
    }
}

pub open spec fn summary_views(s: Seq<ItemSummary>) -> Seq<(Seq<char>, Seq<char>)> {
    s.map_values(|x: ItemSummary| x@)
}

fn summarize_children(krate: &Crate, ids: &Vec<u32>) -> (r: Vec<ItemSummary>)
    requires
        krate.wf(),
    ensures
        summary_views(r@) == child_summaries(*krate, ids@),
{
    let mut r: Vec<ItemSummary> = Vec::new();
    let mut i: usize = 0;
    while i < ids.len()
        invariant
            i <= ids.len(),
            krate.wf(),
            summary_views(r@) == child_summaries(*krate, ids@.subrange(0, i as int)),
        decreases ids.len() - i,
    {
        proof {
            assert(ids@.subrange(0, i + 1).drop_last() =~= ids@.subrange(0, i as int));
        }
        match krate.get(ids[i]) {
            Some(c) => {
                let name = match &c.name {
                    Some(n) => Some(n.clone()),
                    None => match &c.inner {
                        ItemEnum::Use { name, .. } => Some(name.clone()),
                        _ => None,
                    },
                };
                match name {
                    Some(n) => {
                        r.push(ItemSummary { name: n, kind: get_item_kind(c) });
                        proof {
                            assert(summary_views(r@) =~= child_summaries(
                                *krate,
                                ids@.subrange(0, i + 1),
                            ));
                        }
                    },
                    None => {},
                }
            },
            None => {},
        }
        i = i + 1;
    }
    proof {
        assert(ids@.subrange(0, ids@.len() as int) =~= ids@);
    }
    r
}

/// The text before the first `::` of `s`, starting the search at `i`.
pub open spec fn segment_end(s: Seq<char>, i: nat) -> nat
    decreases s.len() - i,
{
    if i + 2 > s.len() {
        s.len()
    } else if s[i as int] == ':' && s[i + 1int] == ':' {
        i
    } else {
        segment_end(s, i + 1)
    }
}

/// The first `::`-separated segment of a path.
pub open spec fn first_segment_of(s: Seq<char>) -> Seq<char> {
    s.subrange(0, segment_end(s, 0) as int)
}

/// Relies on `str::split`: the first piece of `path` split at `::`.
#[verifier::external_body]
fn first_segment(path: &str) -> (r: &str)
    ensures
        r@ == first_segment_of(path@),
{
    path.split("::").next().unwrap_or("")
}

/// The library a dotted path belongs to: its first segment.
pub fn crate_name_of(path: &str) -> (r: String)
    ensures
        r@ == first_segment_of(path@),
{
    String::from_str(first_segment(path))
}

// ---------------------------------------------------------------------------
// A loaded library and its queries.
// ---------------------------------------------------------------------------

/// A library's documentation graph with its path table.
pub struct LoadedCrate {
    pub krate: Crate,
    pub path_to_id: PathTable,
}

impl LoadedCrate {
    /// Indexes `krate` under `crate_name`.
    pub fn new(krate: Crate, crate_name: &str) -> (r: LoadedCrate)
        requires
            krate.wf(),
        ensures
            r.krate == krate,
            r.path_to_id@ == path_table_of(krate, crate_name@),
    {
        let path_to_id = build_path_map(&krate, crate_name);
        LoadedCrate { krate, path_to_id }
    }

    /// The named children of the root module.
    pub fn root_items(&self) -> (r: Result<Vec<ItemSummary>, String>)
        requires
            self.krate.wf(),
        ensures
            match self.krate.lookup(self.krate.root_id()) {
                None => r matches Err(e) && e@ == "Root item missing"@,
                Some(root) => r matches Ok(v) && summary_views(v@) == match root.inner {
                    ItemEnum::Module { items } => child_summaries(self.krate, items@),
                    _ => Seq::empty(),
                },
            },
    {
        match self.krate.get(self.krate.root()) {
            None => Err(String::from_str("Root item missing")),
            Some(root) => match &root.inner {
                ItemEnum::Module { items } => Ok(summarize_children(&self.krate, items)),
                _ => {
                    let v: Vec<ItemSummary> = Vec::new();
                    assert(summary_views(v@) =~= Seq::empty());
                    Ok(v)
                },
            },
        }
    }

    /// The named children of the module at `path`.
    pub fn module_items(&self, path: &str) -> (r: Result<Vec<ItemSummary>, String>)
        requires
            self.krate.wf(),
        ensures
            match table_get(self.path_to_id@, path@) {
                None => r matches Err(e) && e@ == "Module not found: "@ + path@,
                Some(id) => match self.krate.lookup(id) {
                    None => r matches Err(e) && e@ == "Item index missing"@,
                    Some(it) => match it.inner {
                        ItemEnum::Module { items } => r matches Ok(v) && summary_views(v@)
                            == child_summaries(self.krate, items@),
                        _ => r matches Err(e) && e@ == "Item at "@ + path@ + " is not a module"@,
                    },
                },
            },
    {
        match self.path_to_id.get(path) {
            None => {
                let mut e = String::from_str("Module not found: ");
                e.append(path);
                Err(e)
            },
            Some(id) => match self.krate.get(id) {
                None => Err(String::from_str("Item index missing")),
                Some(it) => match &it.inner {
                    ItemEnum::Module { items } => Ok(summarize_children(&self.krate, items)),
                    _ => {
                        let mut e = String::from_str("Item at ");
                        e.append(path);
                        e.append(" is not a module");
                        Err(e)
                    },
                },
            },
        }
    }

    /// The documentation page of the item at `path`.
    pub fn item_docs(&self, path: &str) -> (r: Result<String, String>)
        requires
            self.krate.wf(),
        ensures
            match table_get(self.path_to_id@, path@) {
                None => r matches Err(e) && e@ == "Item not found: "@ + path@,
                Some(id) => match self.krate.lookup(id) {
                    None => r matches Err(e) && e@ == "Item index missing"@,
                    Some(it) => r matches Ok(text) && text@ == item_markdown(it, self.krate),
                },
            },
    {
        match self.path_to_id.get(path) {
            None => {
                let mut e = String::from_str("Item not found: ");
                e.append(path);
                Err(e)
            },
            Some(id) => match self.krate.get(id) {
                None => Err(String::from_str("Item index missing")),
                Some(it) => Ok(generate_item_markdown(it, &self.krate)),
            },
        }
    }
}

// ---------------------------------------------------------------------------
// The library cache.
// ---------------------------------------------------------------------------

#[verifier::external_type_specification]
#[verifier::external_body]
#[verifier::reject_recursive_types(K)]
#[verifier::reject_recursive_types(V)]
#[verifier::reject_recursive_types(S)]
pub struct ExDashMap<K, V, S>(DashMap<K, V, S>);

/// A concurrent map from library names to slots.
pub type SlotMap = DashMap<String, usize>;

/// The entries of a map from library names to slots.
pub uninterp spec fn slot_map(m: SlotMap) -> Map<Seq<char>, usize>;

/// Relies on `DashMap::new`: an empty map.
#[verifier::external_body]
fn slots_new() -> (r: SlotMap)
    ensures
        slot_map(r).dom() == Set::<Seq<char>>::empty(),
{
    DashMap::new()
}

/// Relies on `DashMap::get`: the value stored under `key`, if any.
#[verifier::external_body]
fn slots_get(m: &SlotMap, key: &str) -> (r: Option<usize>)
    ensures
        match r {
            Some(v) => slot_map(*m).contains_key(key@) && slot_map(*m)[key@] == v,
            None => !slot_map(*m).contains_key(key@),
        },
{
    m.get(key).map(|e| *e.value())
}

/// Relies on `DashMap::insert`: stores `value` under `key`, replacing what was there.
#[verifier::external_body]
fn slots_insert(m: &mut SlotMap, key: String, value: usize)
    ensures
        slot_map(*final(m)) == slot_map(*old(m)).insert(key@, value),
{
    m.insert(key, value);
}

/// What a caller must do before a library can be used.
pub enum LoadStep {
    /// The library is loaded.
    Ready,
    /// The documentation graph of `package`, built with `features`, must be
    /// acquired and handed to `finish_load`.
    Acquire { package: String, features: Option<Vec<String>> },
}

pub open spec fn opt_views(o: Option<Vec<String>>) -> Option<Seq<Seq<char>>> {
    match o {
        Some(v) => Some(v@.map_values(|s: String| s@)),
        None => None,
    }
}

pub open spec fn opt_str_view(o: Option<&str>) -> Option<Seq<char>> {
    match o {
        Some(s) => Some(s@),
        None => None,
    }
}

/// The candidates that the entries of `t` give for `query`, in table order.
pub open spec fn table_candidates(krate: Crate, t: TableView, query: Seq<char>) -> Seq<Candidate>
    decreases t.len(),
{
    if t.len() == 0 {
        Seq::empty()
    } else {
        let rest = table_candidates(krate, t.drop_last(), query);
        let (path, id) = t.last();
        if is_match(query, path) {
            rest.push(
                (
                    path,
                    match krate.lookup(id) {
                        Some(it) => item_kind(it.inner),
                        None => "unknown"@,
                    },
                    crate::search::jaro_winkler_bits(query, path),
                ),
            )
        } else {
            rest
        }
    }
}

/// The candidates of each library in turn.
pub open spec fn library_candidates(libs: Seq<(Seq<char>, LoadedCrate)>, query: Seq<char>) -> Seq<
    Candidate,
>
    decreases libs.len(),
{
    if libs.len() == 0 {
        Seq::empty()
    } else {
        library_candidates(libs.drop_last(), query) + table_candidates(
            libs.last().1.krate,
            libs.last().1.path_to_id@,
            query,
        )
    }
}

pub open spec fn summary_of(c: Candidate) -> (Seq<char>, Seq<char>) {
    (c.0, c.1)
}

type Scored = (String, String, u64);

spec fn scored_views(s: Seq<Scored>) -> Seq<Candidate> {
    s.map_values(|c: Scored| (c.0@, c.1@, c.2))
}

/// Offers one candidate to a ranking kept to its first `MAX_RESULTS` entries.
fn offer(top: &mut Vec<Scored>, cand: Scored)
    requires
        old(top)@.len() <= MAX_RESULTS,
    ensures
        final(top)@.len() <= MAX_RESULTS,
        scored_views(final(top)@) == first_n(
            insert_by_score(scored_views(old(top)@), (cand.0@, cand.1@, cand.2)),
            MAX_RESULTS as nat,
        ),
{
    let ghost old_view = scored_views(top@);
    let ghost x = (cand.0@, cand.1@, cand.2);
    let mut j: usize = 0;
    while j < top.len() && top[j].2 >= cand.2
        invariant
            j <= top@.len(),
            top@ == old(top)@,
            forall|k: int| 0 <= k < j ==> top@[k].2 >= cand.2,
        decreases top.len() - j,
    {
        j = j + 1;
    }
    proof {
        lemma_insert_at(old_view, x, j as int);
    }
    top.insert(j, cand);
    assert(scored_views(top@) =~= old_view.insert(j as int, x));
    if top.len() > MAX_RESULTS {
        top.pop();
        assert(scored_views(top@) =~= old_view.insert(j as int, x).take(MAX_RESULTS as int));
    }
}

fn scan_library(lib: &LoadedCrate, query: &str, top: &mut Vec<Scored>, Ghost(prev): Ghost<Seq<Candidate>>)
    requires
        lib.krate.wf(),
        scored_views(old(top)@) == top_matches(prev),
    ensures
        scored_views(final(top)@) == top_matches(
            prev + table_candidates(lib.krate, lib.path_to_id@, query@),
        ),
{
    let n = lib.path_to_id.len();
    let mut k: usize = 0;
    assert(prev + table_candidates(lib.krate, lib.path_to_id@.subrange(0, 0), query@) =~= prev);
    while k < n
        invariant
            k <= n,
            n == lib.path_to_id@.len(),
            lib.krate.wf(),
            scored_views(top@) == top_matches(
                prev + table_candidates(lib.krate, lib.path_to_id@.subrange(0, k as int), query@),
            ),
        decreases n - k,
    {
        let ghost t = lib.path_to_id@;
        let ghost seen = prev + table_candidates(lib.krate, t.subrange(0, k as int), query@);
        proof {
            assert(t.subrange(0, k + 1).drop_last() =~= t.subrange(0, k as int));
        }
        let (path, id) = lib.path_to_id.entry(k);
        let score = similarity_bits(query, path.as_str());
        if score > THRESHOLD_BITS || str_contains(path.as_str(), query) {
            let kind = match lib.krate.get(id) {
                Some(it) => get_item_kind(it),
                None => String::from_str("unknown"),
            };
            let cand = (path.clone(), kind, score);
            let ghost x = (cand.0@, cand.1@, cand.2);
            proof {
                assert(prev + table_candidates(lib.krate, t.subrange(0, k + 1), query@) =~= seen.push(
                    x,
                ));
                assert(seen.push(x).drop_last() =~= seen);
                lemma_insert_first_n(rank(seen), x, MAX_RESULTS as nat);
            }
            offer(top, cand);
        } else {
            assert(prev + table_candidates(lib.krate, t.subrange(0, k + 1), query@) =~= seen);
        }
        k = k + 1;
    }
    proof {
        assert(lib.path_to_id@.subrange(0, n as int) =~= lib.path_to_id@);
    }
}

/// The libraries loaded so far, each under the name it was requested by.
pub struct CrateIndex {
    crates: SlotMap,
    libraries: Vec<(String, LoadedCrate)>,
    workspace: Workspace,
}

impl CrateIndex {
    /// Where each loaded name's library stands in `loaded()`.
    pub closed spec fn slots(&self) -> Map<Seq<char>, usize> {
        slot_map(self.crates)
    }

    /// The loaded libraries with their names, in order of loading.
    pub closed spec fn loaded(&self) -> Seq<(Seq<char>, LoadedCrate)> {
        self.libraries@.map_values(|e: (String, LoadedCrate)| (e.0@, e.1))
    }

    /// The packages of the workspace the libraries come from.
    pub closed spec fn packages(&self) -> Seq<PackageInfo> {
        self.workspace.packages@
    }

    pub closed spec fn wf(&self) -> bool {
        &&& forall|k: Seq<char>| #[trigger]
            self.slots().contains_key(k) ==> {
                &&& self.slots()[k] < self.libraries@.len()
                &&& self.libraries@[self.slots()[k] as int].0@ == k
            }
        &&& forall|i: int|
            #![trigger self.libraries@[i]]
            0 <= i < self.libraries@.len() ==> {
                &&& self.slots().contains_key(self.libraries@[i].0@)
                &&& self.slots()[self.libraries@[i].0@] == i
                &&& self.libraries@[i].1.krate.wf()
                &&& self.libraries@[i].1.path_to_id@ == path_table_of(
                    self.libraries@[i].1.krate,
                    self.libraries@[i].0@,
                )
            }
    }

    pub open spec fn is_loaded(&self, name: Seq<char>) -> bool {
        self.slots().contains_key(name)
    }

    /// Whether `ensure_loaded(name)` asks for the library to be acquired.
    pub open spec fn acquisition_needed(&self, name: Seq<char>) -> bool {
        !self.is_loaded(name)
    }

    /// The library loaded under `name`.
    pub open spec fn library(&self, name: Seq<char>) -> LoadedCrate {
        self.loaded()[self.slots()[name] as int].1
    }

    /// The libraries a search covers: the one named, if it is loaded, else every
    /// loaded library.
    pub open spec fn scope(&self, crate_name: Option<Seq<char>>) -> Seq<(Seq<char>, LoadedCrate)> {
        match crate_name {
            Some(n) => if self.is_loaded(n) {
                seq![self.loaded()[self.slots()[n] as int]]
            } else {
                Seq::empty()
            },
            None => self.loaded(),
        }
    }

    /// What a search for `query` returns: the best matches of the libraries in
    /// scope, as (path, kind) pairs.
    pub open spec fn search_result(&self, query: Seq<char>, crate_name: Option<Seq<char>>) -> Seq<
        (Seq<char>, Seq<char>),
    > {
        top_matches(library_candidates(self.scope(crate_name), query)).map_values(
            |c: Candidate| summary_of(c),
        )
    }

    /// An empty cache over `workspace`.
    pub fn new(workspace: Workspace) -> (r: CrateIndex)
        ensures
            r.wf(),
            r.loaded().len() == 0,
            r.slots().dom() == Set::<Seq<char>>::empty(),
            r.packages() == workspace.packages@,
    {
        let r = CrateIndex { crates: slots_new(), libraries: Vec::new(), workspace };
        assert(r.loaded() =~= Seq::<(Seq<char>, LoadedCrate)>::empty());
        r
    }

    /// Decides what loading `crate_name` takes: nothing when it is loaded, else
    /// the acquisition of the package it resolves to (itself, when none does).
    pub fn ensure_loaded(&self, crate_name: &str) -> (r: LoadStep)
        requires
            self.wf(),
        ensures
            (r is Ready) == !self.acquisition_needed(crate_name@),
            self.acquisition_needed(crate_name@) ==> match r {
                LoadStep::Ready => false,
                LoadStep::Acquire { package, features } => match resolve_package(
                    self.packages(),
                    crate_name@,
                ) {
                    Some(i) => package@ == self.packages()[i].name@ && opt_views(features)
                        == opt_views(self.packages()[i].features),
                    None => package@ == crate_name@ && features is None,
                },
            },
    {
        if slots_get(&self.crates, crate_name).is_some() {
            return LoadStep::Ready;
        }
        match self.workspace.find_package(crate_name) {
            Some(i) => {
                let pkg = &self.workspace.packages[i];
                let features = match &pkg.features {
                    Some(f) => Some(clone_strings(f)),
                    None => None,
                };
                LoadStep::Acquire { package: pkg.name.clone(), features }
            },
            None => LoadStep::Acquire { package: String::from_str(crate_name), features: None },
        }
    }

    /// Indexes `krate` and keeps it under `crate_name`, in place of any library
    /// loaded under that name before.
    pub fn finish_load(&mut self, crate_name: &str, krate: Crate)
        requires
            old(self).wf(),
            krate.wf(),
        ensures
            load_completes(*old(self), *final(self), crate_name@, krate),
    {
        let lib = LoadedCrate::new(krate, crate_name);
        let name = String::from_str(crate_name);
        let ghost old_libs = self.libraries@;
        match slots_get(&self.crates, crate_name) {
            Some(i) => {
                assert(self.slots().contains_key(crate_name@));
                self.libraries.set(i, (name, lib));
                assert forall|j: int|
                    #![trigger self.libraries@[j]]
                    0 <= j < self.libraries@.len() && j != i implies self.libraries@[j]
                    == old_libs[j] by {}
            },
            None => {
                assert(!self.slots().contains_key(crate_name@));
                let i = self.libraries.len();
                slots_insert(&mut self.crates, String::from_str(crate_name), i);
                self.libraries.push((name, lib));
                assert forall|j: int|
                    #![trigger self.libraries@[j]]
                    0 <= j < i implies self.libraries@[j] == old_libs[j] && old_libs[j].0@
                    != crate_name@ by {
                    assert(old_libs[j] == old(self).libraries@[j]);
                }
            },
        }
        assert forall|n: Seq<char>|
            n != crate_name@ && old(self).is_loaded(n) implies #[trigger] self.library(n) == old(
                self,
            ).library(n) by {
            assert(old(self).slots().contains_key(n));
            let j = old(self).slots()[n] as int;
            assert(old(self).libraries@[j] == old_libs[j]);
        }
    }

    /// The library loaded under `crate_name`, if any.
    pub fn get_crate(&self, crate_name: &str) -> (r: Option<&LoadedCrate>)
        requires
            self.wf(),
        ensures
            match r {
                Some(l) => self.is_loaded(crate_name@) && *l == self.library(crate_name@) && l.krate.wf(),
                None => !self.is_loaded(crate_name@),
            },
    {
        match slots_get(&self.crates, crate_name) {
            Some(i) => {
                assert(self.slots().contains_key(crate_name@));
                Some(&self.libraries[i].1)
            },
            None => None,
        }
    }

    /// The best matches for `query` among the libraries in scope, by
    /// non-increasing similarity, at most `MAX_RESULTS` of them.
    pub fn search(&self, query: &str, crate_name: Option<&str>) -> (r: Vec<ItemSummary>)
        requires
            self.wf(),
        ensures
            summary_views(r@) == self.search_result(query@, opt_str_view(crate_name)),
    {
        let mut top: Vec<Scored> = Vec::new();
        assert(scored_views(top@) =~= top_matches(Seq::empty()));
        match crate_name {
            Some(name) => match slots_get(&self.crates, name) {
                Some(i) => {
                    let ghost libs = self.scope(opt_str_view(crate_name));
                    assert(self.slots().contains_key(name@));
                    assert(self.libraries@[i as int].1.krate.wf());
                    assert(libs.len() == 1);
                    assert(libs.last() == (self.libraries@[i as int].0@, self.libraries@[i as int].1));
                    assert(library_candidates(libs.drop_last(), query@) == Seq::<Candidate>::empty());
                    scan_library(&self.libraries[i].1, query, &mut top, Ghost(Seq::empty()));
                    proof {
                        assert(libs.drop_last() =~= Seq::<(Seq<char>, LoadedCrate)>::empty());
                        assert(library_candidates(libs, query@) =~= Seq::<Candidate>::empty()
                            + table_candidates(
                            libs.last().1.krate,
                            libs.last().1.path_to_id@,
                            query@,
                        ));
                    }
                },
                None => {},
            },
            None => {
                let mut i: usize = 0;
                while i < self.libraries.len()
                    invariant
                        i <= self.libraries@.len(),
                        self.wf(),
                        scored_views(top@) == top_matches(
                            library_candidates(self.loaded().subrange(0, i as int), query@),
                        ),
                    decreases self.libraries.len() - i,
                {
                    proof {
                        assert(self.loaded().subrange(0, i + 1).drop_last() =~= self.loaded().subrange(
                            0,
                            i as int,
                        ));
                    }
                    scan_library(
                        &self.libraries[i].1,
                        query,
                        &mut top,
                        Ghost(library_candidates(self.loaded().subrange(0, i as int), query@)),
                    );
                    i = i + 1;
                }
                proof {
                    assert(self.loaded().subrange(0, self.libraries@.len() as int) =~= self.loaded());
                }
            },
        }
        let mut r: Vec<ItemSummary> = Vec::new();
        let mut k: usize = 0;
        while k < top.len()
            invariant
                k <= top@.len(),
                r@.len() == k,
                summary_views(r@) == scored_views(top@).subrange(0, k as int).map_values(
                    |c: Candidate| summary_of(c),
                ),
            decreases top.len() - k,
        {
            let ghost before = r@;
            r.push(ItemSummary { name: top[k].0.clone(), kind: top[k].1.clone() });
            proof {
                assert(r@.drop_last() == before);
                assert forall|j: int| 0 <= j < k implies #[trigger] r@[j]@ == summary_of(
                    scored_views(top@)[j],
                ) by {
                    assert(r@[j] == before[j]);
                    assert(summary_views(before)[j] == scored_views(top@).subrange(0, k as int).map_values(
                        |c: Candidate| summary_of(c),
                    )[j]);
                }
                assert(summary_views(r@) =~= scored_views(top@).subrange(0, k + 1).map_values(
                    |c: Candidate| summary_of(c),
                ));
            }
            k = k + 1;
        }
        proof {
            assert(scored_views(top@).subrange(0, top@.len() as int) =~= scored_views(top@));
        }
        r
    }
}

fn clone_strings(v: &Vec<String>) -> (r: Vec<String>)
    ensures
        r@.map_values(|s: String| s@) == v@.map_values(|s: String| s@),
{
    let mut r: Vec<String> = Vec::new();
    let mut i: usize = 0;
    while i < v.len()
        invariant
            i <= v@.len(),
            r@.len() == i,
            r@.map_values(|s: String| s@) == v@.subrange(0, i as int).map_values(|s: String| s@),
        decreases v.len() - i,
    {
        let ghost before = r@;
        r.push(v[i].clone());
        proof {
            assert(r@.drop_last() == before);
            assert forall|j: int| 0 <= j < i implies #[trigger] r@[j]@ == v@[j]@ by {
                assert(r@[j] == before[j]);
                assert(before.map_values(|s: String| s@)[j] == v@.subrange(0, i as int).map_values(
                    |s: String| s@,
                )[j]);
            }
            assert(r@.map_values(|s: String| s@) =~= v@.subrange(0, i + 1).map_values(
                |s: String| s@,
            ));
        }
        i = i + 1;
    }
    proof {
        assert(v@.subrange(0, v@.len() as int) =~= v@);
    }
    r
}

// ---------------------------------------------------------------------------
// Laws.
// ---------------------------------------------------------------------------

/// What completing a load of `name` with graph `krate` leaves: the library is
/// loaded under `name`, indexed from `krate`, and every other name is as it was.
pub open spec fn load_completes(before: CrateIndex, after: CrateIndex, name: Seq<char>, krate: Crate) -> bool {
    &&& after.wf()
    &&& after.packages() == before.packages()
    &&& after.is_loaded(name)
    &&& after.library(name).krate == krate
    &&& after.library(name).path_to_id@ == path_table_of(krate, name)
    &&& forall|n: Seq<char>| n != name ==> (#[trigger] after.is_loaded(n) == before.is_loaded(n))
    &&& forall|n: Seq<char>|
        n != name && before.is_loaded(n) ==> #[trigger] after.library(n) == before.library(n)
}

/// Loading happens at most once per name: after a load of `name` completes,
/// `ensure_loaded(name)` asks for no acquisition, and the library it serves is
/// the one that load indexed.
pub proof fn law_load_at_most_once(before: CrateIndex, after: CrateIndex, name: Seq<char>, krate: Crate)
    requires
        load_completes(before, after, name, krate),
    ensures
        !after.acquisition_needed(name),
        after.library(name).krate == krate,
        after.library(name).path_to_id@ == path_table_of(krate, name),
{
}

proof fn lemma_table_candidates_paths(krate: Crate, t: TableView, query: Seq<char>)
    ensures
        forall|i: int|
            0 <= i < table_candidates(krate, t, query).len() ==> exists|k: int|
                0 <= k < t.len() && t[k].0 == (#[trigger] table_candidates(krate, t, query)[i]).0,
    decreases t.len(),
{
    if t.len() > 0 {
        let p = t.drop_last();
        lemma_table_candidates_paths(krate, p, query);
        let c = table_candidates(krate, t, query);
        assert forall|i: int| 0 <= i < c.len() implies exists|k: int|
            0 <= k < t.len() && t[k].0 == (#[trigger] c[i]).0 by {
            if i < table_candidates(krate, p, query).len() {
                assert(c[i] == table_candidates(krate, p, query)[i]);
                let k = choose|k: int|
                    0 <= k < p.len() && p[k].0 == table_candidates(krate, p, query)[i].0;
                assert(t[k] == p[k]);
            } else {
                assert(c[i].0 == t[t.len() - 1].0);
            }
        }
    }
}

/// A search scoped to a library returns only paths of that library's table,
/// whatever the other loaded libraries hold.
pub proof fn law_scope_isolation(idx: CrateIndex, query: Seq<char>, name: Seq<char>)
    requires
        idx.wf(),
    ensures
        forall|i: int|
            0 <= i < idx.search_result(query, Some(name)).len() ==> idx.is_loaded(name) && exists|
                k: int,
            |
                0 <= k < idx.library(name).path_to_id@.len() && idx.library(name).path_to_id@[k].0
                    == (#[trigger] idx.search_result(query, Some(name))[i]).0,
{
    let libs = idx.scope(Some(name));
    let cands = library_candidates(libs, query);
    let ranked = rank(cands);
    let top = top_matches(cands);
    lemma_rank_members(cands);
    if idx.is_loaded(name) {
        let lib = idx.library(name);
        assert(libs.drop_last() =~= Seq::<(Seq<char>, LoadedCrate)>::empty());
        assert(libs.last().1 == lib);
        assert(library_candidates(libs.drop_last(), query) == Seq::<Candidate>::empty());
        assert(cands =~= table_candidates(lib.krate, lib.path_to_id@, query));
        lemma_table_candidates_paths(lib.krate, lib.path_to_id@, query);
    } else {
        assert(cands =~= Seq::<Candidate>::empty());
    }
    assert forall|i: int| 0 <= i < idx.search_result(query, Some(name)).len() implies idx.is_loaded(
        name,
    ) && exists|k: int|
        0 <= k < idx.library(name).path_to_id@.len() && idx.library(name).path_to_id@[k].0
            == (#[trigger] idx.search_result(query, Some(name))[i]).0 by {
        assert(top[i] == ranked[i]);
        assert(cands.contains(ranked[i]));
        let j = choose|j: int| 0 <= j < cands.len() && cands[j] == ranked[i];
        assert(idx.search_result(query, Some(name))[i].0 == cands[j].0);
    }
}

proof fn lemma_match_is_candidate(krate: Crate, t: TableView, query: Seq<char>, k: int)
    requires
        0 <= k < t.len(),
        is_match(query, t[k].0),
    ensures
        exists|i: int|
            0 <= i < table_candidates(krate, t, query).len() && (#[trigger] table_candidates(
                krate,
                t,
                query,
            )[i]).0 == t[k].0,
    decreases t.len(),
{
    let c = table_candidates(krate, t, query);
    if k == t.len() - 1 {
        assert(c[c.len() - 1].0 == t[k].0);
    } else {
        let p = t.drop_last();
        assert(p[k] == t[k]);
        lemma_match_is_candidate(krate, p, query, k);
        let i = choose|i: int|
            0 <= i < table_candidates(krate, p, query).len() && (#[trigger] table_candidates(
                krate,
                p,
                query,
            )[i]).0 == p[k].0;
        assert(c[i] == table_candidates(krate, p, query)[i]);
    }
}

/// A path of the scoped library that matches the query (similar enough, or
/// containing it) is returned whenever the matches fit in `MAX_RESULTS`.
pub proof fn law_match_is_returned(idx: CrateIndex, query: Seq<char>, name: Seq<char>, k: int)
    requires
        idx.wf(),
        idx.is_loaded(name),
        0 <= k < idx.library(name).path_to_id@.len(),
        is_match(query, idx.library(name).path_to_id@[k].0),
        library_candidates(idx.scope(Some(name)), query).len() <= MAX_RESULTS,
    ensures
        exists|i: int|
            0 <= i < idx.search_result(query, Some(name)).len() && (#[trigger] idx.search_result(
                query,
                Some(name),
            )[i]).0 == idx.library(name).path_to_id@[k].0,
{
    let libs = idx.scope(Some(name));
    let lib = idx.library(name);
    let t = lib.path_to_id@;
    let cands = library_candidates(libs, query);
    assert(libs.drop_last() =~= Seq::<(Seq<char>, LoadedCrate)>::empty());
    assert(libs.last().1 == lib);
    assert(library_candidates(libs.drop_last(), query) == Seq::<Candidate>::empty());
    assert(cands =~= table_candidates(lib.krate, t, query));
    lemma_match_is_candidate(lib.krate, t, query, k);
    let j = choose|j: int| 0 <= j < cands.len() && (#[trigger] cands[j]).0 == t[k].0;
    assert(cands.contains(cands[j]));
    lemma_rank_keeps(cands);
    lemma_rank_members(cands);
    assert(rank(cands).contains(cands[j]));
    let i = choose|i: int| 0 <= i < rank(cands).len() && rank(cands)[i] == cands[j];
    assert(top_matches(cands) == rank(cands));
    assert(idx.search_result(query, Some(name))[i].0 == t[k].0);
}

/// A search returns at most `MAX_RESULTS` matches (all of them when there are
/// fewer), ordered by non-increasing similarity score.
pub proof fn law_search_truncation(idx: CrateIndex, query: Seq<char>, crate_name: Option<Seq<char>>)
    ensures
        ({
            let cands = library_candidates(idx.scope(crate_name), query);
            &&& idx.search_result(query, crate_name).len() == if cands.len() > MAX_RESULTS {
                MAX_RESULTS as int
            } else {
                cands.len() as int
            }
            &&& non_increasing(top_matches(cands))
            &&& idx.search_result(query, crate_name) == top_matches(cands).map_values(
                |c: Candidate| summary_of(c),
            )
        }),
{
    let cands = library_candidates(idx.scope(crate_name), query);
    lemma_rank_members(cands);
    lemma_rank_sorted(cands);
    let top = top_matches(cands);
    assert forall|i: int, j: int| 0 <= i < j < top.len() implies top[i].2 >= top[j].2 by {
        assert(top[i] == rank(cands)[i] && top[j] == rank(cands)[j]);
    }
}

} // verus!
