use vstd::prelude::*;
use vstd::string::*;
use markdown_builder::{CodeBlock, List, Markdown};
use crate::graph::{contains_id, Crate};
use crate::model::{FunctionHeader, Generics, Item, ItemEnum, PathRef, StructKind, Type, VariantKind};
use crate::render::{format_generics, format_path_like, format_type, generics_text, path_text, type_text};
use crate::text::{first_line, first_line_of, join, join_strings, trim, trimmed, views};

verus! {

// ---------------------------------------------------------------------------
// The markdown document builder.
// ---------------------------------------------------------------------------

#[verifier::external_type_specification]
#[verifier::external_body]
pub struct ExMarkdown(Markdown);

#[verifier::external_type_specification]
#[verifier::external_body]
pub struct ExList(List);

/// The rendered text of each element of a document, in order.
pub uninterp spec fn md_elements(d: Markdown) -> Seq<Seq<char>>;

/// How many footer elements a document holds.
pub uninterp spec fn md_footer_count(d: Markdown) -> nat;

/// The rendered line of each item of a list, in order.
pub uninterp spec fn list_lines(l: List) -> Seq<Seq<char>>;

/// How a paragraph of the given text renders (word-wrapped, ending in a newline).
pub uninterp spec fn paragraph_text(t: Seq<char>) -> Seq<char>;

/// `s` without the newlines at its end.
pub open spec fn strip_trailing_newlines(s: Seq<char>) -> Seq<char>
    decreases s.len(),
{
    if s.len() > 0 && s.last() == '\n' {
        strip_trailing_newlines(s.drop_last())
    } else {
        s
    }
}

/// How an unordered list renders one item.
pub open spec fn bullet_line(s: Seq<char>) -> Seq<char> {
    "- "@ + strip_trailing_newlines(s) + "\n"@
}

/// Relies on `Markdown::new`: an empty document.
#[verifier::external_body]
fn md_new() -> (r: Markdown)
    ensures
        md_elements(r) == Seq::<Seq<char>>::empty(),
        md_footer_count(r) == 0,
{
    Markdown::new()
}

/// Relies on `Markdown::header1`: appends a level-one header, `# text`.
#[verifier::external_body]
fn md_header1(d: &mut Markdown, text: String)
    ensures
        md_elements(*final(d)) == md_elements(*old(d)).push("# "@ + text@ + "\n"@),
        md_footer_count(*final(d)) == md_footer_count(*old(d)),
{
    d.header1(text);
}

/// Relies on `Markdown::header2`: appends a level-two header, `## text`.
#[verifier::external_body]
fn md_header2(d: &mut Markdown, text: String)
    ensures
        md_elements(*final(d)) == md_elements(*old(d)).push("## "@ + text@ + "\n"@),
        md_footer_count(*final(d)) == md_footer_count(*old(d)),
{
    d.header2(text);
}

/// Relies on `Markdown::paragraph`: appends a paragraph of `text`.
#[verifier::external_body]
fn md_paragraph(d: &mut Markdown, text: String)
    ensures
        md_elements(*final(d)) == md_elements(*old(d)).push(paragraph_text(text@)),
        md_footer_count(*final(d)) == md_footer_count(*old(d)),
{
    d.paragraph(text);
}

/// Relies on `List::unordered_with`: an unordered list of the given texts.
#[verifier::external_body]
fn md_unordered_list(items: Vec<String>) -> (r: List)
    ensures
        list_lines(r) == views(items@).map_values(|s: Seq<char>| bullet_line(s)),
{
    List::unordered_with(items.into_iter().map(|s| s.into()).collect())
}

/// Relies on `Markdown::list`: appends a list, which renders as its lines one after another.
#[verifier::external_body]
fn md_list(d: &mut Markdown, l: List)
    ensures
        md_elements(*final(d)) == md_elements(*old(d)).push(join(list_lines(l), Seq::empty())),
        md_footer_count(*final(d)) == md_footer_count(*old(d)),
{
    d.list(l);
}

/// Relies on `Markdown::render`: the elements' texts, a newline between each two,
/// followed by the footers.
#[verifier::external_body]
fn md_render(d: &Markdown) -> (r: String)
    requires
        md_footer_count(*d) == 0,
    ensures
        r@ == join(md_elements(*d), "\n"@),
{
    d.render()
}

/// Relies on `CodeBlock::to_code_block_with_language`: a fenced code block.
#[verifier::external_body]
fn code_block(text: &str, language: &str) -> (r: String)
    ensures
        r@ == "```"@ + language@ + "\n"@ + text@ + "\n```"@,
{
    text.to_code_block_with_language(language)
}

// ---------------------------------------------------------------------------
// What an item renders as.
// ---------------------------------------------------------------------------

/// The label that titles an item of each kind.
pub open spec fn kind_label(k: ItemEnum) -> Seq<char> {
    match k {
        ItemEnum::Module { .. } => "Module"@,
        ItemEnum::ExternCrate => "Extern Crate"@,
        ItemEnum::Union { .. } => "Union"@,
        ItemEnum::Struct { .. } => "Struct"@,
        ItemEnum::StructField(_) => "Field"@,
        ItemEnum::Enum { .. } => "Enum"@,
        ItemEnum::Variant(_) => "Variant"@,
        ItemEnum::Function { .. } => "Function"@,
        ItemEnum::Trait { .. } => "Trait"@,
        ItemEnum::TraitAlias => "Trait Alias"@,
        ItemEnum::Impl { .. } => "Impl"@,
        ItemEnum::TypeAlias { .. } => "Type Alias"@,
        ItemEnum::Static { .. } => "Static"@,
        ItemEnum::Macro => "Macro"@,
        ItemEnum::ProcMacro => "Proc Macro"@,
        ItemEnum::Primitive => "Primitive"@,
        ItemEnum::AssocConst => "Assoc Constant"@,
        ItemEnum::AssocType => "Assoc Type"@,
        ItemEnum::Use { .. } => "Use"@,
        ItemEnum::ExternType => "Extern Type"@,
        ItemEnum::Constant { .. } => "Constant"@,
    }
}

/// The name in an item's title: its own, else a re-export's, else a placeholder.
pub open spec fn display_name(item: Item) -> Seq<char> {
    match item.name {
        Some(n) => n@,
        None => match item.inner {
            ItemEnum::Use { name, .. } => name@,
            _ => "<unnamed>"@,
        },
    }
}

/// The item's own name, or nothing.
pub open spec fn plain_name(item: Item) -> Seq<char> {
    match item.name {
        Some(n) => n@,
        None => Seq::empty(),
    }
}

/// The name of a field or variant in a bullet, or `_`.
pub open spec fn member_name(item: Item) -> Seq<char> {
    match item.name {
        Some(n) => n@,
        None => "_"@,
    }
}

pub open spec fn qualifiers_text(h: FunctionHeader) -> Seq<char> {
    (if h.is_const {
        "const "@
    } else {
        Seq::empty()
    }) + (if h.is_async {
        "async "@
    } else {
        Seq::empty()
    }) + (if h.is_unsafe {
        "unsafe "@
    } else {
        Seq::empty()
    })
}

pub open spec fn input_texts(inputs: Seq<(String, Type)>) -> Seq<Seq<char>>
    decreases inputs.len(),
{
    if inputs.len() == 0 {
        Seq::empty()
    } else {
        input_texts(inputs.drop_last()).push(
            inputs.last().0@ + ": "@ + type_text(inputs.last().1),
        )
    }
}

/// The signature shown for an item, or nothing for kinds that have none.
pub open spec fn definition_text(item: Item) -> Seq<char> {
    let name = plain_name(item);
    match item.inner {
        ItemEnum::Function { generics, header, inputs, output } => qualifiers_text(header) + "fn "@
            + name + generics_text(generics) + "("@ + join(input_texts(inputs@), ", "@) + ")"@
            + match output {
            Some(t) => " -> "@ + type_text(t),
            None => Seq::empty(),
        },
        ItemEnum::Struct { generics, kind, .. } => "struct "@ + name + generics_text(generics)
            + match kind {
            StructKind::Unit => ";"@,
            StructKind::Tuple(_) => "(/* ... */);"@,
            StructKind::Plain { .. } => " { ... }"@,
        },
        ItemEnum::Union { generics } => "union "@ + name + generics_text(generics) + " { ... }"@,
        ItemEnum::Enum { generics, .. } => "enum "@ + name + generics_text(generics),
        ItemEnum::Trait { generics } => "trait "@ + name + generics_text(generics),
        ItemEnum::TypeAlias { generics, type_ } => "type "@ + name + generics_text(generics)
            + " = "@ + type_text(type_) + ";"@,
        ItemEnum::Constant { type_ } => "const "@ + name + ": "@ + type_text(type_) + " = ...;"@,
        ItemEnum::Static { type_ } => "static "@ + name + ": "@ + type_text(type_) + " = ...;"@,
        ItemEnum::Use { source, .. } => "use "@ + source@ + ";"@,
        _ => Seq::empty(),
    }
}

/// The header of an implementation block: `impl<..> Trait<..> for Type`.
pub open spec fn impl_header_text(generics: Generics, trait_: Option<PathRef>, for_: Type) -> Seq<
    char,
> {
    "impl"@ + generics_text(generics) + " "@ + match trait_ {
        Some(t) => path_text(t) + " for "@,
        None => Seq::empty(),
    } + type_text(for_)
}

// ---------------------------------------------------------------------------
// Rendering an item.
// ---------------------------------------------------------------------------

fn item_kind_label(item: &Item) -> (r: &'static str)
    ensures
        r@ == kind_label(item.inner),
{
    match &item.inner {
        ItemEnum::Module { .. } => "Module",
        ItemEnum::ExternCrate => "Extern Crate",
        ItemEnum::Union { .. } => "Union",
        ItemEnum::Struct { .. } => "Struct",
        ItemEnum::StructField(_) => "Field",
        ItemEnum::Enum { .. } => "Enum",
        ItemEnum::Variant(_) => "Variant",
        ItemEnum::Function { .. } => "Function",
        ItemEnum::Trait { .. } => "Trait",
        ItemEnum::TraitAlias => "Trait Alias",
        ItemEnum::Impl { .. } => "Impl",
        ItemEnum::TypeAlias { .. } => "Type Alias",
        ItemEnum::Static { .. } => "Static",
        ItemEnum::Macro => "Macro",
        ItemEnum::ProcMacro => "Proc Macro",
        ItemEnum::Primitive => "Primitive",
        ItemEnum::AssocConst => "Assoc Constant",
        ItemEnum::AssocType => "Assoc Type",
        ItemEnum::Use { .. } => "Use",
        ItemEnum::ExternType => "Extern Type",
        ItemEnum::Constant { .. } => "Constant",
    }
}

fn format_inputs(inputs: &Vec<(String, Type)>) -> (r: Vec<String>)
    ensures
        views(r@) == input_texts(inputs@),
{
    let mut r: Vec<String> = Vec::new();
    let mut i: usize = 0;
    while i < inputs.len()
        invariant
            i <= inputs.len(),
            views(r@) == input_texts(inputs@.subrange(0, i as int)),
        decreases inputs.len() - i,
    {
        let (name, ty) = &inputs[i];
        let mut s = name.clone();
        s.append(": ");
        s.append(format_type(ty).as_str());
        proof {
            assert(inputs@.subrange(0, i + 1).drop_last() =~= inputs@.subrange(0, i as int));
        }
        r.push(s);
        proof {
            assert(views(r@) =~= input_texts(inputs@.subrange(0, i + 1)));
        }
        i = i + 1;
    }
    proof {
        assert(inputs@.subrange(0, inputs@.len() as int) =~= inputs@);
    }
    r
}

/// The signature of an item, or the empty text for kinds that have none.
pub fn format_item_definition(item: &Item) -> (r: String)
    ensures
        r@ == definition_text(*item),
{
    let name = match &item.name {
        Some(n) => n.clone(),
        None => String::new(),
    };
    let mut s = String::new();
    match &item.inner {
        ItemEnum::Function { generics, header, inputs, output } => {
            if header.is_const {
                s.append("const ");
            }
            if header.is_async {
                s.append("async ");
            }
            if header.is_unsafe {
                s.append("unsafe ");
            }
            s.append("fn ");
            s.append(name.as_str());
            s.append(format_generics(generics).as_str());
            s.append("(");
            let args = format_inputs(inputs);
            s.append(join_strings(&args, ", ").as_str());
            s.append(")");
            match output {
                Some(t) => {
                    s.append(" -> ");
                    s.append(format_type(t).as_str());
                },
                None => {},
            }
        },
        ItemEnum::Struct { generics, kind, .. } => {
            s.append("struct ");
            s.append(name.as_str());
            s.append(format_generics(generics).as_str());
            match kind {
                StructKind::Unit => {
                    s.append(";");
                },
                StructKind::Tuple(_) => {
                    s.append("(/* ... */);");
                },
                StructKind::Plain { .. } => {
                    s.append(" { ... }");
                },
            }
        },
        ItemEnum::Union { generics } => {
            s.append("union ");
            s.append(name.as_str());
            s.append(format_generics(generics).as_str());
            s.append(" { ... }");
        },
        ItemEnum::Enum { generics, .. } => {
            s.append("enum ");
            s.append(name.as_str());
            s.append(format_generics(generics).as_str());
        },
        ItemEnum::Trait { generics } => {
            s.append("trait ");
            s.append(name.as_str());
            s.append(format_generics(generics).as_str());
        },
        ItemEnum::TypeAlias { generics, type_ } => {
            s.append("type ");
            s.append(name.as_str());
            s.append(format_generics(generics).as_str());
            s.append(" = ");
            s.append(format_type(type_).as_str());
            s.append(";");
        },
        ItemEnum::Constant { type_ } => {
            s.append("const ");
            s.append(name.as_str());
            s.append(": ");
            s.append(format_type(type_).as_str());
            s.append(" = ...;");
        },
        ItemEnum::Static { type_ } => {
            s.append("static ");
            s.append(name.as_str());
            s.append(": ");
            s.append(format_type(type_).as_str());
            s.append(" = ...;");
        },
        ItemEnum::Use { source, .. } => {
            s.append("use ");
            s.append(source.as_str());
            s.append(";");
        },
        _ => {},
    }
    s
}

/// The header of an implementation block.
pub fn format_impl_header(generics: &Generics, trait_: &Option<PathRef>, for_: &Type) -> (r: String)
    ensures
        r@ == impl_header_text(*generics, *trait_, *for_),
{
    let mut s = String::from_str("impl");
    s.append(format_generics(generics).as_str());
    s.append(" ");
    match trait_ {
        Some(t) => {
            s.append(format_path_like(t).as_str());
            s.append(" for ");
        },
        None => {},
    }
    s.append(format_type(for_).as_str());
    s
}

// ---------------------------------------------------------------------------
// The documentation page of an item.
// ---------------------------------------------------------------------------

/// Whether `item` is an implementation block that lists `id` among its members.
pub open spec fn implements_member(item: Item, id: u32) -> bool {
    match item.inner {
        ItemEnum::Impl { items, .. } => items@.contains(id),
        _ => false,
    }
}

/// The first implementation block in `items` that lists `id` among its members.
pub open spec fn first_impl_of(items: Seq<Item>, id: u32) -> Option<Item>
    decreases items.len(),
{
    if items.len() == 0 {
        None
    } else if implements_member(items[0], id) {
        Some(items[0])
    } else {
        first_impl_of(items.drop_first(), id)
    }
}

pub open spec fn rust_block(t: Seq<char>) -> Seq<char> {
    "```"@ + "rust"@ + "\n"@ + t + "\n```"@
}

/// The first line of a documentation text, trimmed, after a dash; or nothing.
pub open spec fn doc_suffix(docs: Option<String>) -> Seq<char> {
    match docs {
        Some(d) => {
            let short = trimmed(first_line_of(d@));
            if short.len() > 0 {
                " \u{2014} "@ + short
            } else {
                Seq::empty()
            }
        },
        None => Seq::empty(),
    }
}

pub open spec fn field_lines(ids: Seq<u32>, krate: Crate) -> Seq<Seq<char>>
    decreases ids.len(),
{
    if ids.len() == 0 {
        Seq::empty()
    } else {
        let rest = field_lines(ids.drop_last(), krate);
        match krate.lookup(ids.last()) {
            Some(f) => match f.inner {
                ItemEnum::StructField(ty) => rest.push(
                    "`"@ + member_name(f) + ": "@ + type_text(ty) + "`"@ + doc_suffix(f.docs),
                ),
                _ => rest,
            },
            None => rest,
        }
    }
}

pub open spec fn variant_shape(k: ItemEnum) -> Seq<char> {
    match k {
        ItemEnum::Variant(VariantKind::Tuple(ts)) => if ts.len() > 0 {
            "(...)"@
        } else {
            Seq::empty()
        },
        ItemEnum::Variant(VariantKind::Struct { .. }) => " { ... }"@,
        _ => Seq::empty(),
    }
}

pub open spec fn variant_lines(ids: Seq<u32>, krate: Crate) -> Seq<Seq<char>>
    decreases ids.len(),
{
    if ids.len() == 0 {
        Seq::empty()
    } else {
        let rest = variant_lines(ids.drop_last(), krate);
        match krate.lookup(ids.last()) {
            Some(v) => rest.push(
                "`"@ + member_name(v) + "`"@ + variant_shape(v.inner) + doc_suffix(v.docs),
            ),
            None => rest,
        }
    }
}

/// An unordered list of the given lines, as the document renders it.
pub open spec fn bullet_list(lines: Seq<Seq<char>>) -> Seq<char> {
    join(lines.map_values(|s: Seq<char>| bullet_line(s)), Seq::empty())
}

pub open spec fn title_element(item: Item) -> Seq<char> {
    "# "@ + kind_label(item.inner) + " "@ + display_name(item) + "\n"@
}

pub open spec fn context_elements(item: Item, krate: Crate) -> Seq<Seq<char>> {
    match first_impl_of(krate.item_list(), item.id) {
        Some(p) => match p.inner {
            ItemEnum::Impl { generics, trait_, for_, .. } => seq![
                paragraph_text(rust_block(impl_header_text(generics, trait_, for_))),
            ],
            _ => Seq::empty(),
        },
        None => Seq::empty(),
    }
}

pub open spec fn definition_elements(item: Item) -> Seq<Seq<char>> {
    if definition_text(item).len() > 0 {
        seq![paragraph_text(rust_block(definition_text(item)))]
    } else {
        Seq::empty()
    }
}

pub open spec fn doc_elements(item: Item) -> Seq<Seq<char>> {
    match item.docs {
        Some(d) => seq!["## "@ + "Documentation"@ + "\n"@, paragraph_text(d@)],
        None => Seq::empty(),
    }
}

pub open spec fn detail_elements(item: Item, krate: Crate) -> Seq<Seq<char>> {
    match item.inner {
        ItemEnum::Struct { kind: StructKind::Plain { fields, .. }, .. } => if fields.len() > 0 {
            seq!["## "@ + "Fields"@ + "\n"@, bullet_list(field_lines(fields@, krate))]
        } else {
            Seq::empty()
        },
        ItemEnum::Enum { variants, .. } => if variants.len() > 0 {
            seq!["## "@ + "Variants"@ + "\n"@, bullet_list(variant_lines(variants@, krate))]
        } else {
            Seq::empty()
        },
        _ => Seq::empty(),
    }
}

/// The elements of an item's page: title, implementation context, signature,
/// documentation, then fields or variants.
pub open spec fn item_elements(item: Item, krate: Crate) -> Seq<Seq<char>> {
    seq![title_element(item)] + context_elements(item, krate) + definition_elements(item)
        + doc_elements(item) + detail_elements(item, krate)
}

/// The documentation page of an item.
pub open spec fn item_markdown(item: Item, krate: Crate) -> Seq<char> {
    join(item_elements(item, krate), "\n"@)
}

/// The first implementation block of the graph that lists `id` among its members.
pub fn find_parent_impl(krate: &Crate, id: u32) -> (r: Option<&Item>)
    ensures
        match r {
            Some(p) => first_impl_of(krate.item_list(), id) == Some(*p),
            None => first_impl_of(krate.item_list(), id) is None,
        },
{
    let items = krate.items();
    let mut i: usize = 0;
    assert(items@.subrange(0, items@.len() as int) =~= items@);
    while i < items.len()
        invariant
            i <= items.len(),
            items@ == krate.item_list(),
            first_impl_of(items@, id) == first_impl_of(items@.subrange(i as int, items@.len() as int), id),
        decreases items.len() - i,
    {
        let ghost rest = items@.subrange(i as int, items@.len() as int);
        proof {
            assert(rest.drop_first() =~= items@.subrange(i + 1, items@.len() as int));
        }
        let found = match &items[i].inner {
            ItemEnum::Impl { items: members, .. } => contains_id(members, id),
            _ => false,
        };
        if found {
            return Some(&items[i]);
        }
        i = i + 1;
    }
    None
}

fn doc_suffix_of(docs: &Option<String>) -> (r: String)
    ensures
        r@ == doc_suffix(*docs),
{
    let mut s = String::new();
    match docs {
        Some(d) => {
            let short = trim(first_line(d.as_str()));
            if !short.is_empty() {
                s.append(" \u{2014} ");
                s.append(short);
            }
        },
        None => {},
    }
    s
}

fn member_name_of(item: &Item) -> (r: String)
    ensures
        r@ == member_name(*item),
{
    match &item.name {
        Some(n) => n.clone(),
        None => String::from_str("_"),
    }
}

fn format_field_lines(ids: &Vec<u32>, krate: &Crate) -> (r: Vec<String>)
    requires
        krate.wf(),
    ensures
        views(r@) == field_lines(ids@, *krate),
{
    let mut r: Vec<String> = Vec::new();
    let mut i: usize = 0;
    while i < ids.len()
        invariant
            i <= ids.len(),
            krate.wf(),
            views(r@) == field_lines(ids@.subrange(0, i as int), *krate),
        decreases ids.len() - i,
    {
        proof {
            assert(ids@.subrange(0, i + 1).drop_last() =~= ids@.subrange(0, i as int));
        }
        match krate.get(ids[i]) {
            Some(f) => match &f.inner {
                ItemEnum::StructField(ty) => {
                    let mut line = String::from_str("`");
                    line.append(member_name_of(f).as_str());
                    line.append(": ");
                    line.append(format_type(ty).as_str());
                    line.append("`");
                    line.append(doc_suffix_of(&f.docs).as_str());
                    r.push(line);
                    proof {
                        assert(views(r@) =~= field_lines(ids@.subrange(0, i + 1), *krate));
                    }
                },
                _ => {},
            },
            None => {},
        }
        i = i + 1;
    }
    proof {
        assert(ids@.subrange(0, ids@.len() as int) =~= ids@);
    }
    r
}

fn format_variant_lines(ids: &Vec<u32>, krate: &Crate) -> (r: Vec<String>)
    requires
        krate.wf(),
    ensures
        views(r@) == variant_lines(ids@, *krate),
{
    let mut r: Vec<String> = Vec::new();
    let mut i: usize = 0;
    while i < ids.len()
        invariant
            i <= ids.len(),
            krate.wf(),
            views(r@) == variant_lines(ids@.subrange(0, i as int), *krate),
        decreases ids.len() - i,
    {
        proof {
            assert(ids@.subrange(0, i + 1).drop_last() =~= ids@.subrange(0, i as int));
        }
        match krate.get(ids[i]) {
            Some(v) => {
                let mut line = String::from_str("`");
                line.append(member_name_of(v).as_str());
                line.append("`");
                match &v.inner {
                    ItemEnum::Variant(VariantKind::Tuple(ts)) => {
                        if ts.len() > 0 {
                            line.append("(...)");
                        }
                    },
                    ItemEnum::Variant(VariantKind::Struct { .. }) => {
                        line.append(" { ... }");
                    },
                    _ => {},
                }
                line.append(doc_suffix_of(&v.docs).as_str());
                r.push(line);
                proof {
                    assert(views(r@) =~= variant_lines(ids@.subrange(0, i + 1), *krate));
                }
            },
            None => {},
        }
        i = i + 1;
    }
    proof {
        assert(ids@.subrange(0, ids@.len() as int) =~= ids@);
    }
    r
}

/// Renders the documentation page of `item`, read against the graph it belongs to.
pub fn generate_item_markdown(item: &Item, krate: &Crate) -> (r: String)
    requires
        krate.wf(),
    ensures
        r@ == item_markdown(*item, *krate),
{
    let mut doc = md_new();
    let mut title = String::from_str(item_kind_label(item));
    title.append(" ");
    match &item.name {
        Some(n) => {
            title.append(n.as_str());
        },
        None => match &item.inner {
            ItemEnum::Use { name, .. } => {
                title.append(name.as_str());
            },
            _ => {
                title.append("<unnamed>");
            },
        },
    }
    assert(title@ =~= kind_label(item.inner) + " "@ + display_name(*item));
    assert("# "@ + title@ + "\n"@ =~= title_element(*item));
    md_header1(&mut doc, title);
    assert(md_elements(doc) =~= seq![title_element(*item)]);

    match find_parent_impl(krate, item.id) {
        Some(parent) => match &parent.inner {
            ItemEnum::Impl { generics, trait_, for_, .. } => {
                let header = format_impl_header(generics, trait_, for_);
                let cb = code_block(header.as_str(), "rust");
                assert(cb@ =~= rust_block(header@));
                md_paragraph(&mut doc, cb);
            },
            _ => {},
        },
        None => {},
    }
    assert(md_elements(doc) =~= seq![title_element(*item)] + context_elements(*item, *krate));

    let definition = format_item_definition(item);
    if !definition.as_str().is_empty() {
        let cb = code_block(definition.as_str(), "rust");
        assert(cb@ =~= rust_block(definition@));
        md_paragraph(&mut doc, cb);
    }
    assert(md_elements(doc) =~= seq![title_element(*item)] + context_elements(*item, *krate)
        + definition_elements(*item));

    match &item.docs {
        Some(d) => {
            md_header2(&mut doc, String::from_str("Documentation"));
            md_paragraph(&mut doc, d.clone());
        },
        None => {},
    }
    assert(md_elements(doc) =~= seq![title_element(*item)] + context_elements(*item, *krate)
        + definition_elements(*item) + doc_elements(*item));

    match &item.inner {
        ItemEnum::Struct { kind: StructKind::Plain { fields, .. }, .. } => {
            if fields.len() > 0 {
                md_header2(&mut doc, String::from_str("Fields"));
                let lines = format_field_lines(fields, krate);
                md_list(&mut doc, md_unordered_list(lines));
            }
        },
        ItemEnum::Enum { variants, .. } => {
            if variants.len() > 0 {
                md_header2(&mut doc, String::from_str("Variants"));
                let lines = format_variant_lines(variants, krate);
                md_list(&mut doc, md_unordered_list(lines));
            }
        },
        _ => {},
    }
    assert(md_elements(doc) =~= item_elements(*item, *krate));
    md_render(&doc)
}

/// Rendering is deterministic: the same item read against the same graph
/// renders to the same text, every time.
pub proof fn law_render_deterministic(item1: Item, krate1: Crate, item2: Item, krate2: Crate)
    requires
        item1 == item2,
        krate1 == krate2,
    ensures
        item_markdown(item1, krate1) == item_markdown(item2, krate2),
{
}

} // verus!
