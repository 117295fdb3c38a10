//! The store contract: listing, loading, saving and deleting named
//! prompt and partial resources, with opaque-cursor pagination and
//! optimistic version checking.
//!
//! A store's observable state is a sequence of resources in the
//! backend's stable listing order, one per (name, variant) key. The
//! trait contracts are stated over that model; any backend satisfying
//! them gets the pagination and read-after-write laws proved here.

use vstd::prelude::*;
use vstd::string::StringExecFns;

use crate::codec::DecodeError;
use crate::part::opt_str_view;
use crate::refs::{PartialData, PartialRef, PromptData, PromptRef, RefV};
use crate::version::spec_version_of;

verus! {

/// A failure of a store operation, distinguishable by kind.
#[derive(Debug, Clone, PartialEq)]
pub enum PromptStoreError {
    /// No resource is stored under the requested (name, variant).
    NotFound { name: String },
    /// The optimistic version check failed on load.
    VersionMismatch { expected: String, actual: String },
    /// The stored wire content is malformed.
    Decode { kind: DecodeError },
    /// The underlying medium failed.
    Io { message: String },
    /// Encoding or decoding plumbing failed, apart from semantic
    /// decode errors.
    Serialization { message: String },
    /// A backend-specific failure.
    Custom { message: String },
}

impl PromptStoreError {
    /// A human-readable description of the failure.
    pub fn message(&self) -> (r: String)
        ensures
            (match *self {
                PromptStoreError::NotFound { name } => r@ == "Prompt or partial '"@ + name@
                    + "' not found"@,
                PromptStoreError::VersionMismatch { expected, actual } => r@
                    == "Version mismatch: expected "@ + expected@ + ", found "@ + actual@,
                PromptStoreError::Decode { kind } => (kind == DecodeError::NoVariantMatched ==> r@
                    == "Decode error: no variant matched"@) && (kind
                    == DecodeError::InvalidPendingFlag ==> r@
                    == "Decode error: invalid pending flag"@) && (kind
                    == DecodeError::SchemaViolation ==> r@ == "Decode error: schema violation"@),
                PromptStoreError::Io { message } => r@ == "I/O error: "@ + message@,
                PromptStoreError::Serialization { message } => r@ == "Serialization error: "@
                    + message@,
                PromptStoreError::Custom { message } => r@ == "An unexpected error occurred: "@
                    + message@,
            }),
    {
        let mut out = String::new();
        match self {
            PromptStoreError::NotFound { name } => {
                out.append("Prompt or partial '");
                out.append(name.as_str());
                out.append("' not found");
            },
            PromptStoreError::VersionMismatch { expected, actual } => {
                out.append("Version mismatch: expected ");
                out.append(expected.as_str());
                out.append(", found ");
                out.append(actual.as_str());
            },
            PromptStoreError::Decode { kind } => {
                match kind {
                    DecodeError::NoVariantMatched => {
                        out.append("Decode error: no variant matched");
                    },
                    DecodeError::InvalidPendingFlag => {
                        out.append("Decode error: invalid pending flag");
                    },
                    DecodeError::SchemaViolation => {
                        out.append("Decode error: schema violation");
                    },
                }
            },
            PromptStoreError::Io { message } => {
                out.append("I/O error: ");
                out.append(message.as_str());
            },
            PromptStoreError::Serialization { message } => {
                out.append("Serialization error: ");
                out.append(message.as_str());
            },
            PromptStoreError::Custom { message } => {
                out.append("An unexpected error occurred: ");
                out.append(message.as_str());
            },
        }
        proof {
            assert(Seq::<char>::empty() + "Prompt or partial '"@ =~= "Prompt or partial '"@);
            assert(Seq::<char>::empty() + "Version mismatch: expected "@
                =~= "Version mismatch: expected "@);
            assert(Seq::<char>::empty() + "Decode error: no variant matched"@
                =~= "Decode error: no variant matched"@);
            assert(Seq::<char>::empty() + "Decode error: invalid pending flag"@
                =~= "Decode error: invalid pending flag"@);
            assert(Seq::<char>::empty() + "Decode error: schema violation"@
                =~= "Decode error: schema violation"@);
            assert(Seq::<char>::empty() + "I/O error: "@ =~= "I/O error: "@);
            assert(Seq::<char>::empty() + "Serialization error: "@ =~= "Serialization error: "@);
            assert(Seq::<char>::empty() + "An unexpected error occurred: "@
                =~= "An unexpected error occurred: "@);
        }
        out
    }
}

/// Options for listing prompts with pagination.
#[derive(Debug, Clone, PartialEq)]
pub struct ListPromptsOptions {
    /// The cursor to start listing from.
    pub cursor: Option<String>,
    /// The maximum number of items to return.
    pub limit: Option<usize>,
}

/// Options for listing partials with pagination.
#[derive(Debug, Clone, PartialEq)]
pub struct ListPartialsOptions {
    /// The cursor to start listing from.
    pub cursor: Option<String>,
    /// The maximum number of items to return.
    pub limit: Option<usize>,
}

/// Options for loading a prompt.
#[derive(Debug, Clone, PartialEq)]
pub struct LoadPromptOptions {
    /// The variant to load; absent means the default variant.
    pub variant: Option<String>,
    /// A version fingerprint to verify the loaded content against.
    pub version: Option<String>,
}

/// Options for loading a partial.
#[derive(Debug, Clone, PartialEq)]
pub struct LoadPartialOptions {
    /// The variant to load; absent means the default variant.
    pub variant: Option<String>,
    /// A version fingerprint to verify the loaded content against.
    pub version: Option<String>,
}

/// Options for deleting a prompt or partial.
#[derive(Debug, Clone, PartialEq)]
pub struct DeletePromptOrPartialOptions {
    /// The variant to delete; absent targets the default variant only.
    pub variant: Option<String>,
}

/// A page of prompt references.
#[derive(Debug, Clone, PartialEq)]
pub struct PaginatedPrompts {
    /// The references on this page.
    pub prompts: Vec<PromptRef>,
    /// The cursor for the next page; absent on the final page.
    pub cursor: Option<String>,
}

/// A page of partial references.
#[derive(Debug, Clone, PartialEq)]
pub struct PaginatedPartials {
    /// The references on this page.
    pub partials: Vec<PartialRef>,
    /// The cursor for the next page; absent on the final page.
    pub cursor: Option<String>,
}

/// The pagination tail common to paged responses.
#[derive(Debug, Clone, PartialEq)]
pub struct PaginatedResponse {
    /// The cursor for the next page; absent on the final page.
    pub cursor: Option<String>,
}

/// A bundle of prompts and partials.
#[derive(Debug, Clone, PartialEq)]
pub struct PromptBundle {
    pub partials: Vec<PartialData>,
    pub prompts: Vec<PromptData>,
}

impl Default for PromptBundle {
    /// The empty bundle.
    fn default() -> (r: Self)
        ensures
            r.partials@.len() == 0,
            r.prompts@.len() == 0,
    {
        PromptBundle { partials: Vec::new(), prompts: Vec::new() }
    }
}

/// The model of one stored resource.
pub struct ResourceV {
    pub name: Seq<char>,
    pub variant: Option<Seq<char>>,
    pub source: Seq<char>,
}

/// Whether a stored resource sits under the given (name, variant) key.
pub open spec fn res_key_is(r: ResourceV, name: Seq<char>, variant: Option<Seq<char>>) -> bool {
    r.name == name && r.variant == variant
}

/// The first resource under the given key, if any.
pub open spec fn lookup_res(
    model: Seq<ResourceV>,
    name: Seq<char>,
    variant: Option<Seq<char>>,
) -> Option<ResourceV>
    decreases model.len(),
{
    if model.len() == 0 {
        None
    } else if res_key_is(model[0], name, variant) {
        Some(model[0])
    } else {
        lookup_res(model.drop_first(), name, variant)
    }
}

/// At most one resource per (name, variant) key.
pub open spec fn model_keys_unique(model: Seq<ResourceV>) -> bool {
    forall|i: int, j: int|
        0 <= i < j < model.len() ==> !((#[trigger] model[i]).name == (#[trigger] model[j]).name
            && model[i].variant == model[j].variant)
}

/// The model after an upsert: the first resource under the key is
/// replaced in place, or a new one is appended.
pub open spec fn upsert_res(
    model: Seq<ResourceV>,
    name: Seq<char>,
    variant: Option<Seq<char>>,
    source: Seq<char>,
) -> Seq<ResourceV>
    decreases model.len(),
{
    if model.len() == 0 {
        seq![ResourceV { name, variant, source }]
    } else if res_key_is(model[0], name, variant) {
        seq![ResourceV { name, variant, source }] + model.drop_first()
    } else {
        seq![model[0]] + upsert_res(model.drop_first(), name, variant, source)
    }
}

/// The model after a delete: every resource under the key is removed,
/// order kept.
pub open spec fn remove_res(
    model: Seq<ResourceV>,
    name: Seq<char>,
    variant: Option<Seq<char>>,
) -> Seq<ResourceV>
    decreases model.len(),
{
    if model.len() == 0 {
        model
    } else if res_key_is(model[0], name, variant) {
        remove_res(model.drop_first(), name, variant)
    } else {
        seq![model[0]] + remove_res(model.drop_first(), name, variant)
    }
}

/// The model of list options.
pub struct ListOptsV {
    pub cursor: Option<Seq<char>>,
    pub limit: Option<int>,
}

/// The model of load options.
pub struct LoadOptsV {
    pub variant: Option<Seq<char>>,
    pub version: Option<Seq<char>>,
}

/// The model of an optional limit.
pub open spec fn opt_limit_view(l: Option<usize>) -> Option<int> {
    match l {
        None => None,
        Some(x) => Some(x as int),
    }
}

/// The model of optional prompt-list options.
pub open spec fn list_prompts_view(o: Option<ListPromptsOptions>) -> ListOptsV {
    match o {
        None => ListOptsV { cursor: None, limit: None },
        Some(x) => ListOptsV { cursor: opt_str_view(x.cursor), limit: opt_limit_view(x.limit) },
    }
}

/// The model of optional partial-list options.
pub open spec fn list_partials_view(o: Option<ListPartialsOptions>) -> ListOptsV {
    match o {
        None => ListOptsV { cursor: None, limit: None },
        Some(x) => ListOptsV { cursor: opt_str_view(x.cursor), limit: opt_limit_view(x.limit) },
    }
}

/// The model of optional prompt-load options.
pub open spec fn load_prompt_view(o: Option<LoadPromptOptions>) -> LoadOptsV {
    match o {
        None => LoadOptsV { variant: None, version: None },
        Some(x) => LoadOptsV {
            variant: opt_str_view(x.variant),
            version: opt_str_view(x.version),
        },
    }
}

/// The model of optional partial-load options.
pub open spec fn load_partial_view(o: Option<LoadPartialOptions>) -> LoadOptsV {
    match o {
        None => LoadOptsV { variant: None, version: None },
        Some(x) => LoadOptsV {
            variant: opt_str_view(x.variant),
            version: opt_str_view(x.version),
        },
    }
}

/// The variant that delete options target; absent means the default.
pub open spec fn delete_view(o: Option<DeletePromptOrPartialOptions>) -> Option<Seq<char>> {
    match o {
        None => None,
        Some(x) => opt_str_view(x.variant),
    }
}

/// The page length to use: the caller's limit, or the default.
pub open spec fn limit_val(l: Option<int>, dflt: int) -> int {
    match l {
        None => dflt,
        Some(x) => x,
    }
}

/// Where a page starting at `start` with length `k` ends in a listing
/// of `n` resources.
pub open spec fn page_end(start: int, k: int, n: int) -> int {
    if start + k < n {
        start + k
    } else {
        n
    }
}

/// The references of the listed resources; listings carry no version.
pub open spec fn page_refs(model: Seq<ResourceV>, start: int, end: int) -> Seq<RefV> {
    Seq::new(
        (end - start) as nat,
        |i: int| RefV { name: model[start + i].name, variant: model[start + i].variant, version: None },
    )
}

/// The models of a vector of prompt references.
pub open spec fn refs_view(v: Seq<PromptRef>) -> Seq<RefV> {
    Seq::new(v.len(), |i: int| v[i]@)
}

/// The models of a vector of partial references.
pub open spec fn partial_refs_view(v: Seq<PartialRef>) -> Seq<RefV> {
    Seq::new(v.len(), |i: int| v[i]@)
}

/// Where a listing starts: position zero without a cursor, else the
/// position the backend's cursor token denotes.
pub open spec fn start_pos(
    cursor: Option<Seq<char>>,
    cpos: spec_fn(Seq<char>) -> Option<int>,
) -> Option<int> {
    match cursor {
        None => Some(0),
        Some(c) => cpos(c),
    }
}

/// Correctness of one returned page: exactly the references of the
/// listing between `start` and the page end, and a continuation cursor
/// exactly when resources remain.
pub open spec fn list_page_ok(
    model: Seq<ResourceV>,
    start: int,
    k: int,
    items: Seq<RefV>,
    cursor: Option<Seq<char>>,
    cpos: spec_fn(Seq<char>) -> Option<int>,
) -> bool {
    let n = model.len() as int;
    let end = page_end(start, k, n);
    &&& items == page_refs(model, start, end)
    &&& match cursor {
        Some(c) => end < n && cpos(c) == Some(end),
        None => end == n,
    }
}

/// Correctness of a load result against the model: success returns the
/// stored source under the requested key, carrying its computed
/// version, and only when any requested version matches; `NotFound`
/// comes exactly when the key is absent; `VersionMismatch` exactly when
/// the requested version differs from the computed one.
pub open spec fn load_result_ok(
    model: Seq<ResourceV>,
    name: Seq<char>,
    opts: LoadOptsV,
    found: Option<(RefV, Seq<char>)>,
    err: Option<PromptStoreError>,
) -> bool {
    match err {
        None => {
            &&& found matches Some((r, source))
            &&& lookup_res(model, name, opts.variant) matches Some(res) && source == res.source
                && r.name == name && r.variant == res.variant && r.version == Some(
                spec_version_of(res.source),
            ) && (opts.version matches Some(w) ==> w == spec_version_of(res.source))
        },
        Some(PromptStoreError::NotFound { name: n }) => n@ == name && lookup_res(
            model,
            name,
            opts.variant,
        ) is None,
        Some(PromptStoreError::VersionMismatch { expected, actual }) => {
            &&& lookup_res(model, name, opts.variant) matches Some(res) && opts.version == Some(
                expected@,
            ) && actual@ == spec_version_of(res.source) && expected@ != actual@
        },
        Some(_) => true,
    }
}

/// Exactly one resource lives under the key an upsert wrote: the one
/// written. This is the read-after-write guarantee over the model.
pub proof fn lemma_read_after_write(
    model: Seq<ResourceV>,
    name: Seq<char>,
    variant: Option<Seq<char>>,
    source: Seq<char>,
)
    ensures
        lookup_res(upsert_res(model, name, variant, source), name, variant) == Some(
            ResourceV { name, variant, source },
        ),
    decreases model.len(),
{
    let up = upsert_res(model, name, variant, source);
    if model.len() == 0 {
        assert(up[0] == ResourceV { name, variant, source });
    } else if res_key_is(model[0], name, variant) {
        assert(up[0] == ResourceV { name, variant, source });
    } else {
        lemma_read_after_write(model.drop_first(), name, variant, source);
        assert(up[0] == model[0]);
        assert(up.drop_first() =~= upsert_res(model.drop_first(), name, variant, source));
    }
}

/// An upsert changes no other key's resource.
pub proof fn lemma_upsert_other_key(
    model: Seq<ResourceV>,
    name: Seq<char>,
    variant: Option<Seq<char>>,
    source: Seq<char>,
    name2: Seq<char>,
    variant2: Option<Seq<char>>,
)
    requires
        name != name2 || variant != variant2,
    ensures
        lookup_res(upsert_res(model, name, variant, source), name2, variant2) == lookup_res(
            model,
            name2,
            variant2,
        ),
    decreases model.len(),
{
    reveal_with_fuel(lookup_res, 3);
    let up = upsert_res(model, name, variant, source);
    if model.len() == 0 {
        assert(up.drop_first() =~= Seq::<ResourceV>::empty());
    } else if res_key_is(model[0], name, variant) {
        assert(up.drop_first() =~= model.drop_first());
    } else {
        lemma_upsert_other_key(model.drop_first(), name, variant, source, name2, variant2);
        assert(up[0] == model[0]);
        assert(up.drop_first() =~= upsert_res(model.drop_first(), name, variant, source));
    }
}

/// A delete removes everything under its key.
pub proof fn lemma_remove_removes(
    model: Seq<ResourceV>,
    name: Seq<char>,
    variant: Option<Seq<char>>,
)
    ensures
        lookup_res(remove_res(model, name, variant), name, variant) is None,
    decreases model.len(),
{
    if model.len() > 0 {
        lemma_remove_removes(model.drop_first(), name, variant);
        if !res_key_is(model[0], name, variant) {
            let rm = remove_res(model, name, variant);
            assert(rm[0] == model[0]);
            assert(rm.drop_first() =~= remove_res(model.drop_first(), name, variant));
        }
    }
}

/// A delete leaves every other key's resource untouched: deleting one
/// variant never disturbs a sibling variant of the same name, nor the
/// default one.
pub proof fn lemma_remove_other_key(
    model: Seq<ResourceV>,
    name: Seq<char>,
    variant: Option<Seq<char>>,
    name2: Seq<char>,
    variant2: Option<Seq<char>>,
)
    requires
        name != name2 || variant != variant2,
    ensures
        lookup_res(remove_res(model, name, variant), name2, variant2) == lookup_res(
            model,
            name2,
            variant2,
        ),
    decreases model.len(),
{
    if model.len() > 0 {
        lemma_remove_other_key(model.drop_first(), name, variant, name2, variant2);
        let rm = remove_res(model, name, variant);
        if !res_key_is(model[0], name, variant) {
            assert(rm[0] == model[0]);
            assert(rm.drop_first() =~= remove_res(model.drop_first(), name, variant));
        }
    }
}

/// The resources a full pagination sweep returns: each page is read at
/// the position its predecessor's cursor denotes, until the cursor is
/// absent.
pub open spec fn sweep_items(model: Seq<ResourceV>, k: int, start: int) -> Seq<ResourceV>
    decreases model.len() - start,
    when 0 <= start <= model.len() && k >= 1
{
    if start >= model.len() {
        Seq::empty()
    } else {
        model.subrange(start, page_end(start, k, model.len() as int)) + sweep_items(
            model,
            k,
            page_end(start, k, model.len() as int),
        )
    }
}

/// How many pages a full pagination sweep reads.
pub open spec fn sweep_page_count(model: Seq<ResourceV>, k: int, start: int) -> int
    decreases model.len() - start,
    when 0 <= start <= model.len() && k >= 1
{
    if start >= model.len() {
        0
    } else {
        1 + sweep_page_count(model, k, page_end(start, k, model.len() as int))
    }
}

proof fn lemma_sweep_from(model: Seq<ResourceV>, k: int, start: int)
    requires
        k >= 1,
        0 <= start <= model.len(),
    ensures
        sweep_items(model, k, start) == model.subrange(start, model.len() as int),
        sweep_page_count(model, k, start) == (model.len() - start + k - 1) / k,
    decreases model.len() - start,
{
    let n = model.len() as int;
    assert((k - 1) / k == 0) by (nonlinear_arith)
        requires
            k >= 1,
    ;
    if start >= n {
        assert(model.subrange(start, n) =~= Seq::<ResourceV>::empty());
    } else {
        let end = page_end(start, k, n);
        lemma_sweep_from(model, k, end);
        assert(sweep_items(model, k, start) =~= model.subrange(start, n));
        let m = n - start;
        if m <= k {
            assert((m + k - 1) / k == 1) by (nonlinear_arith)
                requires
                    1 <= m <= k,
            ;
        } else {
            assert((m - k + k - 1) / k + 1 == (m + k - 1) / k) by (nonlinear_arith)
                requires
                    k >= 1,
                    m > k,
            ;
        }
    }
}

/// The pagination law: a full un-interrupted sweep over an unchanged
/// listing of `n` resources with page length `k` returns exactly the
/// listing, nothing skipped and nothing repeated, and it takes exactly
/// the rounded-up `n / k` pages.
pub proof fn lemma_pagination_sweep(model: Seq<ResourceV>, k: int)
    requires
        k >= 1,
    ensures
        sweep_items(model, k, 0) == model,
        sweep_page_count(model, k, 0) == (model.len() + k - 1) / k,
{
    lemma_sweep_from(model, k, 0);
    assert(model.subrange(0, model.len() as int) =~= model);
}

/// If entry `i` is the first one under the key, it is what lookup finds.
pub proof fn lemma_lookup_index(
    model: Seq<ResourceV>,
    name: Seq<char>,
    variant: Option<Seq<char>>,
    i: int,
)
    requires
        0 <= i < model.len(),
        res_key_is(model[i], name, variant),
        forall|j: int| 0 <= j < i ==> !res_key_is(#[trigger] model[j], name, variant),
    ensures
        lookup_res(model, name, variant) == Some(model[i]),
    decreases i,
{
    if i > 0 {
        assert(model.drop_first()[i - 1] == model[i]);
        assert(forall|j: int|
            0 <= j < i - 1 ==> !res_key_is(#[trigger] model.drop_first()[j], name, variant))
            by {
            assert(forall|j: int|
                0 <= j < i - 1 ==> model.drop_first()[j] == #[trigger] model[j + 1]);
        }
        lemma_lookup_index(model.drop_first(), name, variant, i - 1);
    }
}

/// If no entry is under the key, lookup finds nothing.
pub proof fn lemma_lookup_none(model: Seq<ResourceV>, name: Seq<char>, variant: Option<Seq<char>>)
    requires
        forall|j: int| 0 <= j < model.len() ==> !res_key_is(#[trigger] model[j], name, variant),
    ensures
        lookup_res(model, name, variant) is None,
    decreases model.len(),
{
    if model.len() > 0 {
        assert(forall|j: int|
            0 <= j < model.len() - 1 ==> model.drop_first()[j] == #[trigger] model[j + 1]);
        lemma_lookup_none(model.drop_first(), name, variant);
    }
}

/// An upsert whose key already lives at index `i` replaces that entry
/// in place.
pub proof fn lemma_upsert_at_index(
    model: Seq<ResourceV>,
    name: Seq<char>,
    variant: Option<Seq<char>>,
    source: Seq<char>,
    i: int,
)
    requires
        0 <= i < model.len(),
        res_key_is(model[i], name, variant),
        forall|j: int| 0 <= j < i ==> !res_key_is(#[trigger] model[j], name, variant),
    ensures
        upsert_res(model, name, variant, source) == model.update(
            i,
            ResourceV { name, variant, source },
        ),
    decreases i,
{
    let up = upsert_res(model, name, variant, source);
    if i == 0 {
        assert(up =~= model.update(0, ResourceV { name, variant, source }));
    } else {
        assert(model.drop_first()[i - 1] == model[i]);
        assert(forall|j: int|
            0 <= j < i - 1 ==> model.drop_first()[j] == #[trigger] model[j + 1]);
        lemma_upsert_at_index(model.drop_first(), name, variant, source, i - 1);
        assert(up =~= model.update(i, ResourceV { name, variant, source }));
    }
}

/// An upsert whose key is absent appends the new resource.
pub proof fn lemma_upsert_absent(
    model: Seq<ResourceV>,
    name: Seq<char>,
    variant: Option<Seq<char>>,
    source: Seq<char>,
)
    requires
        forall|j: int| 0 <= j < model.len() ==> !res_key_is(#[trigger] model[j], name, variant),
    ensures
        upsert_res(model, name, variant, source) == model.push(
            ResourceV { name, variant, source },
        ),
    decreases model.len(),
{
    let up = upsert_res(model, name, variant, source);
    if model.len() == 0 {
        assert(up =~= model.push(ResourceV { name, variant, source }));
    } else {
        assert(forall|j: int|
            0 <= j < model.len() - 1 ==> model.drop_first()[j] == #[trigger] model[j + 1]);
        lemma_upsert_absent(model.drop_first(), name, variant, source);
        assert(up =~= model.push(ResourceV { name, variant, source }));
    }
}

/// With unique keys, deleting the key found at index `i` removes
/// exactly that entry.
pub proof fn lemma_remove_at_index(
    model: Seq<ResourceV>,
    name: Seq<char>,
    variant: Option<Seq<char>>,
    i: int,
)
    requires
        model_keys_unique(model),
        0 <= i < model.len(),
        res_key_is(model[i], name, variant),
    ensures
        remove_res(model, name, variant) == model.remove(i),
    decreases model.len(),
{
    let rm = remove_res(model, name, variant);
    if i == 0 {
        assert(forall|j: int|
            0 <= j < model.len() - 1 ==> model.drop_first()[j] == #[trigger] model[j + 1]);
        assert(forall|j: int|
            0 <= j < model.drop_first().len() ==> !res_key_is(
                #[trigger] model.drop_first()[j],
                name,
                variant,
            ));
        lemma_remove_res_absent(model.drop_first(), name, variant);
        assert(rm =~= model.remove(0));
    } else {
        assert(model.drop_first()[i - 1] == model[i]);
        assert(forall|x: int, y: int|
            0 <= x < y < model.len() - 1 ==> model.drop_first()[x] == #[trigger] model[x + 1]
                && model.drop_first()[y] == #[trigger] model[y + 1]);
        lemma_remove_at_index(model.drop_first(), name, variant, i - 1);
        assert(!res_key_is(model[0], name, variant));
        assert(rm =~= model.remove(i));
    }
}

/// Deleting an absent key changes nothing.
pub proof fn lemma_remove_res_absent(
    model: Seq<ResourceV>,
    name: Seq<char>,
    variant: Option<Seq<char>>,
)
    requires
        forall|j: int| 0 <= j < model.len() ==> !res_key_is(#[trigger] model[j], name, variant),
    ensures
        remove_res(model, name, variant) == model,
    decreases model.len(),
{
    if model.len() > 0 {
        assert(forall|j: int|
            0 <= j < model.len() - 1 ==> model.drop_first()[j] == #[trigger] model[j + 1]);
        lemma_remove_res_absent(model.drop_first(), name, variant);
        assert(remove_res(model, name, variant) =~= model);
    }
}

/// The read side of the store contract.
///
/// A store's observable state is one listing of prompts and one of
/// partials, each a sequence of resources in the backend's stable
/// order with at most one resource per (name, variant) key. Cursor
/// tokens are opaque to callers; what position one denotes is the
/// backend's affair, exposed here only as a specification function.
pub trait PromptStore: Sized {
    /// The prompts in the store, in the backend's stable listing order.
    spec fn prompts_model(&self) -> Seq<ResourceV>;

    /// The partials in the store, in the backend's stable listing order.
    spec fn partials_model(&self) -> Seq<ResourceV>;

    /// The backend's well-formedness condition.
    spec fn inv(&self) -> bool;

    /// The position in the prompt listing that a cursor token denotes,
    /// if it denotes one.
    spec fn prompt_cursor_pos(&self, c: Seq<char>) -> Option<int>;

    /// The position in the partial listing that a cursor token denotes.
    spec fn partial_cursor_pos(&self, c: Seq<char>) -> Option<int>;

    /// The page length used when the caller gives no limit.
    spec fn default_page_len(&self) -> int;

    /// What every well-formed store guarantees: unique keys, a usable
    /// default page length, and cursors that denote listing positions.
    proof fn lemma_store_inv(&self)
        requires
            self.inv(),
        ensures
            model_keys_unique(self.prompts_model()),
            model_keys_unique(self.partials_model()),
            self.default_page_len() >= 1,
            forall|c: Seq<char>|
                (#[trigger] self.prompt_cursor_pos(c)) matches Some(p) ==> 0 <= p
                    <= self.prompts_model().len(),
            forall|c: Seq<char>|
                (#[trigger] self.partial_cursor_pos(c)) matches Some(p) ==> 0 <= p
                    <= self.partials_model().len(),
    ;

    /// One page of the prompt listing, starting where the cursor in
    /// `options` points and holding at most the requested number of
    /// references.
    fn list(&self, options: Option<ListPromptsOptions>) -> (r: Result<
        PaginatedPrompts,
        PromptStoreError,
    >)
        requires
            self.inv(),
        ensures
            (match r {
                Ok(page) => (match start_pos(
                    list_prompts_view(options).cursor,
                    (|c: Seq<char>| self.prompt_cursor_pos(c)),
                ) {
                    Some(start) => list_page_ok(
                        self.prompts_model(),
                        start,
                        limit_val(list_prompts_view(options).limit, self.default_page_len()),
                        refs_view(page.prompts@),
                        opt_str_view(page.cursor),
                        (|c: Seq<char>| self.prompt_cursor_pos(c)),
                    ),
                    None => false,
                }),
                Err(_) => true,
            }),
    ;

    /// One page of the partial listing; the same contract over partials.
    fn list_partials(&self, options: Option<ListPartialsOptions>) -> (r: Result<
        PaginatedPartials,
        PromptStoreError,
    >)
        requires
            self.inv(),
        ensures
            (match r {
                Ok(page) => (match start_pos(
                    list_partials_view(options).cursor,
                    (|c: Seq<char>| self.partial_cursor_pos(c)),
                ) {
                    Some(start) => list_page_ok(
                        self.partials_model(),
                        start,
                        limit_val(list_partials_view(options).limit, self.default_page_len()),
                        partial_refs_view(page.partials@),
                        opt_str_view(page.cursor),
                        (|c: Seq<char>| self.partial_cursor_pos(c)),
                    ),
                    None => false,
                }),
                Err(_) => true,
            }),
    ;

    /// The prompt stored under (name, variant): its source and computed
    /// version on success; `NotFound` when the key is absent;
    /// `VersionMismatch` when a requested version differs from the
    /// computed one.
    fn load(&self, name: &str, options: Option<LoadPromptOptions>) -> (r: Result<
        PromptData,
        PromptStoreError,
    >)
        requires
            self.inv(),
        ensures
            (match r {
                Ok(d) => load_result_ok(
                    self.prompts_model(),
                    name@,
                    load_prompt_view(options),
                    Some((d.prompt_ref@, d.source@)),
                    None,
                ),
                Err(e) => load_result_ok(
                    self.prompts_model(),
                    name@,
                    load_prompt_view(options),
                    None,
                    Some(e),
                ),
            }),
    ;

    /// The partial stored under (name, variant); the same contract
    /// over partials.
    fn load_partial(&self, name: &str, options: Option<LoadPartialOptions>) -> (r: Result<
        PartialData,
        PromptStoreError,
    >)
        requires
            self.inv(),
        ensures
            (match r {
                Ok(d) => load_result_ok(
                    self.partials_model(),
                    name@,
                    load_partial_view(options),
                    Some((d.partial_ref@, d.source@)),
                    None,
                ),
                Err(e) => load_result_ok(
                    self.partials_model(),
                    name@,
                    load_partial_view(options),
                    None,
                    Some(e),
                ),
            }),
    ;
}

/// The write side of the store contract.
///
/// A successful save upserts by (name, variant); a failed operation
/// leaves the store as it was, never partially applied. Deleting
/// targets exactly one (name, variant) key: absent delete options
/// target the default variant only.
pub trait PromptStoreWritable: PromptStore {
    /// Upserts the prompt under its (name, variant); any version field
    /// on the reference is ignored, versions being computed from
    /// content.
    fn save(&mut self, prompt: PromptData) -> (r: Result<(), PromptStoreError>)
        requires
            old(self).inv(),
        ensures
            final(self).inv(),
            final(self).partials_model() == old(self).partials_model(),
            final(self).default_page_len() == old(self).default_page_len(),
            (match r {
                Ok(_) => final(self).prompts_model() == upsert_res(
                    old(self).prompts_model(),
                    prompt.prompt_ref.name@,
                    opt_str_view(prompt.prompt_ref.variant),
                    prompt.source@,
                ),
                Err(_) => final(self).prompts_model() == old(self).prompts_model(),
            }),
    ;

    /// Removes the prompt under (name, variant); `NotFound` when none
    /// is stored there. Sibling variants stay untouched.
    fn delete(&mut self, name: &str, options: Option<DeletePromptOrPartialOptions>) -> (r: Result<
        (),
        PromptStoreError,
    >)
        requires
            old(self).inv(),
        ensures
            final(self).inv(),
            final(self).partials_model() == old(self).partials_model(),
            final(self).default_page_len() == old(self).default_page_len(),
            (match r {
                Ok(_) => lookup_res(
                    old(self).prompts_model(),
                    name@,
                    delete_view(options),
                ) is Some && final(self).prompts_model() == remove_res(
                    old(self).prompts_model(),
                    name@,
                    delete_view(options),
                ),
                Err(PromptStoreError::NotFound { name: n }) => n@ == name@ && lookup_res(
                    old(self).prompts_model(),
                    name@,
                    delete_view(options),
                ) is None && final(self).prompts_model() == old(self).prompts_model(),
                Err(_) => final(self).prompts_model() == old(self).prompts_model(),
            }),
    ;

    /// Upserts the partial under its (name, variant).
    fn save_partial(&mut self, partial: PartialData) -> (r: Result<(), PromptStoreError>)
        requires
            old(self).inv(),
        ensures
            final(self).inv(),
            final(self).prompts_model() == old(self).prompts_model(),
            final(self).default_page_len() == old(self).default_page_len(),
            (match r {
                Ok(_) => final(self).partials_model() == upsert_res(
                    old(self).partials_model(),
                    partial.partial_ref.name@,
                    opt_str_view(partial.partial_ref.variant),
                    partial.source@,
                ),
                Err(_) => final(self).partials_model() == old(self).partials_model(),
            }),
    ;

    /// Removes the partial under (name, variant).
    fn delete_partial(
        &mut self,
        name: &str,
        options: Option<DeletePromptOrPartialOptions>,
    ) -> (r: Result<(), PromptStoreError>)
        requires
            old(self).inv(),
        ensures
            final(self).inv(),
            final(self).prompts_model() == old(self).prompts_model(),
            final(self).default_page_len() == old(self).default_page_len(),
            (match r {
                Ok(_) => lookup_res(
                    old(self).partials_model(),
                    name@,
                    delete_view(options),
                ) is Some && final(self).partials_model() == remove_res(
                    old(self).partials_model(),
                    name@,
                    delete_view(options),
                ),
                Err(PromptStoreError::NotFound { name: n }) => n@ == name@ && lookup_res(
                    old(self).partials_model(),
                    name@,
                    delete_view(options),
                ) is None && final(self).partials_model() == old(self).partials_model(),
                Err(_) => final(self).partials_model() == old(self).partials_model(),
            }),
    ;
}

} // verus!
