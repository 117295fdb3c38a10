//! The in-memory reference store: an implementation of the store
//! contract whose listing order is insertion order and whose cursors
//! are canonical decimal positions. It shows the contract satisfiable
//! and pins its own failures down exactly: reads fail only as the
//! contract says they must, writes never fail.

use vstd::prelude::*;

use crate::json::str_eq;
use crate::part::opt_str_view;
use crate::refs::{PartialData, PartialRef, PromptData, PromptRef, RefV};
use crate::store::{
    delete_view, lemma_lookup_index, lemma_lookup_none, lemma_remove_at_index,
    lemma_upsert_absent, lemma_upsert_at_index, limit_val, list_page_ok, list_partials_view,
    list_prompts_view, load_partial_view, load_prompt_view, load_result_ok, lookup_res,
    model_keys_unique, page_end, page_refs, partial_refs_view, refs_view, remove_res, res_key_is,
    start_pos, upsert_res, DeletePromptOrPartialOptions, ListPartialsOptions, ListPromptsOptions,
    LoadPartialOptions, LoadPromptOptions, PaginatedPartials, PaginatedPrompts, PromptStore,
    PromptStoreError, PromptStoreWritable, ResourceV,
};
use crate::text::{
    dec_string, dec_val, format_dec, is_canonical_dec, lemma_dec_string_canonical,
    lemma_dec_val_prefix, parse_dec,
};
use crate::version::{spec_version_of, version_of};

verus! {

/// One stored resource: its key and its raw source.
#[derive(Debug, Clone, PartialEq)]
pub struct ResourceEntry {
    pub name: String,
    pub variant: Option<String>,
    pub source: String,
}

impl View for ResourceEntry {
    type V = ResourceV;

    open spec fn view(&self) -> ResourceV {
        ResourceV { name: self.name@, variant: opt_str_view(self.variant), source: self.source@ }
    }
}

/// The models of a vector of stored entries, in order.
pub open spec fn entries_model(s: Seq<ResourceEntry>) -> Seq<ResourceV> {
    Seq::new(s.len(), |i: int| s[i]@)
}

/// An in-memory store. Listing order is insertion order; a cursor is
/// the canonical decimal form of the next listing position.
pub struct MemoryStore {
    prompts: Vec<ResourceEntry>,
    partials: Vec<ResourceEntry>,
    page_len: usize,
}

fn opt_str_clone(o: &Option<String>) -> (r: Option<String>)
    ensures
        opt_str_view(r) == opt_str_view(*o),
{
    match o {
        None => None,
        Some(s) => Some(s.clone()),
    }
}

fn opt_str_eq(a: &Option<String>, b: &Option<String>) -> (r: bool)
    ensures
        r == (opt_str_view(*a) == opt_str_view(*b)),
{
    match (a, b) {
        (None, None) => true,
        (Some(x), Some(y)) => str_eq(x.as_str(), y.as_str()),
        _ => false,
    }
}

#[verifier::loop_isolation(false)]
fn find_entry(entries: &Vec<ResourceEntry>, name: &str, variant: &Option<String>) -> (r: Option<
    usize,
>)
    ensures
        (match r {
            Some(i) => i < entries@.len() && res_key_is(
                entries@[i as int]@,
                name@,
                opt_str_view(*variant),
            ) && (forall|j: int|
                0 <= j < i ==> !res_key_is((#[trigger] entries@[j])@, name@, opt_str_view(*variant))),
            None => forall|j: int|
                0 <= j < entries@.len() ==> !res_key_is(
                    (#[trigger] entries@[j])@,
                    name@,
                    opt_str_view(*variant),
                ),
        }),
{
    let mut i: usize = 0;
    while i < entries.len()
        invariant
            i <= entries@.len(),
            forall|j: int|
                0 <= j < i ==> !res_key_is((#[trigger] entries@[j])@, name@, opt_str_view(*variant)),
        decreases entries@.len() - i,
    {
        let e = &entries[i];
        if str_eq(e.name.as_str(), name) && opt_str_eq(&e.variant, variant) {
            return Some(i);
        }
        i = i + 1;
    }
    None
}

/// The listing positions that `find_entry` reports, transported to the
/// entries' models.
proof fn lemma_find_model(entries: Seq<ResourceEntry>, name: Seq<char>, variant: Option<Seq<char>>)
    ensures
        entries_model(entries).len() == entries.len(),
        forall|j: int| 0 <= j < entries.len() ==> entries_model(entries)[j] == (#[trigger] entries[j])@,
{
}

#[verifier::loop_isolation(false)]
fn vec_upsert(
    entries: &mut Vec<ResourceEntry>,
    name: &String,
    variant: &Option<String>,
    source: &String,
)
    ensures
        entries_model(final(entries)@) == upsert_res(
            entries_model(old(entries)@),
            name@,
            opt_str_view(*variant),
            source@,
        ),
        model_keys_unique(entries_model(old(entries)@)) ==> model_keys_unique(
            entries_model(final(entries)@),
        ),
{
    let ghost m0 = entries_model(entries@);
    proof {
        lemma_find_model(entries@, name@, opt_str_view(*variant));
    }
    let new_entry = ResourceEntry {
        name: name.clone(),
        variant: opt_str_clone(variant),
        source: source.clone(),
    };
    match find_entry(entries, name.as_str(), variant) {
        Some(i) => {
            proof {
                lemma_upsert_at_index(m0, name@, opt_str_view(*variant), source@, i as int);
            }
            let ghost before = entries@;
            let _old_entry = entries.remove(i);
            entries.insert(i, new_entry);
            proof {
                assert(entries@ =~= before.update(i as int, new_entry));
                assert(entries_model(entries@) =~= m0.update(
                    i as int,
                    ResourceV { name: name@, variant: opt_str_view(*variant), source: source@ },
                ));
                let m2 = entries_model(entries@);
                if model_keys_unique(m0) {
                    assert forall|x: int, y: int| 0 <= x < y < m2.len() implies !((
                    #[trigger] m2[x]).name == (#[trigger] m2[y]).name && m2[x].variant
                        == m2[y].variant) by {
                        assert(m0[x].name == m2[x].name && m0[x].variant == m2[x].variant);
                        assert(m0[y].name == m2[y].name && m0[y].variant == m2[y].variant);
                    }
                }
            }
        },
        None => {
            proof {
                lemma_upsert_absent(m0, name@, opt_str_view(*variant), source@);
            }
            entries.push(new_entry);
            proof {
                assert(entries_model(entries@) =~= m0.push(
                    ResourceV { name: name@, variant: opt_str_view(*variant), source: source@ },
                ));
                let m2 = entries_model(entries@);
                if model_keys_unique(m0) {
                    assert forall|x: int, y: int| 0 <= x < y < m2.len() implies !((
                    #[trigger] m2[x]).name == (#[trigger] m2[y]).name && m2[x].variant
                        == m2[y].variant) by {
                        if y < m2.len() - 1 {
                            assert(m2[x] == m0[x] && m2[y] == m0[y]);
                        } else {
                            assert(m2[x] == m0[x]);
                            assert(!res_key_is(m0[x], name@, opt_str_view(*variant)));
                        }
                    }
                }
            }
        },
    }
}

#[verifier::loop_isolation(false)]
fn vec_delete(entries: &mut Vec<ResourceEntry>, name: &str, variant: &Option<String>) -> (r: bool)
    requires
        model_keys_unique(entries_model(old(entries)@)),
    ensures
        model_keys_unique(entries_model(final(entries)@)),
        r == (lookup_res(entries_model(old(entries)@), name@, opt_str_view(*variant)) is Some),
        r ==> entries_model(final(entries)@) == remove_res(
            entries_model(old(entries)@),
            name@,
            opt_str_view(*variant),
        ),
        !r ==> final(entries)@ == old(entries)@,
{
    let ghost m0 = entries_model(entries@);
    proof {
        lemma_find_model(entries@, name@, opt_str_view(*variant));
    }
    match find_entry(entries, name, variant) {
        Some(i) => {
            proof {
                lemma_lookup_index(m0, name@, opt_str_view(*variant), i as int);
                lemma_remove_at_index(m0, name@, opt_str_view(*variant), i as int);
            }
            let ghost before = entries@;
            let _old_entry = entries.remove(i);
            proof {
                assert(entries_model(entries@) =~= m0.remove(i as int));
                let m2 = entries_model(entries@);
                assert forall|x: int, y: int| 0 <= x < y < m2.len() implies !((
                #[trigger] m2[x]).name == (#[trigger] m2[y]).name && m2[x].variant
                    == m2[y].variant) by {
                    let x0: int = if x < i { x } else { x + 1 };
                    let y0: int = if y < i { y } else { y + 1 };
                    assert(m2[x] == m0[x0] && m2[y] == m0[y0]);
                }
            }
            true
        },
        None => {
            proof {
                lemma_lookup_none(m0, name@, opt_str_view(*variant));
            }
            false
        },
    }
}

impl MemoryStore {
    /// An empty store with the default page length of ten.
    pub fn new() -> (r: Self)
        ensures
            r.inv(),
            r.prompts_model() == Seq::<ResourceV>::empty(),
            r.partials_model() == Seq::<ResourceV>::empty(),
            r.default_page_len() == 10,
    {
        let s = MemoryStore { prompts: Vec::new(), partials: Vec::new(), page_len: 10 };
        proof {
            assert(entries_model(s.prompts@) =~= Seq::<ResourceV>::empty());
            assert(entries_model(s.partials@) =~= Seq::<ResourceV>::empty());
        }
        s
    }
}

impl PromptStore for MemoryStore {
    closed spec fn prompts_model(&self) -> Seq<ResourceV> {
        entries_model(self.prompts@)
    }

    closed spec fn partials_model(&self) -> Seq<ResourceV> {
        entries_model(self.partials@)
    }

    closed spec fn inv(&self) -> bool {
        &&& model_keys_unique(entries_model(self.prompts@))
        &&& model_keys_unique(entries_model(self.partials@))
        &&& self.page_len >= 1
    }

    closed spec fn prompt_cursor_pos(&self, c: Seq<char>) -> Option<int> {
        if is_canonical_dec(c) && dec_val(c) <= self.prompts@.len() {
            Some(dec_val(c))
        } else {
            None
        }
    }

    closed spec fn partial_cursor_pos(&self, c: Seq<char>) -> Option<int> {
        if is_canonical_dec(c) && dec_val(c) <= self.partials@.len() {
            Some(dec_val(c))
        } else {
            None
        }
    }

    closed spec fn default_page_len(&self) -> int {
        self.page_len as int
    }

    proof fn lemma_store_inv(&self) {
        assert forall|c: Seq<char>| #[trigger]
            self.prompt_cursor_pos(c) is Some implies 0 <= self.prompt_cursor_pos(
            c,
        ).unwrap() <= self.prompts_model().len() by {
            lemma_dec_val_prefix(c, 0);
        }
        assert forall|c: Seq<char>| #[trigger]
            self.partial_cursor_pos(c) is Some implies 0 <= self.partial_cursor_pos(
            c,
        ).unwrap() <= self.partials_model().len() by {
            lemma_dec_val_prefix(c, 0);
        }
    }

    #[verifier::loop_isolation(false)]
    fn list(&self, options: Option<ListPromptsOptions>) -> (r: Result<
        PaginatedPrompts,
        PromptStoreError,
    >)
        ensures
            r is Ok <==> start_pos(
                list_prompts_view(options).cursor,
                (|c: Seq<char>| self.prompt_cursor_pos(c)),
            ) is Some,
    {
        let n = self.prompts.len();
        let mut start: usize = 0;
        match &options {
            Some(o) => match &o.cursor {
                Some(c) => match parse_dec(c.as_str()) {
                    Some(v) => {
                        if v <= n as u64 {
                            start = v as usize;
                        } else {
                            return Err(
                                PromptStoreError::Custom { message: "invalid cursor".to_owned() },
                            );
                        }
                    },
                    None => {
                        return Err(
                            PromptStoreError::Custom { message: "invalid cursor".to_owned() },
                        );
                    },
                },
                None => {},
            },
            None => {},
        }
        let k: usize = match &options {
            Some(o) => match o.limit {
                Some(l) => l,
                None => self.page_len,
            },
            None => self.page_len,
        };
        let end: usize = if n - start > k {
            start + k
        } else {
            n
        };
        let mut items: Vec<PromptRef> = Vec::new();
        let mut i: usize = start;
        while i < end
            invariant
                start <= i <= end,
                items@.len() == i - start,
                forall|j: int|
                    0 <= j < items@.len() ==> (#[trigger] items@[j])@ == (RefV {
                        name: self.prompts@[start + j]@.name,
                        variant: self.prompts@[start + j]@.variant,
                        version: None,
                    }),
            decreases end - i,
        {
            let e = &self.prompts[i];
            let pr = PromptRef {
                name: e.name.clone(),
                variant: opt_str_clone(&e.variant),
                version: None,
            };
            items.push(pr);
            i = i + 1;
        }
        let cursor: Option<String> = if end < n {
            proof {
                lemma_dec_string_canonical(end as int);
            }
            Some(format_dec(end as u64))
        } else {
            None
        };
        proof {
            assert(refs_view(items@) =~= page_refs(
                entries_model(self.prompts@),
                start as int,
                end as int,
            ));
        }
        Ok(PaginatedPrompts { prompts: items, cursor })
    }

    #[verifier::loop_isolation(false)]
    fn list_partials(&self, options: Option<ListPartialsOptions>) -> (r: Result<
        PaginatedPartials,
        PromptStoreError,
    >)
        ensures
            r is Ok <==> start_pos(
                list_partials_view(options).cursor,
                (|c: Seq<char>| self.partial_cursor_pos(c)),
            ) is Some,
    {
        let n = self.partials.len();
        let mut start: usize = 0;
        match &options {
            Some(o) => match &o.cursor {
                Some(c) => match parse_dec(c.as_str()) {
                    Some(v) => {
                        if v <= n as u64 {
                            start = v as usize;
                        } else {
                            return Err(
                                PromptStoreError::Custom { message: "invalid cursor".to_owned() },
                            );
                        }
                    },
                    None => {
                        return Err(
                            PromptStoreError::Custom { message: "invalid cursor".to_owned() },
                        );
                    },
                },
                None => {},
            },
            None => {},
        }
        let k: usize = match &options {
            Some(o) => match o.limit {
                Some(l) => l,
                None => self.page_len,
            },
            None => self.page_len,
        };
        let end: usize = if n - start > k {
            start + k
        } else {
            n
        };
        let mut items: Vec<PartialRef> = Vec::new();
        let mut i: usize = start;
        while i < end
            invariant
                start <= i <= end,
                items@.len() == i - start,
                forall|j: int|
                    0 <= j < items@.len() ==> (#[trigger] items@[j])@ == (RefV {
                        name: self.partials@[start + j]@.name,
                        variant: self.partials@[start + j]@.variant,
                        version: None,
                    }),
            decreases end - i,
        {
            let e = &self.partials[i];
            let pr = PartialRef {
                name: e.name.clone(),
                variant: opt_str_clone(&e.variant),
                version: None,
            };
            items.push(pr);
            i = i + 1;
        }
        let cursor: Option<String> = if end < n {
            proof {
                lemma_dec_string_canonical(end as int);
            }
            Some(format_dec(end as u64))
        } else {
            None
        };
        proof {
            assert(partial_refs_view(items@) =~= page_refs(
                entries_model(self.partials@),
                start as int,
                end as int,
            ));
        }
        Ok(PaginatedPartials { partials: items, cursor })
    }

    fn load(&self, name: &str, options: Option<LoadPromptOptions>) -> (r: Result<
        PromptData,
        PromptStoreError,
    >)
        ensures
            (match r {
                Ok(_) => true,
                Err(e) => e matches PromptStoreError::NotFound { .. } || e
                    matches PromptStoreError::VersionMismatch { .. },
            }),
    {
        let ghost m0 = entries_model(self.prompts@);
        proof {
            lemma_find_model(self.prompts@, name@, load_prompt_view(options).variant);
        }
        let variant: Option<String> = match &options {
            Some(o) => opt_str_clone(&o.variant),
            None => None,
        };
        match find_entry(&self.prompts, name, &variant) {
            None => {
                proof {
                    lemma_lookup_none(m0, name@, opt_str_view(variant));
                }
                Err(PromptStoreError::NotFound { name: name.to_owned() })
            },
            Some(i) => {
                proof {
                    lemma_lookup_index(m0, name@, opt_str_view(variant), i as int);
                }
                let e = &self.prompts[i];
                let ver = version_of(e.source.as_str());
                match &options {
                    Some(o) => match &o.version {
                        Some(w) => {
                            if !str_eq(w.as_str(), ver.as_str()) {
                                return Err(
                                    PromptStoreError::VersionMismatch {
                                        expected: w.clone(),
                                        actual: ver,
                                    },
                                );
                            }
                        },
                        None => {},
                    },
                    None => {},
                }
                Ok(
                    PromptData {
                        prompt_ref: PromptRef {
                            name: name.to_owned(),
                            variant: opt_str_clone(&e.variant),
                            version: Some(ver),
                        },
                        source: e.source.clone(),
                    },
                )
            },
        }
    }

    fn load_partial(&self, name: &str, options: Option<LoadPartialOptions>) -> (r: Result<
        PartialData,
        PromptStoreError,
    >)
        ensures
            (match r {
                Ok(_) => true,
                Err(e) => e matches PromptStoreError::NotFound { .. } || e
                    matches PromptStoreError::VersionMismatch { .. },
            }),
    {
        let ghost m0 = entries_model(self.partials@);
        proof {
            lemma_find_model(self.partials@, name@, load_partial_view(options).variant);
        }
        let variant: Option<String> = match &options {
            Some(o) => opt_str_clone(&o.variant),
            None => None,
        };
        match find_entry(&self.partials, name, &variant) {
            None => {
                proof {
                    lemma_lookup_none(m0, name@, opt_str_view(variant));
                }
                Err(PromptStoreError::NotFound { name: name.to_owned() })
            },
            Some(i) => {
                proof {
                    lemma_lookup_index(m0, name@, opt_str_view(variant), i as int);
                }
                let e = &self.partials[i];
                let ver = version_of(e.source.as_str());
                match &options {
                    Some(o) => match &o.version {
                        Some(w) => {
                            if !str_eq(w.as_str(), ver.as_str()) {
                                return Err(
                                    PromptStoreError::VersionMismatch {
                                        expected: w.clone(),
                                        actual: ver,
                                    },
                                );
                            }
                        },
                        None => {},
                    },
                    None => {},
                }
                Ok(
                    PartialData {
                        partial_ref: PartialRef {
                            name: name.to_owned(),
                            variant: opt_str_clone(&e.variant),
                            version: Some(ver),
                        },
                        source: e.source.clone(),
                    },
                )
            },
        }
    }
}

impl PromptStoreWritable for MemoryStore {
    fn save(&mut self, prompt: PromptData) -> (r: Result<(), PromptStoreError>)
        ensures
            r is Ok,
    {
        vec_upsert(
            &mut self.prompts,
            &prompt.prompt_ref.name,
            &prompt.prompt_ref.variant,
            &prompt.source,
        );
        Ok(())
    }

    fn delete(&mut self, name: &str, options: Option<DeletePromptOrPartialOptions>) -> (r: Result<
        (),
        PromptStoreError,
    >)
        ensures
            (match r {
                Ok(_) => true,
                Err(e) => e matches PromptStoreError::NotFound { .. },
            }),
    {
        let variant: Option<String> = match &options {
            Some(o) => opt_str_clone(&o.variant),
            None => None,
        };
        if vec_delete(&mut self.prompts, name, &variant) {
            Ok(())
        } else {
            Err(PromptStoreError::NotFound { name: name.to_owned() })
        }
    }

    fn save_partial(&mut self, partial: PartialData) -> (r: Result<(), PromptStoreError>)
        ensures
            r is Ok,
    {
        vec_upsert(
            &mut self.partials,
            &partial.partial_ref.name,
            &partial.partial_ref.variant,
            &partial.source,
        );
        Ok(())
    }

    fn delete_partial(
        &mut self,
        name: &str,
        options: Option<DeletePromptOrPartialOptions>,
    ) -> (r: Result<(), PromptStoreError>)
        ensures
            (match r {
                Ok(_) => true,
                Err(e) => e matches PromptStoreError::NotFound { .. },
            }),
    {
        let variant: Option<String> = match &options {
            Some(o) => opt_str_clone(&o.variant),
            None => None,
        };
        if vec_delete(&mut self.partials, name, &variant) {
            Ok(())
        } else {
            Err(PromptStoreError::NotFound { name: name.to_owned() })
        }
    }
}

} // verus!
