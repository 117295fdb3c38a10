//! The store contract against the in-memory reference store: loading
//! with version verification, pagination sweeps, variant-targeted
//! deletion, and read-after-write.

use dotprompt::memory::MemoryStore;
use dotprompt::refs::{PartialData, PartialRef, PromptData, PromptRef};
use dotprompt::store::{
    DeletePromptOrPartialOptions, ListPromptsOptions, LoadPromptOptions, PromptStore,
    PromptStoreError, PromptStoreWritable,
};
use dotprompt::version::version_of;

fn prompt(name: &str, variant: Option<&str>, source: &str) -> PromptData {
    PromptData {
        prompt_ref: PromptRef {
            name: name.to_string(),
            variant: variant.map(|v| v.to_string()),
            version: None,
        },
        source: source.to_string(),
    }
}

#[test]
fn load_verifies_versions() {
    let mut store = MemoryStore::new();
    store.save(prompt("greet", None, "Hello {{name}}")).unwrap();

    let good = store.load(
        "greet",
        Some(LoadPromptOptions {
            variant: None,
            version: Some(version_of("Hello {{name}}")),
        }),
    );
    let loaded = good.unwrap();
    assert_eq!(loaded.source, "Hello {{name}}");

    let bad = store.load(
        "greet",
        Some(LoadPromptOptions {
            variant: None,
            version: Some("0000".to_string()),
        }),
    );
    match bad {
        Err(PromptStoreError::VersionMismatch { expected, actual }) => {
            assert_eq!(expected, "0000");
            assert_eq!(actual, version_of("Hello {{name}}"));
        }
        _ => panic!("a stale version must be reported as a mismatch"),
    }
}

#[test]
fn load_reports_missing_resources() {
    let store = MemoryStore::new();
    match store.load("nope", None) {
        Err(PromptStoreError::NotFound { name }) => assert_eq!(name, "nope"),
        _ => panic!("a missing resource must be reported as not found"),
    }
}

#[test]
fn pagination_sweep_is_exact() {
    let mut store = MemoryStore::new();
    let names = ["a", "b", "c", "d", "e"];
    for n in names.iter() {
        store.save(prompt(n, None, "s")).unwrap();
    }

    let mut seen: Vec<String> = Vec::new();
    let mut cursor: Option<String> = None;
    let mut pages = 0;
    loop {
        let page = store
            .list(Some(ListPromptsOptions {
                cursor: cursor.clone(),
                limit: Some(2),
            }))
            .unwrap();
        pages += 1;
        for r in page.prompts.iter() {
            seen.push(r.name.clone());
        }
        match page.cursor {
            Some(c) => cursor = Some(c),
            None => break,
        }
    }
    assert_eq!(pages, 3);
    assert_eq!(seen, vec!["a", "b", "c", "d", "e"]);
    for i in 0..seen.len() {
        for j in 0..seen.len() {
            if i != j {
                assert_ne!(seen[i], seen[j]);
            }
        }
    }
}

#[test]
fn list_uses_default_page_length() {
    let mut store = MemoryStore::new();
    for n in ["a", "b", "c"].iter() {
        store.save(prompt(n, None, "s")).unwrap();
    }
    let page = store.list(None).unwrap();
    assert_eq!(page.prompts.len(), 3);
    assert!(page.cursor.is_none());
}

#[test]
fn list_rejects_foreign_cursors() {
    let store = MemoryStore::new();
    let r = store.list(Some(ListPromptsOptions {
        cursor: Some("not-a-cursor".to_string()),
        limit: None,
    }));
    assert!(matches!(r, Err(PromptStoreError::Custom { .. })));
}

#[test]
fn delete_targets_one_variant_only() {
    let mut store = MemoryStore::new();
    store.save(prompt("greet", None, "default body")).unwrap();
    store.save(prompt("greet", Some("v2"), "variant body")).unwrap();

    // Deleting the sibling variant leaves the default one loadable.
    store
        .delete(
            "greet",
            Some(DeletePromptOrPartialOptions {
                variant: Some("v2".to_string()),
            }),
        )
        .unwrap();
    let still_there = store.load("greet", None).unwrap();
    assert_eq!(still_there.source, "default body");
    assert!(matches!(
        store.load(
            "greet",
            Some(LoadPromptOptions {
                variant: Some("v2".to_string()),
                version: None
            })
        ),
        Err(PromptStoreError::NotFound { .. })
    ));

    // Deleting without a variant removes only the default resource.
    store.save(prompt("greet", Some("v2"), "variant body")).unwrap();
    store.delete("greet", None).unwrap();
    assert!(matches!(
        store.load("greet", None),
        Err(PromptStoreError::NotFound { .. })
    ));
    let sibling = store
        .load(
            "greet",
            Some(LoadPromptOptions {
                variant: Some("v2".to_string()),
                version: None,
            }),
        )
        .unwrap();
    assert_eq!(sibling.source, "variant body");
}

#[test]
fn delete_reports_missing_resources() {
    let mut store = MemoryStore::new();
    assert!(matches!(
        store.delete("ghost", None),
        Err(PromptStoreError::NotFound { .. })
    ));
}

#[test]
fn save_then_load_end_to_end() {
    let mut store = MemoryStore::new();
    store
        .save(PromptData {
            prompt_ref: PromptRef {
                name: "greet".to_string(),
                variant: None,
                version: None,
            },
            source: "Hello {{name}}".to_string(),
        })
        .unwrap();

    let loaded = store.load("greet", None).unwrap();
    assert_eq!(loaded.source, "Hello {{name}}");
    assert_eq!(
        loaded.prompt_ref.version,
        Some(version_of("Hello {{name}}"))
    );

    let text_wire = dotprompt::json::JsonValue::Obj(vec![(
        "text".to_string(),
        dotprompt::json::JsonValue::Str("hi".to_string()),
    )]);
    let decoded = dotprompt::codec::decode_part(&text_wire).unwrap();
    assert_eq!(
        decoded,
        dotprompt::part::Part::Text(dotprompt::part::TextPart {
            text: "hi".to_string(),
            metadata: None,
        })
    );

    let pending_wire = dotprompt::json::JsonValue::Obj(vec![(
        "metadata".to_string(),
        dotprompt::json::JsonValue::Obj(vec![
            ("pending".to_string(), dotprompt::json::JsonValue::Bool(true)),
            (
                "note".to_string(),
                dotprompt::json::JsonValue::Str("x".to_string()),
            ),
        ]),
    )]);
    let pending = dotprompt::codec::decode_part(&pending_wire).unwrap();
    assert_eq!(
        pending,
        dotprompt::part::Part::Pending(dotprompt::part::PendingPart {
            metadata: vec![(
                "note".to_string(),
                dotprompt::json::JsonValue::Str("x".to_string())
            )],
        })
    );
}

#[test]
fn save_overwrites_in_place() {
    let mut store = MemoryStore::new();
    store.save(prompt("a", None, "one")).unwrap();
    store.save(prompt("b", None, "two")).unwrap();
    store.save(prompt("a", None, "three")).unwrap();

    let page = store.list(None).unwrap();
    let names: Vec<&str> = page.prompts.iter().map(|r| r.name.as_str()).collect();
    assert_eq!(names, vec!["a", "b"]);
    assert_eq!(store.load("a", None).unwrap().source, "three");
}

#[test]
fn partials_mirror_prompts() {
    let mut store = MemoryStore::new();
    store
        .save_partial(PartialData {
            partial_ref: PartialRef {
                name: "header".to_string(),
                variant: None,
                version: None,
            },
            source: "== {{title}} ==".to_string(),
        })
        .unwrap();

    let loaded = store.load_partial("header", None).unwrap();
    assert_eq!(loaded.source, "== {{title}} ==");
    assert_eq!(
        loaded.partial_ref.version,
        Some(version_of("== {{title}} =="))
    );

    let page = store.list_partials(None).unwrap();
    assert_eq!(page.partials.len(), 1);
    assert_eq!(page.partials[0].name, "header");

    // Prompts are a separate namespace.
    assert!(matches!(
        store.load("header", None),
        Err(PromptStoreError::NotFound { .. })
    ));

    store.delete_partial("header", None).unwrap();
    assert!(matches!(
        store.load_partial("header", None),
        Err(PromptStoreError::NotFound { .. })
    ));
}

#[test]
fn builders_compose_references() {
    let r = PromptRef::new("greet").with_variant("v2").with_version("abc");
    assert_eq!(r.name, "greet");
    assert_eq!(r.variant, Some("v2".to_string()));
    assert_eq!(r.version, Some("abc".to_string()));

    let p = PartialRef::new("header");
    assert_eq!(p.name, "header");
    assert!(p.variant.is_none() && p.version.is_none());
}
