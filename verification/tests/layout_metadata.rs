//! Metadata layout trees, portable compaction and JSON rendering.

use storage_layout::json::layout_to_json;
use storage_layout::layout::CellLayout;
use storage_layout::layout::CryptoHasher;
use storage_layout::layout::Discriminant;
use storage_layout::layout::EnumLayout;
use storage_layout::layout::FieldDef;
use storage_layout::layout::FieldLayout;
use storage_layout::layout::HashLayout;
use storage_layout::layout::HashingStrategy;
use storage_layout::layout::Layout;
use storage_layout::layout::LayoutKey;
use storage_layout::layout::StructLayout;
use storage_layout::layout::enum_layout_at;
use storage_layout::layout::struct_layout_at;
use storage_layout::registry::Registry;
use storage_layout::registry::TypeDescriptor;

fn cell(key: u32, ty: &str) -> Layout<TypeDescriptor> {
    Layout::Cell(CellLayout::new(LayoutKey::new(key), TypeDescriptor::new(ty.as_bytes().to_vec())))
}

fn compact_to_json(layout: &Layout<TypeDescriptor>) -> serde_json::Value {
    let mut registry = Registry::new();
    let compacted = layout.into_portable(&mut registry);
    serde_json::from_str(&layout_to_json(&compacted)).unwrap()
}

#[test]
fn layout_key_works() {
    let layout_key = LayoutKey::new(1);
    let json = layout_key.to_json();
    assert_eq!(json, "\"0x00000001\"",);
}

fn named_fields_struct_layout(key: u32) -> Layout<TypeDescriptor> {
    Layout::Struct(StructLayout::new(vec![
        FieldLayout::new(Some(b"a".to_vec()), cell(key, "i32")),
        FieldLayout::new(Some(b"b".to_vec()), cell(key, "i64")),
    ]))
}

#[test]
fn named_fields_work() {
    let layout = named_fields_struct_layout(345);
    let json = compact_to_json(&layout);
    let expected: serde_json::Value = serde_json::from_str(
        r#"
        {
            "struct": {
                "fields": [
                    {
                        "layout": {
                            "cell": {
                                "key": "0x00000159",
                                "ty": 0
                            }
                        },
                        "name": "a"
                    },
                    {
                        "layout": {
                            "cell": {
                                "key": "0x00000159",
                                "ty": 1
                            }
                        },
                        "name": "b"
                    }
                ]
            }
        }
    "#,
    )
    .unwrap();
    assert_eq!(json, expected);
}

fn tuple_struct_layout(key: u32) -> Layout<TypeDescriptor> {
    Layout::Struct(StructLayout::new(vec![
        FieldLayout::new(None, cell(key, "i32")),
        FieldLayout::new(None, cell(key, "i64")),
    ]))
}

#[test]
fn tuple_struct_work() {
    let layout = tuple_struct_layout(234);
    let json = compact_to_json(&layout);
    let expected: serde_json::Value = serde_json::from_str(
        r#"
        {
            "struct": {
                "fields": [
                    {
                        "layout": {
                            "cell": {
                                "key": "0x000000ea",
                                "ty": 0
                            }
                        },
                        "name": null
                    },
                    {
                        "layout": {
                            "cell": {
                                "key": "0x000000ea",
                                "ty": 1
                            }
                        },
                        "name": null
                    }
                ]
            }
        }
    "#,
    )
    .unwrap();
    assert_eq!(json, expected);
}

fn clike_enum_layout(key: u32) -> Layout<TypeDescriptor> {
    Layout::Enum(EnumLayout::new(
        LayoutKey::new(key),
        vec![
            (Discriminant(0), StructLayout::new(vec![])),
            (Discriminant(1), StructLayout::new(vec![])),
            (Discriminant(2), StructLayout::new(vec![])),
        ],
    ))
}

#[test]
fn clike_enum_work() {
    let layout = clike_enum_layout(123);
    let json = compact_to_json(&layout);
    let expected: serde_json::Value = serde_json::from_str(
        r#"
        {
            "enum": {
                "dispatchKey": "0x0000007b",
                "variants": {
                    "0": {
                        "fields": []
                    },
                    "1": {
                        "fields": []
                    },
                    "2": {
                        "fields": []
                    }
                }
            }
        }
    "#,
    )
    .unwrap();
    assert_eq!(json, expected);
}

fn mixed_enum_layout(key: u32) -> Layout<TypeDescriptor> {
    Layout::Enum(EnumLayout::new(
        LayoutKey::new(key),
        vec![
            (Discriminant(0), StructLayout::new(vec![])),
            (
                Discriminant(1),
                StructLayout::new(vec![
                    FieldLayout::new(None, cell(key, "i32")),
                    FieldLayout::new(None, cell(key, "i64")),
                ]),
            ),
            (
                Discriminant(2),
                StructLayout::new(vec![
                    FieldLayout::new(Some(b"a".to_vec()), cell(key, "i32")),
                    FieldLayout::new(Some(b"b".to_vec()), cell(key, "i64")),
                ]),
            ),
        ],
    ))
}

#[test]
fn mixed_enum_work() {
    let layout = mixed_enum_layout(456);
    let json = compact_to_json(&layout);
    let expected: serde_json::Value = serde_json::from_str(
        r#"
        {
            "enum": {
                "dispatchKey": "0x000001c8",
                "variants": {
                    "0": {
                        "fields": []
                    },
                    "1": {
                        "fields": [
                            {
                                "layout": {
                                    "cell": {
                                        "key": "0x000001c8",
                                        "ty": 0
                                    }
                                },
                                "name": null
                            },
                            {
                                "layout": {
                                    "cell": {
                                        "key": "0x000001c8",
                                        "ty": 1
                                    }
                                },
                                "name": null
                            }
                        ]
                    },
                    "2": {
                        "fields": [
                            {
                                "layout": {
                                    "cell": {
                                        "key": "0x000001c8",
                                        "ty": 0
                                    }
                                },
                                "name": "a"
                            },
                            {
                                "layout": {
                                    "cell": {
                                        "key": "0x000001c8",
                                        "ty": 1
                                    }
                                },
                                "name": "b"
                            }
                        ]
                    }
                }
            }
        }
    "#,
    )
    .unwrap();
    assert_eq!(json, expected);
}

fn unbounded_hashing_layout(key: u32) -> Layout<TypeDescriptor> {
    Layout::Hash(HashLayout::new(
        LayoutKey::new(key),
        HashingStrategy::new(
            CryptoHasher::Blake2x256,
            b"ink storage hashmap".to_vec(),
            Vec::new(),
        ),
        cell(key, "(i32, bool)"),
    ))
}

#[test]
fn unbounded_layout_works() {
    let layout = unbounded_hashing_layout(567);
    let json = compact_to_json(&layout);
    let expected: serde_json::Value = serde_json::from_str(
        r#"
        {
            "hash": {
                "layout": {
                    "cell": {
                        "key": "0x00000237",
                        "ty": 0
                    }
                },
                "offset": "0x00000237",
                "strategy": {
                        "hasher": "Blake2x256",
                        "prefix": "0x696e6b2073746f7261676520686173686d6170",
                        "postfix": ""
                }
            }
        }
    "#,
    )
    .unwrap();
    assert_eq!(json, expected);
}

#[test]
fn registry_deduplicates_descriptors() {
    let mut registry = Registry::new();
    let h1 = registry.register(TypeDescriptor::new(b"i32".to_vec()));
    let h2 = registry.register(TypeDescriptor::new(b"i64".to_vec()));
    let h3 = registry.register(TypeDescriptor::new(b"i32".to_vec()));
    assert_eq!(h1, 0);
    assert_eq!(h2, 1);
    assert_eq!(h3, h1);
    assert_ne!(h1, h2);
    assert_eq!(registry.len(), 2);
    assert_eq!(registry.get(0).name, b"i32".to_vec());
    assert_eq!(registry.get(1).name, b"i64".to_vec());
}

#[test]
fn registry_table_renders_as_json() {
    let mut registry = Registry::new();
    assert_eq!(registry.to_json(), "[]");
    registry.register(TypeDescriptor::new(b"i32".to_vec()));
    registry.register(TypeDescriptor::new(b"bool".to_vec()));
    assert_eq!(registry.to_json(), "[\"i32\",\"bool\"]");
}

#[test]
fn shared_registry_reuses_handles_across_layouts() {
    let mut registry = Registry::new();
    let first = named_fields_struct_layout(345).into_portable(&mut registry);
    let second = tuple_struct_layout(234).into_portable(&mut registry);
    assert_eq!(registry.len(), 2);
    let j1: serde_json::Value = serde_json::from_str(&layout_to_json(&first)).unwrap();
    let j2: serde_json::Value = serde_json::from_str(&layout_to_json(&second)).unwrap();
    assert_eq!(j1["struct"]["fields"][0]["layout"]["cell"]["ty"], 0);
    assert_eq!(j2["struct"]["fields"][0]["layout"]["cell"]["ty"], 0);
    assert_eq!(j2["struct"]["fields"][1]["layout"]["cell"]["ty"], 1);
}

#[test]
fn builders_key_every_cell_to_the_root_key() {
    let fields = vec![
        FieldDef { name: Some(b"a".to_vec()), ty: TypeDescriptor::new(b"i32".to_vec()) },
        FieldDef { name: Some(b"b".to_vec()), ty: TypeDescriptor::new(b"i64".to_vec()) },
    ];
    let built = Layout::Struct(struct_layout_at(345, fields.as_slice()));
    let manual = named_fields_struct_layout(345);
    assert_eq!(compact_to_json(&built), compact_to_json(&manual));
}

#[test]
fn built_enum_matches_struct_bodies_at_the_root_key() {
    let variants: Vec<Vec<FieldDef>> = vec![
        vec![],
        vec![
            FieldDef { name: None, ty: TypeDescriptor::new(b"i32".to_vec()) },
            FieldDef { name: None, ty: TypeDescriptor::new(b"i64".to_vec()) },
        ],
        vec![
            FieldDef { name: Some(b"a".to_vec()), ty: TypeDescriptor::new(b"i32".to_vec()) },
            FieldDef { name: Some(b"b".to_vec()), ty: TypeDescriptor::new(b"i64".to_vec()) },
        ],
    ];
    let built = Layout::Enum(enum_layout_at(456, variants.as_slice()));
    assert_eq!(compact_to_json(&built), compact_to_json(&mixed_enum_layout(456)));

    // Each variant body matches the struct layout built from the same
    // root key, compacted against the same registry state.
    let body = Layout::Struct(struct_layout_at(456, variants[2].as_slice()));
    let expected: serde_json::Value = serde_json::from_str(
        r#"
        {
            "struct": {
                "fields": [
                    {"layout": {"cell": {"key": "0x000001c8", "ty": 0}}, "name": "a"},
                    {"layout": {"cell": {"key": "0x000001c8", "ty": 1}}, "name": "b"}
                ]
            }
        }
    "#,
    )
    .unwrap();
    assert_eq!(compact_to_json(&body), expected);
}

#[test]
fn field_names_are_escaped() {
    let layout = Layout::Struct(StructLayout::new(vec![FieldLayout::new(
        Some(b"a\"b\\c\n".to_vec()),
        cell(7, "i32"),
    )]));
    let json = compact_to_json(&layout);
    assert_eq!(json["struct"]["fields"][0]["name"], "a\"b\\c\n");
}
