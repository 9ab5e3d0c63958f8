use uni_db::catalog::SchemaCatalog;
use uni_db::errors::UniError;
use uni_db::schema::{
    constraint_infos_for, data_type_name, describe_index, edge_count_query, edge_type_declared,
    edge_type_info, element_active, index_declared, index_eq, index_infos_for, label_count_query,
    label_declared, label_info, labels_to_rebuild, property_declared, quote_cypher_identifier,
    ConstraintDef, ConstraintKind, ConstraintTarget, DataType, ElementState, EmbeddingCfg, IndexDef,
    IndexType, PropertyMeta, ScalarType, SchemaBuilder, SchemaChange, VectorAlgo, VectorIndexCfg,
    VectorIndexKind, VectorMetric,
};

fn scalar(name: &str, label: &str, props: &[&str]) -> IndexDef {
    IndexDef::Scalar {
        name: name.to_string(),
        label: label.to_string(),
        properties: props.iter().map(|s| s.to_string()).collect(),
        kind: ScalarType::BTree,
    }
}

#[test]
fn quoting_schema_names() {
    assert_eq!(quote_cypher_identifier("Person").unwrap(), "`Person`");
    match quote_cypher_identifier("Per`son") {
        Err(UniError::Query { message, query }) => {
            assert_eq!(
                message,
                "schema element name \"Per`son\" contains a backtick, which Cypher's quoted-identifier syntax cannot escape"
            );
            assert_eq!(query, None);
        }
        other => panic!("unexpected {other:?}"),
    }
    assert_eq!(label_count_query("A B").unwrap(), "MATCH (n:`A B`) RETURN count(n) AS cnt");
    assert_eq!(edge_count_query("KNOWS").unwrap(), "MATCH ()-[r:`KNOWS`]->() RETURN count(r) AS cnt");
    assert!(edge_count_query("a`b").is_err());
}

#[test]
fn data_type_rendering() {
    assert_eq!(data_type_name(&DataType::Int64), "Int64");
    assert_eq!(data_type_name(&DataType::Vector { dimensions: 3 }), "Vector { dimensions: 3 }");
    assert_eq!(
        data_type_name(&DataType::List(Box::new(DataType::String))),
        "List(String)"
    );
    assert_eq!(data_type_name(&DataType::List(Box::new(DataType::String))), format!("{:?}", DataType::List(Box::new(DataType::String))));
}

#[test]
fn element_state_activity() {
    assert!(element_active(Some(ElementState::Active)));
    assert!(!element_active(Some(ElementState::Hidden)));
    assert!(!element_active(Some(ElementState::Tombstone)));
    assert!(!element_active(None));
}

#[test]
fn vector_algorithms_map_to_stored_kinds() {
    assert_eq!(VectorAlgo::Flat.into_internal(), VectorIndexKind::Flat);
    assert_eq!(
        VectorAlgo::IvfPq { partitions: 4, sub_vectors: 2 }.into_internal(),
        VectorIndexKind::IvfPq { num_partitions: 4, num_sub_vectors: 2, bits_per_subvector: 8 }
    );
    assert_eq!(
        VectorAlgo::Hnsw { m: 16, ef_construction: 100, partitions: None }.into_internal(),
        VectorIndexKind::HnswSq { m: 16, ef_construction: 100, num_partitions: None }
    );
}

#[test]
fn label_introspection() {
    let props = vec![
        PropertyMeta { name: "name".to_string(), data_type: DataType::String, nullable: false, description: None },
        PropertyMeta { name: "age".to_string(), data_type: DataType::Int64, nullable: true, description: Some("years".to_string()) },
    ];
    let indexes = vec![
        scalar("idx_Person_name", "Person", &["name"]),
        scalar("idx_Dog_age", "Dog", &["age"]),
        IndexDef::JsonFullText { name: "j".to_string(), label: "Dog".to_string(), column: "doc".to_string() },
        IndexDef::Sparse {
            name: "sp".to_string(), label: "Person".to_string(), property: "v".to_string(),
            dimensions: 10, quantize: true, embedding: None,
        },
    ];
    let constraints = vec![
        ConstraintDef {
            name: "u".to_string(),
            target: ConstraintTarget::Label("Person".to_string()),
            kind: ConstraintKind::Unique { properties: vec!["name".to_string()] },
            enabled: true,
        },
        ConstraintDef {
            name: "e".to_string(),
            target: ConstraintTarget::EdgeType("Person".to_string()),
            kind: ConstraintKind::Exists { property: "x".to_string() },
            enabled: false,
        },
    ];
    let info = label_info("Person", 5, &props, &indexes, &constraints, &None);
    assert_eq!(info.name, "Person");
    assert_eq!(info.count, 5);
    assert_eq!(info.properties.len(), 2);
    assert!(info.properties[0].is_indexed);
    assert!(!info.properties[1].is_indexed);
    assert_eq!(info.properties[1].data_type, "Int64");
    assert_eq!(info.properties[1].description, Some("years".to_string()));
    assert_eq!(info.indexes.len(), 1);
    assert_eq!(info.indexes[0].name, "idx_Person_name");
    assert_eq!(info.indexes[0].index_type, "SCALAR");
    assert_eq!(info.indexes[0].status, "ONLINE");
    assert_eq!(info.constraints.len(), 1);
    assert_eq!(info.constraints[0].constraint_type, "UNIQUE");
    assert_eq!(info.constraints[0].properties, vec!["name".to_string()]);

    let dog = index_infos_for(&indexes, "Dog", false);
    assert_eq!(dog.len(), 2);
    assert_eq!(dog[1].index_type, "JSON_FTS");
    assert_eq!(dog[1].properties, vec!["doc".to_string()]);
    // Edge types list no JSON full-text index.
    assert_eq!(index_infos_for(&indexes, "Dog", true).len(), 1);
    let edge_constraints = constraint_infos_for(&constraints, "Person", true);
    assert_eq!(edge_constraints.len(), 1);
    assert_eq!(edge_constraints[0].constraint_type, "EXISTS");
    assert!(!edge_constraints[0].enabled);
    assert!(describe_index(&indexes[3], false).is_none());
}

#[test]
fn edge_type_introspection() {
    let info = edge_type_info(
        "KNOWS",
        2,
        &vec!["Person".to_string()],
        &vec!["Person".to_string(), "Bot".to_string()],
        &vec![],
        &vec![],
        &vec![],
        &Some("friendship".to_string()),
    );
    assert_eq!(info.name, "KNOWS");
    assert_eq!(info.count, 2);
    assert_eq!(info.target_labels, vec!["Person".to_string(), "Bot".to_string()]);
    assert_eq!(info.description, Some("friendship".to_string()));
    assert!(info.properties.is_empty());
}

#[test]
fn builder_puts_label_first() {
    let changes = SchemaBuilder::new()
        .label("Person")
        .property("name", DataType::String)
        .property_nullable("age", DataType::Int64)
        .index("name", IndexType::Scalar(ScalarType::Hash))
        .index("bio", IndexType::FullText)
        .done()
        .into_changes();
    assert_eq!(changes.len(), 5);
    match &changes[0] {
        SchemaChange::AddLabel { name, description } => {
            assert_eq!(name, "Person");
            assert!(description.is_none());
        }
        _ => panic!("label must come first"),
    }
    match &changes[2] {
        SchemaChange::AddProperty { label_or_type, name, nullable, .. } => {
            assert_eq!(label_or_type, "Person");
            assert_eq!(name, "age");
            assert!(*nullable);
        }
        _ => panic!("expected a property"),
    }
    match &changes[3] {
        SchemaChange::AddIndex(IndexDef::Scalar { name, kind, .. }) => {
            assert_eq!(name, "idx_Person_name");
            assert_eq!(*kind, ScalarType::Hash);
        }
        _ => panic!("expected a scalar index"),
    }
    match &changes[4] {
        SchemaChange::AddIndex(IndexDef::FullText { name, with_positions, .. }) => {
            assert_eq!(name, "fts_Person_bio");
            assert!(*with_positions);
        }
        _ => panic!("expected a full-text index"),
    }
}

#[test]
fn builder_edge_type_and_vector_index() {
    let changes = SchemaBuilder::new()
        .edge_type("KNOWS", &["Person"], &["Person"])
        .description("friends")
        .property("since", DataType::Date)
        .done()
        .label("Doc")
        .vector("emb", 4)
        .index(
            "emb",
            IndexType::Vector(VectorIndexCfg {
                algorithm: VectorAlgo::Flat,
                metric: VectorMetric::Cosine,
                embedding: None,
            }),
        )
        .done()
        .into_changes();
    assert_eq!(changes.len(), 5);
    // Each finished declaration goes to the front, ahead of everything staged.
    match &changes[0] {
        SchemaChange::AddLabel { name, .. } => assert_eq!(name, "Doc"),
        _ => panic!("the last finished declaration comes first"),
    }
    match &changes[1] {
        SchemaChange::AddEdgeType { name, from_labels, to_labels, description } => {
            assert_eq!(name, "KNOWS");
            assert_eq!(from_labels, &vec!["Person".to_string()]);
            assert_eq!(to_labels, &vec!["Person".to_string()]);
            assert_eq!(description.as_deref(), Some("friends"));
        }
        _ => panic!("expected the edge type"),
    }
    match &changes[2] {
        SchemaChange::AddProperty { label_or_type, name, .. } => {
            assert_eq!(label_or_type, "KNOWS");
            assert_eq!(name, "since");
        }
        _ => panic!("expected the edge property"),
    }
    match &changes[4] {
        SchemaChange::AddIndex(IndexDef::Vector { name, kind, metric, .. }) => {
            assert_eq!(name, "idx_Doc_emb");
            assert_eq!(*kind, VectorIndexKind::Flat);
            assert_eq!(*metric, VectorMetric::Cosine);
        }
        _ => panic!("expected a vector index"),
    }
}

#[test]
fn sparse_index_constructors() {
    match IndexType::sparse(100) {
        IndexType::Sparse { dimensions, quantize, embedding } => {
            assert_eq!(dimensions, 100);
            assert!(quantize);
            assert!(embedding.is_none());
        }
        _ => panic!(),
    }
    let cfg = EmbeddingCfg {
        alias: "embed/default".to_string(),
        source_properties: vec!["text".to_string()],
        batch_size: 8,
        document_prefix: None,
        query_prefix: None,
    };
    match IndexType::sparse_with_embedding(7, cfg.clone()) {
        IndexType::Sparse { dimensions, embedding, .. } => {
            assert_eq!(dimensions, 7);
            assert_eq!(embedding, Some(cfg));
        }
        _ => panic!(),
    }
}

#[test]
fn applying_declarations() {
    assert!(label_declared(None).is_ok());
    assert!(label_declared(Some("label 'A' already exists".to_string())).is_ok());
    assert_eq!(
        label_declared(Some("boom".to_string())),
        Err(UniError::Schema { message: "boom".to_string() })
    );
    assert_eq!(
        property_declared(Some("type conflict".to_string())),
        Err(UniError::Schema { message: "type conflict".to_string() })
    );
    assert!(property_declared(None).is_ok());

    let a = scalar("i", "L", &["p"]);
    let b = scalar("i", "L", &["p"]);
    let c = scalar("i", "L", &["q"]);
    assert!(index_eq(&a, &b));
    assert!(!index_eq(&a, &c));
    assert_eq!(index_declared(Some(&a), &b, None), Ok(false));
    assert_eq!(index_declared(Some(&a), &c, None), Ok(true));
    assert_eq!(index_declared(None, &c, None), Ok(true));
    assert_eq!(
        index_declared(None, &c, Some("bad".to_string())),
        Err(UniError::Schema { message: "bad".to_string() })
    );
}

#[test]
fn edge_type_redeclaration() {
    let from = vec!["A".to_string()];
    let to = vec!["B".to_string()];
    assert!(edge_type_declared("R", None, None, &from, &to).is_ok());
    assert!(edge_type_declared(
        "R",
        Some("edge type already exists".to_string()),
        Some((&vec!["A".to_string()], &vec!["B".to_string()])),
        &from,
        &to
    )
    .is_ok());
    assert_eq!(
        edge_type_declared(
            "R",
            Some("edge type already exists".to_string()),
            Some((&vec!["A".to_string()], &vec!["C".to_string()])),
            &from,
            &to
        ),
        Err(UniError::Schema {
            message: "edge type 'R' already exists with different endpoint labels; drop it before re-declaring with from=[\"A\"] to=[\"B\"]".to_string()
        })
    );
    assert_eq!(
        edge_type_declared("R", Some("disk full".to_string()), None, &from, &to),
        Err(UniError::Schema { message: "disk full".to_string() })
    );
}

#[test]
fn rebuild_labels_sorted_once() {
    let labels = vec!["b".to_string(), "a".to_string(), "b".to_string()];
    assert_eq!(labels_to_rebuild(&labels), vec!["a".to_string(), "b".to_string()]);
    assert!(labels_to_rebuild(&vec![]).is_empty());
}

#[test]
fn listing_labels_and_edge_types() {
    use_listings();
}

fn use_listings() {
    let schema_labels = vec![
        ("Person".to_string(), ElementState::Active),
        ("Old".to_string(), ElementState::Tombstone),
        ("Hidden".to_string(), ElementState::Hidden),
    ];
    assert_eq!(uni_db::schema::active_element_names(&schema_labels), vec!["Person".to_string()]);
    let data = vec![
        vec!["Person".to_string(), "Robot".to_string()],
        vec![],
        vec!["Robot".to_string(), "Old".to_string()],
    ];
    let mut listed = uni_db::schema::label_listing(&schema_labels, &data);
    listed.sort();
    assert_eq!(listed, vec!["Old".to_string(), "Person".to_string(), "Robot".to_string()]);
}

fn edge_change(name: &str, from: &str, to: &str) -> SchemaChange {
    SchemaChange::AddEdgeType {
        name: name.to_string(),
        from_labels: vec![from.to_string()],
        to_labels: vec![to.to_string()],
        description: None,
    }
}

fn label_change(name: &str) -> SchemaChange {
    SchemaChange::AddLabel { name: name.to_string(), description: None }
}

#[test]
fn refused_batch_leaves_schema_unchanged() {
    let mut schema = SchemaCatalog::new();
    let first = SchemaBuilder::new().with_changes(vec![edge_change("E", "A", "B")]);
    assert_eq!(first.apply(&mut schema, vec![]), Ok(vec![]));
    assert_eq!(schema.edge_types().len(), 1);

    let batch = SchemaBuilder::new().with_changes(vec![label_change("N"), edge_change("E", "A", "C")]);
    let r = batch.apply(&mut schema, vec![None, Some("edge type 'E' already exists".to_string())]);
    match r {
        Err(UniError::Schema { message }) => {
            assert!(message.contains("already exists with different endpoint labels"));
            assert!(message.ends_with("from=[\"A\"] to=[\"C\"]"));
        }
        other => panic!("unexpected {other:?}"),
    }
    // Nothing of the refused batch stays: N is not recorded, E keeps its endpoints.
    assert!(schema.labels().is_empty());
    assert_eq!(schema.edge_types().len(), 1);
    assert_eq!(schema.edge_types()[0].to_labels, vec!["B".to_string()]);
}

#[test]
fn batch_records_changes_and_rebuilds_new_indexes() {
    let mut schema = SchemaCatalog::new();
    let batch = SchemaBuilder::new().with_changes(vec![
        label_change("P"),
        SchemaChange::AddProperty {
            label_or_type: "P".to_string(),
            name: "name".to_string(),
            data_type: DataType::String,
            nullable: true,
            description: None,
        },
        SchemaChange::AddIndex(scalar("idx_P_name", "P", &["name"])),
        SchemaChange::AddIndex(scalar("idx_B_x", "B", &["x"])),
    ]);
    assert_eq!(batch.apply(&mut schema, vec![]), Ok(vec!["B".to_string(), "P".to_string()]));
    assert_eq!(schema.labels().len(), 1);
    assert_eq!(schema.labels()[0].name, "P");
    assert_eq!(schema.properties().len(), 1);
    assert_eq!(schema.indexes().len(), 2);

    // Re-applying the same definitions: labels already exist, indexes are known.
    let again = SchemaBuilder::new().with_changes(vec![
        label_change("P"),
        SchemaChange::AddIndex(scalar("idx_P_name", "P", &["name"])),
    ]);
    assert_eq!(
        again.apply(&mut schema, vec![Some("label 'P' already exists".to_string())]),
        Ok(vec![])
    );
    assert_eq!(schema.labels().len(), 1);

    // A property conflict refuses the whole batch.
    let conflict = SchemaBuilder::new().with_changes(vec![
        label_change("Q"),
        SchemaChange::AddProperty {
            label_or_type: "P".to_string(),
            name: "name".to_string(),
            data_type: DataType::Int64,
            nullable: true,
            description: None,
        },
    ]);
    assert_eq!(
        conflict.apply(&mut schema, vec![None, Some("type conflict".to_string())]),
        Err(UniError::Schema { message: "type conflict".to_string() })
    );
    assert_eq!(schema.labels().len(), 1);
    assert_eq!(schema.properties().len(), 1);
}

#[test]
fn edge_types_are_matched_ignoring_case() {
    let mut schema = SchemaCatalog::new();
    let first = SchemaBuilder::new().with_changes(vec![edge_change("KNOWS", "A", "B")]);
    assert_eq!(first.apply(&mut schema, vec![]), Ok(vec![]));
    let same = SchemaBuilder::new().with_changes(vec![edge_change("knows", "A", "B")]);
    assert_eq!(same.apply(&mut schema, vec![Some("edge type 'knows' already exists".to_string())]), Ok(vec![]));
    let other = SchemaBuilder::new().with_changes(vec![edge_change("knows", "A", "C")]);
    assert!(matches!(
        other.apply(&mut schema, vec![Some("edge type 'knows' already exists".to_string())]),
        Err(UniError::Schema { .. })
    ));
    assert_eq!(schema.edge_types().len(), 1);
}
