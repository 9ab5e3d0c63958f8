use uni_db::open::{reap_step, ReapAction, RemoveOutcome};
use uni_db::errors::UniError;
use uni_db::open::{
    authentication_outcome, check_embedding_aliases, AliasDemand, CatalogModel, cloud_config_to_lancedb_storage_options,
    path_check, scheme, schema_location, snapshot_gate, start_version, storage_layout,
    CloudStorageConfig, CredentialKind, Probe, SchemaLocation, StorageLayout, UniBuilder,
};

fn pairs(v: &[(&str, &str)]) -> Vec<(String, String)> {
    v.iter().map(|(a, b)| (a.to_string(), b.to_string())).collect()
}

#[test]
fn storage_layouts() {
    match storage_layout("/data/db", &None) {
        Ok(StorageLayout::Local { path, storage_uri }) => {
            assert_eq!(path, "/data/db");
            assert_eq!(storage_uri, "/data/db/storage");
        }
        _ => panic!(),
    }
    match storage_layout("/data/db/", &None) {
        Ok(StorageLayout::Local { storage_uri, .. }) => assert_eq!(storage_uri, "/data/db/storage"),
        _ => panic!(),
    }
    match storage_layout("s3://bucket/db", &None) {
        Ok(StorageLayout::Remote { storage_uri }) => assert_eq!(storage_uri, "s3://bucket/db"),
        _ => panic!(),
    }
    match storage_layout("/local", &Some("s3://b/x".to_string())) {
        Ok(StorageLayout::Hybrid { path, storage_uri }) => {
            assert_eq!(path, "/local");
            assert_eq!(storage_uri, "s3://b/x");
        }
        _ => panic!(),
    }
    match storage_layout("gs://a", &Some("s3://b".to_string())) {
        Err(UniError::Internal { message }) => {
            assert_eq!(message, "Hybrid mode requires a local path as primary URI, found: gs://a")
        }
        _ => panic!(),
    }
}

#[test]
fn builder_options_drive_path_checks() {
    let b = UniBuilder::create("/tmp/x".to_string());
    assert_eq!(
        b.check_path(true),
        Err(UniError::Internal { message: "Database already exists at /tmp/x".to_string() })
    );
    assert_eq!(b.check_path(false), Ok(true));
    let b = UniBuilder::open_existing("/tmp/y".to_string());
    assert_eq!(b.check_path(false), Err(UniError::NotFound { path: "/tmp/y".to_string() }));
    assert_eq!(b.check_path(true), Ok(false));
    let b = UniBuilder::open("/tmp/z".to_string()).read_only().skip_invalid_locy_rules(true);
    assert_eq!(b.check_path(false), Ok(true));
    assert!(b.cloud_config().is_none());
    let b = UniBuilder::new("/tmp/w".to_string())
        .schema_file("schema.json".to_string())
        .remote_storage(
            "s3://bucket/data",
            CloudStorageConfig::Gcs { bucket: "b".to_string(), service_account_path: None, service_account_key: None },
        );
    assert!(matches!(
        b.cloud_config(),
        Some(CloudStorageConfig::Gcs { bucket, service_account_path: None, service_account_key: None }) if bucket == "b"
    ));
    assert!(matches!(b.layout(), Ok(StorageLayout::Hybrid { .. })));
    assert_eq!(path_check(true, false, true, "p"), Ok(false));
}

#[test]
fn schema_location_migration() {
    assert!(matches!(schema_location(Probe::Found, Probe::Found), Ok(SchemaLocation::UseCanonical)));
    assert!(matches!(schema_location(Probe::NotFound, Probe::Found), Ok(SchemaLocation::MigrateLegacy)));
    assert!(matches!(schema_location(Probe::NotFound, Probe::NotFound), Ok(SchemaLocation::UseCanonical)));
    match schema_location(Probe::NotFound, Probe::Failed("io".to_string())) {
        Err(UniError::Internal { message }) => assert_eq!(message, "io"),
        _ => panic!(),
    }
    match schema_location(Probe::Failed("denied".to_string()), Probe::Found) {
        Err(UniError::Internal { message }) => assert_eq!(message, "denied"),
        _ => panic!(),
    }
}

#[test]
fn writer_start_versions() {
    assert_eq!(start_version(Some((4, 9)), true, Some((1, 1)), true), Ok((5, 9)));
    assert_eq!(start_version(None, true, Some((2, 3)), true), Ok((3, 3)));
    assert_eq!(start_version(None, false, None, false), Ok((0, 0)));
    match start_version(None, true, None, false) {
        Err(UniError::Internal { message }) => assert!(message.starts_with("Snapshot manifests directory exists")),
        _ => panic!(),
    }
    match start_version(None, false, None, true) {
        Err(UniError::Internal { message }) => assert!(message.starts_with("Database has WAL segments but no snapshot manifest.")),
        _ => panic!(),
    }
}

fn demand(alias: &str, columns: &[(&str, &str)], heads_text: &str) -> AliasDemand {
    AliasDemand { alias: alias.to_string(), columns: pairs(columns), heads_text: heads_text.to_string() }
}

fn model(alias: &str, task: &str, heads: &[&str], heads_text: &str) -> CatalogModel {
    CatalogModel {
        alias: alias.to_string(),
        task_text: task.to_string(),
        heads: heads.iter().map(|h| h.to_string()).collect(),
        heads_text: heads_text.to_string(),
    }
}

#[test]
fn embedding_alias_requirements() {
    let req = vec![demand("embed/a", &[("e", "dense")], "{Dense}"), demand("embed/b", &[("s", "sparse")], "{Sparse}")];
    assert_eq!(
        check_embedding_aliases(&req, None, None),
        Err(UniError::Internal {
            message: "Uni-Xervo catalog is required because schema has vector indexes with embedding aliases".to_string()
        })
    );
    assert!(check_embedding_aliases(&vec![], None, None).is_ok());
    // A prebuilt runtime is checked for the aliases it holds.
    let held = vec!["embed/a".to_string()];
    assert_eq!(
        check_embedding_aliases(&req, None, Some(&held)),
        Err(UniError::Internal {
            message: "Missing Uni-Xervo alias 'embed/b' referenced by vector index embedding config".to_string()
        })
    );
    let held = vec!["embed/b".to_string(), "embed/a".to_string()];
    assert!(check_embedding_aliases(&req, None, Some(&held)).is_ok());
    // A catalog must hold each alias ...
    let cat = vec![model("embed/a", "Embed", &["dense"], "{Dense}")];
    assert_eq!(
        check_embedding_aliases(&req, Some(&cat), None),
        Err(UniError::Internal {
            message: "Missing Uni-Xervo alias 'embed/b' referenced by vector index embedding config".to_string()
        })
    );
    // ... with a task that produces the heads its columns need.
    let cat = vec![model("embed/b", "Embed", &["dense"], "{Dense}"), model("embed/a", "Embed", &["dense"], "{Dense}")];
    assert_eq!(
        check_embedding_aliases(&req, Some(&cat), None),
        Err(UniError::Internal {
            message: "Uni-Xervo alias 'embed/b' (task Embed) cannot produce the embedding head(s) required by column(s) [\"s\"]: alias supports {Dense}, columns require {Sparse}".to_string()
        })
    );
    let cat = vec![
        model("embed/b", "Hybrid", &["dense", "sparse"], "{Dense, Sparse}"),
        model("embed/a", "Embed", &["dense"], "{Dense}"),
    ];
    assert!(check_embedding_aliases(&req, Some(&cat), None).is_ok());
}

#[test]
fn snapshots_and_authentication() {
    assert_eq!(
        snapshot_gate("", true),
        Err(UniError::Internal { message: "Snapshot name cannot be empty".to_string() })
    );
    assert_eq!(snapshot_gate("s", false), Err(UniError::ReadOnly { operation: "create_snapshot".to_string() }));
    assert!(snapshot_gate("s", true).is_ok());
    assert_eq!(scheme(CredentialKind::Basic), "basic");
    assert_eq!(scheme(CredentialKind::Bearer), "bearer");
    assert_eq!(scheme(CredentialKind::MtlsCert), "mtls");
    assert_eq!(
        authentication_outcome::<u32>("basic", vec![]),
        Err(UniError::AuthenticationFailed { reason: "no AuthProvider registered for scheme `basic`".to_string() })
    );
    assert_eq!(
        authentication_outcome("basic", vec![Err("bad pw".to_string()), Ok(7u32), Ok(8u32)]),
        Ok(7)
    );
    assert_eq!(
        authentication_outcome::<u32>("basic", vec![Err("a".to_string()), Err("b".to_string())]),
        Err(UniError::AuthenticationFailed { reason: "b".to_string() })
    );
}

#[test]
fn cloud_storage_options() {
    let s3 = CloudStorageConfig::S3 {
        bucket: "bk".to_string(),
        region: Some("eu".to_string()),
        endpoint: Some("http://localhost:9000".to_string()),
        access_key_id: Some("ak".to_string()),
        secret_access_key: None,
        session_token: None,
        virtual_hosted_style: false,
    };
    assert_eq!(
        cloud_config_to_lancedb_storage_options(&s3),
        pairs(&[
            ("bucket", "bk"),
            ("virtual_hosted_style_request", "false"),
            ("region", "eu"),
            ("endpoint", "http://localhost:9000"),
            ("allow_http", "true"),
            ("access_key_id", "ak"),
        ])
    );
    let gcs = CloudStorageConfig::Gcs {
        bucket: "g".to_string(),
        service_account_path: Some("/k.json".to_string()),
        service_account_key: None,
    };
    assert_eq!(
        cloud_config_to_lancedb_storage_options(&gcs),
        pairs(&[("bucket", "g"), ("service_account", "/k.json"), ("application_credentials", "/k.json")])
    );
    let az = CloudStorageConfig::Azure {
        container: "c".to_string(),
        account: "acct".to_string(),
        access_key: None,
        sas_token: Some("tok".to_string()),
    };
    assert_eq!(
        cloud_config_to_lancedb_storage_options(&az),
        pairs(&[("account_name", "acct"), ("container_name", "c"), ("sas_token", "tok")])
    );
}

#[test]
fn temporary_directory_reaping_steps() {
    use_reap_steps();
}

fn use_reap_steps() {
    assert_eq!(reap_step(0, RemoveOutcome::Removed), ReapAction::Done);
    assert_eq!(reap_step(3, RemoveOutcome::NotFound), ReapAction::Done);
    assert_eq!(reap_step(0, RemoveOutcome::Failed), ReapAction::RetryAfterMillis(20));
    assert_eq!(reap_step(3, RemoveOutcome::Failed), ReapAction::RetryAfterMillis(80));
    assert_eq!(reap_step(4, RemoveOutcome::Failed), ReapAction::GiveUp);
}

#[test]
fn object_store_urls_must_parse() {
    let ok = StorageLayout::Remote { storage_uri: "s3://bucket/db".to_string() };
    assert!(uni_db::open::check_store_url(&ok, false).is_ok());
    let bad = StorageLayout::Remote { storage_uri: "://nohost".to_string() };
    let expected = url::Url::parse("://nohost").unwrap_err().to_string();
    assert_eq!(uni_db::open::check_store_url(&bad, false), Err(UniError::Io { message: expected }));
    assert!(uni_db::open::check_store_url(&bad, true).is_ok());
    let hybrid = StorageLayout::Hybrid { path: "/d".to_string(), storage_uri: "gs:// bad".to_string() };
    assert_eq!(
        uni_db::open::check_store_url(&hybrid, false).is_err(),
        url::Url::parse("gs:// bad").is_err()
    );
    let local = StorageLayout::Local { path: "/d".to_string(), storage_uri: "/d/storage".to_string() };
    assert!(uni_db::open::check_store_url(&local, false).is_ok());
}
