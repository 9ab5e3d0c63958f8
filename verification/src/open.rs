//! Opening a database: the builder's options, the storage layout they
//! select, the checks on the database path, the schema-location migration,
//! the version a writer starts at, the embedding-model requirement, the
//! cloud storage options handed to the table store, and authentication.
use vstd::prelude::*;
use crate::errors::UniError;
use crate::schema::{list_debug, push_list_debug};
use crate::text::{
    chars_of, contains, ends_with, owned, push_str, starts_with, string_from, text_contains,
    text_starts_with, texts,
};

verus! {

/// Cloud object-store configuration.
pub enum CloudStorageConfig {
    S3 {
        bucket: String,
        region: Option<String>,
        endpoint: Option<String>,
        access_key_id: Option<String>,
        secret_access_key: Option<String>,
        session_token: Option<String>,
        virtual_hosted_style: bool,
    },
    Gcs { bucket: String, service_account_path: Option<String>, service_account_key: Option<String> },
    Azure { container: String, account: String, access_key: Option<String>, sas_token: Option<String> },
}

/// Options for opening a database.
pub struct UniBuilder {
    uri: String,
    schema_file: Option<String>,
    hybrid_remote_url: Option<String>,
    cloud_config: Option<CloudStorageConfig>,
    create_if_missing: bool,
    fail_if_exists: bool,
    read_only: bool,
    skip_invalid_locy_rules: bool,
}

/// The options a builder holds.
pub ghost struct OpenOptions {
    pub uri: Seq<char>,
    pub hybrid_remote_url: Option<Seq<char>>,
    pub cloud_config: Option<CloudStorageConfig>,
    pub create_if_missing: bool,
    pub fail_if_exists: bool,
    pub read_only: bool,
    pub skip_invalid_locy_rules: bool,
    pub schema_file: Option<Seq<char>>,
}

/// The text of an optional string.
pub open spec fn opt_chars(o: Option<String>) -> Option<Seq<char>> {
    match o {
        Some(s) => Some(s@),
        None => None,
    }
}

impl UniBuilder {
    pub closed spec fn options(&self) -> OpenOptions {
        OpenOptions {
            uri: self.uri@,
            hybrid_remote_url: opt_chars(self.hybrid_remote_url),
            cloud_config: self.cloud_config,
            create_if_missing: self.create_if_missing,
            fail_if_exists: self.fail_if_exists,
            read_only: self.read_only,
            skip_invalid_locy_rules: self.skip_invalid_locy_rules,
            schema_file: opt_chars(self.schema_file),
        }
    }

    /// Opens or creates the database at `uri`.
    pub fn new(uri: String) -> (r: Self)
        ensures
            r.options() == (OpenOptions {
                uri: uri@,
                hybrid_remote_url: None,
                cloud_config: None,
                create_if_missing: true,
                fail_if_exists: false,
                read_only: false,
                skip_invalid_locy_rules: false,
                schema_file: None,
            }),
    {
        UniBuilder {
            uri,
            schema_file: None,
            hybrid_remote_url: None,
            cloud_config: None,
            create_if_missing: true,
            fail_if_exists: false,
            read_only: false,
            skip_invalid_locy_rules: false,
        }
    }

    /// Opens or creates the database at `uri`.
    pub fn open(uri: String) -> (r: Self)
        ensures
            r.options() == (OpenOptions {
                uri: uri@,
                hybrid_remote_url: None,
                cloud_config: None,
                create_if_missing: true,
                fail_if_exists: false,
                read_only: false,
                skip_invalid_locy_rules: false,
                schema_file: None,
            }),
    {
        UniBuilder::new(uri)
    }

    /// Opens the existing database at `uri`; a missing one is an error.
    pub fn open_existing(uri: String) -> (r: Self)
        ensures
            r.options() == (OpenOptions {
                uri: uri@,
                hybrid_remote_url: None,
                cloud_config: None,
                create_if_missing: false,
                fail_if_exists: false,
                read_only: false,
                skip_invalid_locy_rules: false,
                schema_file: None,
            }),
    {
        let mut b = UniBuilder::new(uri);
        b.create_if_missing = false;
        b
    }

    /// Creates a new database at `uri`; an existing one is an error.
    pub fn create(uri: String) -> (r: Self)
        ensures
            r.options() == (OpenOptions {
                uri: uri@,
                hybrid_remote_url: None,
                cloud_config: None,
                create_if_missing: true,
                fail_if_exists: true,
                read_only: false,
                skip_invalid_locy_rules: false,
                schema_file: None,
            }),
    {
        let mut b = UniBuilder::new(uri);
        b.fail_if_exists = true;
        b
    }

    /// Skips persisted rules that no longer compile instead of failing.
    pub fn skip_invalid_locy_rules(self, skip: bool) -> (r: Self)
        ensures
            r.options() == (OpenOptions { skip_invalid_locy_rules: skip, ..self.options() }),
    {
        let mut b = self;
        b.skip_invalid_locy_rules = skip;
        b
    }

    /// Loads the schema from a JSON file on opening.
    pub fn schema_file(self, path: String) -> (r: Self)
        ensures
            r.options() == (OpenOptions { schema_file: Some(path@), ..self.options() }),
    {
        let mut b = self;
        b.schema_file = Some(path);
        b
    }

    /// Keeps data in remote storage at `remote_url`, with the local path for
    /// the write-ahead log and ids.
    pub fn remote_storage(self, remote_url: &str, config: CloudStorageConfig) -> (r: Self)
        ensures
            r.options() == (OpenOptions {
                hybrid_remote_url: Some(remote_url@),
                cloud_config: Some(config),
                ..self.options()
            }),
    {
        let mut b = self;
        b.hybrid_remote_url = Some(owned(remote_url));
        b.cloud_config = Some(config);
        b
    }

    /// Opens without a writer: every write is refused.
    pub fn read_only(self) -> (r: Self)
        ensures
            r.options() == (OpenOptions { read_only: true, ..self.options() }),
    {
        let mut b = self;
        b.read_only = true;
        b
    }

    /// The storage layout the options select.
    pub fn layout(&self) -> (r: Result<StorageLayout, UniError>)
        ensures
            layout_outcome(self.options().uri, self.options().hybrid_remote_url, r),
    {
        storage_layout(self.uri.as_str(), &self.hybrid_remote_url)
    }

    /// What the options say about an existing or missing database path.
    pub fn check_path(&self, exists: bool) -> (r: Result<bool, UniError>)
        ensures
            path_outcome(exists, self.options().fail_if_exists, self.options().create_if_missing, self.options().uri, r),
    {
        path_check(exists, self.fail_if_exists, self.create_if_missing, self.uri.as_str())
    }

    /// The cloud configuration, if any.
    pub fn cloud_config(&self) -> (r: &Option<CloudStorageConfig>)
        ensures
            *r == self.options().cloud_config,
    {
        &self.cloud_config
    }
}

// ---------------------------------------------------------------------------
// Storage layout
// ---------------------------------------------------------------------------

/// Where a database keeps its data.
pub enum StorageLayout {
    /// Everything under a local directory; tables under `storage_uri`.
    Local { path: String, storage_uri: String },
    /// Everything in an object store at `storage_uri`.
    Remote { storage_uri: String },
    /// Tables in an object store at `storage_uri`, the write-ahead log and ids
    /// under the local `path`.
    Hybrid { path: String, storage_uri: String },
}

/// `uri` names an object store (it holds `://`).
pub open spec fn is_remote_uri(uri: Seq<char>) -> bool {
    contains(uri, "://"@)
}

/// `dir` joined with the relative path `name` (with a `/` between them).
pub open spec fn join_path(dir: Seq<char>, name: Seq<char>) -> Seq<char> {
    if dir.len() == 0 {
        name
    } else if dir.last() == '/' {
        dir + name
    } else {
        dir.push('/') + name
    }
}

/// The layout for `uri` and an optional remote data URL, or the error.
pub open spec fn layout_outcome(uri: Seq<char>, remote: Option<Seq<char>>, r: Result<StorageLayout, UniError>) -> bool {
    match remote {
        Some(url) => if is_remote_uri(uri) {
            r matches Err(UniError::Internal { message }) && message@
                == "Hybrid mode requires a local path as primary URI, found: "@ + uri
        } else {
            r matches Ok(StorageLayout::Hybrid { path, storage_uri }) && path@ == uri && storage_uri@ == url
        },
        None => if is_remote_uri(uri) {
            r matches Ok(StorageLayout::Remote { storage_uri }) && storage_uri@ == uri
        } else {
            r matches Ok(StorageLayout::Local { path, storage_uri }) && path@ == uri && storage_uri@
                == join_path(uri, "storage"@)
        },
    }
}

fn join_storage(uri: &str) -> (r: String)
    ensures
        r@ == join_path(uri@, "storage"@),
{
    let mut v = chars_of(uri);
    if v.len() == 0 {
        return owned("storage");
    }
    if v[v.len() - 1] != '/' {
        v.push('/');
    }
    push_str(&mut v, "storage");
    proof {
        assert(v@ =~= join_path(uri@, "storage"@));
    }
    string_from(&v)
}

/// The storage layout: a URI holding `://` is an object store; with remote
/// data storage configured the primary URI must be a local path.
pub fn storage_layout(uri: &str, hybrid_remote_url: &Option<String>) -> (r: Result<StorageLayout, UniError>)
    ensures
        layout_outcome(uri@, opt_chars(*hybrid_remote_url), r),
{
    let remote = text_contains(&chars_of(uri), "://");
    match hybrid_remote_url {
        Some(url) => {
            if remote {
                let mut v = chars_of("Hybrid mode requires a local path as primary URI, found: ");
                push_str(&mut v, uri);
                Err(UniError::Internal { message: string_from(&v) })
            } else {
                Ok(StorageLayout::Hybrid { path: owned(uri), storage_uri: url.clone() })
            }
        },
        None => {
            if remote {
                Ok(StorageLayout::Remote { storage_uri: owned(uri) })
            } else {
                Ok(StorageLayout::Local { path: owned(uri), storage_uri: join_storage(uri) })
            }
        },
    }
}

/// What opening does about the database path: `Ok(true)` to create it,
/// `Ok(false)` to use it as it is, or the refusal.
pub open spec fn path_outcome(exists: bool, fail_if_exists: bool, create_if_missing: bool, uri: Seq<char>, r: Result<bool, UniError>) -> bool {
    if exists {
        if fail_if_exists {
            r matches Err(UniError::Internal { message }) && message@ == "Database already exists at "@ + uri
        } else {
            r == Ok::<bool, UniError>(false)
        }
    } else if !create_if_missing {
        r matches Err(UniError::NotFound { path }) && path@ == uri
    } else {
        r == Ok::<bool, UniError>(true)
    }
}

/// The path check for a local database directory (see [`path_outcome`]).
pub fn path_check(exists: bool, fail_if_exists: bool, create_if_missing: bool, uri: &str) -> (r: Result<bool, UniError>)
    ensures
        path_outcome(exists, fail_if_exists, create_if_missing, uri@, r),
{
    if exists {
        if fail_if_exists {
            let mut v = chars_of("Database already exists at ");
            push_str(&mut v, uri);
            return Err(UniError::Internal { message: string_from(&v) });
        }
        Ok(false)
    } else {
        if !create_if_missing {
            return Err(UniError::NotFound { path: owned(uri) });
        }
        Ok(true)
    }
}

/// Where a persisted-state probe came out.
pub enum Probe {
    Found,
    NotFound,
    Failed(String),
}

/// What to do about the schema's location: the canonical location is
/// `catalog/schema.json`; a schema only at the legacy root location is
/// copied there.
pub enum SchemaLocation {
    /// The canonical schema exists, or neither does (a default is created).
    UseCanonical,
    /// Copy the legacy schema to the canonical location first.
    MigrateLegacy,
}

/// The schema-location decision from probing the canonical location and
/// (only when it is missing) the legacy one; a failed probe is an error.
pub fn schema_location(canonical: Probe, legacy: Probe) -> (r: Result<SchemaLocation, UniError>)
    ensures
        match canonical {
            Probe::Found => r matches Ok(SchemaLocation::UseCanonical),
            Probe::Failed(e) => r matches Err(UniError::Internal { message }) && message@ == e@,
            Probe::NotFound => match legacy {
                Probe::Found => r matches Ok(SchemaLocation::MigrateLegacy),
                Probe::NotFound => r matches Ok(SchemaLocation::UseCanonical),
                Probe::Failed(e) => r matches Err(UniError::Internal { message }) && message@ == e@,
            },
        },
{
    match canonical {
        Probe::Found => Ok(SchemaLocation::UseCanonical),
        Probe::Failed(e) => Err(UniError::Internal { message: e }),
        Probe::NotFound => match legacy {
            Probe::Found => Ok(SchemaLocation::MigrateLegacy),
            Probe::NotFound => Ok(SchemaLocation::UseCanonical),
            Probe::Failed(e) => Err(UniError::Internal { message: e }),
        },
    }
}

// ---------------------------------------------------------------------------
// Start version
// ---------------------------------------------------------------------------

/// The message when manifests exist but none can be read.
pub open spec fn no_valid_manifest_message() -> Seq<char> {
    "Snapshot manifests directory exists but contains no valid manifests. Possible data corruption."@
}

/// The message when the log exists without any manifest.
pub open spec fn wal_without_manifest_message() -> Seq<char> {
    "Database has WAL segments but no snapshot manifest. Cannot safely determine version counter -- starting at 0 would cause version conflicts and data corruption. Restore the snapshot manifest or delete WAL to start fresh."@
}

/// The version a writer starts at and the log position replay starts after.
///
/// `latest` is the latest snapshot's (version high-water mark, log
/// high-water mark). Without one, the last manifest recovers them when
/// manifests exist (`last_manifest`); manifests that yield none, or a log
/// without manifests, cannot be opened safely; otherwise the database is new
/// and starts at 0.
pub fn start_version(
    latest: Option<(u64, u64)>,
    has_manifests: bool,
    last_manifest: Option<(u64, u64)>,
    has_wal: bool,
) -> (r: Result<(u64, u64), UniError>)
    requires
        latest matches Some((v, _)) ==> v < u64::MAX,
        latest is None && has_manifests ==> (last_manifest matches Some((v, _)) ==> v < u64::MAX),
    ensures
        match latest {
            Some((v, w)) => r == Ok::<(u64, u64), UniError>(((v + 1) as u64, w)),
            None => if has_manifests {
                match last_manifest {
                    Some((v, w)) => r == Ok::<(u64, u64), UniError>(((v + 1) as u64, w)),
                    None => r matches Err(UniError::Internal { message }) && message@ == no_valid_manifest_message(),
                }
            } else if has_wal {
                r matches Err(UniError::Internal { message }) && message@ == wal_without_manifest_message()
            } else {
                r == Ok::<(u64, u64), UniError>((0, 0))
            },
        },
{
    match latest {
        Some((v, w)) => Ok((v + 1, w)),
        None => {
            if has_manifests {
                match last_manifest {
                    Some((v, w)) => Ok((v + 1, w)),
                    None => Err(
                        UniError::Internal {
                            message: owned(
                                "Snapshot manifests directory exists but contains no valid manifests. Possible data corruption.",
                            ),
                        },
                    ),
                }
            } else if has_wal {
                Err(
                    UniError::Internal {
                        message: owned(
                            "Database has WAL segments but no snapshot manifest. Cannot safely determine version counter -- starting at 0 would cause version conflicts and data corruption. Restore the snapshot manifest or delete WAL to start fresh.",
                        ),
                    },
                )
            } else {
                Ok((0, 0))
            }
        },
    }
}

// ---------------------------------------------------------------------------
// Embedding models
// ---------------------------------------------------------------------------

/// The message for an embedding alias missing from the model catalog.
pub open spec fn missing_alias_message(alias: Seq<char>) -> Seq<char> {
    "Missing Uni-Xervo alias '"@ + alias + "' referenced by vector index embedding config"@
}

/// What the schema requires of one embedding alias: the columns bound to
/// it, each with the embedding head it needs, and the rendering of the set
/// of heads they need together.
pub struct AliasDemand {
    pub alias: String,
    pub columns: Vec<(String, String)>,
    pub heads_text: String,
}

/// A model of the catalog: its alias, the rendering of its task, the
/// embedding heads its task produces from text, and their rendering.
pub struct CatalogModel {
    pub alias: String,
    pub task_text: String,
    pub heads: Vec<String>,
    pub heads_text: String,
}

/// The aliases of `demands`, in order.
pub open spec fn demand_aliases(demands: Seq<AliasDemand>) -> Seq<Seq<char>> {
    demands.map_values(|d: AliasDemand| d.alias@)
}

/// The position of the first model of `catalog` serving `alias`.
pub open spec fn model_for(catalog: Seq<CatalogModel>, alias: Seq<char>) -> Option<int>
    decreases catalog.len(),
{
    if catalog.len() == 0 {
        None
    } else {
        match model_for(catalog.drop_last(), alias) {
            Some(k) => Some(k),
            None => if catalog.last().alias@ == alias {
                Some(catalog.len() - 1)
            } else {
                None
            },
        }
    }
}

/// The columns of `columns` whose head is not among `heads`, in order.
pub open spec fn offending_columns(columns: Seq<(String, String)>, heads: Seq<Seq<char>>) -> Seq<Seq<char>>
    decreases columns.len(),
{
    if columns.len() == 0 {
        Seq::empty()
    } else {
        let rest = offending_columns(columns.drop_last(), heads);
        if heads.contains(columns.last().1@) {
            rest
        } else {
            rest.push(columns.last().0@)
        }
    }
}

/// The message refusing alias `d` served by model `m`, whose task cannot
/// produce every head the alias's columns need.
pub open spec fn heads_message(d: AliasDemand, m: CatalogModel) -> Seq<char> {
    "Uni-Xervo alias '"@ + d.alias@ + "' (task "@ + m.task_text@
        + ") cannot produce the embedding head(s) required by column(s) "@ + list_debug(
        offending_columns(d.columns@, texts(m.heads@)),
    ) + ": alias supports "@ + m.heads_text@ + ", columns require "@ + d.heads_text@
}

/// Why `catalog` cannot serve alias demand `d`, if it cannot: no model has
/// the alias, or the model's task cannot produce some head a column needs.
pub open spec fn demand_refusal(d: AliasDemand, catalog: Seq<CatalogModel>) -> Option<Seq<char>> {
    match model_for(catalog, d.alias@) {
        None => Some(missing_alias_message(d.alias@)),
        Some(k) => if offending_columns(d.columns@, texts(catalog[k].heads@)).len() == 0 {
            None
        } else {
            Some(heads_message(d, catalog[k]))
        },
    }
}

/// The refusal of the first demand (from position `i`) that `catalog`
/// cannot serve.
pub open spec fn first_refusal(demands: Seq<AliasDemand>, catalog: Seq<CatalogModel>, i: int) -> Option<Seq<char>>
    decreases demands.len() - i,
{
    if i < 0 || i >= demands.len() {
        None
    } else if demand_refusal(demands[i], catalog) is Some {
        demand_refusal(demands[i], catalog)
    } else {
        first_refusal(demands, catalog, i + 1)
    }
}

fn find_model(catalog: &Vec<CatalogModel>, alias: &String) -> (r: Option<usize>)
    ensures
        match r {
            Some(k) => k < catalog@.len() && model_for(catalog@, alias@) == Some(k as int),
            None => model_for(catalog@, alias@) is None,
        },
{
    let mut i: usize = 0;
    while i < catalog.len()
        invariant
            i <= catalog@.len(),
            model_for(catalog@.take(i as int), alias@) is None,
        decreases catalog.len() - i,
    {
        proof {
            assert(catalog@.take(i + 1).drop_last() =~= catalog@.take(i as int));
        }
        if catalog[i].alias == *alias {
            proof {
                lemma_model_for_prefix(catalog@, alias@, i + 1);
            }
            return Some(i);
        }
        i = i + 1;
    }
    proof {
        assert(catalog@.take(i as int) =~= catalog@);
    }
    None
}

proof fn lemma_model_for_prefix(catalog: Seq<CatalogModel>, alias: Seq<char>, n: int)
    requires
        0 < n <= catalog.len(),
        model_for(catalog.take(n), alias) is Some,
    ensures
        model_for(catalog, alias) == model_for(catalog.take(n), alias),
    decreases catalog.len() - n,
{
    if n < catalog.len() {
        assert(catalog.take(n + 1).drop_last() =~= catalog.take(n));
        lemma_model_for_prefix(catalog, alias, n + 1);
    } else {
        assert(catalog.take(n) =~= catalog);
    }
}

fn offending_of(columns: &Vec<(String, String)>, heads: &Vec<String>) -> (r: Vec<String>)
    ensures
        texts(r@) == offending_columns(columns@, texts(heads@)),
{
    let mut out: Vec<String> = Vec::new();
    let mut i: usize = 0;
    while i < columns.len()
        invariant
            i <= columns@.len(),
            texts(out@) == offending_columns(columns@.take(i as int), texts(heads@)),
        decreases columns.len() - i,
    {
        proof {
            assert(columns@.take(i + 1).drop_last() =~= columns@.take(i as int));
        }
        let ghost before = out@;
        if !crate::text::text_in(heads, &columns[i].1) {
            out.push(owned(columns[i].0.as_str()));
            proof {
                assert(texts(out@) =~= texts(before).push(columns@[i as int].0@));
            }
        }
        i = i + 1;
    }
    proof {
        assert(columns@.take(i as int) =~= columns@);
    }
    out
}

/// Whether the embedding aliases the schema requires (`required`, one
/// demand per alias) can be served.
///
/// Without a catalog or a prebuilt runtime, requiring any alias is an error.
/// A prebuilt runtime (`runtime_aliases`: the aliases it holds) is checked
/// for presence only, in order, reporting the first missing alias. Otherwise
/// a catalog must hold a model for each alias, in order, whose task produces
/// every head the alias's columns need; the first demand it cannot serve is
/// reported.
#[verifier::loop_isolation(false)]
pub fn check_embedding_aliases(
    required: &Vec<AliasDemand>,
    catalog: Option<&Vec<CatalogModel>>,
    runtime_aliases: Option<&Vec<String>>,
) -> (r: Result<(), UniError>)
    ensures
        required@.len() > 0 && catalog is None && runtime_aliases is None ==> (r matches Err(
            UniError::Internal { message },
        ) && message@ == "Uni-Xervo catalog is required because schema has vector indexes with embedding aliases"@),
        required@.len() == 0 || catalog is Some || runtime_aliases is Some ==> match runtime_aliases {
            Some(ra) => match first_missing(demand_aliases(required@), texts(ra@), 0) {
                Some(a) => r matches Err(UniError::Internal { message }) && message@ == missing_alias_message(a),
                None => r is Ok,
            },
            None => match catalog {
                Some(c) => match first_refusal(required@, c@, 0) {
                    Some(m) => r matches Err(UniError::Internal { message }) && message@ == m,
                    None => r is Ok,
                },
                None => r is Ok,
            },
        },
{
    if required.len() > 0 && catalog.is_none() && runtime_aliases.is_none() {
        return Err(
            UniError::Internal {
                message: owned("Uni-Xervo catalog is required because schema has vector indexes with embedding aliases"),
            },
        );
    }
    match runtime_aliases {
        Some(ra) => {
            let mut i: usize = 0;
            while i < required.len()
                invariant
                    i <= required@.len(),
                    first_missing(demand_aliases(required@), texts(ra@), 0) == first_missing(
                        demand_aliases(required@),
                        texts(ra@),
                        i as int,
                    ),
                decreases required.len() - i,
            {
                proof {
                    assert(demand_aliases(required@)[i as int] == required@[i as int].alias@);
                }
                if !crate::text::text_in(ra, &required[i].alias) {
                    let mut v = chars_of("Missing Uni-Xervo alias '");
                    push_str(&mut v, required[i].alias.as_str());
                    push_str(&mut v, "' referenced by vector index embedding config");
                    return Err(UniError::Internal { message: string_from(&v) });
                }
                i = i + 1;
            }
            Ok(())
        },
        None => match catalog {
            None => Ok(()),
            Some(c) => {
                let mut i: usize = 0;
                while i < required.len()
                    invariant
                        i <= required@.len(),
                        first_refusal(required@, c@, 0) == first_refusal(required@, c@, i as int),
                    decreases required.len() - i,
                {
                    let d = &required[i];
                    match find_model(c, &d.alias) {
                        None => {
                            let mut v = chars_of("Missing Uni-Xervo alias '");
                            push_str(&mut v, d.alias.as_str());
                            push_str(&mut v, "' referenced by vector index embedding config");
                            return Err(UniError::Internal { message: string_from(&v) });
                        },
                        Some(k) => {
                            let m = &c[k];
                            let off = offending_of(&d.columns, &m.heads);
                            if off.len() > 0 {
                                let mut v = chars_of("Uni-Xervo alias '");
                                push_str(&mut v, d.alias.as_str());
                                push_str(&mut v, "' (task ");
                                push_str(&mut v, m.task_text.as_str());
                                push_str(&mut v, ") cannot produce the embedding head(s) required by column(s) ");
                                push_list_debug(&mut v, &off);
                                push_str(&mut v, ": alias supports ");
                                push_str(&mut v, m.heads_text.as_str());
                                push_str(&mut v, ", columns require ");
                                push_str(&mut v, d.heads_text.as_str());
                                return Err(UniError::Internal { message: string_from(&v) });
                            }
                        },
                    }
                    i = i + 1;
                }
                Ok(())
            },
        },
    }
}

/// The first required name (from position `i`) not in `available`.
pub open spec fn first_missing(required: Seq<Seq<char>>, available: Seq<Seq<char>>, i: int) -> Option<Seq<char>>
    decreases required.len() - i,
{
    if i < 0 || i >= required.len() {
        None
    } else if !available.contains(required[i]) {
        Some(required[i])
    } else {
        first_missing(required, available, i + 1)
    }
}

// ---------------------------------------------------------------------------
// Snapshots and authentication
// ---------------------------------------------------------------------------

/// Whether a snapshot may be created under `name` on a database that accepts
/// writes when `writable`: the name must not be empty, and the database must
/// accept writes.
pub fn snapshot_gate(name: &str, writable: bool) -> (r: Result<(), UniError>)
    ensures
        name@.len() == 0 ==> (r matches Err(UniError::Internal { message }) && message@ == "Snapshot name cannot be empty"@),
        name@.len() > 0 && !writable ==> (r matches Err(UniError::ReadOnly { operation }) && operation@ == "create_snapshot"@),
        name@.len() > 0 && writable ==> r is Ok,
{
    if chars_of(name).len() == 0 {
        return Err(UniError::Internal { message: owned("Snapshot name cannot be empty") });
    }
    if !writable {
        return Err(UniError::ReadOnly { operation: owned("create_snapshot") });
    }
    Ok(())
}

/// The kinds of credentials a session can be opened with.
#[derive(Debug, Clone, Copy, PartialEq, Eq, Structural)]
pub enum CredentialKind {
    Basic,
    Bearer,
    MtlsCert,
}

/// The authentication scheme of a kind of credentials.
pub open spec fn scheme_text(k: CredentialKind) -> Seq<char> {
    match k {
        CredentialKind::Basic => "basic"@,
        CredentialKind::Bearer => "bearer"@,
        CredentialKind::MtlsCert => "mtls"@,
    }
}

/// The authentication scheme of `kind`.
pub fn scheme(kind: CredentialKind) -> (r: &'static str)
    ensures
        r@ == scheme_text(kind),
{
    match kind {
        CredentialKind::Basic => "basic",
        CredentialKind::Bearer => "bearer",
        CredentialKind::MtlsCert => "mtls",
    }
}

/// The outcome of authenticating with `scheme`, given the answers of the
/// providers for that scheme in registration order: the first success wins
/// and any answer after it is ignored (so a caller may stop asking at the
/// first success); no provider is an error naming the scheme; all rejecting
/// is an error carrying the last rejection.
pub fn authentication_outcome<P>(scheme: &str, answers: Vec<Result<P, String>>) -> (r: Result<P, UniError>)
    ensures
        answers@.len() == 0 ==> (r matches Err(UniError::AuthenticationFailed { reason }) && reason@
            == "no AuthProvider registered for scheme `"@ + scheme@ + "`"@),
        (exists|i: int| 0 <= i < answers@.len() && (#[trigger] answers@[i]) is Ok) ==> (r matches Ok(p)
            && exists|i: int| 0 <= i < answers@.len() && answers@[i] == Ok::<P, String>(p)
            && forall|j: int| 0 <= j < i ==> (#[trigger] answers@[j]) is Err),
        answers@.len() > 0 && (forall|i: int| 0 <= i < answers@.len() ==> (#[trigger] answers@[i]) is Err)
            ==> (r matches Err(UniError::AuthenticationFailed { reason }) && answers@.last() matches Err(e)
            && reason@ == e@),
{
    if answers.len() == 0 {
        let mut v = chars_of("no AuthProvider registered for scheme `");
        push_str(&mut v, scheme);
        push_str(&mut v, "`");
        return Err(UniError::AuthenticationFailed { reason: string_from(&v) });
    }
    let ghost all = answers@;
    let mut last: Option<String> = None;
    for a in it: answers
        invariant
            it.seq() == all,
            forall|j: int| 0 <= j < it.index() ==> (#[trigger] all[j]) is Err,
            it.index() > 0 ==> (all[it.index() - 1] matches Err(e) && last == Some(e)),
    {
        match a {
            Ok(p) => {
                return Ok(p);
            },
            Err(e) => {
                last = Some(e);
            },
        }
    }
    match last {
        Some(e) => Err(UniError::AuthenticationFailed { reason: e }),
        None => Err(UniError::AuthenticationFailed { reason: owned("all matching providers rejected") }),
    }
}


// ---------------------------------------------------------------------------
// Cloud storage options
// ---------------------------------------------------------------------------

/// `(key, value)` when the value is present.
pub open spec fn opt_pair(key: Seq<char>, v: Option<String>) -> Seq<(Seq<char>, Seq<char>)> {
    match v {
        Some(x) => seq![(key, x@)],
        None => Seq::empty(),
    }
}

/// The table-store options for a cloud configuration, in order.
///
/// S3: bucket, virtual-hosted-style flag, then the region, the endpoint
/// (with `allow_http` for a plain-HTTP endpoint) and the credentials that
/// are set. GCS: bucket, the service-account path (as both `service_account`
/// and `application_credentials`) and key that are set. Azure: account,
/// container, and the access key and SAS token that are set.
pub open spec fn storage_options(c: CloudStorageConfig) -> Seq<(Seq<char>, Seq<char>)> {
    match c {
        CloudStorageConfig::S3 {
            bucket,
            region,
            endpoint,
            access_key_id,
            secret_access_key,
            session_token,
            virtual_hosted_style,
        } => seq![
            ("bucket"@, bucket@),
            ("virtual_hosted_style_request"@, if virtual_hosted_style { "true"@ } else { "false"@ }),
        ] + opt_pair("region"@, region) + match endpoint {
            Some(ep) => if starts_with(ep@, "http://"@) {
                seq![("endpoint"@, ep@), ("allow_http"@, "true"@)]
            } else {
                seq![("endpoint"@, ep@)]
            },
            None => Seq::empty(),
        } + opt_pair("access_key_id"@, access_key_id) + opt_pair("secret_access_key"@, secret_access_key)
            + opt_pair("session_token"@, session_token),
        CloudStorageConfig::Gcs { bucket, service_account_path, service_account_key } => seq![
            ("bucket"@, bucket@),
        ] + match service_account_path {
            Some(p) => seq![("service_account"@, p@), ("application_credentials"@, p@)],
            None => Seq::empty(),
        } + opt_pair("service_account_key"@, service_account_key),
        CloudStorageConfig::Azure { container, account, access_key, sas_token } => seq![
            ("account_name"@, account@),
            ("container_name"@, container@),
        ] + opt_pair("access_key"@, access_key) + opt_pair("sas_token"@, sas_token),
    }
}

/// The texts of key/value pairs.
pub open spec fn pair_texts(v: Seq<(String, String)>) -> Seq<(Seq<char>, Seq<char>)> {
    v.map_values(|p: (String, String)| (p.0@, p.1@))
}

fn push_pair(out: &mut Vec<(String, String)>, key: &str, value: &String)
    ensures
        pair_texts(final(out)@) == pair_texts(old(out)@).push((key@, value@)),
{
    let ghost before = out@;
    out.push((owned(key), value.clone()));
    proof {
        assert(pair_texts(out@) =~= pair_texts(before).push((key@, value@)));
    }
}

fn push_opt(out: &mut Vec<(String, String)>, key: &str, value: &Option<String>)
    ensures
        pair_texts(final(out)@) == pair_texts(old(out)@) + opt_pair(key@, *value),
{
    match value {
        Some(v) => {
            push_pair(out, key, v);
            proof {
                assert(pair_texts(old(out)@).push((key@, v@)) =~= pair_texts(old(out)@) + opt_pair(key@, *value));
            }
        },
        None => {
            proof {
                assert(pair_texts(out@) =~= pair_texts(out@) + opt_pair(key@, *value));
            }
        },
    }
}

/// The table-store options for `config` (see [`storage_options`]).
pub fn cloud_config_to_lancedb_storage_options(config: &CloudStorageConfig) -> (r: Vec<(String, String)>)
    ensures
        pair_texts(r@) == storage_options(*config),
{
    let mut opts: Vec<(String, String)> = Vec::new();
    match config {
        CloudStorageConfig::S3 {
            bucket,
            region,
            endpoint,
            access_key_id,
            secret_access_key,
            session_token,
            virtual_hosted_style,
        } => {
            push_pair(&mut opts, "bucket", bucket);
            let flag = if *virtual_hosted_style { owned("true") } else { owned("false") };
            push_pair(&mut opts, "virtual_hosted_style_request", &flag);
            let ghost a = pair_texts(opts@);
            push_opt(&mut opts, "region", region);
            let ghost b = pair_texts(opts@);
            match endpoint {
                Some(ep) => {
                    push_pair(&mut opts, "endpoint", ep);
                    if text_starts_with(&chars_of(ep.as_str()), "http://") {
                        let t = owned("true");
                        push_pair(&mut opts, "allow_http", &t);
                    }
                },
                None => {},
            }
            let ghost c = pair_texts(opts@);
            proof {
                let ep_part = match endpoint {
                    Some(ep) => if starts_with(ep@, "http://"@) {
                        seq![("endpoint"@, ep@), ("allow_http"@, "true"@)]
                    } else {
                        seq![("endpoint"@, ep@)]
                    },
                    None => Seq::<(Seq<char>, Seq<char>)>::empty(),
                };
                assert(c =~= b + ep_part);
            }
            push_opt(&mut opts, "access_key_id", access_key_id);
            push_opt(&mut opts, "secret_access_key", secret_access_key);
            push_opt(&mut opts, "session_token", session_token);
            proof {
                assert(pair_texts(opts@) =~= storage_options(*config));
            }
        },
        CloudStorageConfig::Gcs { bucket, service_account_path, service_account_key } => {
            push_pair(&mut opts, "bucket", bucket);
            let ghost b = pair_texts(opts@);
            match service_account_path {
                Some(p) => {
                    push_pair(&mut opts, "service_account", p);
                    push_pair(&mut opts, "application_credentials", p);
                },
                None => {},
            }
            push_opt(&mut opts, "service_account_key", service_account_key);
            proof {
                assert(pair_texts(opts@) =~= storage_options(*config));
            }
        },
        CloudStorageConfig::Azure { container, account, access_key, sas_token } => {
            push_pair(&mut opts, "account_name", account);
            push_pair(&mut opts, "container_name", container);
            push_opt(&mut opts, "access_key", access_key);
            push_opt(&mut opts, "sas_token", sas_token);
            proof {
                assert(pair_texts(opts@) =~= storage_options(*config));
            }
        },
    }
    opts
}

// ---------------------------------------------------------------------------
// Removing a temporary database directory
// ---------------------------------------------------------------------------

/// How many times removing a temporary database directory is attempted.
pub const REAP_ATTEMPTS: u32 = 5;

/// What one attempt at removing a directory came to.
#[derive(Debug, Clone, Copy, PartialEq, Eq, Structural)]
pub enum RemoveOutcome {
    Removed,
    NotFound,
    Failed,
}

/// What to do after an attempt at removing a temporary database directory.
#[derive(Debug, Clone, Copy, PartialEq, Eq, Structural)]
pub enum ReapAction {
    /// The directory is gone.
    Done,
    /// The last attempt failed: leave the directory behind, with a warning.
    GiveUp,
    /// Wait this many milliseconds and try again.
    RetryAfterMillis(u64),
}

/// The step after attempt `attempt` (counted from 0) of removing a temporary
/// database directory: a removed or missing directory is done; a failure is
/// retried after 20 ms times the attempts so far, until the last attempt.
pub fn reap_step(attempt: u32, outcome: RemoveOutcome) -> (r: ReapAction)
    requires
        attempt < REAP_ATTEMPTS,
    ensures
        outcome != RemoveOutcome::Failed ==> r == ReapAction::Done,
        outcome == RemoveOutcome::Failed && attempt + 1 == REAP_ATTEMPTS ==> r == ReapAction::GiveUp,
        outcome == RemoveOutcome::Failed && attempt + 1 < REAP_ATTEMPTS ==> r == ReapAction::RetryAfterMillis(
            (20 * (attempt + 1)) as u64,
        ),
{
    match outcome {
        RemoveOutcome::Removed => ReapAction::Done,
        RemoveOutcome::NotFound => ReapAction::Done,
        RemoveOutcome::Failed => {
            if attempt + 1 == REAP_ATTEMPTS {
                ReapAction::GiveUp
            } else {
                ReapAction::RetryAfterMillis(20 * (attempt as u64 + 1))
            }
        },
    }
}

// ---------------------------------------------------------------------------
// Storage URLs
// ---------------------------------------------------------------------------

/// The error text `url::Url::parse` gives for `s`, or `None` when `s` parses
/// as an absolute URL.
pub uninterp spec fn url_parse_error(s: Seq<char>) -> Option<Seq<char>>;

/// `url::Url::parse`: believed to be a function of the text alone (named
/// `url_parse_error`); which texts are absolute URLs is not stated.
#[verifier::external_body]
fn url_error(s: &str) -> (r: Option<String>)
    ensures
        crate::locy::opt_view(r) == url_parse_error(s@),
{
    match url::Url::parse(s) {
        Ok(_) => None,
        Err(e) => Some(e.to_string()),
    }
}

/// How checking the object-store URL `url` ends given what parsing it gave:
/// a malformed URL is an input error carrying the parser's text.
pub fn url_outcome(parse_error: Option<String>) -> (r: Result<(), UniError>)
    ensures
        parse_error is None ==> r is Ok,
        parse_error matches Some(e) ==> r == Err::<(), UniError>(UniError::Io { message: e }),
{
    match parse_error {
        None => Ok(()),
        Some(e) => Err(UniError::Io { message: e }),
    }
}

/// Whether the remote URL of `layout` parses, the check made before an
/// object store is built from it: without an explicit cloud configuration,
/// the remote URL of a remote or hybrid layout must parse; a local layout
/// has none. Whether a store exists for the URL's scheme is not checked
/// here; building the store decides that.
pub fn check_store_url(layout: &StorageLayout, has_cloud_config: bool) -> (r: Result<(), UniError>)
    ensures
        has_cloud_config ==> r is Ok,
        !has_cloud_config ==> match layout {
            StorageLayout::Local { .. } => r is Ok,
            StorageLayout::Remote { storage_uri } => match url_parse_error(storage_uri@) {
                None => r is Ok,
                Some(e) => r matches Err(UniError::Io { message }) && message@ == e,
            },
            StorageLayout::Hybrid { storage_uri, .. } => match url_parse_error(storage_uri@) {
                None => r is Ok,
                Some(e) => r matches Err(UniError::Io { message }) && message@ == e,
            },
        },
{
    if has_cloud_config {
        return Ok(());
    }
    match layout {
        StorageLayout::Local { .. } => Ok(()),
        StorageLayout::Remote { storage_uri } => url_outcome(url_error(storage_uri.as_str())),
        StorageLayout::Hybrid { storage_uri, .. } => url_outcome(url_error(storage_uri.as_str())),
    }
}

} // verus!
