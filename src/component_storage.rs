//! The on-disk layout of component artifacts: where each file of a
//! component lives, the order in which installs and removals touch them so
//! that an interrupted one never leaves a cache file without its component,
//! and the stamps that tell a stale precompiled artifact.

use vstd::prelude::*;
use vstd::string::*;

use crate::provisioning_controller::{content_digest, sha256_hex_of};
use crate::text::str_eq;

verus! {

/// Name of the scratch directory for downloads under the component root.
pub const DOWNLOADS_DIR: &'static str = "downloads";

/// The four files kept for a component.
#[derive(Debug, Clone, Copy, PartialEq, Eq, Structural)]
pub enum ArtifactKind {
    /// `{id}.wasm`, the component bytes.
    Wasm,
    /// `{id}.precompiled`, the engine cache.
    Precompiled,
    /// `{id}.policy.yaml`, the capability policy.
    Policy,
    /// `{id}.meta.json`, the metadata.
    Metadata,
}

/// One file operation on a component's artifacts.
#[derive(Debug, Clone, Copy, PartialEq, Eq, Structural)]
pub enum FileOp {
    /// Delete the file if it exists.
    Remove(ArtifactKind),
    /// Write the file atomically (temporary file, then rename).
    Write(ArtifactKind),
}

/// The files present after `op`.
pub open spec fn apply_op(present: Set<ArtifactKind>, op: FileOp) -> Set<ArtifactKind> {
    match op {
        FileOp::Remove(k) => present.remove(k),
        FileOp::Write(k) => present.insert(k),
    }
}

/// The files present after `ops`, in order.
pub open spec fn apply_ops(present: Set<ArtifactKind>, ops: Seq<FileOp>) -> Set<ArtifactKind>
    decreases ops.len(),
{
    if ops.len() == 0 {
        present
    } else {
        apply_op(apply_ops(present, ops.drop_last()), ops.last())
    }
}

/// The component bytes exist whenever any other file of the component does.
pub open spec fn consistent(present: Set<ArtifactKind>) -> bool {
    forall|k: ArtifactKind| #[trigger] present.contains(k) ==> present.contains(ArtifactKind::Wasm)
}

/// Removal order: metadata, precompiled, policy, then the component itself.
pub open spec fn removal_ops() -> Seq<FileOp> {
    seq![
        FileOp::Remove(ArtifactKind::Metadata),
        FileOp::Remove(ArtifactKind::Precompiled),
        FileOp::Remove(ArtifactKind::Policy),
        FileOp::Remove(ArtifactKind::Wasm),
    ]
}

/// Install order: remove what was there, write the component, then the
/// bundled policy if there is one.
pub open spec fn install_ops(with_policy: bool) -> Seq<FileOp> {
    removal_ops() + seq![FileOp::Write(ArtifactKind::Wasm)] + if with_policy {
        seq![FileOp::Write(ArtifactKind::Policy)]
    } else {
        Seq::empty()
    }
}

/// Commit order once the component compiled: the cache, then the metadata.
pub open spec fn commit_ops() -> Seq<FileOp> {
    seq![FileOp::Write(ArtifactKind::Precompiled), FileOp::Write(ArtifactKind::Metadata)]
}

/// The operations that remove a component's artifacts, in order.
pub fn removal_plan() -> (r: Vec<FileOp>)
    ensures
        r@ == removal_ops(),
{
    let r = vec![
        FileOp::Remove(ArtifactKind::Metadata),
        FileOp::Remove(ArtifactKind::Precompiled),
        FileOp::Remove(ArtifactKind::Policy),
        FileOp::Remove(ArtifactKind::Wasm),
    ];
    assert(r@ =~= removal_ops());
    r
}

/// The operations that install a downloaded component, in order.
pub fn install_plan(with_policy: bool) -> (r: Vec<FileOp>)
    ensures
        r@ == install_ops(with_policy),
{
    let mut r = removal_plan();
    r.push(FileOp::Write(ArtifactKind::Wasm));
    if with_policy {
        r.push(FileOp::Write(ArtifactKind::Policy));
    }
    assert(r@ =~= install_ops(with_policy));
    r
}

/// The operations that commit a compiled component, in order.
pub fn commit_plan() -> (r: Vec<FileOp>)
    ensures
        r@ == commit_ops(),
{
    let r = vec![FileOp::Write(ArtifactKind::Precompiled), FileOp::Write(ArtifactKind::Metadata)];
    assert(r@ =~= commit_ops());
    r
}

proof fn lemma_apply_step(present: Set<ArtifactKind>, ops: Seq<FileOp>, k: int)
    requires
        0 <= k < ops.len(),
    ensures
        apply_ops(present, ops.take(k + 1)) == apply_op(apply_ops(present, ops.take(k)), ops[k]),
{
    assert(ops.take(k + 1).drop_last() =~= ops.take(k));
}

proof fn lemma_removals(present: Set<ArtifactKind>, k: int)
    requires
        consistent(present),
        0 <= k <= 4,
    ensures
        consistent(apply_ops(present, removal_ops().take(k))),
        k == 4 ==> apply_ops(present, removal_ops().take(k)) == Set::<ArtifactKind>::empty(),
        k < 4 ==> apply_ops(present, removal_ops().take(k)).contains(ArtifactKind::Wasm)
            == present.contains(ArtifactKind::Wasm),
        k < 4 ==> apply_ops(present, removal_ops().take(k)).subset_of(present),
    decreases k,
{
    let ops = removal_ops();
    if k == 0 {
        assert(ops.take(0) =~= Seq::<FileOp>::empty());
    } else {
        lemma_removals(present, k - 1);
        lemma_apply_step(present, ops, k - 1);
        let before = apply_ops(present, ops.take(k - 1));
        let after = apply_ops(present, ops.take(k));
        if k == 4 {
            lemma_removals(present, 3);
            lemma_removals(present, 2);
            lemma_removals(present, 1);
            lemma_apply_step(present, ops, 0);
            lemma_apply_step(present, ops, 1);
            lemma_apply_step(present, ops, 2);
            assert(ops.take(0) =~= Seq::<FileOp>::empty());
            assert forall|x: ArtifactKind| !after.contains(x) by {
                match x {
                    ArtifactKind::Wasm => {},
                    ArtifactKind::Precompiled => {},
                    ArtifactKind::Policy => {},
                    ArtifactKind::Metadata => {},
                }
            }
            assert(after =~= Set::<ArtifactKind>::empty());
        }
    }
}

/// Artifact atomicity: an install interrupted after any number of its
/// operations, starting from files where the component bytes exist whenever
/// anything else does, leaves files where that still holds: while the old
/// files are removed, what is left is part of what was there; once the new
/// component bytes are written, nothing but them and the new policy exists.
/// A complete install leaves the component bytes and, if bundled, the
/// policy.
pub proof fn lemma_install_atomic(present: Set<ArtifactKind>, with_policy: bool, k: int)
    requires
        consistent(present),
        0 <= k <= install_ops(with_policy).len(),
    ensures
        consistent(apply_ops(present, install_ops(with_policy).take(k))),
        k <= 4 ==> apply_ops(present, install_ops(with_policy).take(k)).subset_of(present),
        k >= 5 ==> apply_ops(present, install_ops(with_policy).take(k)).contains(ArtifactKind::Wasm)
            && apply_ops(present, install_ops(with_policy).take(k)).subset_of(
            set![ArtifactKind::Wasm, ArtifactKind::Policy],
        ),
        k == install_ops(with_policy).len() ==> apply_ops(present, install_ops(with_policy).take(k))
            == if with_policy {
            set![ArtifactKind::Wasm, ArtifactKind::Policy]
        } else {
            set![ArtifactKind::Wasm]
        },
{
    let ops = install_ops(with_policy);
    if k <= 4 {
        lemma_removals(present, k);
        assert(ops.take(k) =~= removal_ops().take(k));
    } else {
        lemma_removals(present, 4);
        assert(ops.take(4) =~= removal_ops().take(4));
        lemma_apply_step(present, ops, 4);
        let written = apply_ops(present, ops.take(5));
        assert(written =~= set![ArtifactKind::Wasm]);
        if k == 6 {
            lemma_apply_step(present, ops, 5);
            assert(apply_ops(present, ops.take(6)) =~= set![ArtifactKind::Wasm, ArtifactKind::Policy]);
        }
        if !with_policy {
            assert(ops.take(k) =~= ops.take(5));
        }
    }
}

/// An interrupted removal keeps the component bytes whenever anything else
/// is left, and a complete one leaves nothing.
pub proof fn lemma_removal_atomic(present: Set<ArtifactKind>, k: int)
    requires
        consistent(present),
        0 <= k <= 4,
    ensures
        consistent(apply_ops(present, removal_ops().take(k))),
        k == 4 ==> apply_ops(present, removal_ops().take(k)) == Set::<ArtifactKind>::empty(),
{
    lemma_removals(present, k);
}

/// Committing a compiled component whose bytes are installed keeps them
/// present at every step.
pub proof fn lemma_commit_atomic(present: Set<ArtifactKind>, k: int)
    requires
        present.contains(ArtifactKind::Wasm),
        0 <= k <= 2,
    ensures
        consistent(apply_ops(present, commit_ops().take(k))),
        apply_ops(present, commit_ops().take(k)).contains(ArtifactKind::Wasm),
{
    let ops = commit_ops();
    assert(ops.take(0) =~= Seq::<FileOp>::empty());
    if k >= 1 {
        lemma_apply_step(present, ops, 0);
    }
    if k == 2 {
        lemma_apply_step(present, ops, 1);
    }
}

// ----- file names -----

/// Where the components live and where downloads are staged.
#[derive(Debug, Clone)]
pub struct ComponentStorage {
    root: String,
    downloads_dir: String,
    max_concurrent_downloads: usize,
}

/// `dir/name`.
pub open spec fn joined(dir: Seq<char>, name: Seq<char>) -> Seq<char> {
    dir + "/"@ + name
}

/// The file name suffix of each artifact.
pub open spec fn artifact_suffix(kind: ArtifactKind) -> Seq<char> {
    match kind {
        ArtifactKind::Wasm => ".wasm"@,
        ArtifactKind::Precompiled => ".precompiled"@,
        ArtifactKind::Policy => ".policy.yaml"@,
        ArtifactKind::Metadata => ".meta.json"@,
    }
}

fn join(dir: &str, name: &str) -> (r: String)
    ensures
        r@ == joined(dir@, name@),
{
    let mut r = String::from_str(dir);
    r.append("/");
    r.append(name);
    r
}

impl ComponentStorage {
    /// The component directory.
    pub closed spec fn root_spec(&self) -> Seq<char> {
        self.root@
    }

    /// The downloads directory.
    pub closed spec fn downloads_spec(&self) -> Seq<char> {
        self.downloads_dir@
    }

    /// How many downloads may run at once.
    pub closed spec fn permits_spec(&self) -> nat {
        self.max_concurrent_downloads as nat
    }

    /// Storage rooted at `root`, staging downloads in `root/downloads`, with
    /// at least one download permit.
    pub fn new(root: &str, max_concurrent_downloads: usize) -> (r: Self)
        ensures
            r.root_spec() == root@,
            r.downloads_spec() == joined(root@, DOWNLOADS_DIR@),
            r.permits_spec() == if max_concurrent_downloads == 0 {
                1
            } else {
                max_concurrent_downloads as nat
            },
    {
        ComponentStorage {
            root: String::from_str(root),
            downloads_dir: join(root, DOWNLOADS_DIR),
            max_concurrent_downloads: if max_concurrent_downloads == 0 {
                1
            } else {
                max_concurrent_downloads
            },
        }
    }

    /// The component directory.
    pub fn root(&self) -> (r: &str)
        ensures
            r@ == self.root_spec(),
    {
        self.root.as_str()
    }

    /// The downloads directory.
    pub fn downloads_dir(&self) -> (r: &str)
        ensures
            r@ == self.downloads_spec(),
    {
        self.downloads_dir.as_str()
    }

    /// How many downloads may run at once.
    pub fn max_concurrent_downloads(&self) -> (r: usize)
        ensures
            r == self.permits_spec(),
    {
        self.max_concurrent_downloads
    }

    /// Path of one artifact of a component: `root/{id}{suffix}`.
    pub fn artifact_path(&self, component_id: &str, kind: ArtifactKind) -> (r: String)
        ensures
            r@ == joined(self.root_spec(), component_id@ + artifact_suffix(kind)),
    {
        let mut name = String::from_str(component_id);
        name.append(
            match kind {
                ArtifactKind::Wasm => ".wasm",
                ArtifactKind::Precompiled => ".precompiled",
                ArtifactKind::Policy => ".policy.yaml",
                ArtifactKind::Metadata => ".meta.json",
            },
        );
        join(self.root.as_str(), name.as_str())
    }

    /// Path of `{id}.wasm`.
    pub fn component_path(&self, component_id: &str) -> (r: String)
        ensures
            r@ == joined(self.root_spec(), component_id@ + ".wasm"@),
    {
        self.artifact_path(component_id, ArtifactKind::Wasm)
    }

    /// Path of `{id}.policy.yaml`.
    pub fn policy_path(&self, component_id: &str) -> (r: String)
        ensures
            r@ == joined(self.root_spec(), component_id@ + ".policy.yaml"@),
    {
        self.artifact_path(component_id, ArtifactKind::Policy)
    }

    /// Path of `{id}.meta.json`.
    pub fn metadata_path(&self, component_id: &str) -> (r: String)
        ensures
            r@ == joined(self.root_spec(), component_id@ + ".meta.json"@),
    {
        self.artifact_path(component_id, ArtifactKind::Metadata)
    }

    /// Path of `{id}.precompiled`.
    pub fn precompiled_path(&self, component_id: &str) -> (r: String)
        ensures
            r@ == joined(self.root_spec(), component_id@ + ".precompiled"@),
    {
        self.artifact_path(component_id, ArtifactKind::Precompiled)
    }
}

// ----- validation stamps -----

/// What a stamp records of a file.
#[derive(Debug, Clone, PartialEq, Eq)]
pub struct ValidationStamp {
    /// Size in bytes.
    pub file_size: u64,
    /// Modification time, in seconds since the Unix epoch.
    pub mtime: u64,
    /// Lowercase hex SHA-256 of the contents, when recorded.
    pub content_hash: Option<String>,
}

/// What the filesystem reports of a file now.
#[derive(Debug, Clone, Copy, PartialEq, Eq, Structural)]
pub struct FileObservation {
    /// Size in bytes.
    pub size: u64,
    /// Modification time, in seconds since the Unix epoch.
    pub mtime: u64,
}

/// A stamp still describes a file: the file exists with the recorded size
/// and modification time and, when a hash is recorded, contents with that
/// hash.
pub open spec fn stamp_holds(
    observed: Option<FileObservation>,
    actual_hash: Option<Seq<char>>,
    stamp: ValidationStamp,
) -> bool {
    match observed {
        None => false,
        Some(o) => o.size == stamp.file_size && o.mtime == stamp.mtime && match stamp.content_hash {
            Some(h) => actual_hash == Some(h@),
            None => true,
        },
    }
}

/// Whether `stamp` still describes a file observed as `observed` whose
/// contents hash to `actual_hash` (`None` when they could not be read).
pub fn stamp_matches(
    observed: Option<FileObservation>,
    actual_hash: Option<&str>,
    stamp: &ValidationStamp,
) -> (r: bool)
    ensures
        r == stamp_holds(
            observed,
            match actual_hash {
                Some(h) => Some(h@),
                None => None,
            },
            *stamp,
        ),
{
    match observed {
        None => false,
        Some(o) => {
            if o.size != stamp.file_size || o.mtime != stamp.mtime {
                return false;
            }
            match &stamp.content_hash {
                Some(expected) => match actual_hash {
                    Some(h) => str_eq(h, expected.as_str()),
                    None => false,
                },
                None => true,
            }
        },
    }
}

/// Whether `stamp` still describes a file observed as `observed` whose
/// contents are `contents` (`None` when they could not be read).
pub fn validate_stamp(
    observed: Option<FileObservation>,
    contents: Option<&[u8]>,
    stamp: &ValidationStamp,
) -> (r: bool)
    ensures
        r == stamp_holds(
            observed,
            match contents {
                Some(c) => Some(sha256_hex_of(c@)),
                None => None,
            },
            *stamp,
        ),
{
    if stamp.content_hash.is_some() {
        match contents {
            Some(c) => {
                let h = content_digest(c);
                stamp_matches(observed, Some(h.as_str()), stamp)
            },
            None => stamp_matches(observed, None, stamp),
        }
    } else {
        stamp_matches(observed, None, stamp)
    }
}

/// The stamp recorded for a file observed as `observed`, with the hash of
/// `contents` when they are given.
pub fn create_validation_stamp(observed: FileObservation, contents: Option<&[u8]>) -> (r:
    ValidationStamp)
    ensures
        r.file_size == observed.size,
        r.mtime == observed.mtime,
        match contents {
            Some(c) => r.content_hash is Some && r.content_hash->0@ == sha256_hex_of(c@),
            None => r.content_hash is None,
        },
{
    let content_hash = match contents {
        Some(c) => Some(content_digest(c)),
        None => None,
    };
    ValidationStamp { file_size: observed.size, mtime: observed.mtime, content_hash }
}

/// Stamp correctness: a file validates against the stamp taken of it, and a
/// file that validates against a stamp has the recorded size and
/// modification time and, when a hash was recorded, contents with the
/// recorded hash; so a change of size, time or (hashed) contents
/// invalidates the stamp.
pub proof fn lemma_stamp_correct(
    taken: FileObservation,
    taken_hash: Option<Seq<char>>,
    stamp: ValidationStamp,
    now: Option<FileObservation>,
    now_hash: Option<Seq<char>>,
)
    requires
        stamp.file_size == taken.size,
        stamp.mtime == taken.mtime,
        match taken_hash {
            Some(h) => stamp.content_hash is Some && stamp.content_hash->0@ == h,
            None => stamp.content_hash is None,
        },
    ensures
        stamp_holds(Some(taken), taken_hash, stamp),
        stamp_holds(now, now_hash, stamp) ==> now is Some && now->0.size == taken.size
            && now->0.mtime == taken.mtime && match taken_hash {
            Some(h) => now_hash == Some(h),
            None => true,
        },
{
}

// ----- metadata and the precompiled cache -----

/// What is persisted in `{id}.meta.json`.
#[derive(Debug, Clone)]
pub struct ComponentMetadata {
    /// Component id.
    pub component_id: String,
    /// The reference it was loaded from.
    pub source_reference: String,
    /// Stamp of `{id}.wasm` when it was compiled.
    pub wasm_stamp: ValidationStamp,
    /// Stamp of `{id}.precompiled` when it was written.
    pub precompiled_stamp: Option<ValidationStamp>,
    /// Names of the tools the schema declares.
    pub tool_names: Vec<String>,
    /// Identifier of the engine that precompiled the component.
    pub engine: String,
    /// When it was loaded, in seconds since the Unix epoch.
    pub loaded_at: u64,
}

/// The precompiled artifact can be used: it was made by this engine, and
/// the component bytes still match the stamp taken when it was made.
pub open spec fn precompiled_fresh(
    meta: ComponentMetadata,
    engine: Seq<char>,
    wasm: Option<FileObservation>,
    wasm_hash: Option<Seq<char>>,
) -> bool {
    meta.engine@ == engine && stamp_holds(wasm, wasm_hash, meta.wasm_stamp)
}

/// Whether the precompiled artifact described by `meta` can be used by the
/// engine `engine`, the component bytes being observed as `wasm` with
/// contents `wasm_contents`. Otherwise it is discarded and recompiled.
pub fn precompiled_usable(
    meta: &ComponentMetadata,
    engine: &str,
    wasm: Option<FileObservation>,
    wasm_contents: Option<&[u8]>,
) -> (r: bool)
    ensures
        r == precompiled_fresh(
            *meta,
            engine@,
            wasm,
            match wasm_contents {
                Some(c) => Some(sha256_hex_of(c@)),
                None => None,
            },
        ),
{
    str_eq(meta.engine.as_str(), engine) && validate_stamp(wasm, wasm_contents, &meta.wasm_stamp)
}

} // verus!
