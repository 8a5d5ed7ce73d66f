//! Release orchestration: resolving the release asset for a platform,
//! checking a declared checksum, deciding whether an install proceeds or
//! is a no-op, recording installs and uninstalls in the datastore model,
//! and the guard that serializes operations on one (package, context)
//! pair.

use vstd::prelude::*;

use crate::cache::{get_spec, list_result_view, list_spec, manifest_result_view, CacheService};
use crate::errors::PkgError;
use crate::model::{str_eq, Manifest, TargetAsset, TargetAssetV};

verus! {

/// Searches the index by pattern: read-only, delegating to the cache's
/// listing with no owner filter; no datastore interaction.
pub fn search(cache: &CacheService, pattern: &str) -> (r: Result<Vec<Manifest>, PkgError>)
    ensures
        list_result_view(r) == list_spec(cache@, pattern@, Seq::<char>::empty()),
{
    proof {
        reveal_strlit("");
        assert(""@ =~= Seq::<char>::empty());
    }
    cache.list_packages(pattern, "")
}

/// The full manifest of one package: read-only, delegating to the cache's
/// resolution; no datastore interaction.
pub fn info(cache: &CacheService, name: &str) -> (r: Result<Manifest, PkgError>)
    ensures
        manifest_result_view(r) == get_spec(cache@, name@),
{
    cache.get_package(name)
}

/// The first asset at or after position `i` that serves `platform`, if
/// any.
pub open spec fn asset_for_from(ts: Seq<TargetAssetV>, i: int, platform: Seq<char>) -> Option<
    TargetAssetV,
>
    decreases ts.len() - i,
{
    if i < 0 || i >= ts.len() {
        None::<TargetAssetV>
    } else if ts[i].platform == platform {
        Some(ts[i])
    } else {
        asset_for_from(ts, i + 1, platform)
    }
}

/// The release asset of a manifest that serves `platform`, if any.
pub open spec fn asset_for(ts: Seq<TargetAssetV>, platform: Seq<char>) -> Option<TargetAssetV> {
    asset_for_from(ts, 0, platform)
}

/// Resolves the release asset of `m` matching the target platform; fails
/// `AssetNotFound` where no asset serves it.
pub fn resolve_asset<'a>(m: &'a Manifest, platform: &str) -> (r: Result<&'a TargetAsset, PkgError>)
    ensures
        match r {
            Ok(t) => asset_for(m@.targets, platform@) == Some(t@),
            Err(e) => e == PkgError::AssetNotFound && asset_for(m@.targets, platform@) is None,
        },
{
    let ghost ts = m@.targets;
    let mut i: usize = 0;
    while i < m.targets.len()
        invariant
            0 <= i <= m.targets.len(),
            ts == m@.targets,
            ts.len() == m.targets@.len(),
            forall|j: int| 0 <= j < ts.len() ==> ts[j] == m.targets@[j]@,
            asset_for(ts, platform@) == asset_for_from(ts, i as int, platform@),
        decreases m.targets.len() - i,
    {
        if str_eq(m.targets[i].platform.as_str(), platform) {
            assert(asset_for_from(ts, i as int, platform@) == Some(ts[i as int]));
            return Ok(&m.targets[i]);
        }
        assert(asset_for_from(ts, i as int, platform@) == asset_for_from(
            ts,
            i as int + 1,
            platform@,
        ));
        i += 1;
    }
    assert(asset_for_from(ts, i as int, platform@) is None);
    Err(PkgError::AssetNotFound)
}

/// Whether a fetched asset passes the checksum check: an asset that
/// declares no checksum always does; one that declares a checksum passes
/// exactly when the computed digest equals it.
pub open spec fn checksum_ok(t: TargetAssetV, digest: Seq<char>) -> bool {
    match t.checksum {
        None => true,
        Some(declared) => declared == digest,
    }
}

/// Checks a fetched asset's computed digest against the checksum its
/// manifest declares, where one is declared; fails `ChecksumMismatch`
/// where they differ.
pub fn verify_checksum(t: &TargetAsset, digest: &str) -> (r: Result<(), PkgError>)
    ensures
        r == Ok::<(), PkgError>(()) <==> checksum_ok(t@, digest@),
        r is Err ==> r == Err::<(), PkgError>(PkgError::ChecksumMismatch),
{
    match &t.checksum {
        None => Ok(()),
        Some(declared) => {
            if str_eq(declared.as_str(), digest) {
                Ok(())
            } else {
                Err(PkgError::ChecksumMismatch)
            }
        },
    }
}

/// One installed-package record: what was installed, into which context,
/// at which version, and the files it placed.
#[derive(Debug)]
pub struct InstalledRecord {
    pub context: String,
    pub package: String,
    pub version: String,
    pub paths: Vec<String>,
}

/// The mathematical value of an [`InstalledRecord`].
pub ghost struct InstalledRecordV {
    pub context: Seq<char>,
    pub package: Seq<char>,
    pub version: Seq<char>,
    pub paths: Seq<Seq<char>>,
}

impl View for InstalledRecord {
    type V = InstalledRecordV;

    open spec fn view(&self) -> InstalledRecordV {
        InstalledRecordV {
            context: self.context@,
            package: self.package@,
            version: self.version@,
            paths: self.paths@.map_values(|p: String| p@),
        }
    }
}

/// Whether some record of `rs` is for package `p` in context `c`.
pub open spec fn rec_contains(rs: Seq<InstalledRecordV>, c: Seq<char>, p: Seq<char>) -> bool {
    exists|i: int| 0 <= i < rs.len() && rs[i].context == c && rs[i].package == p
}

/// The first record at or after position `i` for package `p` in context
/// `c`, if any.
pub open spec fn rec_lookup_from(
    rs: Seq<InstalledRecordV>,
    i: int,
    c: Seq<char>,
    p: Seq<char>,
) -> Option<InstalledRecordV>
    decreases rs.len() - i,
{
    if i < 0 || i >= rs.len() {
        None::<InstalledRecordV>
    } else if rs[i].context == c && rs[i].package == p {
        Some(rs[i])
    } else {
        rec_lookup_from(rs, i + 1, c, p)
    }
}

/// The record for package `p` in context `c`, if any.
pub open spec fn rec_lookup(rs: Seq<InstalledRecordV>, c: Seq<char>, p: Seq<char>) -> Option<
    InstalledRecordV,
> {
    rec_lookup_from(rs, 0, c, p)
}

/// `rs` with the first record for package `p` in context `c` removed.
pub open spec fn rec_remove(rs: Seq<InstalledRecordV>, c: Seq<char>, p: Seq<char>) -> Seq<
    InstalledRecordV,
>
    decreases rs.len(),
{
    if rs.len() == 0 {
        Seq::<InstalledRecordV>::empty()
    } else if rs[0].context == c && rs[0].package == p {
        rs.skip(1)
    } else {
        seq![rs[0]] + rec_remove(rs.skip(1), c, p)
    }
}

/// The in-memory model of the datastore's installed-package records. The
/// callers that persist it mirror exactly these transitions to disk.
pub struct Datastore {
    pub records: Vec<InstalledRecord>,
}

impl View for Datastore {
    type V = Seq<InstalledRecordV>;

    open spec fn view(&self) -> Seq<InstalledRecordV> {
        self.records@.map_values(|r: InstalledRecord| r@)
    }
}

impl Datastore {
    /// A datastore with no records.
    pub fn new() -> (r: Self)
        ensures
            r@ == Seq::<InstalledRecordV>::empty(),
    {
        Datastore { records: Vec::new() }
    }

    /// The position of the first record for package `p` in context `c`,
    /// if any.
    fn position_of(&self, c: &str, p: &str) -> (r: Option<usize>)
        ensures
            match r {
                Some(i) => 0 <= i < self@.len() && self@[i as int].context == c@
                    && self@[i as int].package == p@ && rec_lookup(self@, c@, p@) == Some(
                    self@[i as int],
                ) && (forall|j: int|
                    0 <= j < i ==> !(self@[j].context == c@ && self@[j].package == p@)),
                None => !rec_contains(self@, c@, p@) && rec_lookup(self@, c@, p@) is None,
            },
    {
        let ghost rs = self@;
        let mut i: usize = 0;
        while i < self.records.len()
            invariant
                0 <= i <= self.records.len(),
                rs == self@,
                rs.len() == self.records@.len(),
                forall|j: int| 0 <= j < rs.len() ==> rs[j] == self.records@[j]@,
                rec_lookup(rs, c@, p@) == rec_lookup_from(rs, i as int, c@, p@),
                forall|j: int| 0 <= j < i ==> !(rs[j].context == c@ && rs[j].package == p@),
            decreases self.records.len() - i,
        {
            if str_eq(self.records[i].context.as_str(), c) && str_eq(
                self.records[i].package.as_str(),
                p,
            ) {
                assert(rec_lookup_from(rs, i as int, c@, p@) == Some(rs[i as int]));
                return Some(i);
            }
            assert(rec_lookup_from(rs, i as int, c@, p@) == rec_lookup_from(
                rs,
                i as int + 1,
                c@,
                p@,
            ));
            i += 1;
        }
        assert(rec_lookup_from(rs, i as int, c@, p@) is None);
        None
    }

    /// The record for package `p` in context `c`, if one is installed.
    pub fn query_installed(&self, c: &str, p: &str) -> (r: Option<&InstalledRecord>)
        ensures
            match r {
                Some(rec) => rec_lookup(self@, c@, p@) == Some(rec@) && rec_contains(
                    self@,
                    c@,
                    p@,
                ),
                None => !rec_contains(self@, c@, p@) && rec_lookup(self@, c@, p@) is None,
            },
    {
        match self.position_of(c, p) {
            None => None,
            Some(i) => {
                assert(self@[i as int] == self.records@[i as int]@);
                Some(&self.records[i])
            },
        }
    }

    /// Records a completed install. A (package, context) pair already
    /// recorded keeps its record: nothing is added and `false` is
    /// returned, so one pair never holds two records.
    pub fn record_install(&mut self, rec: InstalledRecord) -> (r: bool)
        ensures
            r == !rec_contains(old(self)@, rec@.context, rec@.package),
            r ==> final(self)@ == old(self)@.push(rec@),
            !r ==> final(self)@ == old(self)@,
    {
        match self.position_of(rec.context.as_str(), rec.package.as_str()) {
            Some(_) => false,
            None => {
                let ghost before = self@;
                let ghost rv = rec@;
                self.records.push(rec);
                proof {
                    assert(self@ =~= before.push(rv));
                }
                true
            },
        }
    }

    /// Begins an uninstall: the record whose files the executor must
    /// remove; fails `NotInstalled`, with the datastore untouched, where
    /// the package was never installed in the context.
    pub fn plan_uninstall(&self, c: &str, p: &str) -> (r: Result<&InstalledRecord, PkgError>)
        ensures
            match r {
                Ok(rec) => rec_lookup(self@, c@, p@) == Some(rec@),
                Err(e) => e == PkgError::NotInstalled && !rec_contains(self@, c@, p@),
            },
    {
        match self.query_installed(c, p) {
            Some(rec) => Ok(rec),
            None => Err(PkgError::NotInstalled),
        }
    }

    /// Deletes the record for package `p` in context `c`, after the
    /// executor confirmed that the installed files were removed; fails
    /// `NotInstalled` and changes nothing where no record exists, so a
    /// failed or skipped removal leaves the record intact.
    pub fn record_uninstall(&mut self, c: &str, p: &str) -> (r: Result<InstalledRecord, PkgError>)
        ensures
            match r {
                Ok(rec) => rec_lookup(old(self)@, c@, p@) == Some(rec@) && final(self)@
                    == rec_remove(old(self)@, c@, p@),
                Err(e) => e == PkgError::NotInstalled && !rec_contains(old(self)@, c@, p@)
                    && final(self)@ == old(self)@,
            },
    {
        let i = match self.position_of(c, p) {
            None => {
                return Err(PkgError::NotInstalled);
            },
            Some(i) => i,
        };
        let ghost before = self@;
        assert(self@[i as int] == self.records@[i as int]@);
        let rec = self.records.remove(i);
        proof {
            lemma_rec_remove_at(before, c@, p@, i as int);
            assert(self@ =~= before.remove(i as int));
        }
        Ok(rec)
    }
}

/// Removing the first record for (c, p), where it stands at position `i`
/// and no earlier one matches, is removing position `i`.
proof fn lemma_rec_remove_at(rs: Seq<InstalledRecordV>, c: Seq<char>, p: Seq<char>, i: int)
    requires
        0 <= i < rs.len(),
        rs[i].context == c && rs[i].package == p,
        forall|j: int| 0 <= j < i ==> !(rs[j].context == c && rs[j].package == p),
    ensures
        rec_remove(rs, c, p) == rs.remove(i),
    decreases i,
{
    if i == 0 {
        assert(rec_remove(rs, c, p) == rs.skip(1));
        assert(rs.skip(1) =~= rs.remove(0));
    } else {
        lemma_rec_remove_at(rs.skip(1), c, p, i - 1);
        assert(rec_remove(rs, c, p) == seq![rs[0]] + rec_remove(rs.skip(1), c, p));
        assert(seq![rs[0]] + rs.skip(1).remove(i - 1) =~= rs.remove(i));
    }
}

/// What an install must do next: nothing, because the package is already
/// recorded as installed in the context and no force was given, or fetch
/// the resolved asset.
#[derive(PartialEq, Eq, Structural)]
pub enum InstallAction {
    /// The package is already installed in the context: a repeated install
    /// without force is a no-op, with no download and no second record.
    NoOp,
    /// Fetch the asset and place its files at the target.
    Fetch,
}

/// Decides an install: a package already recorded for the context is a
/// no-op unless `force` is given; otherwise the asset matching the
/// target platform must be fetched, and `AssetNotFound` is the failure
/// where none matches.
pub fn plan_install<'a>(
    ds: &Datastore,
    c: &str,
    m: &'a Manifest,
    platform: &str,
    force: bool,
) -> (r: Result<(InstallAction, Option<&'a TargetAsset>), PkgError>)
    ensures
        match r {
            Ok(pair) => {
                &&& (pair.0 == InstallAction::NoOp <==> (!force && rec_contains(
                    ds@,
                    c@,
                    m@.name,
                )))
                &&& (pair.0 == InstallAction::NoOp ==> pair.1 is None)
                &&& (pair.0 == InstallAction::Fetch ==> (pair.1 matches Some(t) && asset_for(
                    m@.targets,
                    platform@,
                ) == Some(t@)))
            },
            Err(e) => e == PkgError::AssetNotFound && (force || !rec_contains(ds@, c@, m@.name))
                && asset_for(m@.targets, platform@) is None,
        },
{
    if !force {
        match ds.query_installed(c, m.name.as_str()) {
            Some(_) => {
                return Ok((InstallAction::NoOp, None));
            },
            None => {},
        }
    }
    match resolve_asset(m, platform) {
        Err(e) => Err(e),
        Ok(t) => Ok((InstallAction::Fetch, Some(t))),
    }
}

/// The key an in-flight operation is serialized on: the context it targets
/// and the package it works on.
#[derive(Debug)]
pub struct OpKey {
    pub context: String,
    pub package: String,
}

/// The mathematical value of an [`OpKey`].
pub ghost struct OpKeyV {
    pub context: Seq<char>,
    pub package: Seq<char>,
}

impl View for OpKey {
    type V = OpKeyV;

    open spec fn view(&self) -> OpKeyV {
        OpKeyV { context: self.context@, package: self.package@ }
    }
}

/// Whether some key of `ks` is for package `p` in context `c`.
pub open spec fn key_contains(ks: Seq<OpKeyV>, c: Seq<char>, p: Seq<char>) -> bool {
    exists|i: int| 0 <= i < ks.len() && ks[i].context == c && ks[i].package == p
}

/// `ks` with the first key for package `p` in context `c` removed.
pub open spec fn key_remove(ks: Seq<OpKeyV>, c: Seq<char>, p: Seq<char>) -> Seq<OpKeyV>
    decreases ks.len(),
{
    if ks.len() == 0 {
        Seq::<OpKeyV>::empty()
    } else if ks[0].context == c && ks[0].package == p {
        ks.skip(1)
    } else {
        seq![ks[0]] + key_remove(ks.skip(1), c, p)
    }
}

/// The guard that serializes install and uninstall operations: at most one
/// operation per (package, context) pair is in flight at a time; a second
/// one must wait until the first has ended.
pub struct OpGuard {
    pub active: Vec<OpKey>,
}

impl View for OpGuard {
    type V = Seq<OpKeyV>;

    open spec fn view(&self) -> Seq<OpKeyV> {
        self.active@.map_values(|k: OpKey| k@)
    }
}

impl OpGuard {
    /// A guard with no operation in flight.
    pub fn new() -> (r: Self)
        ensures
            r@ == Seq::<OpKeyV>::empty(),
    {
        OpGuard { active: Vec::new() }
    }

    /// The position of the first key for package `p` in context `c`, if
    /// any.
    fn position_of(&self, c: &str, p: &str) -> (r: Option<usize>)
        ensures
            match r {
                Some(i) => 0 <= i < self@.len() && self@[i as int].context == c@
                    && self@[i as int].package == p@ && (forall|j: int|
                    0 <= j < i ==> !(self@[j].context == c@ && self@[j].package == p@)),
                None => !key_contains(self@, c@, p@),
            },
    {
        let ghost ks = self@;
        let mut i: usize = 0;
        while i < self.active.len()
            invariant
                0 <= i <= self.active.len(),
                ks == self@,
                ks.len() == self.active@.len(),
                forall|j: int| 0 <= j < ks.len() ==> ks[j] == self.active@[j]@,
                forall|j: int| 0 <= j < i ==> !(ks[j].context == c@ && ks[j].package == p@),
            decreases self.active.len() - i,
        {
            if str_eq(self.active[i].context.as_str(), c) && str_eq(
                self.active[i].package.as_str(),
                p,
            ) {
                return Some(i);
            }
            i += 1;
        }
        assert(!key_contains(ks, c@, p@));
        None
    }

    /// Claims the (package, context) pair for one operation. A pair whose
    /// operation is already in flight is not claimed again: `false` is
    /// returned and the caller must wait, so two operations on one pair
    /// never run concurrently.
    pub fn begin(&mut self, c: &str, p: &str) -> (r: bool)
        ensures
            r == !key_contains(old(self)@, c@, p@),
            r ==> final(self)@ == old(self)@.push(OpKeyV { context: c@, package: p@ }),
            !r ==> final(self)@ == old(self)@,
    {
        match self.position_of(c, p) {
            Some(_) => false,
            None => {
                let ghost before = self@;
                self.active.push(OpKey { context: c.to_owned(), package: p.to_owned() });
                proof {
                    assert(self@ =~= before.push(OpKeyV { context: c@, package: p@ }));
                }
                true
            },
        }
    }

    /// Releases the (package, context) pair when its operation has ended.
    pub fn end(&mut self, c: &str, p: &str)
        ensures
            final(self)@ == key_remove(old(self)@, c@, p@),
    {
        let i = match self.position_of(c, p) {
            None => {
                proof {
                    lemma_key_remove_absent(self@, c@, p@);
                }
                return ;
            },
            Some(i) => i,
        };
        let ghost before = self@;
        self.active.remove(i);
        proof {
            lemma_key_remove_at(before, c@, p@, i as int);
            assert(self@ =~= before.remove(i as int));
        }
    }
}

/// Removing the first key for (c, p), where it stands at position `i` and
/// no earlier one matches, is removing position `i`.
proof fn lemma_key_remove_at(ks: Seq<OpKeyV>, c: Seq<char>, p: Seq<char>, i: int)
    requires
        0 <= i < ks.len(),
        ks[i].context == c && ks[i].package == p,
        forall|j: int| 0 <= j < i ==> !(ks[j].context == c && ks[j].package == p),
    ensures
        key_remove(ks, c, p) == ks.remove(i),
    decreases i,
{
    if i == 0 {
        assert(key_remove(ks, c, p) == ks.skip(1));
        assert(ks.skip(1) =~= ks.remove(0));
    } else {
        lemma_key_remove_at(ks.skip(1), c, p, i - 1);
        assert(key_remove(ks, c, p) == seq![ks[0]] + key_remove(ks.skip(1), c, p));
        assert(seq![ks[0]] + ks.skip(1).remove(i - 1) =~= ks.remove(i));
    }
}

/// Removing a key held by no operation changes nothing.
proof fn lemma_key_remove_absent(ks: Seq<OpKeyV>, c: Seq<char>, p: Seq<char>)
    requires
        !key_contains(ks, c, p),
    ensures
        key_remove(ks, c, p) == ks,
    decreases ks.len(),
{
    if ks.len() > 0 {
        assert(!(ks[0].context == c && ks[0].package == p));
        assert forall|j: int| 0 <= j < ks.skip(1).len() implies !(ks.skip(1)[j].context == c
            && ks.skip(1)[j].package == p) by {
            assert(ks.skip(1)[j] == ks[j + 1]);
        }
        lemma_key_remove_absent(ks.skip(1), c, p);
        assert(seq![ks[0]] + ks.skip(1) =~= ks);
    }
}

/// After a successful claim of a (package, context) pair, the pair is
/// held: a second claim for it fails until the first operation ends, so
/// concurrent installs for one pair yield exactly one in-flight operation.
pub proof fn lemma_ops_serialized(g: Seq<OpKeyV>, c: Seq<char>, p: Seq<char>)
    ensures
        key_contains(g.push(OpKeyV { context: c, package: p }), c, p),
{
    assert(g.push(OpKeyV { context: c, package: p })[g.len() as int] == OpKeyV {
        context: c,
        package: p,
    });
}

/// Once an install is recorded, the (package, context) pair is recorded as
/// installed: a repeated install without force is then a no-op, so one
/// install produces exactly one record and one download.
pub proof fn lemma_install_once(rs: Seq<InstalledRecordV>, rec: InstalledRecordV)
    ensures
        rec_contains(rs.push(rec), rec.context, rec.package),
{
    assert(rs.push(rec)[rs.len() as int] == rec);
}

} // verus!
