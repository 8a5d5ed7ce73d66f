//! The package index cache: it owns the mirror snapshot and answers
//! membership, lookup and listing queries against it, and swaps in a new
//! snapshot on synchronization. Every query's result is pinned down by a
//! spec function over the mirror's value.

use vstd::prelude::*;

use crate::errors::PkgError;
use crate::model::{contains_name, lookup_from, lookup_text, str_eq, IndexEntry, IndexEntryV,
    Manifest, ManifestV, Mirror, MirrorV};
use crate::parse::{entries_view, index_of, manifest_of, parse_index, parse_manifest};
use crate::pattern::{regex_compiles, regex_is_match, regex_match, valid_regex};

verus! {

/// The kind of fetch a synchronization performs: a full fetch when the
/// mirror is absent, an incremental one when it is present.
#[derive(Clone, Copy, Debug, PartialEq, Eq, Structural)]
pub enum FetchKind {
    Full,
    Incremental,
}

/// The cache service. `mirror` is `None` until the first successful
/// synchronization.
pub struct CacheService {
    pub mirror: Option<Mirror>,
}

impl View for CacheService {
    type V = Option<MirrorV>;

    open spec fn view(&self) -> Option<MirrorV> {
        match self.mirror {
            Some(m) => Some(m@),
            None => None,
        }
    }
}

/// The index entries a cache state resolves against: `SyncError` where the
/// mirror was never synchronized, `CorruptIndex` where the index file does
/// not parse, and the parsed entries otherwise.
pub open spec fn indexes_spec(c: Option<MirrorV>) -> Result<Seq<IndexEntryV>, PkgError> {
    match c {
        None => Err(PkgError::SyncError),
        Some(m) => match index_of(m.index_text) {
            None => Err(PkgError::CorruptIndex),
            Some(es) => Ok(es),
        },
    }
}

/// What a membership test returns on a cache state.
pub open spec fn has_spec(c: Option<MirrorV>, n: Seq<char>) -> Result<bool, PkgError> {
    match indexes_spec(c) {
        Err(e) => Err(e),
        Ok(es) => Ok(contains_name(es, n)),
    }
}

/// What resolving one package returns on a cache state: `NotFound` where
/// the name is absent from the index; the parsed manifest where the name
/// is present and its manifest file exists and parses; `CorruptIndex`
/// where the manifest file is missing or does not parse.
pub open spec fn get_spec(c: Option<MirrorV>, n: Seq<char>) -> Result<ManifestV, PkgError> {
    match c {
        None => Err(PkgError::SyncError),
        Some(m) => match index_of(m.index_text) {
            None => Err(PkgError::CorruptIndex),
            Some(es) => if !contains_name(es, n) {
                Err(PkgError::NotFound)
            } else {
                match lookup_text(m.manifests, n) {
                    None => Err(PkgError::CorruptIndex),
                    Some(t) => match manifest_of(t) {
                        None => Err(PkgError::CorruptIndex),
                        Some(mv) => Ok(mv),
                    },
                }
            },
        },
    }
}

/// Whether an entry passes the owner filter: an empty owner admits every
/// entry, a non-empty one only entries of that owner.
pub open spec fn sel_owner(e: IndexEntryV, owner: Seq<char>) -> bool {
    owner.len() == 0 || e.owner == owner
}

/// The manifests of the entries at or after position `i` that pass the
/// owner filter, or the first resolution failure among them.
pub open spec fn collect_owner_from(
    c: Option<MirrorV>,
    es: Seq<IndexEntryV>,
    i: int,
    owner: Seq<char>,
) -> Result<Seq<ManifestV>, PkgError>
    decreases es.len() - i,
{
    if i < 0 || i >= es.len() {
        Ok(Seq::<ManifestV>::empty())
    } else if !sel_owner(es[i], owner) {
        collect_owner_from(c, es, i + 1, owner)
    } else {
        match get_spec(c, es[i].name) {
            Err(e) => Err(e),
            Ok(mv) => match collect_owner_from(c, es, i + 1, owner) {
                Err(e) => Err(e),
                Ok(rest) => Ok(seq![mv] + rest),
            },
        }
    }
}

/// The manifests of the entries at or after position `i` whose name
/// matches `pattern`, or the first resolution failure among them.
pub open spec fn collect_pattern_from(
    c: Option<MirrorV>,
    es: Seq<IndexEntryV>,
    i: int,
    pattern: Seq<char>,
) -> Result<Seq<ManifestV>, PkgError>
    decreases es.len() - i,
{
    if i < 0 || i >= es.len() {
        Ok(Seq::<ManifestV>::empty())
    } else if !regex_match(pattern, es[i].name) {
        collect_pattern_from(c, es, i + 1, pattern)
    } else {
        match get_spec(c, es[i].name) {
            Err(e) => Err(e),
            Ok(mv) => match collect_pattern_from(c, es, i + 1, pattern) {
                Err(e) => Err(e),
                Ok(rest) => Ok(seq![mv] + rest),
            },
        }
    }
}

/// What a listing returns on a cache state. An empty pattern lists every
/// entry, filtered by owner; a non-empty pattern is compiled as a regular
/// expression — `InvalidPattern` where it does not compile — and matched
/// against entry names, and the owner argument has no effect then.
pub open spec fn list_spec(
    c: Option<MirrorV>,
    pattern: Seq<char>,
    owner: Seq<char>,
) -> Result<Seq<ManifestV>, PkgError> {
    if pattern.len() == 0 {
        match indexes_spec(c) {
            Err(e) => Err(e),
            Ok(es) => collect_owner_from(c, es, 0, owner),
        }
    } else if !valid_regex(pattern) {
        Err(PkgError::InvalidPattern)
    } else {
        match indexes_spec(c) {
            Err(e) => Err(e),
            Ok(es) => collect_pattern_from(c, es, 0, pattern),
        }
    }
}

/// The mirror state a synchronization leaves behind: a fully transferred
/// snapshot replaces the mirror wholesale; a failed transfer (`None`)
/// leaves it exactly as it was.
pub open spec fn sync_spec(c: Option<MirrorV>, fetched: Option<MirrorV>) -> Option<MirrorV> {
    match fetched {
        Some(s) => Some(s),
        None => c,
    }
}

/// The mathematical value of a fetched snapshot.
pub open spec fn fetched_view(fetched: Option<Mirror>) -> Option<MirrorV> {
    match fetched {
        Some(s) => Some(s@),
        None => None,
    }
}

/// The manifests already collected, prepended to a collection still to
/// come; a failure swallows what was collected, as the listing aborts on
/// the first resolution failure.
pub open spec fn glue(
    acc: Seq<ManifestV>,
    rest: Result<Seq<ManifestV>, PkgError>,
) -> Result<Seq<ManifestV>, PkgError> {
    match rest {
        Ok(s) => Ok(acc + s),
        Err(e) => Err(e),
    }
}

/// The mathematical value of an index-entry listing result.
pub open spec fn indexes_result_view(
    r: Result<Vec<IndexEntry>, PkgError>,
) -> Result<Seq<IndexEntryV>, PkgError> {
    match r {
        Ok(v) => Ok(entries_view(v@)),
        Err(e) => Err(e),
    }
}

/// The mathematical value of a manifest resolution result.
pub open spec fn manifest_result_view(
    r: Result<Manifest, PkgError>,
) -> Result<ManifestV, PkgError> {
    match r {
        Ok(m) => Ok(m@),
        Err(e) => Err(e),
    }
}

/// The mathematical values of a sequence of manifests.
pub open spec fn manifests_view(v: Seq<Manifest>) -> Seq<ManifestV> {
    v.map_values(|m: Manifest| m@)
}

/// The mathematical value of a listing result.
pub open spec fn list_result_view(
    r: Result<Vec<Manifest>, PkgError>,
) -> Result<Seq<ManifestV>, PkgError> {
    match r {
        Ok(v) => Ok(manifests_view(v@)),
        Err(e) => Err(e),
    }
}

impl CacheService {
    /// A cache whose mirror was never synchronized.
    pub fn new() -> (r: Self)
        ensures
            r@ is None,
    {
        CacheService { mirror: None }
    }

    /// The fetch a synchronization must perform: a full fetch where the
    /// mirror is absent, an incremental update where it is present.
    pub fn sync_plan(&self) -> (r: FetchKind)
        ensures
            r == (if self@ is None {
                FetchKind::Full
            } else {
                FetchKind::Incremental
            }),
    {
        match &self.mirror {
            None => FetchKind::Full,
            Some(_) => FetchKind::Incremental,
        }
    }

    /// Completes a synchronization: a fully transferred snapshot is
    /// swapped in wholesale; a failed transfer (`None`) leaves the
    /// previous mirror exactly as it was and reports `SyncError`.
    pub fn apply_sync(&mut self, fetched: Option<Mirror>) -> (r: Result<(), PkgError>)
        ensures
            final(self)@ == sync_spec(old(self)@, fetched_view(fetched)),
            fetched is Some <==> r == Ok::<(), PkgError>(()),
            fetched is None <==> r == Err::<(), PkgError>(PkgError::SyncError),
    {
        match fetched {
            Some(snap) => {
                self.mirror = Some(snap);
                Ok(())
            },
            None => Err(PkgError::SyncError),
        }
    }

    /// The full index-entry set: the single source of truth the other
    /// operations resolve against.
    pub fn get_package_indexes(&self) -> (r: Result<Vec<IndexEntry>, PkgError>)
        ensures
            indexes_result_view(r) == indexes_spec(self@),
    {
        match &self.mirror {
            None => Err(PkgError::SyncError),
            Some(m) => match parse_index(m.index_text.as_str()) {
                None => Err(PkgError::CorruptIndex),
                Some(v) => Ok(v),
            },
        }
    }

    /// Pure membership test against the current index-entry set.
    pub fn has_package(&self, name: &str) -> (r: Result<bool, PkgError>)
        ensures
            r == has_spec(self@, name@),
    {
        let entries = match self.get_package_indexes() {
            Ok(v) => v,
            Err(e) => return Err(e),
        };
        let ghost es = entries_view(entries@);
        let mut i: usize = 0;
        while i < entries.len()
            invariant
                0 <= i <= entries.len(),
                es == entries_view(entries@),
                indexes_spec(self@) == Ok::<Seq<IndexEntryV>, PkgError>(es),
                forall|j: int| 0 <= j < i ==> es[j].name != name@,
            decreases entries.len() - i,
        {
            assert(es[i as int] == entries@[i as int]@);
            if str_eq(entries[i].name.as_str(), name) {
                assert(contains_name(es, name@));
                return Ok(true);
            }
            i += 1;
        }
        assert(!contains_name(es, name@));
        Ok(false)
    }

    /// Resolves one package by exact name: `NotFound` where the name is
    /// absent from the index; otherwise the parsed manifest, or
    /// `CorruptIndex` where the manifest file is missing or damaged.
    pub fn get_package(&self, name: &str) -> (r: Result<Manifest, PkgError>)
        ensures
            manifest_result_view(r) == get_spec(self@, name@),
    {
        match self.has_package(name) {
            Err(e) => {
                return Err(e);
            },
            Ok(false) => {
                return Err(PkgError::NotFound);
            },
            Ok(true) => {},
        }
        let m = match &self.mirror {
            None => {
                return Err(PkgError::SyncError);
            },
            Some(m) => m,
        };
        let ghost msv = m@.manifests;
        let mut i: usize = 0;
        while i < m.manifests.len()
            invariant
                0 <= i <= m.manifests.len(),
                self@ == Some(m@),
                indexes_spec(self@) matches Ok(es) && contains_name(es, name@),
                msv == m@.manifests,
                msv.len() == m.manifests.len(),
                forall|j: int| 0 <= j < msv.len() ==> msv[j] == m.manifests@[j]@,
                lookup_text(msv, name@) == lookup_from(msv, i as int, name@),
            decreases m.manifests.len() - i,
        {
            if str_eq(m.manifests[i].name.as_str(), name) {
                assert(lookup_from(msv, i as int, name@) == Some(msv[i as int].body));
                match parse_manifest(m.manifests[i].body.as_str()) {
                    None => {
                        return Err(PkgError::CorruptIndex);
                    },
                    Some(pkg) => {
                        return Ok(pkg);
                    },
                }
            }
            assert(lookup_from(msv, i as int, name@) == lookup_from(msv, i as int + 1, name@));
            i += 1;
        }
        assert(lookup_from(msv, i as int, name@) is None);
        Err(PkgError::CorruptIndex)
    }

    /// Collects the manifests of the entries that pass the owner filter,
    /// in index order, aborting on the first resolution failure.
    fn list_by_owner(&self, entries: &Vec<IndexEntry>, owner: &str) -> (r: Result<
        Vec<Manifest>,
        PkgError,
    >)
        ensures
            list_result_view(r) == collect_owner_from(
                self@,
                entries_view(entries@),
                0,
                owner@,
            ),
    {
        let ghost es = entries_view(entries@);
        let ghost c = self@;
        let mut out: Vec<Manifest> = Vec::new();
        let mut i: usize = 0;
        while i < entries.len()
            invariant
                0 <= i <= entries.len(),
                es == entries_view(entries@),
                es.len() == entries@.len(),
                forall|j: int| 0 <= j < es.len() ==> es[j] == entries@[j]@,
                c == self@,
                glue(manifests_view(out@), collect_owner_from(c, es, i as int, owner@))
                    == collect_owner_from(c, es, 0, owner@),
            decreases entries.len() - i,
        {
            let ghost prev = manifests_view(out@);
            assert(es[i as int] == entries@[i as int]@);
            let selected = owner.is_empty() || str_eq(entries[i].owner.as_str(), owner);
            assert(selected == sel_owner(es[i as int], owner@));
            if selected {
                match self.get_package(entries[i].name.as_str()) {
                    Err(err) => {
                        assert(collect_owner_from(c, es, i as int, owner@) == Err::<
                            Seq<ManifestV>,
                            PkgError,
                        >(err));
                        return Err(err);
                    },
                    Ok(mft) => {
                        proof {
                            assert(get_spec(c, es[i as int].name) == Ok::<ManifestV, PkgError>(
                                mft@,
                            ));
                        }
                        out.push(mft);
                        proof {
                            assert(manifests_view(out@) =~= prev + seq![mft@]);
                            lemma_glue_step(
                                prev,
                                mft@,
                                collect_owner_from(c, es, i as int + 1, owner@),
                            );
                        }
                    },
                }
            }
            i += 1;
        }
        assert(collect_owner_from(c, es, i as int, owner@) == Ok::<Seq<ManifestV>, PkgError>(
            Seq::<ManifestV>::empty(),
        ));
        assert(manifests_view(out@) + Seq::<ManifestV>::empty() =~= manifests_view(out@));
        Ok(out)
    }

    /// Collects the manifests of the entries whose name matches the
    /// pattern, in index order, aborting on the first resolution failure.
    fn list_by_pattern(&self, entries: &Vec<IndexEntry>, pattern: &str) -> (r: Result<
        Vec<Manifest>,
        PkgError,
    >)
        requires
            valid_regex(pattern@),
        ensures
            list_result_view(r) == collect_pattern_from(
                self@,
                entries_view(entries@),
                0,
                pattern@,
            ),
    {
        let ghost es = entries_view(entries@);
        let ghost c = self@;
        let mut out: Vec<Manifest> = Vec::new();
        let mut i: usize = 0;
        while i < entries.len()
            invariant
                0 <= i <= entries.len(),
                es == entries_view(entries@),
                es.len() == entries@.len(),
                forall|j: int| 0 <= j < es.len() ==> es[j] == entries@[j]@,
                c == self@,
                valid_regex(pattern@),
                glue(manifests_view(out@), collect_pattern_from(c, es, i as int, pattern@))
                    == collect_pattern_from(c, es, 0, pattern@),
            decreases entries.len() - i,
        {
            let ghost prev = manifests_view(out@);
            assert(es[i as int] == entries@[i as int]@);
            let selected = regex_is_match(pattern, entries[i].name.as_str());
            assert(selected == regex_match(pattern@, es[i as int].name));
            if selected {
                match self.get_package(entries[i].name.as_str()) {
                    Err(err) => {
                        assert(collect_pattern_from(c, es, i as int, pattern@) == Err::<
                            Seq<ManifestV>,
                            PkgError,
                        >(err));
                        return Err(err);
                    },
                    Ok(mft) => {
                        proof {
                            assert(get_spec(c, es[i as int].name) == Ok::<ManifestV, PkgError>(
                                mft@,
                            ));
                        }
                        out.push(mft);
                        proof {
                            assert(manifests_view(out@) =~= prev + seq![mft@]);
                            lemma_glue_step(
                                prev,
                                mft@,
                                collect_pattern_from(c, es, i as int + 1, pattern@),
                            );
                        }
                    },
                }
            }
            i += 1;
        }
        assert(collect_pattern_from(c, es, i as int, pattern@) == Ok::<Seq<ManifestV>, PkgError>(
            Seq::<ManifestV>::empty(),
        ));
        assert(manifests_view(out@) + Seq::<ManifestV>::empty() =~= manifests_view(out@));
        Ok(out)
    }

    /// Lists packages. An empty `pattern` returns all manifests, filtered
    /// by exact owner where `owner` is non-empty; a non-empty `pattern` is
    /// compiled as a regular expression and matched against package names,
    /// and `owner` is ignored in that case.
    pub fn list_packages(&self, pattern: &str, owner: &str) -> (r: Result<Vec<Manifest>, PkgError>)
        ensures
            list_result_view(r) == list_spec(self@, pattern@, owner@),
    {
        if !pattern.is_empty() {
            if !regex_compiles(pattern) {
                return Err(PkgError::InvalidPattern);
            }
        }
        let entries = match self.get_package_indexes() {
            Err(e) => {
                return Err(e);
            },
            Ok(v) => v,
        };
        if pattern.is_empty() {
            self.list_by_owner(&entries, owner)
        } else {
            self.list_by_pattern(&entries, pattern)
        }
    }
}

/// One collection step: gluing an accumulator extended by one manifest
/// before a remainder equals gluing the accumulator before the manifest
/// and the remainder.
proof fn lemma_glue_step(acc: Seq<ManifestV>, mv: ManifestV, rest: Result<Seq<ManifestV>, PkgError>)
    ensures
        glue(acc + seq![mv], rest) == glue(acc, glue(seq![mv], rest)),
{
    match rest {
        Ok(s) => {
            assert((acc + seq![mv]) + s =~= acc + (seq![mv] + s));
        },
        Err(_) => {},
    }
}

/// Synchronizing twice with the same fully transferred snapshot leaves the
/// mirror identical after each run: re-running against an up-to-date
/// mirror is a no-op.
pub proof fn lemma_sync_idempotent(c: Option<MirrorV>, snap: MirrorV)
    ensures
        sync_spec(sync_spec(c, Some(snap)), Some(snap)) == sync_spec(c, Some(snap)),
{
}

/// A failed transfer leaves the previous mirror exactly as it was.
pub proof fn lemma_sync_failure_preserves(c: Option<MirrorV>)
    ensures
        sync_spec(c, None::<MirrorV>) == c,
{
}

/// Membership is exactly presence in the index-entry set of a synced
/// state.
pub proof fn lemma_has_is_membership(c: Option<MirrorV>, es: Seq<IndexEntryV>, n: Seq<char>)
    requires
        indexes_spec(c) == Ok::<Seq<IndexEntryV>, PkgError>(es),
    ensures
        has_spec(c, n) == Ok::<bool, PkgError>(contains_name(es, n)),
{
}

/// On a synced state, a name absent from the index resolves to `NotFound`,
/// and a present one to a parsed manifest or to `CorruptIndex` — never to
/// a silent empty result.
pub proof fn lemma_get_classification(c: Option<MirrorV>, es: Seq<IndexEntryV>, n: Seq<char>)
    requires
        indexes_spec(c) == Ok::<Seq<IndexEntryV>, PkgError>(es),
    ensures
        !contains_name(es, n) ==> get_spec(c, n) == Err::<ManifestV, PkgError>(PkgError::NotFound),
        contains_name(es, n) ==> get_spec(c, n) is Ok || get_spec(c, n) == Err::<
            ManifestV,
            PkgError,
        >(PkgError::CorruptIndex),
{
}

/// Listing with an empty pattern and an empty owner returns exactly the
/// manifests of all current index entries, in index order.
pub proof fn lemma_list_all(c: Option<MirrorV>, es: Seq<IndexEntryV>, s: Seq<ManifestV>)
    requires
        indexes_spec(c) == Ok::<Seq<IndexEntryV>, PkgError>(es),
        list_spec(c, Seq::<char>::empty(), Seq::<char>::empty()) == Ok::<Seq<ManifestV>, PkgError>(
            s,
        ),
    ensures
        s.len() == es.len(),
        forall|j: int|
            0 <= j < es.len() ==> get_spec(c, es[j].name) == Ok::<ManifestV, PkgError>(s[j]),
{
    lemma_collect_owner_all(c, es, 0, s);
}

proof fn lemma_collect_owner_all(c: Option<MirrorV>, es: Seq<IndexEntryV>, i: int, s: Seq<ManifestV>)
    requires
        0 <= i <= es.len(),
        collect_owner_from(c, es, i, Seq::<char>::empty()) == Ok::<Seq<ManifestV>, PkgError>(s),
    ensures
        s.len() == es.len() - i,
        forall|j: int|
            i <= j < es.len() ==> get_spec(c, es[j].name) == Ok::<ManifestV, PkgError>(s[j - i]),
    decreases es.len() - i,
{
    if i < es.len() {
        assert(sel_owner(es[i], Seq::<char>::empty()));
        match get_spec(c, es[i].name) {
            Err(_) => {
                assert(false);
            },
            Ok(mv) => {
                match collect_owner_from(c, es, i + 1, Seq::<char>::empty()) {
                    Err(_) => {
                        assert(false);
                    },
                    Ok(rest) => {
                        assert(s == seq![mv] + rest);
                        lemma_collect_owner_all(c, es, i + 1, rest);
                        assert forall|j: int| i <= j < es.len() implies get_spec(c, es[j].name)
                            == Ok::<ManifestV, PkgError>(s[j - i]) by {
                            if j == i {
                                assert(s[0] == mv);
                            } else {
                                assert(s[j - i] == rest[j - i - 1]);
                            }
                        }
                    },
                }
            },
        }
    }
}

/// With a non-empty pattern, the owner argument has no effect on a
/// listing: this is the documented contract, not an oversight.
pub proof fn lemma_owner_ignored_with_pattern(
    c: Option<MirrorV>,
    pattern: Seq<char>,
    owner1: Seq<char>,
    owner2: Seq<char>,
)
    requires
        pattern.len() != 0,
    ensures
        list_spec(c, pattern, owner1) == list_spec(c, pattern, owner2),
{
}

/// The index entries at or after position `i` whose name matches the
/// pattern, in index order.
pub open spec fn matching_from(es: Seq<IndexEntryV>, i: int, pattern: Seq<char>) -> Seq<IndexEntryV>
    decreases es.len() - i,
{
    if i < 0 || i >= es.len() {
        Seq::<IndexEntryV>::empty()
    } else if regex_match(pattern, es[i].name) {
        seq![es[i]] + matching_from(es, i + 1, pattern)
    } else {
        matching_from(es, i + 1, pattern)
    }
}

/// Listing with a non-empty pattern returns exactly the manifests of the
/// entries whose name matches the compiled pattern, in index order.
pub proof fn lemma_list_pattern_exact(
    c: Option<MirrorV>,
    es: Seq<IndexEntryV>,
    pattern: Seq<char>,
    owner: Seq<char>,
    s: Seq<ManifestV>,
)
    requires
        indexes_spec(c) == Ok::<Seq<IndexEntryV>, PkgError>(es),
        pattern.len() != 0,
        list_spec(c, pattern, owner) == Ok::<Seq<ManifestV>, PkgError>(s),
    ensures
        s.len() == matching_from(es, 0, pattern).len(),
        forall|j: int|
            0 <= j < s.len() ==> get_spec(c, matching_from(es, 0, pattern)[j].name) == Ok::<
                ManifestV,
                PkgError,
            >(s[j]),
{
    lemma_collect_pattern_exact(c, es, 0, pattern, s);
}

proof fn lemma_collect_pattern_exact(
    c: Option<MirrorV>,
    es: Seq<IndexEntryV>,
    i: int,
    pattern: Seq<char>,
    s: Seq<ManifestV>,
)
    requires
        0 <= i <= es.len(),
        collect_pattern_from(c, es, i, pattern) == Ok::<Seq<ManifestV>, PkgError>(s),
    ensures
        s.len() == matching_from(es, i, pattern).len(),
        forall|j: int|
            0 <= j < s.len() ==> get_spec(c, matching_from(es, i, pattern)[j].name) == Ok::<
                ManifestV,
                PkgError,
            >(s[j]),
    decreases es.len() - i,
{
    if i < es.len() {
        let sel = matching_from(es, i, pattern);
        if regex_match(pattern, es[i].name) {
            match get_spec(c, es[i].name) {
                Err(_) => {
                    assert(false);
                },
                Ok(mv) => {
                    match collect_pattern_from(c, es, i + 1, pattern) {
                        Err(_) => {
                            assert(false);
                        },
                        Ok(rest) => {
                            assert(s == seq![mv] + rest);
                            lemma_collect_pattern_exact(c, es, i + 1, pattern, rest);
                            assert(sel == seq![es[i]] + matching_from(es, i + 1, pattern));
                            assert forall|j: int| 0 <= j < s.len() implies get_spec(
                                c,
                                sel[j].name,
                            ) == Ok::<ManifestV, PkgError>(s[j]) by {
                                if j == 0 {
                                    assert(s[0] == mv);
                                    assert(sel[0] == es[i]);
                                } else {
                                    assert(s[j] == rest[j - 1]);
                                    assert(sel[j] == matching_from(es, i + 1, pattern)[j - 1]);
                                }
                            }
                        },
                    }
                },
            }
        } else {
            lemma_collect_pattern_exact(c, es, i + 1, pattern, s);
        }
    }
}

} // verus!
