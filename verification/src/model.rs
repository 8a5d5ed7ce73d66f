//! The data model of the mirrored registry: index entries, package
//! manifests, and the mirror snapshot that holds the raw index and
//! manifest texts.

use vstd::prelude::*;

verus! {

/// One identity record of the package index: the unique package name and
/// the owner it belongs to.
#[derive(Debug)]
pub struct IndexEntry {
    pub name: String,
    pub owner: String,
}

/// The mathematical value of an [`IndexEntry`].
pub ghost struct IndexEntryV {
    pub name: Seq<char>,
    pub owner: Seq<char>,
}

impl View for IndexEntry {
    type V = IndexEntryV;

    open spec fn view(&self) -> IndexEntryV {
        IndexEntryV { name: self.name@, owner: self.owner@ }
    }
}

/// One release asset of a package: the platform it serves, where to fetch
/// it, and the checksum declared for it, if any.
#[derive(Debug)]
pub struct TargetAsset {
    pub platform: String,
    pub url: String,
    pub checksum: Option<String>,
}

/// The mathematical value of a [`TargetAsset`].
pub ghost struct TargetAssetV {
    pub platform: Seq<char>,
    pub url: Seq<char>,
    pub checksum: Option<Seq<char>>,
}

impl View for TargetAsset {
    type V = TargetAssetV;

    open spec fn view(&self) -> TargetAssetV {
        TargetAssetV {
            platform: self.platform@,
            url: self.url@,
            checksum: match self.checksum {
                Some(c) => Some(c@),
                None => None,
            },
        }
    }
}

/// The full metadata record of one package: name, owner, version, and the
/// release assets available per platform.
#[derive(Debug)]
pub struct Manifest {
    pub name: String,
    pub owner: String,
    pub version: String,
    pub targets: Vec<TargetAsset>,
}

/// The mathematical value of a [`Manifest`].
pub ghost struct ManifestV {
    pub name: Seq<char>,
    pub owner: Seq<char>,
    pub version: Seq<char>,
    pub targets: Seq<TargetAssetV>,
}

impl View for Manifest {
    type V = ManifestV;

    open spec fn view(&self) -> ManifestV {
        ManifestV {
            name: self.name@,
            owner: self.owner@,
            version: self.version@,
            targets: self.targets@.map_values(|t: TargetAsset| t@),
        }
    }
}

/// One manifest file of the mirror: the package name it is keyed by and
/// the raw text of the file.
#[derive(Debug)]
pub struct ManifestFile {
    pub name: String,
    pub body: String,
}

/// The mathematical value of a [`ManifestFile`].
pub ghost struct ManifestFileV {
    pub name: Seq<char>,
    pub body: Seq<char>,
}

impl View for ManifestFile {
    type V = ManifestFileV;

    open spec fn view(&self) -> ManifestFileV {
        ManifestFileV { name: self.name@, body: self.body@ }
    }
}

/// A snapshot of the mirror: the raw text of the one index file and the
/// raw texts of the per-package manifest files. A snapshot is replaced
/// wholesale on every successful synchronization, never edited in place.
#[derive(Debug)]
pub struct Mirror {
    pub index_text: String,
    pub manifests: Vec<ManifestFile>,
}

/// The mathematical value of a [`Mirror`].
pub ghost struct MirrorV {
    pub index_text: Seq<char>,
    pub manifests: Seq<ManifestFileV>,
}

impl View for Mirror {
    type V = MirrorV;

    open spec fn view(&self) -> MirrorV {
        MirrorV {
            index_text: self.index_text@,
            manifests: self.manifests@.map_values(|f: ManifestFile| f@),
        }
    }
}

/// Whether some entry of `es` carries the name `n`.
pub open spec fn contains_name(es: Seq<IndexEntryV>, n: Seq<char>) -> bool {
    exists|i: int| 0 <= i < es.len() && es[i].name == n
}

/// The body of the first manifest file at or after position `i` whose name
/// is `n`, if any.
pub open spec fn lookup_from(ms: Seq<ManifestFileV>, i: int, n: Seq<char>) -> Option<Seq<char>>
    decreases ms.len() - i,
{
    if i < 0 || i >= ms.len() {
        None::<Seq<char>>
    } else if ms[i].name == n {
        Some(ms[i].body)
    } else {
        lookup_from(ms, i + 1, n)
    }
}

/// The body of the manifest file named `n` in the mirror, if any.
pub open spec fn lookup_text(ms: Seq<ManifestFileV>, n: Seq<char>) -> Option<Seq<char>> {
    lookup_from(ms, 0, n)
}

/// Relies on the standard equality of string slices: two `&str` compare
/// equal exactly when their character sequences are equal.
#[verifier::external_body]
pub(crate) fn str_eq(a: &str, b: &str) -> (r: bool)
    ensures
        r == (a@ == b@),
{
    a == b
}

} // verus!
