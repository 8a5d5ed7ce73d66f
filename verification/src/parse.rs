//! Parsing of the mirror's file formats. The index file is a YAML list of
//! `{name, owner}` records; a manifest file is a YAML record of package
//! metadata. Both are parsed by serde_yaml; what a given text parses to is
//! named by the spec functions [`index_of`] and [`manifest_of`], and the
//! library's contracts speak of those names.

use std::collections::BTreeMap;

use vstd::prelude::*;

use crate::model::{IndexEntry, IndexEntryV, Manifest, ManifestV, TargetAsset};

verus! {

/// The index entries that `text` parses to as a YAML package index, or
/// `None` where it does not parse. The result depends on the text alone.
pub uninterp spec fn index_of(text: Seq<char>) -> Option<Seq<IndexEntryV>>;

/// The manifest that `text` parses to as a YAML package manifest, or
/// `None` where it does not parse. The result depends on the text alone.
pub uninterp spec fn manifest_of(text: Seq<char>) -> Option<ManifestV>;

/// The mathematical values of a sequence of index entries.
pub open spec fn entries_view(v: Seq<IndexEntry>) -> Seq<IndexEntryV> {
    v.map_values(|e: IndexEntry| e@)
}

/// Relies on serde_yaml::from_str: whether a text parses as the package
/// index, and which entries it yields, depend on the text alone.
#[verifier::external_body]
pub(crate) fn parse_index(text: &str) -> (r: Option<Vec<IndexEntry>>)
    ensures
        match r {
            Some(v) => index_of(text@) == Some(entries_view(v@)),
            None => index_of(text@) is None,
        },
{
    let maps: Vec<BTreeMap<String, String>> = match serde_yaml::from_str(text) {
        Ok(v) => v,
        Err(_) => return None,
    };
    let mut out: Vec<IndexEntry> = Vec::new();
    for m in maps {
        out.push(IndexEntry { name: m.get("name")?.clone(), owner: m.get("owner")?.clone() });
    }
    Some(out)
}

/// Relies on serde_yaml::from_str: whether a text parses as a package
/// manifest, and which record it yields, depend on the text alone.
#[verifier::external_body]
pub(crate) fn parse_manifest(text: &str) -> (r: Option<Manifest>)
    ensures
        match r {
            Some(m) => manifest_of(text@) == Some(m@),
            None => manifest_of(text@) is None,
        },
{
    let v: serde_yaml::Value = serde_yaml::from_str(text).ok()?;
    let mut targets = Vec::new();
    for t in v.get("targets")?.as_sequence()? {
        targets.push(TargetAsset {
            platform: t.get("platform")?.as_str()?.to_string(),
            url: t.get("url")?.as_str()?.to_string(),
            checksum: t.get("checksum").and_then(|c| c.as_str()).map(String::from),
        });
    }
    Some(Manifest {
        name: v.get("name")?.as_str()?.to_string(),
        owner: v.get("owner")?.as_str()?.to_string(),
        version: v.get("version")?.as_str()?.to_string(),
        targets,
    })
}

} // verus!
