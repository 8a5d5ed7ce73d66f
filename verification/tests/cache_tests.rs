use huber::cache::{CacheService, FetchKind};
use huber::errors::PkgError;
use huber::model::{ManifestFile, Mirror};

fn kubectl_manifest_text() -> String {
    [
        "name: kubectl",
        "owner: kubernetes",
        "version: v1.30.0",
        "targets:",
        "  - platform: linux-amd64",
        "    url: https://example.com/kubectl",
        "    checksum: abc123",
    ]
    .join("\n")
}

fn helm_manifest_text() -> String {
    [
        "name: helm",
        "owner: helm",
        "version: v3.14.0",
        "targets:",
        "  - platform: linux-amd64",
        "    url: https://example.com/helm",
    ]
    .join("\n")
}

fn index_text_two() -> String {
    [
        "- name: kubectl",
        "  owner: kubernetes",
        "- name: helm",
        "  owner: helm",
    ]
    .join("\n")
}

fn synced_cache() -> CacheService {
    let mut cache = CacheService::new();
    let snapshot = Mirror {
        index_text: index_text_two(),
        manifests: vec![
            ManifestFile { name: "kubectl".to_string(), body: kubectl_manifest_text() },
            ManifestFile { name: "helm".to_string(), body: helm_manifest_text() },
        ],
    };
    cache.apply_sync(Some(snapshot)).unwrap();
    cache
}

#[test]
fn get_package_returns_parsed_manifest() {
    let cache = synced_cache();
    let pkg = cache.get_package("kubectl").unwrap();
    assert_eq!(pkg.name, "kubectl");
    assert_eq!(pkg.owner, "kubernetes");
    assert_eq!(pkg.version, "v1.30.0");
    assert_eq!(pkg.targets.len(), 1);
    assert_eq!(pkg.targets[0].platform, "linux-amd64");
    assert_eq!(pkg.targets[0].url, "https://example.com/kubectl");
    assert_eq!(pkg.targets[0].checksum.as_deref(), Some("abc123"));
}

#[test]
fn get_package_absent_name_fails_not_found() {
    let cache = synced_cache();
    assert_eq!(cache.get_package("etcd").unwrap_err(), PkgError::NotFound);
}

#[test]
fn get_package_missing_manifest_fails_corrupt_index() {
    let mut cache = CacheService::new();
    let snapshot = Mirror {
        index_text: "- name: kubectl\n  owner: kubernetes".to_string(),
        manifests: vec![],
    };
    cache.apply_sync(Some(snapshot)).unwrap();
    assert_eq!(cache.get_package("kubectl").unwrap_err(), PkgError::CorruptIndex);
}

#[test]
fn get_package_damaged_manifest_fails_corrupt_index() {
    let mut cache = CacheService::new();
    let snapshot = Mirror {
        index_text: "- name: kubectl\n  owner: kubernetes".to_string(),
        manifests: vec![ManifestFile {
            name: "kubectl".to_string(),
            body: "no manifest here: [".to_string(),
        }],
    };
    cache.apply_sync(Some(snapshot)).unwrap();
    assert_eq!(cache.get_package("kubectl").unwrap_err(), PkgError::CorruptIndex);
}

#[test]
fn damaged_index_fails_corrupt_index_not_not_found() {
    let mut cache = CacheService::new();
    let snapshot = Mirror {
        index_text: "][ not an index".to_string(),
        manifests: vec![],
    };
    cache.apply_sync(Some(snapshot)).unwrap();
    assert_eq!(cache.get_package("kubectl").unwrap_err(), PkgError::CorruptIndex);
    assert_eq!(cache.has_package("kubectl").unwrap_err(), PkgError::CorruptIndex);
}

#[test]
fn has_package_is_index_membership() {
    let cache = synced_cache();
    assert!(cache.has_package("kubectl").unwrap());
    assert!(cache.has_package("helm").unwrap());
    assert!(!cache.has_package("etcd").unwrap());
}

#[test]
fn get_package_indexes_returns_all_entries() {
    let cache = synced_cache();
    let entries = cache.get_package_indexes().unwrap();
    assert_eq!(entries.len(), 2);
    assert_eq!(entries[0].name, "kubectl");
    assert_eq!(entries[0].owner, "kubernetes");
    assert_eq!(entries[1].name, "helm");
    assert_eq!(entries[1].owner, "helm");
}

#[test]
fn list_packages_empty_pattern_empty_owner_lists_all() {
    let cache = synced_cache();
    let pkgs = cache.list_packages("", "").unwrap();
    assert_eq!(pkgs.len(), 2);
    assert_eq!(pkgs[0].name, "kubectl");
    assert_eq!(pkgs[1].name, "helm");
}

#[test]
fn list_packages_owner_filter_returns_only_that_owner() {
    let cache = synced_cache();
    let pkgs = cache.list_packages("", "kubernetes").unwrap();
    assert_eq!(pkgs.len(), 1);
    assert_eq!(pkgs[0].name, "kubectl");
    assert_eq!(pkgs[0].owner, "kubernetes");
}

#[test]
fn list_packages_pattern_matches_by_regex() {
    let cache = synced_cache();
    let pkgs = cache.list_packages("^kube.*", "").unwrap();
    assert_eq!(pkgs.len(), 1);
    assert_eq!(pkgs[0].name, "kubectl");
}

#[test]
fn list_packages_owner_ignored_when_pattern_given() {
    let cache = synced_cache();
    let with_owner = cache.list_packages("^kube.*", "helm").unwrap();
    let without_owner = cache.list_packages("^kube.*", "").unwrap();
    assert_eq!(with_owner.len(), without_owner.len());
    assert_eq!(with_owner.len(), 1);
    assert_eq!(with_owner[0].name, "kubectl");
}

#[test]
fn list_packages_invalid_pattern_fails() {
    let cache = synced_cache();
    assert_eq!(cache.list_packages("[", "").unwrap_err(), PkgError::InvalidPattern);
}

#[test]
fn reads_before_first_sync_fail_sync_error() {
    let cache = CacheService::new();
    assert_eq!(cache.get_package("kubectl").unwrap_err(), PkgError::SyncError);
    assert_eq!(cache.has_package("kubectl").unwrap_err(), PkgError::SyncError);
    assert_eq!(cache.get_package_indexes().unwrap_err(), PkgError::SyncError);
    assert_eq!(cache.list_packages("", "").unwrap_err(), PkgError::SyncError);
}

#[test]
fn sync_plan_full_when_absent_incremental_when_present() {
    let mut cache = CacheService::new();
    assert_eq!(cache.sync_plan(), FetchKind::Full);
    cache
        .apply_sync(Some(Mirror { index_text: "[]".to_string(), manifests: vec![] }))
        .unwrap();
    assert_eq!(cache.sync_plan(), FetchKind::Incremental);
}

#[test]
fn update_after_absent_mirror_makes_package_visible() {
    let mut cache = CacheService::new();
    assert_eq!(cache.sync_plan(), FetchKind::Full);
    let snapshot = Mirror {
        index_text: "- name: kubectl\n  owner: kubernetes".to_string(),
        manifests: vec![ManifestFile {
            name: "kubectl".to_string(),
            body: kubectl_manifest_text(),
        }],
    };
    cache.apply_sync(Some(snapshot)).unwrap();
    assert!(cache.has_package("kubectl").unwrap());
}

#[test]
fn update_twice_with_same_snapshot_is_byte_identical() {
    let mut cache = CacheService::new();
    let make_snapshot = || Mirror {
        index_text: index_text_two(),
        manifests: vec![
            ManifestFile { name: "kubectl".to_string(), body: kubectl_manifest_text() },
            ManifestFile { name: "helm".to_string(), body: helm_manifest_text() },
        ],
    };
    cache.apply_sync(Some(make_snapshot())).unwrap();
    let first_index = cache.mirror.as_ref().unwrap().index_text.clone();
    let first_bodies: Vec<(String, String)> = cache
        .mirror
        .as_ref()
        .unwrap()
        .manifests
        .iter()
        .map(|f| (f.name.clone(), f.body.clone()))
        .collect();
    cache.apply_sync(Some(make_snapshot())).unwrap();
    let second = cache.mirror.as_ref().unwrap();
    assert_eq!(second.index_text, first_index);
    let second_bodies: Vec<(String, String)> = second
        .manifests
        .iter()
        .map(|f| (f.name.clone(), f.body.clone()))
        .collect();
    assert_eq!(second_bodies, first_bodies);
}

#[test]
fn failed_transfer_leaves_previous_mirror_untouched() {
    let mut cache = synced_cache();
    let before_index = cache.mirror.as_ref().unwrap().index_text.clone();
    let before_len = cache.mirror.as_ref().unwrap().manifests.len();
    assert_eq!(cache.apply_sync(None).unwrap_err(), PkgError::SyncError);
    let after = cache.mirror.as_ref().unwrap();
    assert_eq!(after.index_text, before_index);
    assert_eq!(after.manifests.len(), before_len);
    assert!(cache.has_package("kubectl").unwrap());
}

#[test]
fn listing_is_independent_of_prior_gets() {
    let cache = synced_cache();
    let first = cache.list_packages("", "").unwrap();
    let _ = cache.get_package("helm").unwrap();
    let _ = cache.get_package("kubectl").unwrap();
    let second = cache.list_packages("", "").unwrap();
    assert_eq!(first.len(), second.len());
    for (a, b) in first.iter().zip(second.iter()) {
        assert_eq!(a.name, b.name);
        assert_eq!(a.version, b.version);
    }
}

#[test]
fn search_and_info_delegate_to_cache() {
    let cache = synced_cache();
    let found = huber::release::search(&cache, "^kube.*").unwrap();
    assert_eq!(found.len(), 1);
    assert_eq!(found[0].name, "kubectl");
    let all = huber::release::search(&cache, "").unwrap();
    assert_eq!(all.len(), 2);
    let m = huber::release::info(&cache, "kubectl").unwrap();
    assert_eq!(m.version, "v1.30.0");
    assert_eq!(
        huber::release::info(&cache, "etcd").unwrap_err(),
        PkgError::NotFound
    );
}
