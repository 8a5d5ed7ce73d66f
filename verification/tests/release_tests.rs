use huber::errors::PkgError;
use huber::model::{Manifest, TargetAsset};
use huber::release::{
    plan_install, resolve_asset, verify_checksum, Datastore, InstallAction, InstalledRecord,
    OpGuard,
};

fn kubectl_manifest() -> Manifest {
    Manifest {
        name: "kubectl".to_string(),
        owner: "kubernetes".to_string(),
        version: "v1.30.0".to_string(),
        targets: vec![
            TargetAsset {
                platform: "linux-amd64".to_string(),
                url: "https://example.com/kubectl-linux-amd64".to_string(),
                checksum: Some("abc123".to_string()),
            },
            TargetAsset {
                platform: "darwin-arm64".to_string(),
                url: "https://example.com/kubectl-darwin-arm64".to_string(),
                checksum: None,
            },
        ],
    }
}

fn kubectl_record() -> InstalledRecord {
    InstalledRecord {
        context: "staging".to_string(),
        package: "kubectl".to_string(),
        version: "v1.30.0".to_string(),
        paths: vec!["/usr/local/bin/kubectl".to_string()],
    }
}

#[test]
fn resolve_asset_picks_the_platform_match() {
    let m = kubectl_manifest();
    let t = resolve_asset(&m, "linux-amd64").unwrap();
    assert_eq!(t.url, "https://example.com/kubectl-linux-amd64");
    assert_eq!(
        resolve_asset(&m, "windows-amd64").unwrap_err(),
        PkgError::AssetNotFound
    );
}

#[test]
fn verify_checksum_compares_declared_digest() {
    let m = kubectl_manifest();
    let with_checksum = &m.targets[0];
    assert!(verify_checksum(with_checksum, "abc123").is_ok());
    assert_eq!(
        verify_checksum(with_checksum, "def456").unwrap_err(),
        PkgError::ChecksumMismatch
    );
    let without_checksum = &m.targets[1];
    assert!(verify_checksum(without_checksum, "anything").is_ok());
}

#[test]
fn install_twice_without_force_records_once_and_fetches_once() {
    let mut ds = Datastore::new();
    let m = kubectl_manifest();
    let (action, asset) = plan_install(&ds, "staging", &m, "linux-amd64", false).unwrap();
    assert!(action == InstallAction::Fetch);
    assert_eq!(asset.unwrap().platform, "linux-amd64");
    assert!(ds.record_install(kubectl_record()));
    assert_eq!(ds.records.len(), 1);

    let (action, asset) = plan_install(&ds, "staging", &m, "linux-amd64", false).unwrap();
    assert!(action == InstallAction::NoOp);
    assert!(asset.is_none());
    assert!(!ds.record_install(kubectl_record()));
    assert_eq!(ds.records.len(), 1);
}

#[test]
fn force_install_fetches_even_when_recorded() {
    let mut ds = Datastore::new();
    assert!(ds.record_install(kubectl_record()));
    let m = kubectl_manifest();
    let (action, asset) = plan_install(&ds, "staging", &m, "linux-amd64", true).unwrap();
    assert!(action == InstallAction::Fetch);
    assert!(asset.is_some());
}

#[test]
fn install_into_another_context_is_independent() {
    let mut ds = Datastore::new();
    assert!(ds.record_install(kubectl_record()));
    let m = kubectl_manifest();
    let (action, _) = plan_install(&ds, "production", &m, "linux-amd64", false).unwrap();
    assert!(action == InstallAction::Fetch);
}

#[test]
fn remote_install_scenario_resolves_places_and_records_once() {
    let mut ds = Datastore::new();
    let m = kubectl_manifest();
    let (action, asset) = plan_install(&ds, "staging", &m, "linux-amd64", false).unwrap();
    assert!(action == InstallAction::Fetch);
    let asset = asset.unwrap();
    assert_eq!(asset.url, "https://example.com/kubectl-linux-amd64");
    verify_checksum(asset, "abc123").unwrap();
    assert!(ds.record_install(kubectl_record()));
    assert!(ds.query_installed("staging", "kubectl").is_some());

    let (action, _) = plan_install(&ds, "staging", &m, "linux-amd64", false).unwrap();
    assert!(action == InstallAction::NoOp);
    assert_eq!(ds.records.len(), 1);
}

#[test]
fn uninstall_never_installed_fails_and_changes_nothing() {
    let mut ds = Datastore::new();
    assert!(ds.record_install(kubectl_record()));
    assert_eq!(
        ds.record_uninstall("staging", "helm").unwrap_err(),
        PkgError::NotInstalled
    );
    assert_eq!(ds.records.len(), 1);
    assert_eq!(
        ds.record_uninstall("production", "kubectl").unwrap_err(),
        PkgError::NotInstalled
    );
    assert_eq!(ds.records.len(), 1);
}

#[test]
fn uninstall_removes_record_and_repeat_fails() {
    let mut ds = Datastore::new();
    assert!(ds.record_install(kubectl_record()));
    let removed = ds.record_uninstall("staging", "kubectl").unwrap();
    assert_eq!(removed.paths, vec!["/usr/local/bin/kubectl".to_string()]);
    assert_eq!(ds.records.len(), 0);
    assert_eq!(
        ds.record_uninstall("staging", "kubectl").unwrap_err(),
        PkgError::NotInstalled
    );
}

#[test]
fn op_guard_serializes_same_package_and_context() {
    let mut guard = OpGuard::new();
    assert!(guard.begin("staging", "kubectl"));
    assert!(!guard.begin("staging", "kubectl"));
    assert!(guard.begin("staging", "helm"));
    assert!(guard.begin("production", "kubectl"));
    guard.end("staging", "kubectl");
    assert!(guard.begin("staging", "kubectl"));
}

#[test]
fn query_installed_returns_the_record() {
    let mut ds = Datastore::new();
    assert!(ds.query_installed("staging", "kubectl").is_none());
    assert!(ds.record_install(kubectl_record()));
    let rec = ds.query_installed("staging", "kubectl").unwrap();
    assert_eq!(rec.version, "v1.30.0");
    assert_eq!(rec.paths.len(), 1);
}

#[test]
fn plan_uninstall_returns_record_or_not_installed() {
    let mut ds = Datastore::new();
    assert_eq!(
        ds.plan_uninstall("staging", "kubectl").unwrap_err(),
        PkgError::NotInstalled
    );
    assert!(ds.record_install(kubectl_record()));
    let rec = ds.plan_uninstall("staging", "kubectl").unwrap();
    assert_eq!(rec.paths[0], "/usr/local/bin/kubectl");
}
