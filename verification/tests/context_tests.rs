use huber::context::{Context, ContextKind, ContextManager};
use huber::errors::PkgError;
use huber::executor::{
    judge_attempt, retry_after, AttemptOutcome, ExecOutcome, SessionPool, MAX_CONNECT_RETRIES,
    RETRY_BASE_DELAY_MS,
};

fn local(name: &str) -> Context {
    Context { name: name.to_string(), kind: ContextKind::Local }
}

fn remote(name: &str, host: &str) -> Context {
    Context {
        name: name.to_string(),
        kind: ContextKind::Remote {
            host: host.to_string(),
            port: 22,
            user: "deploy".to_string(),
        },
    }
}

#[test]
fn create_get_list_delete_contexts() {
    let mut cm = ContextManager::new();
    assert!(cm.create(local("default")));
    assert!(cm.create(remote("staging", "staging.example.com")));
    assert!(!cm.create(local("default")));
    assert_eq!(cm.list().len(), 2);
    let got = cm.get("staging").unwrap();
    assert_eq!(got.name, "staging");
    assert_eq!(cm.get("absent").unwrap_err(), PkgError::NotFound);
    cm.delete("default").unwrap();
    assert_eq!(cm.list().len(), 1);
    assert_eq!(cm.delete("default").unwrap_err(), PkgError::NotFound);
}

#[test]
fn update_replaces_context_of_same_name() {
    let mut cm = ContextManager::new();
    assert!(cm.create(remote("staging", "old.example.com")));
    cm.update(remote("staging", "new.example.com")).unwrap();
    assert_eq!(cm.list().len(), 1);
    match &cm.get("staging").unwrap().kind {
        ContextKind::Remote { host, .. } => assert_eq!(host, "new.example.com"),
        ContextKind::Local => panic!("expected a remote context"),
    }
    assert_eq!(cm.update(local("absent")).unwrap_err(), PkgError::NotFound);
}

#[test]
fn switch_requires_existing_context() {
    let mut cm = ContextManager::new();
    assert!(cm.create(local("default")));
    assert_eq!(cm.switch("absent").unwrap_err(), PkgError::NotFound);
    cm.switch("default").unwrap();
    assert_eq!(cm.dispatch_target().unwrap().name, "default");
}

#[test]
fn dispatch_before_any_switch_fails_not_found() {
    let cm = ContextManager::new();
    assert_eq!(cm.dispatch_target().unwrap_err(), PkgError::NotFound);
}

#[test]
fn switching_does_not_alter_an_already_dispatched_target() {
    let mut cm = ContextManager::new();
    assert!(cm.create(remote("staging", "staging.example.com")));
    assert!(cm.create(local("default")));
    cm.switch("staging").unwrap();
    let dispatched = cm.dispatch_target().unwrap();
    cm.switch("default").unwrap();
    assert_eq!(dispatched.name, "staging");
    match &dispatched.kind {
        ContextKind::Remote { host, .. } => assert_eq!(host, "staging.example.com"),
        ContextKind::Local => panic!("expected a remote context"),
    }
    assert_eq!(cm.dispatch_target().unwrap().name, "default");
}

#[test]
fn deleting_current_context_leaves_none_current() {
    let mut cm = ContextManager::new();
    assert!(cm.create(local("default")));
    cm.switch("default").unwrap();
    cm.delete("default").unwrap();
    assert_eq!(cm.dispatch_target().unwrap_err(), PkgError::NotFound);
}

#[test]
fn judge_attempt_classifies_every_failure() {
    let ok = judge_attempt(AttemptOutcome::Completed(ExecOutcome {
        exit_code: 0,
        stdout: "done".to_string(),
        stderr: String::new(),
    }))
    .unwrap();
    assert_eq!(ok.stdout, "done");
    let failed = judge_attempt(AttemptOutcome::Completed(ExecOutcome {
        exit_code: 2,
        stdout: String::new(),
        stderr: "boom".to_string(),
    }));
    assert_eq!(failed.unwrap_err(), PkgError::CommandFailed);
    assert_eq!(
        judge_attempt(AttemptOutcome::Unreachable).unwrap_err(),
        PkgError::ConnectionError
    );
    assert_eq!(
        judge_attempt(AttemptOutcome::AuthRejected).unwrap_err(),
        PkgError::AuthenticationError
    );
    assert_eq!(
        judge_attempt(AttemptOutcome::DeadlineElapsed).unwrap_err(),
        PkgError::TimeoutError
    );
}

#[test]
fn only_connection_failures_are_retried_with_growing_backoff() {
    assert_eq!(retry_after(&PkgError::ConnectionError, 0), Some(RETRY_BASE_DELAY_MS));
    assert_eq!(retry_after(&PkgError::ConnectionError, 1), Some(2 * RETRY_BASE_DELAY_MS));
    assert_eq!(retry_after(&PkgError::ConnectionError, 2), Some(3 * RETRY_BASE_DELAY_MS));
    assert_eq!(retry_after(&PkgError::ConnectionError, MAX_CONNECT_RETRIES), None);
    assert_eq!(retry_after(&PkgError::CommandFailed, 0), None);
    assert_eq!(retry_after(&PkgError::TimeoutError, 0), None);
    assert_eq!(retry_after(&PkgError::ChecksumMismatch, 0), None);
}

#[test]
fn session_pool_reuses_one_session_per_context() {
    let mut pool = SessionPool::new();
    assert_eq!(pool.find("staging"), None);
    assert!(pool.register("staging", 7));
    assert_eq!(pool.find("staging"), Some(7));
    assert!(!pool.register("staging", 8));
    assert_eq!(pool.find("staging"), Some(7));
    assert!(pool.register("default", 9));
    assert_eq!(pool.remove("staging"), Some(7));
    assert_eq!(pool.find("staging"), None);
    assert_eq!(pool.remove("staging"), None);
    assert_eq!(pool.find("default"), Some(9));
}
