use club::config::ClaspConfig;
use club::error::ClubError;
use club::push::{club_push, PushAction, PushEvent};
use club::remote::{RemoteId, RemoteName};
use club::table::RemoteTable;

fn id_of(c: char) -> String {
    std::iter::repeat(c).take(57).collect()
}

fn config(entries: &[(&str, char)]) -> ClaspConfig {
    let mut t = RemoteTable::new();
    for (n, c) in entries {
        t.insert(RemoteName::try_from(n.to_string()).unwrap(), RemoteId::try_from(id_of(*c)).unwrap());
    }
    ClaspConfig {
        root_dir: "src".to_string(),
        script_id: "before-push".to_string(),
        parent_ids: vec![],
        club_remotes: Some(t),
    }
}

fn expect_swap(a: PushAction, name: &str, c: char) {
    match a {
        PushAction::SwapIn(n, cfg) => {
            assert_eq!(n, name);
            assert_eq!(cfg.script_id, id_of(c));
            assert_eq!(cfg.root_dir, "src");
        }
        other => panic!("unexpected {:?}", other),
    }
}

fn expect_restore(a: PushAction) {
    match a {
        PushAction::Restore(cfg) => assert_eq!(cfg.script_id, "before-push"),
        other => panic!("unexpected {:?}", other),
    }
}

#[test]
fn push_default_main_success() {
    let mut s = club_push(config(&[("dev", 'd'), ("main", 'm')]), None, false).unwrap();
    expect_swap(s.begin(), "main", 'm');
    assert!(matches!(s.step(PushEvent::Written), PushAction::RunPush));
    expect_restore(s.step(PushEvent::PushExited(true)));
    assert!(matches!(s.step(PushEvent::Written), PushAction::Finish(Ok(()))));
    assert!(!s.expects(&PushEvent::Written));
}

#[test]
fn push_failure_still_restores() {
    let mut s = club_push(config(&[("dev", 'd')]), Some("dev".to_string()), false).unwrap();
    expect_swap(s.begin(), "dev", 'd');
    assert!(matches!(s.step(PushEvent::Written), PushAction::RunPush));
    expect_restore(s.step(PushEvent::PushExited(false)));
    match s.step(PushEvent::Written) {
        PushAction::Finish(Err(e)) => assert_eq!(e, ClubError::ClaspError("clasp push failed".to_string())),
        other => panic!("unexpected {:?}", other),
    }
}

#[test]
fn push_not_started_still_restores() {
    let mut s = club_push(config(&[("dev", 'd')]), Some("dev".to_string()), false).unwrap();
    s.begin();
    s.step(PushEvent::Written);
    expect_restore(s.step(PushEvent::PushNotStarted("no such file".to_string())));
    match s.step(PushEvent::Written) {
        PushAction::Finish(Err(e)) => assert_eq!(e, ClubError::ClaspError("no such file".to_string())),
        other => panic!("unexpected {:?}", other),
    }
}

#[test]
fn push_all_in_order_and_stops_on_failure() {
    let mut s = club_push(config(&[("a", 'a'), ("b", 'b'), ("c", 'c')]), None, true).unwrap();
    expect_swap(s.begin(), "a", 'a');
    s.step(PushEvent::Written);
    expect_restore(s.step(PushEvent::PushExited(true)));
    expect_swap(s.step(PushEvent::Written), "b", 'b');
    s.step(PushEvent::Written);
    expect_restore(s.step(PushEvent::PushExited(false)));
    assert!(matches!(s.step(PushEvent::Written), PushAction::Finish(Err(ClubError::ClaspError(_)))));
}

#[test]
fn swap_write_failure_finishes() {
    let mut s = club_push(config(&[("main", 'm')]), None, false).unwrap();
    s.begin();
    assert!(!s.expects(&PushEvent::PushExited(true)));
    match s.step(PushEvent::WriteFailed("denied".to_string())) {
        PushAction::Finish(Err(e)) => assert_eq!(e, ClubError::ManifestWriteFail("denied".to_string())),
        other => panic!("unexpected {:?}", other),
    }
}

#[test]
fn push_argument_errors() {
    assert!(matches!(
        club_push(config(&[("main", 'm')]), Some("main".to_string()), true),
        Err(ClubError::BothRemoteAndAllPassed)
    ));
    assert!(matches!(club_push(config(&[]), None, false), Err(ClubError::NoRemotesAvailable)));
    assert!(matches!(
        club_push(config(&[("main", 'm')]), Some("x y".to_string()), false),
        Err(ClubError::InvalidRemoteName)
    ));
    assert!(matches!(
        club_push(config(&[("main", 'm')]), Some("other".to_string()), false),
        Err(ClubError::RemoteNotFound)
    ));
    let mut c = config(&[]);
    c.club_remotes = None;
    assert!(matches!(club_push(c, None, true), Err(ClubError::ClubNotSetup)));
}
