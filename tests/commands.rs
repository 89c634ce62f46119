use club::commands::{club_init, club_list, club_login, club_remove, club_rename, club_set, get_manifest_path};
use club::config::ClaspConfig;
use club::error::ClubError;
use club::remote::{is_valid_id, is_valid_name, RemoteId, RemoteName};
use club::table::RemoteTable;

fn id_of(c: char) -> String {
    std::iter::repeat(c).take(57).collect()
}

fn bare_config(script_id: &str) -> ClaspConfig {
    ClaspConfig {
        root_dir: "src".to_string(),
        script_id: script_id.to_string(),
        parent_ids: vec!["p1".to_string()],
        club_remotes: None,
    }
}

fn listing(c: &ClaspConfig) -> Vec<(String, String, bool)> {
    club_list(c)
        .unwrap()
        .into_iter()
        .map(|e| (e.name, e.id, e.emphasized))
        .collect()
}

fn set_up(entries: &[(&str, String)]) -> ClaspConfig {
    let mut t = RemoteTable::new();
    for (n, i) in entries {
        t.insert(
            RemoteName::try_from(n.to_string()).unwrap(),
            RemoteId::try_from(i.clone()).unwrap(),
        );
    }
    ClaspConfig { club_remotes: Some(t), ..bare_config("x") }
}

#[test]
fn scenario_init_set_list_remove_push() {
    let x = id_of('X');
    let y = id_of('y');
    let (c, seeded) = club_init(bare_config(&x)).unwrap();
    assert!(seeded);
    assert_eq!(listing(&c), vec![("main".to_string(), x.clone(), true)]);
    let c = club_set(c, "staging".to_string(), y.clone()).unwrap();
    assert_eq!(
        listing(&c),
        vec![("main".to_string(), x.clone(), true), ("staging".to_string(), y.clone(), false)]
    );
    let c = club_remove(c, "main".to_string()).unwrap();
    assert_eq!(listing(&c), vec![("staging".to_string(), y.clone(), false)]);
    let r = club::push::club_push(c, None, false);
    assert!(matches!(r, Err(ClubError::RemoteNotFound)));
}

#[test]
fn init_with_invalid_script_id_is_empty() {
    let (c, seeded) = club_init(bare_config("short")).unwrap();
    assert!(!seeded);
    assert!(listing(&c).is_empty());
    assert_eq!(c.script_id, "short");
    assert_eq!(c.root_dir, "src");
}

#[test]
fn init_twice_fails() {
    let (c, _) = club_init(bare_config(&id_of('a'))).unwrap();
    assert!(matches!(club_init(c), Err(ClubError::ClubAlreadySetup)));
}

#[test]
fn list_requires_setup() {
    assert!(matches!(club_list(&bare_config("x")), Err(ClubError::ClubNotSetup)));
}

#[test]
fn set_overwrites_in_place() {
    let c = set_up(&[("a", id_of('1')), ("b", id_of('2'))]);
    let c = club_set(c, "a".to_string(), id_of('3')).unwrap();
    assert_eq!(
        listing(&c),
        vec![("a".to_string(), id_of('3'), false), ("b".to_string(), id_of('2'), false)]
    );
}

#[test]
fn set_then_remove_omits_pair() {
    let c = set_up(&[]);
    let c = club_set(c, "dev_1".to_string(), id_of('d')).unwrap();
    assert_eq!(listing(&c), vec![("dev_1".to_string(), id_of('d'), false)]);
    let c = club_remove(c, "dev_1".to_string()).unwrap();
    assert!(listing(&c).is_empty());
}

#[test]
fn set_errors() {
    assert!(matches!(
        club_set(set_up(&[]), "bad name".to_string(), id_of('a')),
        Err(ClubError::InvalidRemoteName)
    ));
    assert!(matches!(
        club_set(set_up(&[]), "bad name".to_string(), "short".to_string()),
        Err(ClubError::InvalidRemoteName)
    ));
    assert!(matches!(
        club_set(set_up(&[]), "ok".to_string(), id_of('a')[..56].to_string()),
        Err(ClubError::InvalidRemoteId)
    ));
    let long = id_of('a') + "b";
    assert!(matches!(club_set(set_up(&[]), "ok".to_string(), long), Err(ClubError::InvalidRemoteId)));
    let mut bad = id_of('a');
    bad.replace_range(10..11, "!");
    assert!(matches!(club_set(set_up(&[]), "ok".to_string(), bad), Err(ClubError::InvalidRemoteId)));
    assert!(matches!(
        club_set(bare_config("x"), "ok".to_string(), id_of('a')),
        Err(ClubError::ClubNotSetup)
    ));
}

#[test]
fn remove_keeps_order_and_reports_missing() {
    let c = set_up(&[("a", id_of('1')), ("b", id_of('2')), ("c", id_of('3'))]);
    let c = club_remove(c, "b".to_string()).unwrap();
    assert_eq!(
        listing(&c),
        vec![("a".to_string(), id_of('1'), false), ("c".to_string(), id_of('3'), false)]
    );
    assert!(matches!(club_remove(c, "b".to_string()), Err(ClubError::RemoteNotFound)));
    assert!(matches!(club_remove(set_up(&[]), "".to_string()), Err(ClubError::InvalidRemoteName)));
    assert!(matches!(club_remove(bare_config("x"), "a".to_string()), Err(ClubError::ClubNotSetup)));
}

#[test]
fn rename_moves_entry_last() {
    let c = set_up(&[("a", id_of('1')), ("b", id_of('2')), ("c", id_of('3'))]);
    let c = club_rename(c, "a".to_string(), "z".to_string()).unwrap();
    assert_eq!(
        listing(&c),
        vec![
            ("b".to_string(), id_of('2'), false),
            ("c".to_string(), id_of('3'), false),
            ("z".to_string(), id_of('1'), false)
        ]
    );
}

#[test]
fn rename_errors() {
    let c = || set_up(&[("a", id_of('1')), ("b", id_of('2'))]);
    assert!(matches!(club_rename(c(), "a".to_string(), "b".to_string()), Err(ClubError::RemoteAlreadyExists)));
    assert!(matches!(club_rename(c(), "a".to_string(), "a".to_string()), Err(ClubError::RemoteAlreadyExists)));
    assert!(matches!(club_rename(c(), "q".to_string(), "r".to_string()), Err(ClubError::RemoteNotFound)));
    assert!(matches!(club_rename(c(), "a".to_string(), "r/s".to_string()), Err(ClubError::InvalidRemoteName)));
    assert!(matches!(club_rename(c(), "".to_string(), "r".to_string()), Err(ClubError::InvalidRemoteName)));
    assert!(matches!(
        club_rename(bare_config("x"), "a".to_string(), "b".to_string()),
        Err(ClubError::ClubNotSetup)
    ));
}

#[test]
fn validation() {
    assert!(is_valid_name("main"));
    assert!(is_valid_name("a-b_C9"));
    assert!(!is_valid_name(""));
    assert!(!is_valid_name("a b"));
    assert!(!is_valid_name("é"));
    assert!(is_valid_id(&id_of('-')));
    assert!(!is_valid_id(&id_of('_')[..56]));
    assert!(!is_valid_id(&(id_of('x') + "x")));
    assert!(matches!(RemoteId::try_from("abc".to_string()), Err(ClubError::InvalidRemoteId)));
    assert_eq!(RemoteName::try_from("prod".to_string()).unwrap().as_str(), "prod");
}

#[test]
fn login_outcome() {
    assert!(club_login(true).is_ok());
    assert!(matches!(club_login(false), Err(ClubError::ClaspError(_))));
}

#[test]
fn manifest_path_joins() {
    assert_eq!(get_manifest_path("/home/p"), "/home/p/.clasp.json");
    assert_eq!(get_manifest_path("/home/p/"), "/home/p/.clasp.json");
    assert_eq!(get_manifest_path(""), ".clasp.json");
}

#[test]
fn error_messages() {
    assert_eq!(
        ClubError::ManifestReadFail("boom".to_string()).message(),
        "Error reading clasp manifest: boom"
    );
    assert_eq!(ClubError::RemoteNotFound.message(), "Remote not found.");
    assert_eq!(ClubError::ClaspError("x".to_string()).message(), "Error running clasp: x");
}
