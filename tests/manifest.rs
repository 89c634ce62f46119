use club::config::ClaspConfig;
use club::error::ClubError;
use club::json::JsonValue;
use club::remote::{RemoteId, RemoteName};
use club::table::RemoteTable;

fn s(x: &str) -> JsonValue {
    JsonValue::Str(x.to_string())
}

fn id_of(c: char) -> String {
    std::iter::repeat(c).take(57).collect()
}

fn doc(members: Vec<(&str, JsonValue)>) -> JsonValue {
    JsonValue::Object(members.into_iter().map(|(k, v)| (k.to_string(), v)).collect())
}

fn names(c: &ClaspConfig) -> Vec<(String, String)> {
    club::commands::club_list(c).unwrap().into_iter().map(|e| (e.name, e.id)).collect()
}

#[test]
fn reads_manifest_without_remotes() {
    let v = doc(vec![
        ("scriptId", s("abc")),
        ("rootDir", s("src")),
        ("parentId", JsonValue::Array(vec![s("p1"), s("p2")])),
        ("other", JsonValue::Number("3".to_string())),
    ]);
    let c = ClaspConfig::from_json(&v).unwrap();
    assert_eq!(c.root_dir, "src");
    assert_eq!(c.script_id, "abc");
    assert_eq!(c.parent_ids, vec!["p1".to_string(), "p2".to_string()]);
    assert!(c.club_remotes.is_none());
}

#[test]
fn reads_remote_table_in_order() {
    let v = doc(vec![
        ("rootDir", s("src")),
        ("scriptId", s("abc")),
        ("parentId", JsonValue::Array(vec![])),
        ("__club__", doc(vec![("zeta", s(&id_of('z'))), ("alpha", s(&id_of('a')))])),
    ]);
    let c = ClaspConfig::from_json(&v).unwrap();
    assert_eq!(
        names(&c),
        vec![("zeta".to_string(), id_of('z')), ("alpha".to_string(), id_of('a'))]
    );
}

#[test]
fn missing_fields_fail() {
    let e = ClaspConfig::from_json(&doc(vec![("scriptId", s("a"))])).unwrap_err();
    assert_eq!(e, ClubError::ManifestReadFail("rootDir not found".to_string()));
    let e = ClaspConfig::from_json(&doc(vec![("rootDir", s("a"))])).unwrap_err();
    assert_eq!(e, ClubError::ManifestReadFail("scriptId not found".to_string()));
    let e = ClaspConfig::from_json(&doc(vec![("rootDir", s("a")), ("scriptId", s("b"))])).unwrap_err();
    assert_eq!(e, ClubError::ManifestReadFail("parentId not found".to_string()));
    let e = ClaspConfig::from_json(&doc(vec![
        ("rootDir", s("a")),
        ("scriptId", s("b")),
        ("parentId", JsonValue::Array(vec![JsonValue::Bool(true)])),
    ]))
    .unwrap_err();
    assert_eq!(e, ClubError::ManifestReadFail("parentId not found".to_string()));
    assert!(matches!(ClaspConfig::from_json(&JsonValue::Null), Err(ClubError::ManifestReadFail(_))));
}

#[test]
fn malformed_remote_entry_fails_load() {
    for bad in [doc(vec![("ok", s("short"))]), doc(vec![("bad name", s(&id_of('a')))]), doc(vec![("ok", JsonValue::Null)])] {
        let v = doc(vec![
            ("rootDir", s("a")),
            ("scriptId", s("b")),
            ("parentId", JsonValue::Array(vec![])),
            ("__club__", bad),
        ]);
        assert!(matches!(ClaspConfig::from_json(&v), Err(ClubError::ManifestReadFail(_))));
    }
}

#[test]
fn writes_known_fields_and_round_trips() {
    let mut t = RemoteTable::new();
    t.insert(RemoteName::try_from("main".to_string()).unwrap(), RemoteId::try_from(id_of('m')).unwrap());
    t.insert(RemoteName::try_from("b".to_string()).unwrap(), RemoteId::try_from(id_of('b')).unwrap());
    let c = ClaspConfig {
        root_dir: "src".to_string(),
        script_id: "sid".to_string(),
        parent_ids: vec!["p".to_string()],
        club_remotes: Some(t),
    };
    let v = c.to_json();
    assert_eq!(
        v,
        doc(vec![
            ("rootDir", s("src")),
            ("scriptId", s("sid")),
            ("parentId", JsonValue::Array(vec![s("p")])),
            ("__club__", doc(vec![("main", s(&id_of('m'))), ("b", s(&id_of('b')))])),
        ])
    );
    let back = ClaspConfig::from_json(&v).unwrap();
    assert_eq!(back.root_dir, c.root_dir);
    assert_eq!(back.script_id, c.script_id);
    assert_eq!(back.parent_ids, c.parent_ids);
    assert_eq!(names(&back), names(&c));
}

#[test]
fn round_trip_without_table() {
    let c = ClaspConfig {
        root_dir: "r".to_string(),
        script_id: "s".to_string(),
        parent_ids: vec![],
        club_remotes: None,
    };
    let v = c.to_json();
    assert_eq!(v, doc(vec![("rootDir", s("r")), ("scriptId", s("s")), ("parentId", JsonValue::Array(vec![]))]));
    let back = ClaspConfig::from_json(&v).unwrap();
    assert!(back.club_remotes.is_none());
    assert_eq!(back.script_id, "s");
}
