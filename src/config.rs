//! The project configuration held by the manifest, and its JSON form.
use vstd::prelude::*;
use vstd::string::StringExecFns;

use crate::error::ClubError;
use crate::json::{field, get_field, is_str, str_of, JsonValue};
use crate::remote::{valid_id, valid_name, RemoteId, RemoteName};
use crate::table::{inserted, table_ok, unique_keys, RemoteTable};

verus! {

/// The pairs of a remote table, in order.
pub type Entries = Seq<(Seq<char>, Seq<char>)>;

/// The mathematical content of a configuration.
pub struct ConfigView {
    pub root_dir: Seq<char>,
    pub script_id: Seq<char>,
    pub parent_ids: Seq<Seq<char>>,
    pub remotes: Option<Entries>,
}

/// The manifest's state: root directory, active script id (not validated),
/// parent ids (passed through), and the remote table when set up.
#[derive(Debug)]
pub struct ClaspConfig {
    pub root_dir: String,
    pub script_id: String,
    pub parent_ids: Vec<String>,
    pub club_remotes: Option<RemoteTable>,
}

pub open spec fn strings_view(v: Seq<String>) -> Seq<Seq<char>> {
    v.map_values(|s: String| s@)
}

impl ClaspConfig {
    pub open spec fn view(&self) -> ConfigView {
        ConfigView {
            root_dir: self.root_dir@,
            script_id: self.script_id@,
            parent_ids: strings_view(self.parent_ids@),
            remotes: match self.club_remotes {
                Some(t) => Some(t@),
                None => None,
            },
        }
    }

    /// A present remote table is well formed.
    pub open spec fn wf(&self) -> bool {
        self.club_remotes matches Some(t) ==> t.wf()
    }

    /// A configuration with the same content.
    pub fn snapshot(&self) -> (r: ClaspConfig)
        requires
            self.wf(),
        ensures
            r.wf(),
            r@ == self@,
    {
        let remotes = match &self.club_remotes {
            Some(t) => Some(t.snapshot()),
            None => None,
        };
        ClaspConfig {
            root_dir: self.root_dir.clone(),
            script_id: self.script_id.clone(),
            parent_ids: copy_strings(&self.parent_ids),
            club_remotes: remotes,
        }
    }
}

fn copy_strings(v: &Vec<String>) -> (r: Vec<String>)
    ensures
        strings_view(r@) == strings_view(v@),
{
    let mut r: Vec<String> = Vec::new();
    let mut i: usize = 0;
    while i < v.len()
        invariant
            i <= v@.len(),
            r@.len() == i,
            forall|j: int| 0 <= j < i ==> #[trigger] r@[j]@ == v@[j]@,
        decreases v@.len() - i,
    {
        r.push(v[i].clone());
        i = i + 1;
    }
    assert(strings_view(r@) =~= strings_view(v@));
    r
}

/// The texts of `items` when every one is a string.
pub open spec fn strings_of(items: Seq<JsonValue>) -> Option<Seq<Seq<char>>> {
    if forall|i: int| 0 <= i < items.len() ==> #[trigger] items[i] is Str {
        Some(Seq::new(items.len(), |i: int| items[i]->Str_0@))
    } else {
        None
    }
}

/// The remote table that the members `fs` describe, read in order (a later
/// duplicate key overwrites in place); nothing when a key is not a valid
/// name or a value is not a string holding a valid id.
pub open spec fn table_of(fs: Seq<(String, JsonValue)>) -> Option<Entries>
    decreases fs.len(),
{
    if fs.len() == 0 {
        Some(Seq::empty())
    } else {
        match table_of(fs.drop_last()) {
            None => None,
            Some(t) => {
                let k = fs.last().0@;
                let v = fs.last().1;
                if valid_name(k) && v is Str && valid_id(v->Str_0@) {
                    Some(inserted(t, k, v->Str_0@))
                } else {
                    None
                }
            },
        }
    }
}

/// The configuration that a manifest document describes, if it is one:
/// `rootDir` and `scriptId` strings, a `parentId` array of strings, and an
/// optional `__club__` object of remote names to remote ids.
pub open spec fn decode_manifest(v: JsonValue) -> Option<ConfigView> {
    let root = str_of(field(v, "rootDir"@));
    let script = str_of(field(v, "scriptId"@));
    let parents = parents_of(v);
    let remotes = match field(v, "__club__"@) {
        Some(JsonValue::Object(fs)) => match table_of(fs@) {
            Some(t) => Some(Some(t)),
            None => None,
        },
        _ => Some(None),
    };
    if root is Some && script is Some && parents is Some && remotes is Some {
        Some(
            ConfigView {
                root_dir: root.unwrap(),
                script_id: script.unwrap(),
                parent_ids: parents.unwrap(),
                remotes: remotes.unwrap(),
            },
        )
    } else {
        None
    }
}

/// `v` is an array of the strings `ss`.
pub open spec fn encodes_strings(v: JsonValue, ss: Seq<Seq<char>>) -> bool {
    v matches JsonValue::Array(items) && items@.len() == ss.len() && forall|i: int|
        0 <= i < ss.len() ==> is_str(#[trigger] items@[i], ss[i])
}

/// `v` is an object with one string member per pair of `t`, in order.
pub open spec fn encodes_table(v: JsonValue, t: Entries) -> bool {
    v matches JsonValue::Object(fs) && fs@.len() == t.len() && forall|i: int|
        0 <= i < t.len() ==> (#[trigger] fs@[i]).0@ == t[i].0 && is_str(fs@[i].1, t[i].1)
}

/// `v` is the manifest document of `c`: its four known members in order,
/// the remote table last and only when present.
pub open spec fn encodes_config(v: JsonValue, c: ConfigView) -> bool {
    v matches JsonValue::Object(fs) && {
        &&& fs@.len() == if c.remotes is Some { 4int } else { 3int }
        &&& fs@[0].0@ == "rootDir"@ && is_str(fs@[0].1, c.root_dir)
        &&& fs@[1].0@ == "scriptId"@ && is_str(fs@[1].1, c.script_id)
        &&& fs@[2].0@ == "parentId"@ && encodes_strings(fs@[2].1, c.parent_ids)
        &&& c.remotes matches Some(t) ==> fs@[3].0@ == "__club__"@ && encodes_table(fs@[3].1, t)
    }
}

fn read_strings(items: &Vec<JsonValue>) -> (r: Option<Vec<String>>)
    ensures
        r is Some <==> strings_of(items@) is Some,
        r matches Some(v) ==> Some(strings_view(v@)) == strings_of(items@),
{
    let mut out: Vec<String> = Vec::new();
    let mut i: usize = 0;
    while i < items.len()
        invariant
            i <= items@.len(),
            out@.len() == i,
            forall|j: int| 0 <= j < i ==> #[trigger] items@[j] is Str,
            forall|j: int| 0 <= j < i ==> #[trigger] out@[j]@ == items@[j]->Str_0@,
        decreases items@.len() - i,
    {
        match &items[i] {
            JsonValue::Str(s) => {
                out.push(s.clone());
            },
            _ => {
                return None;
            },
        }
        i = i + 1;
    }
    assert(strings_view(out@) =~= Seq::new(items@.len(), |j: int| items@[j]->Str_0@));
    Some(out)
}

proof fn lemma_table_of_prefix_none(fs: Seq<(String, JsonValue)>, i: int)
    requires
        0 <= i <= fs.len(),
        table_of(fs.subrange(0, i)) is None,
    ensures
        table_of(fs) is None,
    decreases fs.len() - i,
{
    if i == fs.len() {
        assert(fs.subrange(0, i) =~= fs);
    } else {
        assert(fs.subrange(0, i + 1).drop_last() =~= fs.subrange(0, i));
        lemma_table_of_prefix_none(fs, i + 1);
    }
}

fn read_table(fs: &Vec<(String, JsonValue)>) -> (r: Option<RemoteTable>)
    ensures
        r is Some <==> table_of(fs@) is Some,
        r matches Some(t) ==> t.wf() && Some(t@) == table_of(fs@),
{
    let mut t = RemoteTable::new();
    let mut i: usize = 0;
    assert(fs@.subrange(0, 0) =~= Seq::<(String, JsonValue)>::empty());
    while i < fs.len()
        invariant
            i <= fs@.len(),
            t.wf(),
            table_of(fs@.subrange(0, i as int)) == Some(t@),
        decreases fs@.len() - i,
    {
        let ghost pre = fs@.subrange(0, i as int);
        let ghost next = fs@.subrange(0, i + 1);
        assert(next.drop_last() =~= pre);
        assert(next.last() == fs@[i as int]);
        let (k, v) = &fs[i];
        let name = RemoteName::try_from(k.clone());
        let id = match v {
            JsonValue::Str(s) => RemoteId::try_from(s.clone()),
            _ => Err(ClubError::InvalidRemoteId),
        };
        match (name, id) {
            (Ok(name), Ok(id)) => {
                t.insert(name, id);
            },
            _ => {
                proof {
                    lemma_table_of_prefix_none(fs@, i + 1);
                }
                return None;
            },
        }
        i = i + 1;
    }
    assert(fs@.subrange(0, fs@.len() as int) =~= fs@);
    Some(t)
}

/// The `parentId` member's strings, when it is an array of strings.
pub open spec fn parents_of(v: JsonValue) -> Option<Seq<Seq<char>>> {
    match field(v, "parentId"@) {
        Some(JsonValue::Array(items)) => strings_of(items@),
        _ => None,
    }
}

/// `r` failed to read the manifest, for the reason `detail`.
pub open spec fn read_failed(r: Result<ClaspConfig, ClubError>, detail: Seq<char>) -> bool {
    r matches Err(ClubError::ManifestReadFail(d)) && d@ == detail
}

fn read_fail(detail: &str) -> (r: ClubError)
    ensures
        r matches ClubError::ManifestReadFail(d) && d@ == detail@,
{
    ClubError::ManifestReadFail(String::from_str(detail))
}

impl ClaspConfig {
    /// Reads a configuration from a manifest document.
    pub fn from_json(value: &JsonValue) -> (r: Result<ClaspConfig, ClubError>)
        ensures
            r is Ok <==> decode_manifest(*value) is Some,
            r matches Ok(c) ==> c.wf() && Some(c@) == decode_manifest(*value),
            r matches Err(e) ==> e is ManifestReadFail,
            str_of(field(*value, "rootDir"@)) is None ==> read_failed(r, "rootDir not found"@),
            str_of(field(*value, "rootDir"@)) is Some && str_of(field(*value, "scriptId"@)) is None
                ==> read_failed(r, "scriptId not found"@),
            str_of(field(*value, "rootDir"@)) is Some && str_of(field(*value, "scriptId"@)) is Some
                && parents_of(*value) is None ==> read_failed(r, "parentId not found"@),
    {
        let root_dir = match get_field(value, &String::from_str("rootDir")) {
            Some(JsonValue::Str(s)) => s.clone(),
            _ => {
                return Err(read_fail("rootDir not found"));
            },
        };
        let script_id = match get_field(value, &String::from_str("scriptId")) {
            Some(JsonValue::Str(s)) => s.clone(),
            _ => {
                return Err(read_fail("scriptId not found"));
            },
        };
        let parent_ids = match get_field(value, &String::from_str("parentId")) {
            Some(JsonValue::Array(items)) => match read_strings(items) {
                Some(v) => v,
                None => {
                    return Err(read_fail("parentId not found"));
                },
            },
            _ => {
                return Err(read_fail("parentId not found"));
            },
        };
        let club_remotes = match get_field(value, &String::from_str("__club__")) {
            Some(JsonValue::Object(fs)) => match read_table(fs) {
                Some(t) => Some(t),
                None => {
                    return Err(read_fail("invalid remote entry"));
                },
            },
            _ => None,
        };
        Ok(ClaspConfig { root_dir, script_id, parent_ids, club_remotes })
    }
}

fn strings_json(v: &Vec<String>) -> (r: JsonValue)
    ensures
        encodes_strings(r, strings_view(v@)),
{
    let mut items: Vec<JsonValue> = Vec::new();
    let mut i: usize = 0;
    while i < v.len()
        invariant
            i <= v@.len(),
            items@.len() == i,
            forall|j: int| 0 <= j < i ==> is_str(#[trigger] items@[j], v@[j]@),
        decreases v@.len() - i,
    {
        items.push(JsonValue::Str(v[i].clone()));
        i = i + 1;
    }
    JsonValue::Array(items)
}

fn table_json(t: &RemoteTable) -> (r: JsonValue)
    requires
        t.wf(),
    ensures
        encodes_table(r, t@),
{
    let mut fs: Vec<(String, JsonValue)> = Vec::new();
    let n = t.len();
    let mut i: usize = 0;
    while i < n
        invariant
            n == t@.len(),
            t.wf(),
            i <= n,
            fs@.len() == i,
            forall|j: int| 0 <= j < i ==> (#[trigger] fs@[j]).0@ == t@[j].0 && is_str(fs@[j].1, t@[j].1),
        decreases n - i,
    {
        let (name, id) = t.get_index(i);
        fs.push((name.to_string(), JsonValue::Str(id.to_string())));
        i = i + 1;
    }
    JsonValue::Object(fs)
}

impl ClaspConfig {
    /// The manifest document of this configuration: `rootDir`, `scriptId`,
    /// `parentId`, and `__club__` when the remote table is present.
    pub fn to_json(&self) -> (r: JsonValue)
        requires
            self.wf(),
        ensures
            encodes_config(r, self@),
    {
        let mut fs: Vec<(String, JsonValue)> = Vec::new();
        fs.push((String::from_str("rootDir"), JsonValue::Str(self.root_dir.clone())));
        fs.push((String::from_str("scriptId"), JsonValue::Str(self.script_id.clone())));
        fs.push((String::from_str("parentId"), strings_json(&self.parent_ids)));
        match &self.club_remotes {
            Some(t) => {
                fs.push((String::from_str("__club__"), table_json(t)));
            },
            None => {},
        }
        JsonValue::Object(fs)
    }
}

proof fn lemma_table_of_encoded(fs: Seq<(String, JsonValue)>, t: Entries, i: int)
    requires
        table_ok(t),
        fs.len() == t.len(),
        forall|j: int| 0 <= j < t.len() ==> (#[trigger] fs[j]).0@ == t[j].0 && is_str(fs[j].1, t[j].1),
        0 <= i <= t.len(),
    ensures
        table_of(fs.subrange(0, i)) == Some(t.subrange(0, i)),
    decreases i,
{
    if i == 0 {
        assert(t.subrange(0, 0) =~= Seq::<(Seq<char>, Seq<char>)>::empty());
    } else {
        lemma_table_of_encoded(fs, t, i - 1);
        let pre = fs.subrange(0, i);
        assert(pre.drop_last() =~= fs.subrange(0, i - 1));
        let tp = t.subrange(0, i - 1);
        let k = t[i - 1].0;
        assert(valid_name(t[i - 1].0) && valid_id(t[i - 1].1));
        assert(!crate::table::has_key(tp, k)) by {
            if crate::table::has_key(tp, k) {
                let p = choose|p: int| 0 <= p < tp.len() && #[trigger] tp[p].0 == k;
                assert(t[p].0 == t[i - 1].0);
            }
        }
        assert(tp.push((k, t[i - 1].1)) =~= t.subrange(0, i));
    }
}

/// Writing a configuration as a manifest document and reading it back gives
/// the same root directory, script id, parent ids and remote table.
pub proof fn lemma_manifest_round_trip(c: ConfigView, v: JsonValue)
    requires
        c.remotes matches Some(t) ==> table_ok(t),
        encodes_config(v, c),
    ensures
        decode_manifest(v) == Some(c),
{
    reveal_strlit("rootDir");
    reveal_strlit("scriptId");
    reveal_strlit("parentId");
    reveal_strlit("__club__");
    let fs = v->Object_0@;
    assert("rootDir"@.len() == 7 && "scriptId"@.len() == 8 && "parentId"@.len() == 8);
    assert("rootDir"@ != "scriptId"@);
    assert("rootDir"@ != "parentId"@);
    assert("rootDir"@ != "__club__"@);
    assert("scriptId"@[0] == 's' && "parentId"@[0] == 'p' && "__club__"@[0] == '_');
    assert("scriptId"@ != "parentId"@);
    assert("scriptId"@ != "__club__"@);
    assert("parentId"@ != "__club__"@);
    let f1 = fs.drop_first();
    let f2 = f1.drop_first();
    let f3 = f2.drop_first();
    assert(field(v, "rootDir"@) == Some(fs[0].1));
    assert(field(v, "scriptId"@) == Some(fs[1].1)) by {
        assert(f1[0] == fs[1]);
        assert(crate::json::member(fs, "scriptId"@) == crate::json::member(f1, "scriptId"@));
    }
    assert(field(v, "parentId"@) == Some(fs[2].1)) by {
        assert(f1[0] == fs[1]);
        assert(f2[0] == fs[2]);
        assert(crate::json::member(fs, "parentId"@) == crate::json::member(f1, "parentId"@));
        assert(crate::json::member(f1, "parentId"@) == crate::json::member(f2, "parentId"@));
    }
    let items = fs[2].1->Array_0@;
    assert(strings_of(items) == Some(c.parent_ids)) by {
        assert(Seq::new(items.len(), |i: int| items[i]->Str_0@) =~= c.parent_ids);
    }
    match c.remotes {
        Some(t) => {
            assert(f1[0] == fs[1]);
            assert(f2[0] == fs[2]);
            assert(f3[0] == fs[3]);
            assert(crate::json::member(fs, "__club__"@) == crate::json::member(f1, "__club__"@));
            assert(crate::json::member(f1, "__club__"@) == crate::json::member(f2, "__club__"@));
            assert(crate::json::member(f2, "__club__"@) == crate::json::member(f3, "__club__"@));
            assert(field(v, "__club__"@) == Some(fs[3].1));
            let tfs = fs[3].1->Object_0@;
            lemma_table_of_encoded(tfs, t, t.len() as int);
            assert(tfs.subrange(0, t.len() as int) =~= tfs);
            assert(t.subrange(0, t.len() as int) =~= t);
        },
        None => {
            assert(f1[0] == fs[1]);
            assert(f2[0] == fs[2]);
            assert(f3.len() == 0);
            assert(crate::json::member(fs, "__club__"@) == crate::json::member(f1, "__club__"@));
            assert(crate::json::member(f1, "__club__"@) == crate::json::member(f2, "__club__"@));
            assert(crate::json::member(f2, "__club__"@) == crate::json::member(f3, "__club__"@));
            assert(field(v, "__club__"@) is None);
        },
    }
}

} // verus!
