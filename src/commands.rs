//! The remote-table commands, as transformations of the configuration.
use vstd::prelude::*;
use vstd::string::StrSliceExecFns;
use vstd::string::StringExecFns;

use crate::config::{ClaspConfig, ConfigView, Entries};
use crate::error::ClubError;
use crate::remote::{valid_id, valid_name, RemoteId, RemoteName};
use crate::table::{has_key, inserted, lookup, removed, table_ok, RemoteTable};

verus! {

proof fn lemma_main_is_valid()
    ensures
        valid_name("main"@),
{
    reveal_strlit("main");
    let m = "main"@;
    assert(m.len() == 4 && m[0] == 'm' && m[1] == 'a' && m[2] == 'i' && m[3] == 'n');
    assert forall|i: int| 0 <= i < m.len() implies #[trigger] crate::remote::is_remote_char(m[i]) by {
        assert(m[i] == 'm' || m[i] == 'a' || m[i] == 'i' || m[i] == 'n');
    }
}

/// `c` with `t` as its remote table.
pub open spec fn with_remotes(c: ConfigView, t: Entries) -> ConfigView {
    ConfigView { remotes: Some(t), ..c }
}

/// The outcome of `init`: a new table, seeded with `main` when the active
/// script id is a valid remote id.
pub open spec fn init_spec(c: ConfigView) -> Result<ConfigView, ClubError> {
    if c.remotes is Some {
        Err(ClubError::ClubAlreadySetup)
    } else if valid_id(c.script_id) {
        Ok(with_remotes(c, seq![("main"@, c.script_id)]))
    } else {
        Ok(with_remotes(c, Seq::empty()))
    }
}

/// The outcome of `list`: the table's pairs in order.
pub open spec fn list_spec(c: ConfigView) -> Result<Entries, ClubError> {
    match c.remotes {
        Some(t) => Ok(t),
        None => Err(ClubError::ClubNotSetup),
    }
}

/// The outcome of `set`.
pub open spec fn set_spec(c: ConfigView, name: Seq<char>, id: Seq<char>) -> Result<
    ConfigView,
    ClubError,
> {
    if !valid_name(name) {
        Err(ClubError::InvalidRemoteName)
    } else if !valid_id(id) {
        Err(ClubError::InvalidRemoteId)
    } else {
        match c.remotes {
            None => Err(ClubError::ClubNotSetup),
            Some(t) => Ok(with_remotes(c, inserted(t, name, id))),
        }
    }
}

/// The outcome of `remove`.
pub open spec fn remove_spec(c: ConfigView, name: Seq<char>) -> Result<ConfigView, ClubError> {
    if !valid_name(name) {
        Err(ClubError::InvalidRemoteName)
    } else {
        match c.remotes {
            None => Err(ClubError::ClubNotSetup),
            Some(t) => if has_key(t, name) {
                Ok(with_remotes(c, removed(t, name)))
            } else {
                Err(ClubError::RemoteNotFound)
            },
        }
    }
}

/// The outcome of `rename`: the pair leaves its place and comes back last,
/// under the new name.
pub open spec fn rename_spec(c: ConfigView, old_name: Seq<char>, new_name: Seq<char>) -> Result<
    ConfigView,
    ClubError,
> {
    if !valid_name(old_name) || !valid_name(new_name) {
        Err(ClubError::InvalidRemoteName)
    } else {
        match c.remotes {
            None => Err(ClubError::ClubNotSetup),
            Some(t) => if has_key(t, new_name) {
                Err(ClubError::RemoteAlreadyExists)
            } else if !has_key(t, old_name) {
                Err(ClubError::RemoteNotFound)
            } else {
                Ok(with_remotes(c, removed(t, old_name).push((new_name, lookup(t, old_name).unwrap()))))
            },
        }
    }
}

/// `r` is the outcome `s`, configuration or error.
pub open spec fn config_outcome(r: Result<ClaspConfig, ClubError>, s: Result<ConfigView, ClubError>) -> bool {
    match r {
        Ok(c) => c.wf() && s == Ok::<ConfigView, ClubError>(c@),
        Err(e) => s == Err::<ConfigView, ClubError>(e),
    }
}

/// Creates the remote table; returns the new configuration and whether
/// `main` was seeded from the active script id.
pub fn club_init(config: ClaspConfig) -> (r: Result<(ClaspConfig, bool), ClubError>)
    requires
        config.wf(),
    ensures
        r matches Ok((c, seeded)) ==> c.wf() && init_spec(config@) == Ok::<ConfigView, ClubError>(c@)
            && seeded == valid_id(config@.script_id),
        r matches Err(e) ==> init_spec(config@) == Err::<ConfigView, ClubError>(e),
{
    if config.club_remotes.is_some() {
        return Err(ClubError::ClubAlreadySetup);
    }
    let mut table = RemoteTable::new();
    let seeded = match RemoteId::try_from(config.script_id.clone()) {
        Ok(id) => {
            proof {
                lemma_main_is_valid();
            }
            let main = RemoteName::from_checked(String::from_str("main"));
            table.insert(main, id);
            true
        },
        Err(_) => false,
    };
    proof {
        if seeded {
            assert(table@ =~= seq![("main"@, config@.script_id)]);
        }
    }
    let ClaspConfig { root_dir, script_id, parent_ids, club_remotes: _ } = config;
    Ok((ClaspConfig { root_dir, script_id, parent_ids, club_remotes: Some(table) }, seeded))
}

/// One line of a listing.
#[derive(Debug)]
pub struct ListEntry {
    pub name: String,
    pub id: String,
    /// Set for the `main` remote only.
    pub emphasized: bool,
}

/// The remotes in table order, `main` marked for emphasis.
pub fn club_list(config: &ClaspConfig) -> (r: Result<Vec<ListEntry>, ClubError>)
    requires
        config.wf(),
    ensures
        r matches Err(e) ==> list_spec(config@) == Err::<Entries, ClubError>(e),
        r matches Ok(lines) ==> list_spec(config@) matches Ok(t) && lines@.len() == t.len()
            && forall|i: int|
            0 <= i < t.len() ==> (#[trigger] lines@[i]).name@ == t[i].0 && lines@[i].id@ == t[i].1
                && lines@[i].emphasized == (t[i].0 == "main"@),
{
    let t = match &config.club_remotes {
        Some(t) => t,
        None => {
            return Err(ClubError::ClubNotSetup);
        },
    };
    let main = String::from_str("main");
    let n = t.len();
    let mut lines: Vec<ListEntry> = Vec::new();
    let mut i: usize = 0;
    while i < n
        invariant
            n == t@.len(),
            t.wf(),
            main@ == "main"@,
            i <= n,
            lines@.len() == i,
            forall|j: int|
                0 <= j < i ==> (#[trigger] lines@[j]).name@ == t@[j].0 && lines@[j].id@ == t@[j].1
                    && lines@[j].emphasized == (t@[j].0 == "main"@),
        decreases n - i,
    {
        let (name, id) = t.get_index(i);
        let name = name.to_string();
        let emphasized = name == main;
        lines.push(ListEntry { name, id: id.to_string(), emphasized });
        i = i + 1;
    }
    Ok(lines)
}

/// Binds `name` to `id` in the remote table.
pub fn club_set(config: ClaspConfig, name: String, id: String) -> (r: Result<ClaspConfig, ClubError>)
    requires
        config.wf(),
    ensures
        config_outcome(r, set_spec(config@, name@, id@)),
{
    let remote_name = match RemoteName::try_from(name) {
        Ok(n) => n,
        Err(e) => {
            return Err(e);
        },
    };
    let remote_id = match RemoteId::try_from(id) {
        Ok(i) => i,
        Err(e) => {
            return Err(e);
        },
    };
    let ClaspConfig { root_dir, script_id, parent_ids, club_remotes } = config;
    match club_remotes {
        None => Err(ClubError::ClubNotSetup),
        Some(mut t) => {
            t.insert(remote_name, remote_id);
            Ok(ClaspConfig { root_dir, script_id, parent_ids, club_remotes: Some(t) })
        },
    }
}

/// Removes the remote `name`, keeping the others in order.
pub fn club_remove(config: ClaspConfig, name: String) -> (r: Result<ClaspConfig, ClubError>)
    requires
        config.wf(),
    ensures
        config_outcome(r, remove_spec(config@, name@)),
{
    let remote_name = match RemoteName::try_from(name) {
        Ok(n) => n,
        Err(e) => {
            return Err(e);
        },
    };
    let ClaspConfig { root_dir, script_id, parent_ids, club_remotes } = config;
    match club_remotes {
        None => Err(ClubError::ClubNotSetup),
        Some(mut t) => {
            match t.shift_remove(&remote_name) {
                None => Err(ClubError::RemoteNotFound),
                Some(_) => Ok(ClaspConfig { root_dir, script_id, parent_ids, club_remotes: Some(t) }),
            }
        },
    }
}

/// Moves the id of `old_name` to `new_name`, placed last in the table.
pub fn club_rename(config: ClaspConfig, old_name: String, new_name: String) -> (r: Result<
    ClaspConfig,
    ClubError,
>)
    requires
        config.wf(),
    ensures
        config_outcome(r, rename_spec(config@, old_name@, new_name@)),
{
    let old_remote = match RemoteName::try_from(old_name) {
        Ok(n) => n,
        Err(e) => {
            return Err(e);
        },
    };
    let new_remote = match RemoteName::try_from(new_name) {
        Ok(n) => n,
        Err(e) => {
            return Err(e);
        },
    };
    let ClaspConfig { root_dir, script_id, parent_ids, club_remotes } = config;
    match club_remotes {
        None => Err(ClubError::ClubNotSetup),
        Some(mut t) => {
            if t.contains_key(&new_remote) {
                return Err(ClubError::RemoteAlreadyExists);
            }
            let ghost t0 = t@;
            match t.shift_remove(&old_remote) {
                None => Err(ClubError::RemoteNotFound),
                Some(id) => {
                    proof {
                        lemma_absent_after_remove(t0, old_remote@, new_remote@);
                    }
                    t.insert(new_remote, id);
                    Ok(ClaspConfig { root_dir, script_id, parent_ids, club_remotes: Some(t) })
                },
            }
        },
    }
}

/// A key absent from a table stays absent when another is removed.
proof fn lemma_absent_after_remove(t: Entries, k: Seq<char>, other: Seq<char>)
    requires
        !has_key(t, other),
    ensures
        !has_key(removed(t, k), other),
{
    if has_key(t, k) {
        let p = crate::table::key_pos(t, k);
        let r = t.remove(p);
        if has_key(r, other) {
            let q = choose|q: int| 0 <= q < r.len() && #[trigger] r[q].0 == other;
            let qq = if q < p { q } else { q + 1 };
            assert(r[q] == t[qq]);
        }
    }
}

/// The outcome of the login command, from whether it exited successfully.
pub fn club_login(exited_ok: bool) -> (r: Result<(), ClubError>)
    ensures
        r is Ok <==> exited_ok,
        r matches Err(e) ==> e is ClaspError,
{
    if exited_ok {
        Ok(())
    } else {
        Err(ClubError::ClaspError(String::from_str("clasp login failed")))
    }
}

/// The manifest's path inside the directory `dir` (as a path join: no
/// separator is added after an empty directory or one ending in `/`).
pub open spec fn manifest_path(dir: Seq<char>) -> Seq<char> {
    if dir.len() == 0 {
        ".clasp.json"@
    } else if dir.last() == '/' {
        dir + ".clasp.json"@
    } else {
        dir + "/"@ + ".clasp.json"@
    }
}

/// The path of the manifest in the project directory `project_dir`.
pub fn get_manifest_path(project_dir: &str) -> (r: String)
    ensures
        r@ == manifest_path(project_dir@),
{
    let n = project_dir.unicode_len();
    if n == 0 {
        return String::from_str(".clasp.json");
    }
    let mut path = String::from_str(project_dir);
    if project_dir.get_char(n - 1) != '/' {
        path.append("/");
    }
    path.append(".clasp.json");
    path
}

proof fn lemma_key_gone_after_remove(t: Entries, k: Seq<char>)
    requires
        table_ok(t),
    ensures
        !has_key(removed(t, k), k),
{
    if has_key(t, k) {
        let p = crate::table::key_pos(t, k);
        let r = t.remove(p);
        if has_key(r, k) {
            let q = choose|q: int| 0 <= q < r.len() && #[trigger] r[q].0 == k;
            let qq = if q < p { q } else { q + 1 };
            assert(r[q] == t[qq]);
        }
    }
}

/// The command succeeded and the listing after it shows `name` with `id`.
pub open spec fn shows_pair(r: Result<ConfigView, ClubError>, name: Seq<char>, id: Seq<char>) -> bool {
    match r {
        Ok(c) => match list_spec(c) {
            Ok(l) => l.contains((name, id)),
            Err(_) => false,
        },
        Err(_) => false,
    }
}

/// The command succeeded and the listing after it does not show `name`.
pub open spec fn omits_name(r: Result<ConfigView, ClubError>, name: Seq<char>) -> bool {
    match r {
        Ok(c) => match list_spec(c) {
            Ok(l) => forall|i: int| 0 <= i < l.len() ==> (#[trigger] l[i]).0 != name,
            Err(_) => false,
        },
        Err(_) => false,
    }
}

/// After `set(name, id)` the listing shows `name` with `id`; after then
/// removing `name` the listing no longer shows it.
pub proof fn lemma_set_then_remove(c: ConfigView, name: Seq<char>, id: Seq<char>)
    requires
        c.remotes matches Some(t) && table_ok(t),
        valid_name(name),
        valid_id(id),
    ensures
        shows_pair(set_spec(c, name, id), name, id),
        omits_name(remove_spec(set_spec(c, name, id)->Ok_0, name), name),
{
    let t = c.remotes.unwrap();
    let l = inserted(t, name, id);
    crate::table::lemma_inserted_ok(t, name, id);
    if has_key(t, name) {
        let p = crate::table::key_pos(t, name);
        assert(l[p] == (name, id));
        assert(l[p].0 == name);
        assert(l.contains((name, id)));
    } else {
        assert(l[l.len() - 1] == (name, id));
        assert(l[l.len() - 1].0 == name);
        assert(l.contains((name, id)));
    }
    assert(has_key(l, name));
    assert(set_spec(c, name, id) == Ok::<ConfigView, ClubError>(with_remotes(c, l)));
    assert(list_spec(with_remotes(c, l)) == Ok::<Entries, ClubError>(l));
    lemma_key_gone_after_remove(l, name);
}

/// A second `init` fails: the table exists after the first.
pub proof fn lemma_init_twice(c: ConfigView)
    ensures
        init_spec(c) matches Ok(c2) ==> init_spec(c2) == Err::<ConfigView, ClubError>(
            ClubError::ClubAlreadySetup,
        ),
        c.remotes is Some ==> init_spec(c) == Err::<ConfigView, ClubError>(ClubError::ClubAlreadySetup),
{
}

/// After `rename(old, new)` the listing shows `new`, last, with the id that
/// `old` had, and no longer shows `old`.
pub proof fn lemma_rename_then_list(c: ConfigView, old_name: Seq<char>, new_name: Seq<char>)
    requires
        c.remotes matches Some(t) && table_ok(t) && has_key(t, old_name) && !has_key(t, new_name),
        valid_name(old_name),
        valid_name(new_name),
    ensures
        rename_spec(c, old_name, new_name) matches Ok(c2) && list_spec(c2) matches Ok(l) && l.len()
            == c.remotes.unwrap().len() && l.last() == (
            new_name,
            lookup(c.remotes.unwrap(), old_name).unwrap(),
        ) && !has_key(l, old_name),
{
    let t = c.remotes.unwrap();
    lemma_key_gone_after_remove(t, old_name);
    let r = removed(t, old_name);
    let l = r.push((new_name, lookup(t, old_name).unwrap()));
    assert(old_name != new_name);
    if has_key(l, old_name) {
        let q = choose|q: int| 0 <= q < l.len() && #[trigger] l[q].0 == old_name;
        if q < r.len() {
            assert(l[q] == r[q]);
        }
    }
}

/// Invalid arguments are rejected, never accepted or cut down: an id that is
/// not exactly the right length of allowed characters by `set`, and an
/// invalid name by `set`, `remove`, `rename` and `push`.
pub proof fn lemma_invalid_arguments_rejected(
    c: ConfigView,
    name: Seq<char>,
    id: Seq<char>,
    other: Seq<char>,
)
    ensures
        !valid_id(id) ==> set_spec(c, name, id) is Err,
        valid_name(name) && !valid_id(id) ==> set_spec(c, name, id) == Err::<ConfigView, ClubError>(
            ClubError::InvalidRemoteId,
        ),
        !valid_name(name) ==> set_spec(c, name, id) == Err::<ConfigView, ClubError>(
            ClubError::InvalidRemoteName,
        ),
        !valid_name(name) ==> remove_spec(c, name) == Err::<ConfigView, ClubError>(
            ClubError::InvalidRemoteName,
        ),
        !valid_name(name) ==> rename_spec(c, name, other) == Err::<ConfigView, ClubError>(
            ClubError::InvalidRemoteName,
        ),
        !valid_name(name) ==> rename_spec(c, other, name) == Err::<ConfigView, ClubError>(
            ClubError::InvalidRemoteName,
        ),
        !valid_name(name) ==> crate::push::push_targets(c, Some(name), false) is Err,
{
}

} // verus!
