//! Per-profile webview storage layout: each account profile gets its own
//! data and cache directories under the application's XDG directories.

use vstd::prelude::*;
use crate::platform::XdgPaths;
use crate::text::{has_prefix, join_path, joined, owned, path_join, same_text};
use crate::types::{copy_string, opt_string_view, valid_profile_id, AppError};

verus! {

/// Where profile data and caches live.
#[derive(Clone)]
pub struct StorageManager {
    base_data_dir: String,
    base_cache_dir: String,
}

impl StorageManager {
    /// The application data directory that profile directories live under.
    pub closed spec fn data_root(self) -> Seq<char> {
        self.base_data_dir@
    }

    /// The application cache directory that profile caches live under.
    pub closed spec fn cache_root(self) -> Seq<char> {
        self.base_cache_dir@
    }

    /// Lays profiles out under the data and cache directories of `paths`.
    pub fn new(paths: &XdgPaths) -> (r: Self)
        ensures
            r.data_root() == paths.data_dir@,
            r.cache_root() == paths.cache_dir@,
    {
        StorageManager {
            base_data_dir: copy_string(&paths.data_dir),
            base_cache_dir: copy_string(&paths.cache_dir),
        }
    }

    /// `<data dir>/profiles/<profile_id>`.
    pub fn get_profile_data_dir(&self, profile_id: &str) -> (r: String)
        ensures
            r@ == path_join(path_join(self.data_root(), "profiles"@), profile_id@),
    {
        let profiles = join_path(self.base_data_dir.as_str(), "profiles");
        join_path(profiles.as_str(), profile_id)
    }

    /// `<cache dir>/profiles/<profile_id>`.
    pub fn get_profile_cache_dir(&self, profile_id: &str) -> (r: String)
        ensures
            r@ == path_join(path_join(self.cache_root(), "profiles"@), profile_id@),
    {
        let profiles = join_path(self.base_cache_dir.as_str(), "profiles");
        join_path(profiles.as_str(), profile_id)
    }
}

/// Whether the directory `inner` lies inside the directory `outer`.
pub open spec fn is_inside(inner: Seq<char>, outer: Seq<char>) -> bool {
    has_prefix(inner, outer + "/"@)
}

proof fn lemma_join_separates(base: Seq<char>, a: Seq<char>, b: Seq<char>)
    requires
        valid_profile_id(a),
        valid_profile_id(b),
        a != b,
    ensures
        path_join(base, a) != path_join(base, b),
        !is_inside(path_join(base, a), path_join(base, b)),
{
    assert(a[0] != '/');
    assert(b[0] != '/');
    let prefix = if base.len() > 0 && base.last() != '/' {
        base + "/"@
    } else {
        base
    };
    let pa = prefix + a;
    let pb = prefix + b;
    assert(path_join(base, a) == pa);
    assert(path_join(base, b) == pb);
    if pa == pb {
        assert(pa.subrange(prefix.len() as int, pa.len() as int) =~= a);
        assert(pb.subrange(prefix.len() as int, pb.len() as int) =~= b);
    }
    if is_inside(pa, pb) {
        reveal_strlit("/");
        let outer = pb + "/"@;
        assert(outer.len() == pb.len() + 1);
        let n: int = (prefix.len() + b.len()) as int;
        assert(outer[n] == '/');
        assert(pa.subrange(0, outer.len() as int)[n] == outer[n]);
        assert(pa[n] == a[b.len() as int]);
        assert(a[b.len() as int] == '/');
    }
}

/// Profiles are isolated: two different valid profile ids never share a
/// data directory or a cache directory, and neither profile's directory
/// lies inside the other's.
pub proof fn profiles_get_separate_directories(sm: StorageManager, a: Seq<char>, b: Seq<char>)
    requires
        valid_profile_id(a),
        valid_profile_id(b),
        a != b,
    ensures
        path_join(path_join(sm.data_root(), "profiles"@), a) != path_join(
            path_join(sm.data_root(), "profiles"@),
            b,
        ),
        path_join(path_join(sm.cache_root(), "profiles"@), a) != path_join(
            path_join(sm.cache_root(), "profiles"@),
            b,
        ),
        !is_inside(
            path_join(path_join(sm.data_root(), "profiles"@), a),
            path_join(path_join(sm.data_root(), "profiles"@), b),
        ),
        !is_inside(
            path_join(path_join(sm.cache_root(), "profiles"@), a),
            path_join(path_join(sm.cache_root(), "profiles"@), b),
        ),
{
    lemma_join_separates(path_join(sm.data_root(), "profiles"@), a, b);
    lemma_join_separates(path_join(sm.cache_root(), "profiles"@), a, b);
}

/// Secrets kept in a JSON object file, `secrets.json`.
pub struct FileSecretStore {
    path: String,
}

impl FileSecretStore {
    /// The file the secrets are kept in.
    pub closed spec fn file(self) -> Seq<char> {
        self.path@
    }

    /// A store kept in `<base_dir>/secrets.json`.
    pub fn new(base_dir: &str) -> (r: Self)
        ensures
            r.file() == path_join(base_dir@, "secrets.json"@),
    {
        FileSecretStore { path: join_path(base_dir, "secrets.json") }
    }

    /// The file the secrets are kept in.
    pub fn path(&self) -> (r: &str)
        ensures
            r@ == self.file(),
    {
        self.path.as_str()
    }
}


// ---------------------------------------------------------------------------
// The secrets file

/// A value of the secrets file: a string, or any other JSON value, held as
/// its JSON text so that it is written back as it was.
pub enum SecretValue {
    Text(String),
    Json(String),
}

/// One member of the secrets object.
pub struct SecretEntry {
    pub key: String,
    pub value: SecretValue,
}

/// The parsed secrets file: a JSON object, or another JSON value (held as
/// its JSON text), which is kept as it is.
pub enum SecretsDocument {
    Object(Vec<SecretEntry>),
    Other(String),
}

/// What was found where the secrets file should be.
pub enum StoredSecrets {
    /// There is no secrets file.
    Missing,
    /// The file holds no JSON; the parser's message.
    Unparsable(String),
    Parsed(SecretsDocument),
}

/// A member as a key and a value, the value as whether it is a string and
/// its text.
pub type SecretView = (Seq<char>, (bool, Seq<char>));

/// The view of a value.
pub open spec fn value_view(v: SecretValue) -> (bool, Seq<char>) {
    match v {
        SecretValue::Text(s) => (true, s@),
        SecretValue::Json(s) => (false, s@),
    }
}

/// The view of a member.
pub open spec fn entry_view(e: SecretEntry) -> SecretView {
    (e.key@, value_view(e.value))
}

/// The views of the members, in order.
pub open spec fn entries_view(v: Seq<SecretEntry>) -> Seq<SecretView> {
    v.map_values(|e: SecretEntry| entry_view(e))
}

/// The value of `key` among the members: the last member with that key
/// wins, as when the file is parsed.
pub open spec fn secret_in(s: Seq<SecretView>, key: Seq<char>) -> Option<(bool, Seq<char>)>
    decreases s.len(),
{
    if s.len() == 0 {
        None
    } else if s.last().0 == key {
        Some(s.last().1)
    } else {
        secret_in(s.drop_last(), key)
    }
}

/// Whether a member is for another key than `key`.
pub open spec fn other_key(key: Seq<char>) -> spec_fn(SecretView) -> bool {
    |e: SecretView| e.0 != key
}

/// The members without any for `key`.
pub open spec fn without_key(s: Seq<SecretView>, key: Seq<char>) -> Seq<SecretView> {
    s.filter(other_key(key))
}

/// The members with `key` set to the string `value`.
pub open spec fn with_text(s: Seq<SecretView>, key: Seq<char>, value: Seq<char>) -> Seq<SecretView> {
    without_key(s, key).push((key, (true, value)))
}

/// The secrets file as the contracts speak of it.
pub enum SecretsView {
    Object(Seq<SecretView>),
    Other(Seq<char>),
}

impl View for SecretsDocument {
    type V = SecretsView;

    open spec fn view(&self) -> SecretsView {
        match self {
            SecretsDocument::Object(v) => SecretsView::Object(entries_view(v@)),
            SecretsDocument::Other(s) => SecretsView::Other(s@),
        }
    }
}

/// The string stored under `key`: `None` when the key is absent, its value
/// is not a string, or the file is not an object.
pub open spec fn doc_text(d: SecretsView, key: Seq<char>) -> Option<Seq<char>> {
    match d {
        SecretsView::Object(s) => match secret_in(s, key) {
            Some(v) => if v.0 {
                Some(v.1)
            } else {
                None
            },
            None => None,
        },
        SecretsView::Other(_) => None,
    }
}

/// The file after storing the string `value` under `key`; a file that is
/// not an object is left as it is.
pub open spec fn set_in(d: SecretsView, key: Seq<char>, value: Seq<char>) -> SecretsView {
    match d {
        SecretsView::Object(s) => SecretsView::Object(with_text(s, key, value)),
        SecretsView::Other(x) => SecretsView::Other(x),
    }
}

/// The file after removing `key`; a file that is not an object is left as
/// it is.
pub open spec fn remove_in(d: SecretsView, key: Seq<char>) -> SecretsView {
    match d {
        SecretsView::Object(s) => SecretsView::Object(without_key(s, key)),
        SecretsView::Other(x) => SecretsView::Other(x),
    }
}

fn copy_value(v: &SecretValue) -> (r: SecretValue)
    ensures
        value_view(r) == value_view(*v),
{
    match v {
        SecretValue::Text(s) => SecretValue::Text(copy_string(s)),
        SecretValue::Json(s) => SecretValue::Json(copy_string(s)),
    }
}

fn entries_without(entries: &Vec<SecretEntry>, key: &str) -> (r: Vec<SecretEntry>)
    ensures
        entries_view(r@) == without_key(entries_view(entries@), key@),
{
    let ghost all = entries_view(entries@);
    let ghost keep = other_key(key@);
    let mut kept: Vec<SecretEntry> = Vec::new();
    let mut i: usize = 0;
    while i < entries.len()
        invariant
            i <= entries@.len(),
            all == entries_view(entries@),
            entries_view(kept@) == all.take(i as int).filter(keep),
            keep == other_key(key@),
        decreases entries@.len() - i,
    {
        let ghost t = all.take(i + 1);
        assert(t.drop_last() =~= all.take(i as int));
        assert(t.last() == all[i as int]);
        assert(t.filter(keep) == if keep(t.last()) {
            t.drop_last().filter(keep).push(t.last())
        } else {
            t.drop_last().filter(keep)
        }) by {
            reveal_with_fuel(Seq::<_>::filter, 1);
        }
        let ghost before = entries_view(kept@);
        if !same_text(entries[i].key.as_str(), key) {
            let e = SecretEntry { key: copy_string(&entries[i].key), value: copy_value(&entries[i].value) };
            kept.push(e);
            assert(entries_view(kept@) =~= before.push(entry_view(e)));
        }
        i = i + 1;
    }
    assert(all.take(i as int) =~= all);
    kept
}

impl SecretsDocument {
    /// An empty object.
    pub fn empty() -> (r: Self)
        ensures
            r@ == SecretsView::Object(seq![]),
    {
        let r = SecretsDocument::Object(Vec::new());
        assert(entries_view(Seq::<SecretEntry>::empty()) =~= seq![]);
        r
    }

    /// The string stored under `key`.
    pub fn get_text(&self, key: &str) -> (r: Option<String>)
        ensures
            opt_string_view(r) == doc_text(self@, key@),
    {
        match self {
            SecretsDocument::Other(_) => None,
            SecretsDocument::Object(entries) => {
                let ghost all = entries_view(entries@);
                assert(all.take(all.len() as int) =~= all);
                let mut i: usize = entries.len();
                while i > 0
                    invariant
                        i <= entries@.len(),
                        all == entries_view(entries@),
                        self@ == SecretsView::Object(all),
                        secret_in(all, key@) == secret_in(all.take(i as int), key@),
                    decreases i,
                {
                    let ghost t = all.take(i as int);
                    assert(t.drop_last() =~= all.take(i - 1));
                    i = i - 1;
                    assert(t.last() == entry_view(entries@[i as int]));
                    if same_text(entries[i].key.as_str(), key) {
                        assert(secret_in(t, key@) == Some(value_view(entries@[i as int].value)));
                        let r = match &entries[i].value {
                            SecretValue::Text(s) => Some(copy_string(s)),
                            SecretValue::Json(_) => None,
                        };
                        return r;
                    }
                }
                None
            },
        }
    }

    /// Stores the string `value` under `key`, replacing what was there; a
    /// document that is not an object is left as it is.
    pub fn set_text(&mut self, key: &str, value: &str)
        ensures
            final(self)@ == set_in(old(self)@, key@, value@),
    {
        let updated = match self {
            SecretsDocument::Object(entries) => {
                let mut kept = entries_without(entries, key);
                let ghost before = entries_view(kept@);
                let e = SecretEntry { key: owned(key), value: SecretValue::Text(owned(value)) };
                kept.push(e);
                assert(entries_view(kept@) =~= before.push(entry_view(e)));
                Some(kept)
            },
            SecretsDocument::Other(_) => None,
        };
        if let Some(v) = updated {
            *self = SecretsDocument::Object(v);
        }
    }

    /// Removes `key`; a document that is not an object is left as it is.
    pub fn remove_key(&mut self, key: &str)
        ensures
            final(self)@ == remove_in(old(self)@, key@),
    {
        let updated = match self {
            SecretsDocument::Object(entries) => Some(entries_without(entries, key)),
            SecretsDocument::Other(_) => None,
        };
        if let Some(v) = updated {
            *self = SecretsDocument::Object(v);
        }
    }
}

/// The error for a secrets file that does not parse.
pub open spec fn unparsable_secrets_message(e: Seq<char>) -> Seq<char> {
    "Failed to parse secrets JSON: "@ + e
}

impl FileSecretStore {
    /// The string stored under `key`, given what the secrets file holds:
    /// nothing without a file, an error when it does not parse.
    pub fn get(&self, stored: StoredSecrets, key: &str) -> (r: Result<Option<String>, AppError>)
        ensures
            match stored {
                StoredSecrets::Missing => r matches Ok(None),
                StoredSecrets::Unparsable(e) => r matches Err(AppError::Storage(m)) && m@
                    == unparsable_secrets_message(e@),
                StoredSecrets::Parsed(d) => r matches Ok(v) && opt_string_view(v) == doc_text(
                    d@,
                    key@,
                ),
            },
    {
        match stored {
            StoredSecrets::Missing => Ok(None),
            StoredSecrets::Unparsable(e) => Err(
                AppError::Storage(joined("Failed to parse secrets JSON: ", e.as_str())),
            ),
            StoredSecrets::Parsed(d) => Ok(d.get_text(key)),
        }
    }

    /// The secrets file to write after storing `value` under `key`: a file
    /// that is missing or does not parse starts as an empty object.
    pub fn set(&self, stored: StoredSecrets, key: &str, value: &str) -> (r: SecretsDocument)
        ensures
            r@ == match stored {
                StoredSecrets::Parsed(d) => set_in(d@, key@, value@),
                _ => set_in(SecretsView::Object(seq![]), key@, value@),
            },
    {
        let mut doc = match stored {
            StoredSecrets::Parsed(d) => d,
            _ => SecretsDocument::empty(),
        };
        doc.set_text(key, value);
        doc
    }

    /// The secrets file to write after removing `key`: nothing to write
    /// without a file, an error when it does not parse.
    pub fn delete(&self, stored: StoredSecrets, key: &str) -> (r: Result<Option<SecretsDocument>, AppError>)
        ensures
            match stored {
                StoredSecrets::Missing => r matches Ok(None),
                StoredSecrets::Unparsable(e) => r matches Err(AppError::Storage(m)) && m@
                    == unparsable_secrets_message(e@),
                StoredSecrets::Parsed(d) => r matches Ok(Some(nd)) && nd@ == remove_in(d@, key@),
            },
    {
        match stored {
            StoredSecrets::Missing => Ok(None),
            StoredSecrets::Unparsable(e) => Err(
                AppError::Storage(joined("Failed to parse secrets JSON: ", e.as_str())),
            ),
            StoredSecrets::Parsed(mut d) => {
                d.remove_key(key);
                Ok(Some(d))
            },
        }
    }
}

proof fn lemma_secret_without(s: Seq<SecretView>, key: Seq<char>, other: Seq<char>)
    ensures
        secret_in(without_key(s, key), other) == if other == key {
            None
        } else {
            secret_in(s, other)
        },
    decreases s.len(),
{
    let keep = other_key(key);
    reveal_with_fuel(Seq::<_>::filter, 1);
    if s.len() > 0 {
        lemma_secret_without(s.drop_last(), key, other);
        let rest = s.drop_last().filter(keep);
        if keep(s.last()) {
            assert(s.filter(keep) == rest.push(s.last()));
            assert(rest.push(s.last()).drop_last() =~= rest);
        } else {
            assert(s.filter(keep) == rest);
        }
    }
}

/// Reading a key gives back the string last stored under it, and storing
/// under one key leaves what every other key reads unchanged. (A secrets file
/// that holds a JSON value other than an object is left as it is, so only an
/// object gives back what was stored.)
pub proof fn read_gives_back_the_stored_secret(
    d: SecretsView,
    key: Seq<char>,
    value: Seq<char>,
    other: Seq<char>,
)
    ensures
        d is Object ==> doc_text(set_in(d, key, value), key) == Some(value),
        other != key ==> doc_text(set_in(d, key, value), other) == doc_text(d, other),
{
    if let SecretsView::Object(s) = d {
        lemma_secret_without(s, key, other);
        assert(with_text(s, key, value).drop_last() =~= without_key(s, key));
    }
}

/// After a key is deleted it reads nothing, and every other key reads what
/// it read before.
pub proof fn deleted_secret_reads_nothing(d: SecretsView, key: Seq<char>, other: Seq<char>)
    ensures
        doc_text(remove_in(d, key), key) == None::<Seq<char>>,
        other != key ==> doc_text(remove_in(d, key), other) == doc_text(d, other),
{
    if let SecretsView::Object(s) = d {
        lemma_secret_without(s, key, key);
        lemma_secret_without(s, key, other);
    }
}

} // verus!
