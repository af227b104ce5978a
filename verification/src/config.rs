//! The library's configuration: the stores documents are kept in, and where
//! the catalog and the local cache live.

use vstd::prelude::*;
use vstd::utf8::{decode_utf8, encode_utf8, is_char_boundary};

use crate::commands::update::names_view;
use crate::path::{expand_home, home_expanded, is_absolute, is_absolute_path, join_path, joined};
use crate::text::{blank, chars_of, is_blank};

verus! {

#[verifier::external_type_specification]
#[verifier::external_body]
pub struct ExProjectDirs(directories::ProjectDirs);

/// `directories::ProjectDirs::from`: the platform's directories for an
/// application. What comes back depends on the environment (`$HOME`, the
/// XDG variables), so nothing is claimed of it.
#[verifier::external_body]
fn project_dirs(
    qualifier: &str,
    organization: &str,
    application: &str,
) -> Option<directories::ProjectDirs> {
    directories::ProjectDirs::from(qualifier, organization, application)
}

/// `directories::ProjectDirs::config_dir`, as text. The directory was fixed
/// when the value was made from the environment, so nothing is claimed of it.
#[verifier::external_body]
fn config_dir_of(dirs: &directories::ProjectDirs) -> String {
    dirs.config_dir().to_string_lossy().into_owned()
}

/// What `{:?}` makes of a string: the text quoted, with escapes.
pub uninterp spec fn debug_quoted(s: Seq<char>) -> Seq<char>;

/// `<str as Debug>::fmt`, collected into a string.
#[verifier::external_body]
fn quoted(s: &str) -> (r: String)
    ensures
        r@ == debug_quoted(s@),
{
    format!("{s:?}")
}

/// Why a configuration cannot be used.
#[derive(Debug, Clone, PartialEq, Eq)]
pub enum ConfigError {
    /// The platform gave no home to put the configuration under.
    NoConfigDir,
    /// `stores` is empty; the configuration file is named so it can be fixed.
    NoStores { config_file: String },
    /// A store that is blank.
    EmptyPath,
    /// A store of the form `name:path`, left from the rclone days.
    RcloneRemote { store: String },
    /// A store that is not an absolute path.
    RelativePath { store: String },
}

/// Which rule a store breaks.
#[derive(Debug, Clone, Copy, PartialEq, Eq)]
pub enum StoreProblem {
    Empty,
    Rclone,
    Relative,
}

/// `name:rest` where `name` holds no `/`: an rclone remote rather than a
/// path with a colon somewhere in it.
pub open spec fn rclone_like(t: Seq<char>) -> bool {
    exists|i: int|
        0 <= i < t.len() && t[i] == ':' && forall|k: int| 0 <= k < i ==> #[trigger] t[k] != '/'
}

/// The first rule a store breaks, if any: it must not be blank, must not be
/// an rclone remote, and must be absolute.
pub open spec fn store_problem(t: Seq<char>) -> Option<StoreProblem> {
    if is_blank(t) {
        Some(StoreProblem::Empty)
    } else if rclone_like(t) {
        Some(StoreProblem::Rclone)
    } else if !is_absolute(t) {
        Some(StoreProblem::Relative)
    } else {
        None
    }
}

/// `e` is the error that reports `store`'s problem.
pub open spec fn reports(e: ConfigError, store: Seq<char>) -> bool {
    match store_problem(store) {
        Some(StoreProblem::Empty) => e is EmptyPath,
        Some(StoreProblem::Rclone) => e matches ConfigError::RcloneRemote { store: s } && s@ == store,
        Some(StoreProblem::Relative) => e matches ConfigError::RelativePath { store: s } && s@
            == store,
        None => false,
    }
}

/// The position of the first store with a problem.
pub open spec fn first_bad_store(stores: Seq<Seq<char>>) -> Option<int>
    decreases stores.len(),
{
    if stores.len() == 0 {
        None
    } else {
        match first_bad_store(stores.drop_last()) {
            Some(i) => Some(i),
            None => if store_problem(stores.last()) is Some {
                Some(stores.len() - 1)
            } else {
                None
            },
        }
    }
}

/// The text an error is shown with.
pub open spec fn message_text(e: ConfigError) -> Seq<char> {
    match e {
        ConfigError::NoConfigDir => "cannot determine platform config directories"@,
        ConfigError::NoStores { config_file } => "no stores configured.\nset `stores` in "@
            + config_file@
            + "\nfor example: stores = [\"/home/you/library\", \"/mnt/usb/library\"]"@,
        ConfigError::EmptyPath => "empty path in `stores`"@,
        ConfigError::RcloneRemote { store } => debug_quoted(store@)
            + " looks like an rclone remote, which doclib no longer uses.\nstores are plain folders now \u{2014} mount the disk and use its path, for example \"/mnt/usb/library\"."@,
        ConfigError::RelativePath { store } => "store "@ + debug_quoted(store@)
            + " is a relative path, so where files go depends on the directory you run doclib from.\nuse an absolute path, for example \"/home/you/library\"."@,
    }
}

impl ConfigError {
    /// The error as a person reads it.
    pub fn message(&self) -> (r: String)
        ensures
            r@ == message_text(*self),
    {
        match self {
            ConfigError::NoConfigDir => String::from_str(
                "cannot determine platform config directories",
            ),
            ConfigError::NoStores { config_file } => {
                let mut r = String::from_str("no stores configured.\nset `stores` in ");
                r.append(config_file.as_str());
                r.append(
                    "\nfor example: stores = [\"/home/you/library\", \"/mnt/usb/library\"]",
                );
                r
            },
            ConfigError::EmptyPath => String::from_str("empty path in `stores`"),
            ConfigError::RcloneRemote { store } => {
                let mut r = quoted(store.as_str());
                r.append(
                    " looks like an rclone remote, which doclib no longer uses.\nstores are plain folders now \u{2014} mount the disk and use its path, for example \"/mnt/usb/library\".",
                );
                r
            },
            ConfigError::RelativePath { store } => {
                let mut r = String::from_str("store ");
                let q = quoted(store.as_str());
                r.append(q.as_str());
                r.append(
                    " is a relative path, so where files go depends on the directory you run doclib from.\nuse an absolute path, for example \"/home/you/library\".",
                );
                r
            },
        }
    }
}

/// Whether `name:rest` with a `/`-free `name` starts the text.
fn looks_like_remote(t: &Vec<char>) -> (r: bool)
    ensures
        r == rclone_like(t@),
{
    let mut i: usize = 0;
    while i < t.len()
        invariant
            i <= t.len(),
            forall|k: int| 0 <= k < i ==> t@[k] != '/' && t@[k] != ':',
        decreases t.len() - i,
    {
        if t[i] == ':' {
            assert(forall|k: int| 0 <= k < i ==> #[trigger] t@[k] != '/');
            return true;
        }
        if t[i] == '/' {
            assert forall|j: int| 0 <= j < t@.len() && t@[j] == ':' implies !(forall|k: int|
                0 <= k < j ==> #[trigger] t@[k] != '/') by {
                assert(j > i);
                assert(t@[i as int] == '/');
            }
            return false;
        }
        i += 1;
    }
    false
}

/// A store must be a non-blank absolute path. A relative one resolves
/// against the current directory, so the same command run from two shells
/// would use two different libraries; `name:path` is an rclone remote from an
/// older configuration, and is named as such.
pub fn validate_store(store: &str) -> (r: Result<(), ConfigError>)
    ensures
        r is Ok <==> store_problem(store@) is None,
        r matches Err(e) ==> reports(e, store@),
{
    if blank(store) {
        return Err(ConfigError::EmptyPath);
    }
    let cs = chars_of(store);
    if looks_like_remote(&cs) {
        return Err(ConfigError::RcloneRemote { store: store.to_owned() });
    }
    if !is_absolute_path(store) {
        return Err(ConfigError::RelativePath { store: store.to_owned() });
    }
    Ok(())
}

/// The path of the configuration file: `config.toml` in the platform's
/// configuration directory for doclib. Fails when the platform has no home
/// to put one under.
pub fn config_path() -> (r: Result<String, ConfigError>)
    ensures
        r matches Err(e) ==> e is NoConfigDir,
        r matches Ok(p) ==> exists|dir: Seq<char>| p@ == joined(dir, "config.toml"@),
{
    match project_dirs("", "", "doclib") {
        Some(dirs) => {
            let dir = config_dir_of(&dirs);
            Ok(join_path(dir.as_str(), "config.toml"))
        },
        None => Err(ConfigError::NoConfigDir),
    }
}

/// `remote` was a single string, but people reasonably write a list once
/// they learn about several stores.
#[derive(Debug, Clone, PartialEq, Eq)]
pub enum OneOrMany {
    One(String),
    Many(Vec<String>),
}

pub open spec fn one_or_many_items(v: Option<OneOrMany>) -> Seq<Seq<char>> {
    match v {
        Some(OneOrMany::One(s)) => seq![s@],
        Some(OneOrMany::Many(vs)) => names_view(vs@),
        None => Seq::empty(),
    }
}

impl OneOrMany {
    /// Every value given, in order.
    pub fn into_vec(self) -> (r: Vec<String>)
        ensures
            names_view(r@) == one_or_many_items(Some(self)),
    {
        match self {
            OneOrMany::One(value) => {
                let r = vec![value];
                assert(names_view(r@) =~= one_or_many_items(Some(OneOrMany::One(value))));
                r
            },
            OneOrMany::Many(values) => values,
        }
    }
}

/// The entries that are not blank, in order.
pub open spec fn non_blank(s: Seq<Seq<char>>) -> Seq<Seq<char>>
    decreases s.len(),
{
    if s.len() == 0 {
        s
    } else if is_blank(s.last()) {
        non_blank(s.drop_last())
    } else {
        non_blank(s.drop_last()).push(s.last())
    }
}

/// The store a library has when nothing else is configured.
pub open spec fn default_store_path(home: Option<Seq<char>>) -> Seq<char> {
    home_expanded("~/doclib"@, home)
}

pub open spec fn opt_view(home: Option<&str>) -> Option<Seq<char>> {
    match home {
        Some(h) => Some(h@),
        None => None,
    }
}

/// Where a library lives unless told otherwise: `~/doclib`, with `~`
/// resolved against `home` (the value of `$HOME`). Safe to default to: under
/// a home it is an absolute path in the user's own directory.
pub fn default_store(home: Option<&str>) -> (r: String)
    ensures
        r@ == default_store_path(opt_view(home)),
{
    expand_home("~/doclib", home)
}

/// Bytes the default cache may hold before pruning: 20 GiB.
pub const DEFAULT_CACHE_MAX_BYTES: u64 = 21474836480;

/// Text that `joined` puts first.
pub open spec fn shard_of(hash: Seq<char>) -> Seq<char> {
    decode_utf8(encode_utf8(hash).subrange(0, 2))
}

/// Whether the first two bytes of a hash can be sliced off as text; a slice
/// anywhere but at a character boundary panics.
pub open spec fn can_shard(hash: Seq<char>) -> bool {
    encode_utf8(hash).len() >= 2 && is_char_boundary(encode_utf8(hash), 2)
}

/// The first two bytes of a hash, as text.
fn shard(hash: &str) -> (r: String)
    requires
        can_shard(hash@),
    ensures
        r@ == shard_of(hash@),
{
    let (head, _tail) = hash.split_at(2);
    proof {
        broadcast use vstd::utf8::encode_utf8_decode_utf8;

        assert(decode_utf8(encode_utf8(head@)) == head@);
    }
    head.to_owned()
}

/// `<hash>.<ext>`.
pub open spec fn file_name_of(hash: Seq<char>, ext: Seq<char>) -> Seq<char> {
    hash + "."@ + ext
}

/// No extension has two openers: the entries read like a map keyed by
/// extension.
pub open spec fn openers_distinct(openers: Seq<(String, String)>) -> bool {
    forall|i: int, j: int| 0 <= i < j < openers.len() ==> openers[i].0@ != openers[j].0@
}

/// Everything doclib is configured with.
#[derive(Debug, Clone)]
pub struct Config {
    /// Every folder the library is stored in. Order is read preference.
    pub stores: Vec<String>,
    /// Superseded by `stores`; read from older configuration files.
    pub remotes: Vec<String>,
    /// Superseded by `stores`; read from older configuration files.
    pub remote: Option<OneOrMany>,
    /// Cache eviction ceiling in bytes. 0 disables pruning.
    pub cache_max_bytes: u64,
    /// Per-extension opener override, by extension, one entry per extension.
    pub openers: Vec<(String, String)>,
    /// Where the catalog and the cache live.
    pub data_dir: String,
}

impl Config {
    /// The configuration written on first run: the default store, a 20 GiB
    /// cache, and PDFs opened with okular.
    pub fn default_for_home(home: Option<&str>) -> (r: Config)
        ensures
            names_view(r.stores@) == seq![default_store_path(opt_view(home))],
            r.remotes@.len() == 0,
            r.remote is None,
            r.cache_max_bytes == DEFAULT_CACHE_MAX_BYTES,
            r.openers@.len() == 1,
            r.openers@[0].0@ == "pdf"@,
            r.openers@[0].1@ == "okular"@,
            openers_distinct(r.openers@),
            r.data_dir@.len() == 0,
    {
        let store = default_store(home);
        let stores = vec![store];
        let openers = vec![(String::from_str("pdf"), String::from_str("okular"))];
        let r = Config {
            stores,
            remotes: Vec::new(),
            remote: None,
            cache_max_bytes: DEFAULT_CACHE_MAX_BYTES,
            openers,
            data_dir: String::new(),
        };
        assert(names_view(r.stores@) =~= seq![default_store_path(opt_view(home))]);
        r
    }

    /// Every store must be usable, and there must be at least one.
    pub fn validate_stores(&self) -> (r: Result<(), ConfigError>)
        ensures
            self.stores@.len() == 0 ==> (r matches Err(e) && (e is NoStores || e is NoConfigDir)),
            self.stores@.len() > 0 ==> match first_bad_store(names_view(self.stores@)) {
                Some(i) => r matches Err(e) && reports(e, self.stores@[i]@),
                None => r is Ok,
            },
    {
        if self.stores.len() == 0 {
            return match config_path() {
                Ok(file) => Err(ConfigError::NoStores { config_file: file }),
                Err(e) => Err(e),
            };
        }
        let ghost names = names_view(self.stores@);
        let mut i: usize = 0;
        while i < self.stores.len()
            invariant
                i <= self.stores@.len(),
                names == names_view(self.stores@),
                first_bad_store(names.take(i as int)) is None,
            decreases self.stores.len() - i,
        {
            assert(names.take(i as int + 1).drop_last() =~= names.take(i as int));
            let checked = validate_store(self.stores[i].as_str());
            match checked {
                Err(e) => {
                    proof {
                        lemma_first_bad_prefix(names, i as int + 1);
                    }
                    return Err(e);
                },
                Ok(()) => {},
            }
            i += 1;
        }
        assert(names.take(i as int) =~= names);
        Ok(())
    }

    /// The catalog database: `catalog.db` in the data directory.
    pub fn db_path(&self) -> (r: String)
        ensures
            r@ == joined(self.data_dir@, "catalog.db"@),
    {
        join_path(self.data_dir.as_str(), "catalog.db")
    }

    /// The local cache: `cache` in the data directory.
    pub fn cache_dir(&self) -> (r: String)
        ensures
            r@ == joined(self.data_dir@, "cache"@),
    {
        join_path(self.data_dir.as_str(), "cache")
    }

    /// Content-addressed cache location: a directory named by the hash's
    /// first two bytes keeps directories small.
    pub fn cache_path(&self, hash: &str, ext: &str) -> (r: String)
        requires
            can_shard(hash@),
        ensures
            r@ == joined(
                joined(joined(self.data_dir@, "cache"@), shard_of(hash@)),
                file_name_of(hash@, ext@),
            ),
    {
        let dir = self.cache_dir();
        let sh = shard(hash);
        let sub = join_path(dir.as_str(), sh.as_str());
        let mut name = hash.to_owned();
        name.append(".");
        name.append(ext);
        join_path(sub.as_str(), name.as_str())
    }

    /// Where a document sits inside every store, the same in each since it
    /// is derived from the content hash: `<shard>/<hash>.<ext>`.
    pub fn stored_path(&self, hash: &str, ext: &str) -> (r: String)
        requires
            can_shard(hash@),
        ensures
            r@ == shard_of(hash@) + "/"@ + file_name_of(hash@, ext@),
    {
        let mut r = shard(hash);
        r.append("/");
        r.append(hash);
        r.append(".");
        r.append(ext);
        r
    }

    /// Configurations written against the rclone version used `remotes` /
    /// `remote`. An explicit `stores` list wins and the old keys are dropped;
    /// otherwise their non-blank entries become the stores as they are, so
    /// that `validate_stores` reports a `name:path` remote instead of it
    /// vanishing in a quiet migration.
    pub fn absorb_legacy_keys(&mut self)
        ensures
            final(self).remotes@.len() == 0,
            final(self).remote is None,
            final(self).cache_max_bytes == old(self).cache_max_bytes,
            final(self).openers == old(self).openers,
            final(self).data_dir == old(self).data_dir,
            old(self).stores@.len() > 0 ==> final(self).stores == old(self).stores,
            old(self).stores@.len() == 0 ==> names_view(final(self).stores@) == non_blank(
                names_view(old(self).remotes@) + one_or_many_items(old(self).remote),
            ),
    {
        let mut remotes: Vec<String> = Vec::new();
        std::mem::swap(&mut remotes, &mut self.remotes);
        let mut remote: Option<OneOrMany> = None;
        std::mem::swap(&mut remote, &mut self.remote);
        if self.stores.len() > 0 {
            return;
        }
        let mut legacy: Vec<String> = remotes;
        match remote {
            Some(r) => {
                let extra = r.into_vec();
                let ghost before = names_view(legacy@);
                let mut extra = extra;
                legacy.append(&mut extra);
                assert(names_view(legacy@) =~= before + one_or_many_items(old(self).remote));
            },
            None => {
                assert(names_view(legacy@) =~= names_view(legacy@) + one_or_many_items(
                    old(self).remote,
                ));
            },
        }
        let ghost all = names_view(legacy@);
        let mut kept: Vec<String> = Vec::new();
        let mut i: usize = 0;
        while i < legacy.len()
            invariant
                i <= legacy@.len(),
                all == names_view(legacy@),
                names_view(kept@) == non_blank(all.take(i as int)),
            decreases legacy.len() - i,
        {
            assert(all.take(i as int + 1).drop_last() =~= all.take(i as int));
            if !blank(legacy[i].as_str()) {
                kept.push(legacy[i].clone());
                assert(names_view(kept@) =~= non_blank(all.take(i as int)).push(all[i as int]));
            }
            i += 1;
        }
        assert(all.take(i as int) =~= all);
        self.stores = kept;
    }
}

/// Every absolute path is a usable store, whatever follows the root: a
/// colon further along does not make it an rclone remote.
pub proof fn lemma_absolute_paths_are_stores(t: Seq<char>)
    requires
        is_absolute(t),
    ensures
        store_problem(t) is None,
{
    assert(!crate::text::is_white(t[0]));
    assert(!rclone_like(t)) by {
        if rclone_like(t) {
            let i = choose|i: int|
                0 <= i < t.len() && t[i] == ':' && forall|k: int| 0 <= k < i ==> #[trigger] t[k] != '/';
            assert(i > 0);
            assert(t[0] != '/');
        }
    }
}

/// A cached copy sits at the stored path inside the cache directory: the
/// text `cache_path` gives equals `cache_dir` joined with `stored_path`,
/// whenever the shard neither starts nor ends with a separator and the hash
/// does not start with one.
pub proof fn lemma_cache_path_in_cache_dir(data_dir: Seq<char>, hash: Seq<char>, ext: Seq<char>)
    requires
        shard_of(hash).len() > 0,
        shard_of(hash)[0] != '/',
        shard_of(hash).last() != '/',
        hash.len() > 0,
        hash[0] != '/',
    ensures
        joined(joined(joined(data_dir, "cache"@), shard_of(hash)), file_name_of(hash, ext))
            == joined(joined(data_dir, "cache"@), shard_of(hash) + "/"@ + file_name_of(hash, ext)),
{
    reveal_strlit("cache");
    reveal_strlit("/");
    reveal_strlit(".");
    let c = joined(data_dir, "cache"@);
    let sh = shard_of(hash);
    let f = file_name_of(hash, ext);
    assert(c.len() > 0 && c.last() == 'e');
    assert(f[0] == hash[0]);
    assert(joined(c, sh) == c + seq!['/'] + sh);
    assert((c + seq!['/'] + sh).last() == sh.last());
    assert((sh + "/"@ + f)[0] == sh[0]);
    assert(joined(c, sh) + seq!['/'] + f =~= c + seq!['/'] + (sh + "/"@ + f));
}

proof fn lemma_first_bad_prefix(names: Seq<Seq<char>>, n: int)
    requires
        0 < n <= names.len(),
        first_bad_store(names.take(n - 1)) is None,
        store_problem(names[n - 1]) is Some,
    ensures
        first_bad_store(names) == Some(n - 1),
    decreases names.len(),
{
    assert(names.take(n).drop_last() =~= names.take(n - 1));
    if n < names.len() {
        assert(names.drop_last().take(n - 1) =~= names.take(n - 1));
        lemma_first_bad_prefix(names.drop_last(), n);
    } else {
        assert(names.take(n) =~= names);
    }
}

} // verus!
