//! The TTL file cache.
//!
//! `FileCache` holds the root directory's path and maps each key to one file
//! under it. Reads lazily evict expired entries; writes replace whole files.
//! The operations act on a [`Store`](crate::store::Store), the model of the
//! root directory, and every observable effect is pinned against spec-level
//! maps here.

use vstd::prelude::*;
use vstd::string::StrSliceExecFns;
use vstd::string::StringExecFns;

use crate::envelope::CacheEntry;
use crate::envelope::CacheError;
use crate::envelope::decode_entry;
use crate::envelope::encode_entry;
use crate::envelope::encode_spec;
use crate::envelope::entry_parts_spec;
use crate::envelope::expired_spec;
use crate::envelope::lemma_decode_encode;
use crate::store::uniq_names;
use crate::store::Store;
use crate::time::now_epoch_micros;
use crate::time::quote_free;
use crate::time::rfc3339_of;
use crate::time::rfc3339_val;
use crate::time::MICROS_AT_YEAR_9999;

verus! {

/// Characters kept as they stand in a file name: ASCII letters, digits,
/// `-` and `_`. Every other character of a key is replaced by `_`.
pub open spec fn is_safe_char(c: char) -> bool {
    ('a' <= c && c <= 'z') || ('A' <= c && c <= 'Z') || ('0' <= c && c <= '9') || c == '-' || c
        == '_'
}

/// The sanitized form of a key: unsafe characters become `_`, one for one.
/// Distinct keys may sanitize alike; such keys share a file.
pub open spec fn sanitize_spec(key: Seq<char>) -> Seq<char> {
    key.map_values(
        |c: char|
            if is_safe_char(c) {
                c
            } else {
                '_'
            },
    )
}

/// A directory path joined with a file name, inserting `/` only where the
/// directory is neither empty nor already slash-terminated.
pub open spec fn dir_join(dir: Seq<char>, name: Seq<char>) -> Seq<char> {
    if dir.len() == 0 {
        name
    } else if dir.last() == '/' {
        dir + name
    } else {
        dir + "/"@ + name
    }
}

/// The file path that serves a key: the root, then the sanitized key with
/// the `.json` suffix.
pub open spec fn path_spec(dir: Seq<char>, key: Seq<char>) -> Seq<char> {
    dir_join(dir, sanitize_spec(key) + ".json"@)
}

/// Whether a path's file name carries the `json` extension: it ends in
/// `.json`, and not merely because the file name is `.json` itself.
pub open spec fn has_json_ext(name: Seq<char>) -> bool {
    name.len() > 5 && name.subrange(name.len() - 5, name.len() as int) == ".json"@ && name[
        name.len() - 6] != '/'
}

/// Result of a read, with file texts abstracted to their views.
pub open spec fn opt_content_view(r: Result<Option<String>, CacheError>) -> Result<
    Option<Seq<char>>,
    CacheError,
> {
    match r {
        Ok(None) => Ok(None),
        Ok(Some(s)) => Ok(Some(s@)),
        Err(e) => Err(e),
    }
}

/// What a read of `path` against directory `m` at moment `now` returns:
/// absence is a miss; an unreadable entry is the deserialization error; an
/// expired entry is a miss; a live entry is its payload.
pub open spec fn get_result_spec(m: Map<Seq<char>, Seq<char>>, path: Seq<char>, now: int) -> Result<
    Option<Seq<char>>,
    CacheError,
> {
    if !m.contains_key(path) {
        Ok(None)
    } else {
        match entry_parts_spec(m[path]) {
            None => Err(CacheError::Deserialization),
            Some((data, ts, ttl)) => if expired_spec(ts as int, ttl as int, now) {
                Ok(None)
            } else {
                Ok(Some(data))
            },
        }
    }
}

/// The directory a read leaves behind: unchanged, except that a read of an
/// expired entry deletes its file.
pub open spec fn get_map_spec(m: Map<Seq<char>, Seq<char>>, path: Seq<char>, now: int) -> Map<
    Seq<char>,
    Seq<char>,
> {
    if m.contains_key(path) && match entry_parts_spec(m[path]) {
        Some((data, ts, ttl)) => expired_spec(ts as int, ttl as int, now),
        None => false,
    } {
        m.remove(path)
    } else {
        m
    }
}

/// The directory a write leaves behind: the key's file holds the fresh
/// envelope, wholly replacing any prior content.
pub open spec fn set_map_spec(
    m: Map<Seq<char>, Seq<char>>,
    path: Seq<char>,
    data: Seq<char>,
    ttl: i64,
    now: i64,
) -> Map<Seq<char>, Seq<char>> {
    m.insert(path, encode_spec(data, rfc3339_of(now), ttl))
}

/// The directory `clear` leaves behind: every `json`-extension file is
/// gone, whatever it held; everything else stays.
pub open spec fn clear_map_spec(m: Map<Seq<char>, Seq<char>>) -> Map<Seq<char>, Seq<char>> {
    Map::new(|k: Seq<char>| m.contains_key(k) && !has_json_ext(k), |k: Seq<char>| m[k])
}

/// How many files `clear` removes: the `json`-extension files present.
pub open spec fn clear_count_spec(m: Map<Seq<char>, Seq<char>>) -> nat {
    m.dom().filter(|k: Seq<char>| has_json_ext(k)).len()
}

/// Whether housekeeping keeps the file `k` holding `v` at moment `now`: it
/// keeps everything but a `json`-extension file whose text parses as an
/// entry that is expired. Files that do not parse are left alone.
pub open spec fn cleanup_keep_spec(k: Seq<char>, v: Seq<char>, now: int) -> bool {
    !(has_json_ext(k) && match entry_parts_spec(v) {
        Some((data, ts, ttl)) => expired_spec(ts as int, ttl as int, now),
        None => false,
    })
}

/// The directory `cleanup_expired` leaves behind at moment `now`.
pub open spec fn cleanup_map_spec(m: Map<Seq<char>, Seq<char>>, now: int) -> Map<
    Seq<char>,
    Seq<char>,
> {
    Map::new(
        |k: Seq<char>| m.contains_key(k) && cleanup_keep_spec(k, m[k], now),
        |k: Seq<char>| m[k],
    )
}

/// How many files `cleanup_expired` removes at moment `now`.
pub open spec fn cleanup_count_spec(m: Map<Seq<char>, Seq<char>>, now: int) -> nat {
    m.dom().filter(|k: Seq<char>| !cleanup_keep_spec(k, m[k], now)).len()
}

/// Whether a path carries the `json` extension.
pub fn has_json_ext_exec(name: &str) -> (b: bool)
    ensures
        b == has_json_ext(name@),
{
    proof {
        reveal_strlit(".json");
    }
    let n = name.unicode_len();
    if n <= 5 {
        return false;
    }
    crate::strutil::str_ends_with(name, ".json") && name.get_char(n - 6) != '/'
}

/// The cache: a handle on its root directory.
pub struct FileCache {
    cache_dir: String,
}

impl FileCache {
    /// The root directory's path.
    pub closed spec fn dir(&self) -> Seq<char> {
        self.cache_dir@
    }

    /// A cache rooted at the given directory. The caller ensures the
    /// directory exists before any file is read or written.
    pub fn new(cache_dir: &str) -> (c: FileCache)
        ensures
            c.dir() == cache_dir@,
    {
        FileCache { cache_dir: String::from_str(cache_dir) }
    }

    /// The file path serving `key`: the sanitized key, `.json`-suffixed,
    /// under the root. The same key always yields the same path.
    pub fn get_cache_path(&self, key: &str) -> (r: String)
        ensures
            r@ == path_spec(self.dir(), key@),
    {
        let n = key.unicode_len();
        let mut name = String::new();
        let mut i: usize = 0;
        while i < n
            invariant
                i <= n,
                n == key@.len(),
                name@.len() == i,
                forall|j: int| 0 <= j < i ==> name@[j] == sanitize_spec(key@)[j],
            decreases n - i,
        {
            let c = key.get_char(i);
            if is_safe_char_exec(c) {
                name.append(key.substring_char(i, i + 1));
            } else {
                name.append("_");
                proof {
                    reveal_strlit("_");
                }
            }
            i = i + 1;
        }
        proof {
            assert(name@ =~= sanitize_spec(key@));
        }
        name.append(".json");
        let dl = self.cache_dir.as_str().unicode_len();
        if dl == 0 {
            proof {
                assert(name@ =~= path_spec(self.dir(), key@));
            }
            name
        } else if self.cache_dir.as_str().get_char(dl - 1) == '/' {
            let mut out = self.cache_dir.clone();
            out.append(name.as_str());
            proof {
                assert(out@ =~= path_spec(self.dir(), key@));
            }
            out
        } else {
            let mut out = self.cache_dir.clone();
            out.append("/");
            out.append(name.as_str());
            proof {
                assert(out@ =~= path_spec(self.dir(), key@));
            }
            out
        }
    }

    /// Reads `key` as of `now_micros`. Absence and expiry are misses; an
    /// expired entry's file is deleted; a present entry that does not parse
    /// is the deserialization error; a live entry's payload comes back as
    /// it was written.
    pub fn get_at(&self, store: &mut Store, key: &str, now_micros: i64) -> (r: Result<
        Option<String>,
        CacheError,
    >)
        requires
            old(store).wf(),
        ensures
            final(store).wf(),
            final(store).as_map() == get_map_spec(
                old(store).as_map(),
                path_spec(self.dir(), key@),
                now_micros as int,
            ),
            opt_content_view(r) == get_result_spec(
                old(store).as_map(),
                path_spec(self.dir(), key@),
                now_micros as int,
            ),
    {
        let path = self.get_cache_path(key);
        match store.read(path.as_str()) {
            None => Ok(None),
            Some(content) => match decode_entry(content.as_str()) {
                Err(e) => Err(e),
                Ok(entry) => {
                    if entry.is_expired_at(now_micros) {
                        let _ = store.remove(path.as_str());
                        Ok(None)
                    } else {
                        Ok(Some(entry.data))
                    }
                },
            },
        }
    }

    /// Reads `key` as of the wall-clock time of the call.
    pub fn get(&self, store: &mut Store, key: &str) -> (r: Result<Option<String>, CacheError>)
        requires
            old(store).wf(),
        ensures
            final(store).wf(),
            exists|now: i64|
                final(store).as_map() == get_map_spec(
                    old(store).as_map(),
                    path_spec(self.dir(), key@),
                    now as int,
                ) && opt_content_view(r) == get_result_spec(
                    old(store).as_map(),
                    path_spec(self.dir(), key@),
                    now as int,
                ),
    {
        let now = now_epoch_micros();
        let r = self.get_at(store, key, now);
        proof {
            assert(final(store).as_map() == get_map_spec(
                old(store).as_map(),
                path_spec(self.dir(), key@),
                now as int,
            ) && opt_content_view(r) == get_result_spec(
                old(store).as_map(),
                path_spec(self.dir(), key@),
                now as int,
            ));
        }
        r
    }

    /// Writes `data` under `key` with lifetime `ttl_minutes`, stamped
    /// `now_micros`, replacing any prior entry. Fails only where the stamp
    /// cannot be rendered; within the years 0 to 9999 success is certain.
    pub fn set_at(
        &self,
        store: &mut Store,
        key: &str,
        data: &str,
        ttl_minutes: i64,
        now_micros: i64,
    ) -> (r: Result<(), CacheError>)
        requires
            old(store).wf(),
        ensures
            final(store).wf(),
            r matches Ok(u) ==> final(store).as_map() == set_map_spec(
                old(store).as_map(),
                path_spec(self.dir(), key@),
                data@,
                ttl_minutes,
                now_micros,
            ) && quote_free(rfc3339_of(now_micros)) && (0 <= now_micros <= MICROS_AT_YEAR_9999
                ==> rfc3339_val(rfc3339_of(now_micros)) == Some(now_micros)),
            r matches Err(e) ==> e == CacheError::Serialization && *final(store) == *old(store) && !(0
                <= now_micros <= MICROS_AT_YEAR_9999),
            0 <= now_micros <= MICROS_AT_YEAR_9999 ==> r is Ok,
    {
        let entry = CacheEntry {
            data: String::from_str(data),
            timestamp_micros: now_micros,
            ttl_minutes,
        };
        match encode_entry(&entry) {
            Err(e) => Err(e),
            Ok(content) => {
                let path = self.get_cache_path(key);
                store.write(path.as_str(), content);
                Ok(())
            },
        }
    }

    /// Writes `data` under `key`, stamped with the wall-clock time of the
    /// call.
    pub fn set(&self, store: &mut Store, key: &str, data: &str, ttl_minutes: i64) -> (r: Result<
        (),
        CacheError,
    >)
        requires
            old(store).wf(),
        ensures
            final(store).wf(),
            r matches Ok(u) ==> exists|now: i64|
                final(store).as_map() == set_map_spec(
                    old(store).as_map(),
                    path_spec(self.dir(), key@),
                    data@,
                    ttl_minutes,
                    now,
                ),
            r matches Err(e) ==> e == CacheError::Serialization && *final(store) == *old(store),
    {
        let now = now_epoch_micros();
        let r = self.set_at(store, key, data, ttl_minutes, now);
        proof {
            if r is Ok {
                assert(final(store).as_map() == set_map_spec(
                    old(store).as_map(),
                    path_spec(self.dir(), key@),
                    data@,
                    ttl_minutes,
                    now,
                ));
            }
        }
        r
    }

    /// Removes `key`'s file if present; a no-op where there is none.
    pub fn delete(&self, store: &mut Store, key: &str)
        requires
            old(store).wf(),
        ensures
            final(store).wf(),
            final(store).as_map() == old(store).as_map().remove(path_spec(self.dir(), key@)),
    {
        let path = self.get_cache_path(key);
        let _ = store.remove(path.as_str());
    }

    /// Removes every `json`-extension file under the root, live or not;
    /// returns how many were removed. Other files stay.
    pub fn clear(&self, store: &mut Store) -> (r: u32)
        requires
            old(store).wf(),
            old(store).files@.len() <= u32::MAX,
        ensures
            final(store).wf(),
            final(store).as_map() == clear_map_spec(old(store).as_map()),
            r as nat == clear_count_spec(old(store).as_map()),
    {
        let ghost pre = store.files@;
        let ghost m = store.as_map();
        let ghost pk = |p: (String, String)| !has_json_ext(p.0@);
        let ghost pv = |k: Seq<char>, v: Seq<char>| !has_json_ext(k);
        let n = store.files.len();
        let mut kept: Vec<(String, String)> = Vec::new();
        let mut removed: u32 = 0;
        let mut i: usize = 0;
        while i < n
            invariant
                i <= n,
                n == pre.len(),
                pre.len() <= u32::MAX,
                store.files@ == pre,
                uniq_names(pre),
                forall|p: (String, String)| #[trigger] pk(p) == !has_json_ext(p.0@),
                kept@ == pre.take(i as int).filter(pk),
                removed as int == i - kept@.len(),
                kept@.len() <= i,
            decreases n - i,
        {
            proof {
                reveal(Seq::filter);
                assert(pre.take(i + 1).drop_last() =~= pre.take(i as int));
                assert(pre.take(i + 1).last() == pre[i as int]);
                pre.take(i as int).lemma_filter_len(pk);
            }
            let keep = !has_json_ext_exec(store.files[i].0.as_str());
            if keep {
                let name_c = store.files[i].0.clone();
                let cont_c = store.files[i].1.clone();
                kept.push((name_c, cont_c));
                proof {
                    assert((name_c, cont_c) == pre[i as int]);
                    assert(kept@ =~= pre.take(i + 1).filter(pk));
                }
            } else {
                removed = removed + 1;
                proof {
                    assert(kept@ =~= pre.take(i + 1).filter(pk));
                }
            }
            i = i + 1;
        }
        proof {
            assert(pre.take(n as int) =~= pre);
            assert(forall|p: (String, String)| #[trigger] pk(p) == pv(p.0@, p.1@));
            crate::store::lemma_retain_model(pre, pk, pv);
        }
        store.files = kept;
        proof {
            assert(store.as_map() =~= clear_map_spec(m));
            assert(m.dom().filter(|k: Seq<char>| !pv(k, m[k])) =~= m.dom().filter(
                |k: Seq<char>| has_json_ext(k),
            ));
        }
        removed
    }

    /// Housekeeping at `now_micros`: deletes every `json`-extension file
    /// whose text parses as an entry already expired; files that do not
    /// parse are skipped, not touched. Returns how many were deleted.
    pub fn cleanup_expired_at(&self, store: &mut Store, now_micros: i64) -> (r: u32)
        requires
            old(store).wf(),
            old(store).files@.len() <= u32::MAX,
        ensures
            final(store).wf(),
            final(store).as_map() == cleanup_map_spec(old(store).as_map(), now_micros as int),
            r as nat == cleanup_count_spec(old(store).as_map(), now_micros as int),
    {
        let ghost pre = store.files@;
        let ghost m = store.as_map();
        let ghost pk = |p: (String, String)| cleanup_keep_spec(p.0@, p.1@, now_micros as int);
        let ghost pv = |k: Seq<char>, v: Seq<char>| cleanup_keep_spec(k, v, now_micros as int);
        let n = store.files.len();
        let mut kept: Vec<(String, String)> = Vec::new();
        let mut removed: u32 = 0;
        let mut i: usize = 0;
        while i < n
            invariant
                i <= n,
                n == pre.len(),
                pre.len() <= u32::MAX,
                store.files@ == pre,
                uniq_names(pre),
                forall|p: (String, String)| #[trigger] pk(p) == cleanup_keep_spec(
                    p.0@,
                    p.1@,
                    now_micros as int,
                ),
                kept@ == pre.take(i as int).filter(pk),
                removed as int == i - kept@.len(),
                kept@.len() <= i,
            decreases n - i,
        {
            proof {
                reveal(Seq::filter);
                assert(pre.take(i + 1).drop_last() =~= pre.take(i as int));
                assert(pre.take(i + 1).last() == pre[i as int]);
                pre.take(i as int).lemma_filter_len(pk);
            }
            let keep: bool = if !has_json_ext_exec(store.files[i].0.as_str()) {
                true
            } else {
                match decode_entry(store.files[i].1.as_str()) {
                    Err(e) => true,
                    Ok(entry) => !entry.is_expired_at(now_micros),
                }
            };
            proof {
                assert(keep == cleanup_keep_spec(pre[i as int].0@, pre[i as int].1@, now_micros
                    as int));
            }
            if keep {
                let name_c = store.files[i].0.clone();
                let cont_c = store.files[i].1.clone();
                kept.push((name_c, cont_c));
                proof {
                    assert((name_c, cont_c) == pre[i as int]);
                    assert(kept@ =~= pre.take(i + 1).filter(pk));
                }
            } else {
                removed = removed + 1;
                proof {
                    assert(kept@ =~= pre.take(i + 1).filter(pk));
                }
            }
            i = i + 1;
        }
        proof {
            assert(pre.take(n as int) =~= pre);
            assert(forall|p: (String, String)| #[trigger] pk(p) == pv(p.0@, p.1@));
            crate::store::lemma_retain_model(pre, pk, pv);
        }
        store.files = kept;
        proof {
            assert(store.as_map() =~= cleanup_map_spec(m, now_micros as int));
            assert(m.dom().filter(|k: Seq<char>| !pv(k, m[k])) =~= m.dom().filter(
                |k: Seq<char>| !cleanup_keep_spec(k, m[k], now_micros as int),
            ));
        }
        removed
    }

    /// Housekeeping as of the wall-clock time of the call.
    pub fn cleanup_expired(&self, store: &mut Store) -> (r: u32)
        requires
            old(store).wf(),
            old(store).files@.len() <= u32::MAX,
        ensures
            final(store).wf(),
            exists|now: i64|
                final(store).as_map() == cleanup_map_spec(old(store).as_map(), now as int) && r
                    as nat == cleanup_count_spec(old(store).as_map(), now as int),
    {
        let now = now_epoch_micros();
        let r = self.cleanup_expired_at(store, now);
        proof {
            assert(final(store).as_map() == cleanup_map_spec(old(store).as_map(), now as int) && r
                as nat == cleanup_count_spec(old(store).as_map(), now as int));
        }
        r
    }
}

fn is_safe_char_exec(c: char) -> (b: bool)
    ensures
        b == is_safe_char(c),
{
    let u = c as u32;
    (97 <= u && u <= 122) || (65 <= u && u <= 90) || (48 <= u && u <= 57) || u == 45 || u == 95
}

/// The same key always maps to the same file path.
pub proof fn lemma_cache_path_deterministic(dir: Seq<char>, k1: Seq<char>, k2: Seq<char>)
    requires
        k1 == k2,
    ensures
        path_spec(dir, k1) == path_spec(dir, k2),
{
}

/// Sanitization keeps length and leaves only file-name-safe characters.
pub proof fn lemma_sanitize_safe(key: Seq<char>)
    ensures
        sanitize_spec(key).len() == key.len(),
        forall|i: int| 0 <= i < key.len() ==> is_safe_char(#[trigger] sanitize_spec(key)[i]),
{
    assert forall|i: int| 0 <= i < key.len() implies is_safe_char(
        #[trigger] sanitize_spec(key)[i],
    ) by {
        assert(sanitize_spec(key)[i] == if is_safe_char(key[i]) {
            key[i]
        } else {
            '_'
        });
    }
}

/// The path serving a non-empty key is a `json`-extension file.
pub proof fn lemma_path_has_json_ext(dir: Seq<char>, key: Seq<char>)
    requires
        key.len() >= 1,
    ensures
        has_json_ext(path_spec(dir, key)),
{
    reveal_strlit(".json");
    reveal_strlit("/");
    let san = sanitize_spec(key);
    lemma_sanitize_safe(key);
    let name = san + ".json"@;
    let p = path_spec(dir, key);
    assert(name.len() == san.len() + 5);
    assert(name[name.len() - 6] == san.last());
    assert(is_safe_char(san.last()));
    assert(san.last() != '/');
    assert(name.subrange(name.len() - 5, name.len() as int) =~= ".json"@);
    if dir.len() == 0 {
        assert(p == name);
    } else if dir.last() == '/' {
        assert(p =~= dir + name);
        assert(p.subrange(p.len() - 5, p.len() as int) =~= ".json"@);
        assert(p[p.len() - 6] == name[name.len() - 6]);
    } else {
        assert(p =~= dir + "/"@ + name);
        assert(p.subrange(p.len() - 5, p.len() as int) =~= ".json"@);
        assert(p[p.len() - 6] == name[name.len() - 6]);
    }
}

/// A key never written reads back as a miss, not an error, and leaves the
/// directory as it was.
pub proof fn lemma_get_absent(m: Map<Seq<char>, Seq<char>>, path: Seq<char>, now: int)
    requires
        !m.contains_key(path),
    ensures
        get_result_spec(m, path, now) == Ok::<Option<Seq<char>>, CacheError>(None),
        get_map_spec(m, path, now) == m,
{
}

/// Round trip: a value set with a positive lifetime reads back unchanged at
/// any moment up to its deadline, and the read leaves the directory as the
/// write left it. The premise on `rfc3339_of` holds of every stamp the
/// formatter renders, as `set_at` ensures.
pub proof fn lemma_set_then_get(
    m: Map<Seq<char>, Seq<char>>,
    dir: Seq<char>,
    key: Seq<char>,
    data: Seq<char>,
    ttl: i64,
    now: i64,
    later: i64,
)
    requires
        ttl >= 1,
        now <= later <= now + ttl * 60_000_000,
    ensures
        rfc3339_val(rfc3339_of(now)) == Some(now) && quote_free(rfc3339_of(now)) ==> ({
            let path = path_spec(dir, key);
            let m2 = set_map_spec(m, path, data, ttl, now);
            get_result_spec(m2, path, later as int) == Ok::<Option<Seq<char>>, CacheError>(
                Some(data),
            ) && get_map_spec(m2, path, later as int) == m2
        }),
{
    if rfc3339_val(rfc3339_of(now)) == Some(now) && quote_free(rfc3339_of(now)) {
        lemma_decode_encode(data, rfc3339_of(now), ttl);
    }
}

/// A zero (or negative) lifetime is expired by the first strictly later
/// moment: the read is a miss and deletes the file just written.
pub proof fn lemma_zero_ttl_expires(
    m: Map<Seq<char>, Seq<char>>,
    dir: Seq<char>,
    key: Seq<char>,
    data: Seq<char>,
    ttl: i64,
    now: i64,
    later: i64,
)
    requires
        ttl <= 0,
        later > now,
    ensures
        rfc3339_val(rfc3339_of(now)) == Some(now) && quote_free(rfc3339_of(now)) ==> ({
            let path = path_spec(dir, key);
            let m2 = set_map_spec(m, path, data, ttl, now);
            get_result_spec(m2, path, later as int) == Ok::<Option<Seq<char>>, CacheError>(None)
                && get_map_spec(m2, path, later as int) == m2.remove(path)
        }),
{
    if rfc3339_val(rfc3339_of(now)) == Some(now) && quote_free(rfc3339_of(now)) {
        lemma_decode_encode(data, rfc3339_of(now), ttl);
        let path = path_spec(dir, key);
        let m2 = set_map_spec(m, path, data, ttl, now);
        assert(m2.contains_key(path));
        assert(expired_spec(now as int, ttl as int, later as int));
    }
}

/// After a read of an expired entry, the backing file no longer exists.
pub proof fn lemma_expired_get_evicts(m: Map<Seq<char>, Seq<char>>, path: Seq<char>, now: int)
    requires
        m.contains_key(path),
        match entry_parts_spec(m[path]) {
            Some((data, ts, ttl)) => expired_spec(ts as int, ttl as int, now),
            None => false,
        },
    ensures
        get_result_spec(m, path, now) == Ok::<Option<Seq<char>>, CacheError>(None),
        !get_map_spec(m, path, now).contains_key(path),
{
}

/// Keys whose sanitized forms differ never share a file path.
pub proof fn lemma_path_injective(dir: Seq<char>, k1: Seq<char>, k2: Seq<char>)
    requires
        sanitize_spec(k1) != sanitize_spec(k2),
    ensures
        path_spec(dir, k1) != path_spec(dir, k2),
{
    reveal_strlit(".json");
    reveal_strlit("/");
    let s1 = sanitize_spec(k1);
    let s2 = sanitize_spec(k2);
    let n1 = s1 + ".json"@;
    let n2 = s2 + ".json"@;
    if n1 == n2 {
        assert(s1.len() == s2.len());
        assert(s1 =~= n1.subrange(0, n1.len() - 5));
        assert(s2 =~= n2.subrange(0, n2.len() - 5));
        assert(false);
    }
    if path_spec(dir, k1) == path_spec(dir, k2) {
        if dir.len() == 0 {
        } else if dir.last() == '/' {
            let p = dir + n1;
            assert(p.len() == (dir + n2).len());
            assert(n1 =~= p.subrange(dir.len() as int, p.len() as int));
            assert(n2 =~= (dir + n2).subrange(dir.len() as int, p.len() as int));
        } else {
            let p = dir + "/"@ + n1;
            assert(p.len() == (dir + "/"@ + n2).len());
            assert(n1 =~= p.subrange(dir.len() as int + 1, p.len() as int));
            assert(n2 =~= (dir + "/"@ + n2).subrange(dir.len() as int + 1, p.len() as int));
        }
        assert(false);
    }
}

/// After `clear`, no `json`-extension file remains under the root.
pub proof fn lemma_clear_leaves_none(m: Map<Seq<char>, Seq<char>>)
    ensures
        forall|k: Seq<char>| has_json_ext(k) ==> !clear_map_spec(m).contains_key(k),
{
}

/// The directory after a series of writes, one key after another, all with
/// the same payload, lifetime and stamp.
pub open spec fn set_many_spec(
    m: Map<Seq<char>, Seq<char>>,
    dir: Seq<char>,
    keys: Seq<Seq<char>>,
    data: Seq<char>,
    ttl: i64,
    now: i64,
) -> Map<Seq<char>, Seq<char>>
    decreases keys.len(),
{
    if keys.len() == 0 {
        m
    } else {
        set_map_spec(
            set_many_spec(m, dir, keys.drop_last(), data, ttl, now),
            path_spec(dir, keys.last()),
            data,
            ttl,
            now,
        )
    }
}

/// Clear counts correctly: writing any number of non-empty keys with
/// pairwise-distinct sanitized forms into a root that holds no
/// `json`-extension file, then clearing, removes exactly that many files
/// and leaves the root as it stood before the writes.
pub proof fn lemma_clear_counts(
    m: Map<Seq<char>, Seq<char>>,
    dir: Seq<char>,
    keys: Seq<Seq<char>>,
    data: Seq<char>,
    ttl: i64,
    now: i64,
)
    requires
        m.dom().finite(),
        clear_count_spec(m) == 0,
        forall|i: int| 0 <= i < keys.len() ==> (#[trigger] keys[i]).len() >= 1,
        forall|i: int, j: int|
            0 <= i < j < keys.len() ==> sanitize_spec(keys[i]) != sanitize_spec(keys[j]),
    ensures
        set_many_spec(m, dir, keys, data, ttl, now).dom().finite(),
        forall|k: Seq<char>|
            #[trigger] set_many_spec(m, dir, keys, data, ttl, now).contains_key(k) <==> (
            m.contains_key(k) || exists|i: int| 0 <= i < keys.len() && k == path_spec(dir, keys[i])),
        clear_count_spec(set_many_spec(m, dir, keys, data, ttl, now)) == keys.len(),
        clear_map_spec(set_many_spec(m, dir, keys, data, ttl, now)) == clear_map_spec(m),
    decreases keys.len(),
{
    let jm = m.dom().filter(|k: Seq<char>| has_json_ext(k));
    m.dom().lemma_len_filter(|k: Seq<char>| has_json_ext(k));
    jm.lemma_len0_is_empty();
    let sm = set_many_spec(m, dir, keys, data, ttl, now);
    if keys.len() == 0 {
        assert(sm == m);
        assert(clear_map_spec(sm) == clear_map_spec(m));
    } else {
        let ks = keys.drop_last();
        let key = keys.last();
        lemma_clear_counts(m, dir, ks, data, ttl, now);
        let prev = set_many_spec(m, dir, ks, data, ttl, now);
        let p = path_spec(dir, key);
        assert(sm == prev.insert(p, encode_spec(data, rfc3339_of(now), ttl)));
        lemma_path_has_json_ext(dir, key);
        assert(!m.contains_key(p)) by {
            if m.contains_key(p) {
                assert(jm.contains(p));
            }
        }
        assert forall|i: int| 0 <= i < ks.len() implies p != path_spec(dir, ks[i]) by {
            assert(sanitize_spec(keys[i]) != sanitize_spec(keys[keys.len() - 1]));
            lemma_path_injective(dir, key, ks[i]);
        }
        assert(!prev.contains_key(p));
        assert(sm.dom() =~= prev.dom().insert(p));
        let jprev = prev.dom().filter(|k: Seq<char>| has_json_ext(k));
        let jsm = sm.dom().filter(|k: Seq<char>| has_json_ext(k));
        assert(jsm =~= jprev.insert(p));
        prev.dom().lemma_len_filter(|k: Seq<char>| has_json_ext(k));
        vstd::set::axiom_set_insert_len(jprev, p);
        assert(clear_count_spec(sm) == clear_count_spec(prev) + 1);
        assert(clear_map_spec(sm) =~= clear_map_spec(prev));
        assert forall|k: Seq<char>| #[trigger] sm.contains_key(k) <==> (m.contains_key(k)
            || exists|i: int| 0 <= i < keys.len() && k == path_spec(dir, keys[i])) by {
            if sm.contains_key(k) {
                if k == p {
                    assert(k == path_spec(dir, keys[keys.len() - 1]));
                } else {
                    assert(prev.contains_key(k));
                    if !m.contains_key(k) {
                        let i = choose|i: int| 0 <= i < ks.len() && k == path_spec(dir, ks[i]);
                        assert(k == path_spec(dir, keys[i]));
                    }
                }
            }
            if m.contains_key(k) {
                assert(prev.contains_key(k));
                assert(sm.contains_key(k));
            }
            if exists|i: int| 0 <= i < keys.len() && k == path_spec(dir, keys[i]) {
                let i = choose|i: int| 0 <= i < keys.len() && k == path_spec(dir, keys[i]);
                if i < ks.len() {
                    assert(ks[i] == keys[i]);
                    assert(prev.contains_key(k));
                    assert(sm.contains_key(k));
                } else {
                    assert(k == p);
                    assert(sm.contains_key(k));
                }
            }
        }
    }
}

/// Deleting is idempotent: deleting an absent key changes nothing, and a
/// second delete of the same key finds nothing left to change.
pub proof fn lemma_delete_idempotent(m: Map<Seq<char>, Seq<char>>, path: Seq<char>)
    ensures
        m.remove(path).remove(path) == m.remove(path),
        !m.contains_key(path) ==> m.remove(path) == m,
{
    assert(m.remove(path).remove(path) =~= m.remove(path));
    if !m.contains_key(path) {
        assert(m.remove(path) =~= m);
    }
}

} // verus!
