//! The export pipeline's cache bookkeeping: normalised paths, output names,
//! content fingerprints, the fingerprint cache and the model manifest.
use vstd::prelude::*;
use vstd::utf8::encode_utf8;
use crate::bytes::{le32_bytes, push_le32, push_all};
use crate::text::{decimal, decimal_string, forward_slashes, replace_backslashes, texts};

verus! {

/// The version of the model manifest and fingerprint cache formats.
pub const MODEL_FORMAT_VERSION: u32 = 1;

/// The manifest entry of a source file read from `path` with the given
/// contents: its cache path, the BLAKE3 hex digest of its contents, and no
/// dependencies yet.
pub fn source_manifest_entry(path: &str, contents: &[u8]) -> (r: ModelSourceManifestEntry)
    ensures
        r.source@ == forward_slashes(path@),
        r.hash@ == blake3_hex(contents@),
        r.hash@.len() == 64,
        forall|i: int| 0 <= i < r.hash@.len() ==> is_lower_hex_digit(#[trigger] r.hash@[i]),
        r.dependencies@.len() == 0,
{
    ModelSourceManifestEntry { source: cache_path(path), hash: hash_hex(contents), dependencies: Vec::new() }
}

/// The fingerprint recorded for a dependency that is not a file.
pub fn missing_dependency_hash() -> (r: String)
    ensures
        r@ == "<missing>"@,
{
    "<missing>".to_owned()
}

/// A path as the caches record it: its text with backslashes turned into
/// forward slashes.
pub fn cache_path(path: &str) -> (r: String)
    ensures
        r@ == forward_slashes(path@),
{
    replace_backslashes(path)
}

/// The file stem of a model's outputs: its hash, prefixed with `M` when
/// the export includes materials.
pub open spec fn model_output_stem_spec(model_hash: Seq<char>, includes_materials: bool) -> Seq<char> {
    if includes_materials {
        "M"@ + model_hash
    } else {
        model_hash
    }
}

/// The file stem of a model's outputs.
pub fn model_output_stem(model_hash: &str, includes_materials: bool) -> (r: String)
    ensures
        r@ == model_output_stem_spec(model_hash@, includes_materials),
{
    if includes_materials {
        let mut r = "M".to_owned();
        r.append(model_hash);
        r
    } else {
        model_hash.to_owned()
    }
}

/// The lowercase hexadecimal BLAKE3 digest of `data`, as `blake3::hash`
/// and `Hash::to_hex` compute it.
pub uninterp spec fn blake3_hex(data: Seq<u8>) -> Seq<char>;

/// A lowercase hexadecimal digit.
pub open spec fn is_lower_hex_digit(c: char) -> bool {
    ('0' <= c && c <= '9') || ('a' <= c && c <= 'f')
}

/// Hashes `data` with `blake3::hash` and renders the digest with
/// `Hash::to_hex`. The contract claims that the text is a function of the
/// bytes (`blake3_hex`) and, as `to_hex` writes two lowercase hex digits for
/// each of the 32 digest bytes, that it has 64 characters, each a lowercase
/// hex digit.
#[verifier::external_body]
pub(crate) fn hash_hex(data: &[u8]) -> (r: String)
    ensures
        r@ == blake3_hex(data@),
        r@.len() == 64,
        forall|i: int| 0 <= i < r@.len() ==> is_lower_hex_digit(#[trigger] r@[i]),
{
    blake3::hash(data).to_hex().to_string()
}

/// The bytes of the dependency records: each path's text, then its
/// fingerprint's text.
pub open spec fn dependency_bytes(deps: Seq<(String, String)>) -> Seq<u8>
    decreases deps.len(),
{
    if deps.len() == 0 {
        Seq::empty()
    } else {
        dependency_bytes(deps.drop_last()) + encode_utf8(deps.last().0@) + encode_utf8(
            deps.last().1@,
        )
    }
}

/// What a model's fingerprint hashes: the format tag `roform-model-v1`, the
/// source file, the model's index in decimal, the tile size's little-endian
/// `f32` bytes, the materials flag as one byte, and the dependency records.
pub open spec fn fingerprint_message(
    source: Seq<u8>,
    model_index: nat,
    studs_per_tile_bits: u32,
    includes_materials: bool,
    deps: Seq<(String, String)>,
) -> Seq<u8> {
    encode_utf8("roform-model-v1"@) + source + encode_utf8(decimal(model_index)) + le32_bytes(
        studs_per_tile_bits,
    ) + seq![if includes_materials { 1u8 } else { 0u8 }] + dependency_bytes(deps)
}

/// The fingerprint of one model of a source file, given the bits of the
/// tile size and the cache path and fingerprint of each dependency in
/// order.
pub fn model_fingerprint(
    source_bytes: &[u8],
    model_index: usize,
    studs_per_tile_bits: u32,
    includes_materials: bool,
    dependencies: &Vec<(String, String)>,
) -> (r: String)
    ensures
        r@ == blake3_hex(
            fingerprint_message(
                source_bytes@,
                model_index as nat,
                studs_per_tile_bits,
                includes_materials,
                dependencies@,
            ),
        ),
        r@.len() == 64,
        forall|i: int| 0 <= i < r@.len() ==> is_lower_hex_digit(#[trigger] r@[i]),
{
    let mut message: Vec<u8> = Vec::new();
    push_all(&mut message, "roform-model-v1".as_bytes());
    push_all(&mut message, source_bytes);
    let index_text = decimal_string(model_index as u64);
    push_all(&mut message, index_text.as_str().as_bytes());
    push_le32(&mut message, studs_per_tile_bits);
    message.push(if includes_materials { 1u8 } else { 0u8 });
    let ghost head = message@;
    let mut i: usize = 0;
    while i < dependencies.len()
        invariant
            0 <= i <= dependencies@.len(),
            message@ == head + dependency_bytes(dependencies@.take(i as int)),
        decreases dependencies@.len() - i,
    {
        push_all(&mut message, dependencies[i].0.as_str().as_bytes());
        push_all(&mut message, dependencies[i].1.as_str().as_bytes());
        assert(dependencies@.take(i + 1).drop_last() =~= dependencies@.take(i as int));
        i = i + 1;
    }
    assert(dependencies@.take(dependencies@.len() as int) =~= dependencies@);
    assert(message@ =~= fingerprint_message(
        source_bytes@,
        model_index as nat,
        studs_per_tile_bits,
        includes_materials,
        dependencies@,
    ));
    hash_hex(message.as_slice())
}

/// What the fingerprint cache remembers of a file.
#[derive(Debug, PartialEq, Eq)]
pub struct FingerprintCacheEntry {
    pub length: u64,
    pub modified_nanos: Option<u128>,
    pub hash: String,
}

impl FingerprintCacheEntry {
    /// A copy of the entry.
    pub fn duplicate(&self) -> (r: FingerprintCacheEntry)
        ensures
            r == *self,
    {
        FingerprintCacheEntry {
            length: self.length,
            modified_nanos: self.modified_nanos,
            hash: self.hash.clone(),
        }
    }
}

/// The fingerprint cache: its format version and an entry per file path.
#[derive(Debug)]
pub struct FingerprintCache {
    pub version: u32,
    pub files: Vec<(String, FingerprintCacheEntry)>,
}

/// The entries of a path-keyed table with their paths as text.
pub open spec fn table_view<V>(files: Seq<(String, V)>) -> Seq<(Seq<char>, V)> {
    files.map_values(|p: (String, V)| (p.0@, p.1))
}

/// The position of the first entry of `files` at or after `i` whose path is
/// `key`.
pub open spec fn key_position<V>(files: Seq<(Seq<char>, V)>, key: Seq<char>, i: int) -> Option<int>
    decreases files.len() - i,
{
    if i < 0 || i >= files.len() {
        None
    } else if files[i].0 == key {
        Some(i)
    } else {
        key_position(files, key, i + 1)
    }
}

/// The entry that a table holds for `key`: its first entry with that path.
pub open spec fn table_get<V>(files: Seq<(Seq<char>, V)>, key: Seq<char>) -> Option<V> {
    match key_position(files, key, 0) {
        Some(i) => Some(files[i].1),
        None => None,
    }
}

/// No two entries of a table share a path.
pub open spec fn keys_unique<V>(files: Seq<(Seq<char>, V)>) -> bool {
    forall|i: int, j: int| 0 <= i < j < files.len() ==> files[i].0 != files[j].0
}

/// The table with every path normalised and, where two paths become one,
/// the first entry kept.
pub open spec fn normalized_table(files: Seq<(Seq<char>, FingerprintCacheEntry)>) -> Seq<(Seq<char>, FingerprintCacheEntry)>
    decreases files.len(),
{
    if files.len() == 0 {
        Seq::empty()
    } else {
        let r = normalized_table(files.drop_last());
        let k = forward_slashes(files.last().0);
        if table_get(r, k) is Some {
            r
        } else {
            r.push((k, files.last().1))
        }
    }
}

/// The table after `key` is set to `entry`: the entry replaced where the
/// path is present, appended otherwise.
pub open spec fn table_insert<V>(files: Seq<(Seq<char>, V)>, key: Seq<char>, entry: V) -> Seq<(Seq<char>, V)> {
    match key_position(files, key, 0) {
        Some(i) => files.update(i, (key, entry)),
        None => files.push((key, entry)),
    }
}

proof fn lemma_key_position<V>(files: Seq<(Seq<char>, V)>, key: Seq<char>, i: int)
    requires
        0 <= i,
    ensures
        key_position(files, key, i) matches Some(p) ==> i <= p < files.len() && files[p].0 == key
            && forall|q: int| i <= q < p ==> files[q].0 != key,
        key_position(files, key, i) is None ==> forall|q: int| i <= q < files.len() ==> files[q].0 != key,
    decreases files.len() - i,
{
    if i < files.len() && files[i].0 != key {
        lemma_key_position(files, key, i + 1);
    }
}

/// Setting a normalised path in a table with distinct normalised paths
/// keeps its paths distinct and normalised.
proof fn lemma_table_insert_keeps_keys<V>(t: Seq<(Seq<char>, V)>, key: Seq<char>, value: V)
    requires
        keys_unique(t),
        keys_normalized(t),
        forward_slashes(key) == key,
    ensures
        keys_unique(table_insert(t, key, value)),
        keys_normalized(table_insert(t, key, value)),
{
    lemma_key_position(t, key, 0);
    let r = table_insert(t, key, value);
    match key_position(t, key, 0) {
        Some(p) => {
            assert forall|i: int, j: int| 0 <= i < j < r.len() implies r[i].0 != r[j].0 by {
                assert(r[i].0 == t[i].0 && r[j].0 == t[j].0);
            }
            assert forall|i: int| 0 <= i < r.len() implies forward_slashes(#[trigger] r[i].0) == r[i].0 by {
                assert(r[i].0 == t[i].0);
            }
        },
        None => {
            assert forall|i: int, j: int| 0 <= i < j < r.len() implies r[i].0 != r[j].0 by {
                if j < t.len() {
                    assert(r[i] == t[i] && r[j] == t[j]);
                } else {
                    assert(r[i] == t[i]);
                }
            }
            assert forall|i: int| 0 <= i < r.len() implies forward_slashes(#[trigger] r[i].0) == r[i].0 by {
                if i < t.len() {
                    assert(r[i] == t[i]);
                }
            }
        },
    }
}

/// Finds the position of the entry for `key`.
fn find_key<V>(files: &Vec<(String, V)>, key: &String) -> (r: Option<usize>)
    ensures
        match r {
            Some(i) => key_position(table_view(files@), key@, 0) == Some(i as int),
            None => key_position(table_view(files@), key@, 0) is None,
        },
{
    let ghost t = table_view(files@);
    let mut i: usize = 0;
    while i < files.len()
        invariant
            t == table_view(files@),
            0 <= i <= files@.len(),
            key_position(t, key@, 0) == key_position(t, key@, i as int),
        decreases files@.len() - i,
    {
        if files[i].0 == *key {
            return Some(i);
        }
        i = i + 1;
    }
    None
}

/// Normalises every path of a fingerprint cache; where two paths become
/// one, the first entry is kept.
pub fn normalize_fingerprint_cache(cache: FingerprintCache) -> (r: FingerprintCache)
    ensures
        r.version == cache.version,
        table_view(r.files@) == normalized_table(table_view(cache.files@)),
{
    let ghost input = table_view(cache.files@);
    let mut files: Vec<(String, FingerprintCacheEntry)> = Vec::new();
    let mut i: usize = 0;
    while i < cache.files.len()
        invariant
            input == table_view(cache.files@),
            0 <= i <= cache.files@.len(),
            table_view(files@) == normalized_table(input.take(i as int)),
        decreases cache.files@.len() - i,
    {
        let key = cache_path(cache.files[i].0.as_str());
        assert(input.take(i + 1).drop_last() =~= input.take(i as int));
        match find_key(&files, &key) {
            Some(_) => {},
            None => {
                let entry = cache.files[i].1.duplicate();
                let ghost before = files@;
                files.push((key, entry));
                assert(table_view(files@) =~= table_view(before).push((key@, entry)));
            },
        }
        i = i + 1;
    }
    assert(input.take(input.len() as int) =~= input);
    FingerprintCache { version: cache.version, files }
}

/// Every path of the table is already normalised.
pub open spec fn keys_normalized<V>(files: Seq<(Seq<char>, V)>) -> bool {
    forall|i: int| 0 <= i < files.len() ==> forward_slashes(#[trigger] files[i].0) == files[i].0
}

/// Normalising a path twice changes nothing more.
pub proof fn lemma_forward_slashes_idempotent(s: Seq<char>)
    ensures
        forward_slashes(forward_slashes(s)) == s.map_values(|c: char| if c == '\\' { '/' } else { c }),
        forward_slashes(forward_slashes(s)) == forward_slashes(s),
{
    assert(forward_slashes(forward_slashes(s)) =~= forward_slashes(s));
}

proof fn lemma_normalized_table_identity(files: Seq<(Seq<char>, FingerprintCacheEntry)>)
    requires
        keys_unique(files),
        keys_normalized(files),
    ensures
        normalized_table(files) == files,
    decreases files.len(),
{
    if files.len() > 0 {
        let init = files.drop_last();
        assert(keys_unique(init));
        assert(keys_normalized(init)) by {
            assert forall|i: int| 0 <= i < init.len() implies forward_slashes(#[trigger] init[i].0) == init[i].0 by {
                assert(init[i] == files[i]);
            }
        }
        lemma_normalized_table_identity(init);
        let k = forward_slashes(files.last().0);
        assert(k == files.last().0) by {
            assert(files[files.len() - 1] == files.last());
        }
        lemma_key_position(init, k, 0);
        assert(key_position(init, k, 0) is None) by {
            if key_position(init, k, 0) is Some {
                let p = key_position(init, k, 0)->Some_0;
                assert(files[p].0 == files[files.len() - 1].0);
            }
        }
        assert(files =~= init.push((k, files.last().1)));
    }
}

/// The hash a previous run recorded for a file, when the file still has
/// the recorded length and a known, unchanged modification time.
pub open spec fn reusable_hash_spec(
    previous: Option<Seq<(Seq<char>, FingerprintCacheEntry)>>,
    key: Seq<char>,
    length: u64,
    modified_nanos: Option<u128>,
) -> Option<Seq<char>> {
    match previous {
        None => None,
        Some(t) => match table_get(t, key) {
            Some(e) => if modified_nanos is Some && e.length == length && e.modified_nanos
                == modified_nanos {
                Some(e.hash@)
            } else {
                None
            },
            None => None,
        },
    }
}

/// The file fingerprints of one run: those the previous run recorded, and
/// those computed so far.
pub struct FingerprintState {
    previous: Option<FingerprintCache>,
    current: Vec<(String, FingerprintCacheEntry)>,
}

impl FingerprintState {
    /// The previous run's table, if one was loaded.
    pub closed spec fn previous_table(self) -> Option<Seq<(Seq<char>, FingerprintCacheEntry)>> {
        match self.previous {
            Some(c) => Some(table_view(c.files@)),
            None => None,
        }
    }

    /// The fingerprints computed in this run.
    pub closed spec fn current_table(self) -> Seq<(Seq<char>, FingerprintCacheEntry)> {
        table_view(self.current@)
    }

    /// The state's invariant: this run's table has one entry per normalised
    /// path.
    #[verifier::type_invariant]
    closed spec fn wf(self) -> bool {
        keys_unique(table_view(self.current@)) && keys_normalized(table_view(self.current@))
    }

    /// Starts a run from the cache the previous run wrote, if it has the
    /// current format version; its paths are normalised.
    pub fn load(previous: Option<FingerprintCache>) -> (r: FingerprintState)
        ensures
            r.current_table() == Seq::<(Seq<char>, FingerprintCacheEntry)>::empty(),
            r.previous_table() == match previous {
                Some(c) => if c.version == MODEL_FORMAT_VERSION {
                    Some(normalized_table(table_view(c.files@)))
                } else {
                    None
                },
                None => None,
            },
    {
        let previous = match previous {
            Some(c) => if c.version == MODEL_FORMAT_VERSION {
                Some(normalize_fingerprint_cache(c))
            } else {
                None
            },
            None => None,
        };
        let r = FingerprintState { previous, current: Vec::new() };
        assert(table_view(r.current@) =~= Seq::<(Seq<char>, FingerprintCacheEntry)>::empty());
        r
    }

    /// The hash recorded by the previous run for `path`, when the file still
    /// has the recorded length and a known, unchanged modification time.
    pub fn reusable_hash(&self, path: &str, length: u64, modified_nanos: Option<u128>) -> (r: Option<String>)
        ensures
            match r {
                Some(h) => reusable_hash_spec(self.previous_table(), forward_slashes(path@), length, modified_nanos) == Some(h@),
                None => reusable_hash_spec(self.previous_table(), forward_slashes(path@), length, modified_nanos) is None,
            },
    {
        let key = cache_path(path);
        match &self.previous {
            None => None,
            Some(cache) => match find_key(&cache.files, &key) {
                None => None,
                Some(i) => {
                    proof { lemma_key_position(table_view(cache.files@), key@, 0); }
                    let entry = &cache.files[i].1;
                    if modified_nanos.is_some() && entry.length == length && entry.modified_nanos == modified_nanos {
                        Some(entry.hash.clone())
                    } else {
                        None
                    }
                },
            },
        }
    }

    /// Records the fingerprint of `path` computed in this run.
    pub fn record(&mut self, path: &str, entry: FingerprintCacheEntry)
        ensures
            final(self).previous_table() == old(self).previous_table(),
            final(self).current_table() == table_insert(old(self).current_table(), forward_slashes(path@), entry),
    {
        proof { use_type_invariant(&*self); }
        let key = cache_path(path);
        proof {
            lemma_forward_slashes_idempotent(path@);
            lemma_key_position(table_view(self.current@), key@, 0);
        }
        let ghost before = table_view(self.current@);
        let mut current: Vec<(String, FingerprintCacheEntry)> = Vec::new();
        std::mem::swap(&mut current, &mut self.current);
        match find_key(&current, &key) {
            Some(i) => {
                current.set(i, (key, entry));
                assert(table_view(current@) =~= before.update(i as int, (key@, entry)));
            },
            None => {
                current.push((key, entry));
                assert(table_view(current@) =~= before.push((key@, entry)));
            },
        }
        proof { lemma_table_insert_keeps_keys(before, forward_slashes(path@), entry); }
        self.current = current;
    }

    /// Reuses the fingerprint the previous run recorded for `path`, when the
    /// file still has the recorded length and a known, unchanged
    /// modification time, and records it for this run; leaves the state as
    /// it is otherwise.
    pub fn reuse(&mut self, path: &str, length: u64, modified_nanos: Option<u128>) -> (r: Option<String>)
        ensures
            final(self).previous_table() == old(self).previous_table(),
            match r {
                Some(h) => reusable_hash_spec(old(self).previous_table(), forward_slashes(path@), length, modified_nanos)
                    == Some(h@) && final(self).current_table() == table_insert(
                    old(self).current_table(),
                    forward_slashes(path@),
                    FingerprintCacheEntry { length, modified_nanos, hash: h },
                ),
                None => reusable_hash_spec(old(self).previous_table(), forward_slashes(path@), length, modified_nanos)
                    is None && final(self).current_table() == old(self).current_table(),
            },
    {
        match self.reusable_hash(path, length, modified_nanos) {
            Some(hash) => {
                let copy = hash.clone();
                self.record(path, FingerprintCacheEntry { length, modified_nanos, hash: copy });
                Some(hash)
            },
            None => None,
        }
    }

    /// Fingerprints the contents of `path` (the BLAKE3 hex digest) and
    /// records it for this run with the file's length and modification
    /// time.
    pub fn record_contents(&mut self, path: &str, length: u64, modified_nanos: Option<u128>, contents: &[u8]) -> (r: String)
        ensures
            final(self).previous_table() == old(self).previous_table(),
            r@ == blake3_hex(contents@),
            final(self).current_table() == table_insert(
                old(self).current_table(),
                forward_slashes(path@),
                FingerprintCacheEntry { length, modified_nanos, hash: r },
            ),
    {
        let hash = hash_hex(contents);
        let copy = hash.clone();
        self.record(path, FingerprintCacheEntry { length, modified_nanos, hash: copy });
        hash
    }

    /// The cache this run writes for the next one: the current format
    /// version and this run's fingerprints.
    pub fn snapshot(&self) -> (r: FingerprintCache)
        ensures
            r.version == MODEL_FORMAT_VERSION,
            table_view(r.files@) == self.current_table(),
            keys_unique(self.current_table()),
            keys_normalized(self.current_table()),
    {
        proof { use_type_invariant(self); }
        let mut files: Vec<(String, FingerprintCacheEntry)> = Vec::new();
        let mut i: usize = 0;
        while i < self.current.len()
            invariant
                0 <= i <= self.current@.len(),
                table_view(files@) =~= table_view(self.current@).take(i as int),
            decreases self.current@.len() - i,
        {
            let key = self.current[i].0.clone();
            let entry = self.current[i].1.duplicate();
            let ghost before = files@;
            files.push((key, entry));
            assert(table_view(files@) =~= table_view(before).push((key@, entry)));
            assert(table_view(self.current@).take(i + 1) =~= table_view(self.current@).take(i as int).push(table_view(self.current@)[i as int]));
            i = i + 1;
        }
        FingerprintCache { version: MODEL_FORMAT_VERSION, files }
    }
}

/// The fingerprint cache one run writes serves the next: after a file's
/// fingerprint is recorded with a known modification time, the next run,
/// loading the written cache, reuses that hash for the same path, length
/// and modification time.
pub proof fn lemma_fingerprint_cache_reuse(
    current: Seq<(Seq<char>, FingerprintCacheEntry)>,
    path: Seq<char>,
    entry: FingerprintCacheEntry,
)
    requires
        keys_unique(current),
        keys_normalized(current),
        entry.modified_nanos is Some,
    ensures
        reusable_hash_spec(
            Some(normalized_table(table_insert(current, forward_slashes(path), entry))),
            forward_slashes(path),
            entry.length,
            entry.modified_nanos,
        ) == Some(entry.hash@),
{
    let k = forward_slashes(path);
    lemma_forward_slashes_idempotent(path);
    lemma_key_position(current, k, 0);
    let t = table_insert(current, k, entry);
    assert(keys_unique(t) && keys_normalized(t)) by {
        if key_position(current, k, 0) is Some {
            let p = key_position(current, k, 0)->Some_0;
            assert forall|i: int, j: int| 0 <= i < j < t.len() implies t[i].0 != t[j].0 by {
                assert(t[i].0 == current[i].0 && t[j].0 == current[j].0);
            }
            assert forall|i: int| 0 <= i < t.len() implies forward_slashes(#[trigger] t[i].0) == t[i].0 by {
                assert(t[i].0 == current[i].0);
            }
        } else {
            assert forall|i: int, j: int| 0 <= i < j < t.len() implies t[i].0 != t[j].0 by {
                if j < current.len() {
                    assert(t[i] == current[i] && t[j] == current[j]);
                } else {
                    assert(t[i] == current[i]);
                }
            }
            assert forall|i: int| 0 <= i < t.len() implies forward_slashes(#[trigger] t[i].0) == t[i].0 by {
                if i < current.len() {
                    assert(t[i] == current[i]);
                }
            }
        }
    }
    lemma_normalized_table_identity(t);
    lemma_key_position(t, k, 0);
    if key_position(current, k, 0) is Some {
        let p = key_position(current, k, 0)->Some_0;
        assert(t[p].0 == k);
        assert(key_position(t, k, 0) == Some(p)) by {
            let q = key_position(t, k, 0);
            if q is Some {
                let qq = q->Some_0;
                if qq != p {
                    assert(t[qq].0 == t[p].0);
                }
            }
        }
    } else {
        assert(t[current.len() as int].0 == k);
        assert(key_position(t, k, 0) == Some(current.len() as int)) by {
            let q = key_position(t, k, 0);
            if q is Some {
                let qq = q->Some_0;
                if qq < current.len() {
                    assert(t[qq] == current[qq]);
                }
            }
        }
    }
}

/// The bits are those of a NaN.
pub open spec fn f32_is_nan(bits: u32) -> bool {
    (bits & 0x7f80_0000u32) == 0x7f80_0000u32 && (bits & 0x007f_ffffu32) != 0
}

/// IEEE-754 equality of two `f32` given by their bits: no NaN equals
/// anything, the two zeros are equal, other values are equal when their
/// bits are.
pub open spec fn f32_eq(a: u32, b: u32) -> bool {
    !f32_is_nan(a) && !f32_is_nan(b) && (a == b || ((a & 0x7fff_ffffu32) == 0 && (b & 0x7fff_ffffu32) == 0))
}

/// Compares two `f32` given by their bits as `==` does.
pub fn f32_bits_equal(a: u32, b: u32) -> (r: bool)
    ensures
        r == f32_eq(a, b),
{
    let a_nan = (a & 0x7f80_0000u32) == 0x7f80_0000u32 && (a & 0x007f_ffffu32) != 0;
    let b_nan = (b & 0x7f80_0000u32) == 0x7f80_0000u32 && (b & 0x007f_ffffu32) != 0;
    !a_nan && !b_nan && (a == b || ((a & 0x7fff_ffffu32) == 0 && (b & 0x7fff_ffffu32) == 0))
}

/// One exported model as the manifest lists it.
#[derive(Debug, PartialEq, Eq)]
pub struct ModelManifestEntry {
    pub hash: String,
    pub output: String,
    pub source: String,
    pub name: String,
}

impl ModelManifestEntry {
    /// A copy of the entry.
    pub fn duplicate(&self) -> (r: ModelManifestEntry)
        ensures
            r == *self,
    {
        ModelManifestEntry {
            hash: self.hash.clone(),
            output: self.output.clone(),
            source: self.source.clone(),
            name: self.name.clone(),
        }
    }
}

/// One source file as the manifest lists it: its content hash and the
/// paths it depends on.
#[derive(Debug, PartialEq, Eq)]
pub struct ModelSourceManifestEntry {
    pub source: String,
    pub hash: String,
    pub dependencies: Vec<String>,
}

/// The mathematical content of a [`ModelSourceManifestEntry`].
pub struct SourceEntryView {
    pub source: Seq<char>,
    pub hash: Seq<char>,
    pub dependencies: Seq<Seq<char>>,
}

impl View for ModelSourceManifestEntry {
    type V = SourceEntryView;

    open spec fn view(&self) -> SourceEntryView {
        SourceEntryView {
            source: self.source@,
            hash: self.hash@,
            dependencies: self.dependencies@.map_values(|s: String| s@),
        }
    }
}

/// The manifest of a model export: the settings it was made with, the
/// fingerprint of each dependency, the sources and the models.
#[derive(Debug)]
pub struct ModelManifest {
    pub version: u32,
    /// The bits of the `f32` tile size.
    pub studs_per_tile_bits: u32,
    pub includes_materials: bool,
    pub dependencies: Vec<(String, String)>,
    pub sources: Vec<ModelSourceManifestEntry>,
    pub models: Vec<ModelManifestEntry>,
}

/// A path-keyed table with every key normalised; where two keys become one,
/// the later value wins, as when collecting into a map.
pub open spec fn renormalized_table<V>(t: Seq<(Seq<char>, V)>) -> Seq<(Seq<char>, V)>
    decreases t.len(),
{
    if t.len() == 0 {
        Seq::empty()
    } else {
        table_insert(renormalized_table(t.drop_last()), forward_slashes(t.last().0), t.last().1)
    }
}

/// A source entry with its paths normalised.
pub open spec fn source_normalized(before: ModelSourceManifestEntry, after: ModelSourceManifestEntry) -> bool {
    &&& after.source@ == forward_slashes(before.source@)
    &&& after.hash == before.hash
    &&& texts(after.dependencies@) == texts(before.dependencies@).map_values(|p: Seq<char>| forward_slashes(p))
}

/// A model entry with its paths normalised.
pub open spec fn model_normalized(before: ModelManifestEntry, after: ModelManifestEntry) -> bool {
    &&& after.output@ == forward_slashes(before.output@)
    &&& after.source@ == forward_slashes(before.source@)
    &&& after.hash == before.hash
    &&& after.name == before.name
}

/// Sets `key` to `value` in a path-keyed table.
pub(crate) fn insert_entry<V>(t: &mut Vec<(String, V)>, key: String, value: V)
    ensures
        table_view(final(t)@) == table_insert(table_view(old(t)@), key@, value),
{
    let ghost before = table_view(t@);
    proof { lemma_key_position(before, key@, 0); }
    match find_key(t, &key) {
        Some(i) => {
            t.set(i, (key, value));
            assert(table_view(t@) =~= before.update(i as int, (key@, value)));
        },
        None => {
            t.push((key, value));
            assert(table_view(t@) =~= before.push((key@, value)));
        },
    }
}

fn normalize_paths(paths: &Vec<String>) -> (r: Vec<String>)
    ensures
        texts(r@) == texts(paths@).map_values(|p: Seq<char>| forward_slashes(p)),
{
    let mut r: Vec<String> = Vec::new();
    let mut i: usize = 0;
    while i < paths.len()
        invariant
            0 <= i <= paths@.len(),
            texts(r@) =~= texts(paths@.take(i as int)).map_values(|p: Seq<char>| forward_slashes(p)),
        decreases paths@.len() - i,
    {
        let ghost before = r@;
        let p = cache_path(paths[i].as_str());
        r.push(p);
        assert(texts(r@) =~= texts(before).push(p@));
        assert(paths@.take(i + 1) =~= paths@.take(i as int).push(paths@[i as int]));
        assert(texts(paths@.take(i + 1)) =~= texts(paths@.take(i as int)).push(paths@[i as int]@));
        i = i + 1;
    }
    assert(paths@.take(paths@.len() as int) =~= paths@);
    r
}

/// Normalises every path that a manifest records.
pub fn normalize_manifest_paths(manifest: ModelManifest) -> (r: ModelManifest)
    ensures
        r.version == manifest.version,
        r.studs_per_tile_bits == manifest.studs_per_tile_bits,
        r.includes_materials == manifest.includes_materials,
        table_view(r.dependencies@) == renormalized_table(table_view(manifest.dependencies@)),
        r.sources@.len() == manifest.sources@.len(),
        forall|i: int| 0 <= i < r.sources@.len() ==> source_normalized(manifest.sources@[i], #[trigger] r.sources@[i]),
        r.models@.len() == manifest.models@.len(),
        forall|i: int| 0 <= i < r.models@.len() ==> model_normalized(manifest.models@[i], #[trigger] r.models@[i]),
{
    let ghost deps = table_view(manifest.dependencies@);
    let mut dependencies: Vec<(String, String)> = Vec::new();
    let mut i: usize = 0;
    while i < manifest.dependencies.len()
        invariant
            deps == table_view(manifest.dependencies@),
            0 <= i <= manifest.dependencies@.len(),
            table_view(dependencies@) == renormalized_table(deps.take(i as int)),
        decreases manifest.dependencies@.len() - i,
    {
        let key = cache_path(manifest.dependencies[i].0.as_str());
        let value = manifest.dependencies[i].1.clone();
        assert(deps.take(i + 1).drop_last() =~= deps.take(i as int));
        insert_entry(&mut dependencies, key, value);
        i = i + 1;
    }
    assert(deps.take(deps.len() as int) =~= deps);
    let mut sources: Vec<ModelSourceManifestEntry> = Vec::new();
    let mut j: usize = 0;
    while j < manifest.sources.len()
        invariant
            0 <= j <= manifest.sources@.len(),
            sources@.len() == j,
            forall|k: int| 0 <= k < j ==> source_normalized(manifest.sources@[k], #[trigger] sources@[k]),
        decreases manifest.sources@.len() - j,
    {
        let entry = &manifest.sources[j];
        sources.push(ModelSourceManifestEntry {
            source: cache_path(entry.source.as_str()),
            hash: entry.hash.clone(),
            dependencies: normalize_paths(&entry.dependencies),
        });
        j = j + 1;
    }
    let mut models: Vec<ModelManifestEntry> = Vec::new();
    let mut k: usize = 0;
    while k < manifest.models.len()
        invariant
            0 <= k <= manifest.models@.len(),
            models@.len() == k,
            forall|q: int| 0 <= q < k ==> model_normalized(manifest.models@[q], #[trigger] models@[q]),
        decreases manifest.models@.len() - k,
    {
        let entry = &manifest.models[k];
        models.push(ModelManifestEntry {
            hash: entry.hash.clone(),
            output: cache_path(entry.output.as_str()),
            source: cache_path(entry.source.as_str()),
            name: entry.name.clone(),
        });
        k = k + 1;
    }
    ModelManifest {
        version: manifest.version,
        studs_per_tile_bits: manifest.studs_per_tile_bits,
        includes_materials: manifest.includes_materials,
        dependencies,
        sources,
        models,
    }
}

/// A manifest can be reused when it has the current format version and was
/// made with the same tile size and materials setting.
pub open spec fn manifest_reusable(m: ModelManifest, studs_per_tile_bits: u32, includes_materials: bool) -> bool {
    m.version == MODEL_FORMAT_VERSION && f32_eq(m.studs_per_tile_bits, studs_per_tile_bits)
        && m.includes_materials == includes_materials
}

/// The previous manifest, with its paths normalised, when it was made with
/// the same format and settings; `manifest` is `None` when none could be
/// read.
pub fn reusable_manifest(
    manifest: Option<ModelManifest>,
    studs_per_tile_bits: u32,
    includes_materials: bool,
) -> (r: Option<ModelManifest>)
    ensures
        r is Some <==> (manifest is Some && manifest_reusable(manifest->Some_0, studs_per_tile_bits, includes_materials)),
        r matches Some(n) ==> (n.version == MODEL_FORMAT_VERSION && n.includes_materials == includes_materials
            && n.studs_per_tile_bits == manifest->Some_0.studs_per_tile_bits
            && table_view(n.dependencies@) == renormalized_table(table_view(manifest->Some_0.dependencies@))
            && n.sources@.len() == manifest->Some_0.sources@.len()
            && n.models@.len() == manifest->Some_0.models@.len()
            && (forall|i: int| 0 <= i < n.sources@.len() ==> source_normalized(manifest->Some_0.sources@[i], #[trigger] n.sources@[i]))
            && (forall|i: int| 0 <= i < n.models@.len() ==> model_normalized(manifest->Some_0.models@[i], #[trigger] n.models@[i]))),
{
    match manifest {
        None => None,
        Some(m) => {
            if m.version != MODEL_FORMAT_VERSION || !f32_bits_equal(m.studs_per_tile_bits, studs_per_tile_bits)
                || m.includes_materials != includes_materials {
                None
            } else {
                Some(normalize_manifest_paths(m))
            }
        },
    }
}

/// The position of the first source entry at or after `i` for `source`
/// with content hash `hash`.
pub open spec fn source_entry_position(sources: Seq<ModelSourceManifestEntry>, source: Seq<char>, hash: Seq<char>, i: int) -> Option<int>
    decreases sources.len() - i,
{
    if i < 0 || i >= sources.len() {
        None
    } else if sources[i].source@ == source && sources[i].hash@ == hash {
        Some(i)
    } else {
        source_entry_position(sources, source, hash, i + 1)
    }
}

/// The recorded fingerprints of `paths`, collected into a table (a repeated
/// path keeps its last value); `None` when the manifest records no
/// fingerprint for one of them.
pub open spec fn dependency_table(paths: Seq<Seq<char>>, recorded: Seq<(Seq<char>, String)>) -> Option<Seq<(Seq<char>, String)>>
    decreases paths.len(),
{
    if paths.len() == 0 {
        Some(Seq::empty())
    } else {
        match dependency_table(paths.drop_last(), recorded) {
            None => None,
            Some(t) => match table_get(recorded, paths.last()) {
                None => None,
                Some(h) => Some(table_insert(t, paths.last(), h)),
            },
        }
    }
}

/// The dependencies, with their recorded fingerprints, of the manifest's
/// entry for `source` with content hash `source_hash`; `None` when there is
/// no such entry or a dependency has no recorded fingerprint.
pub open spec fn source_dependencies_spec(m: ModelManifest, source: Seq<char>, source_hash: Seq<char>) -> Option<Seq<(Seq<char>, String)>> {
    match source_entry_position(m.sources@, source, source_hash, 0) {
        None => None,
        Some(i) => dependency_table(texts(m.sources@[i].dependencies@), table_view(m.dependencies@)),
    }
}

proof fn lemma_source_entry_position(sources: Seq<ModelSourceManifestEntry>, source: Seq<char>, hash: Seq<char>, i: int)
    requires
        0 <= i,
    ensures
        source_entry_position(sources, source, hash, i) matches Some(p) ==> i <= p < sources.len(),
    decreases sources.len() - i,
{
    if i < sources.len() && !(sources[i].source@ == source && sources[i].hash@ == hash) {
        lemma_source_entry_position(sources, source, hash, i + 1);
    }
}

fn find_source_entry(sources: &Vec<ModelSourceManifestEntry>, source: &str, source_hash: &str) -> (r: Option<usize>)
    ensures
        match r {
            Some(i) => source_entry_position(sources@, source@, source_hash@, 0) == Some(i as int),
            None => source_entry_position(sources@, source@, source_hash@, 0) is None,
        },
{
    let mut i: usize = 0;
    while i < sources.len()
        invariant
            0 <= i <= sources@.len(),
            source_entry_position(sources@, source@, source_hash@, 0) == source_entry_position(
                sources@,
                source@,
                source_hash@,
                i as int,
            ),
        decreases sources@.len() - i,
    {
        if crate::metadata::str_equal(sources[i].source.as_str(), source) && crate::metadata::str_equal(
            sources[i].hash.as_str(),
            source_hash,
        ) {
            return Some(i);
        }
        i = i + 1;
    }
    None
}

/// The dependencies, with their recorded fingerprints, of the manifest's
/// entry for a source file with the given content hash.
pub fn source_dependencies_of(manifest: &ModelManifest, source: &str, source_hash: &str) -> (r: Option<Vec<(String, String)>>)
    ensures
        match r {
            Some(t) => source_dependencies_spec(*manifest, source@, source_hash@) == Some(table_view(t@)),
            None => source_dependencies_spec(*manifest, source@, source_hash@) is None,
        },
{
    let found = match find_source_entry(&manifest.sources, source, source_hash) {
        Some(i) => i,
        None => return None,
    };
    proof { lemma_source_entry_position(manifest.sources@, source@, source_hash@, 0); }
    let paths = &manifest.sources[found].dependencies;
    let ghost recorded = table_view(manifest.dependencies@);
    let mut t: Vec<(String, String)> = Vec::new();
    let mut k: usize = 0;
    while k < paths.len()
        invariant
            recorded == table_view(manifest.dependencies@),
            found < manifest.sources@.len(),
            source_entry_position(manifest.sources@, source@, source_hash@, 0) == Some(found as int),
            paths@ == manifest.sources@[found as int].dependencies@,
            0 <= k <= paths@.len(),
            dependency_table(texts(paths@.take(k as int)), recorded) == Some(table_view(t@)),
        decreases paths@.len() - k,
    {
        let path = &paths[k];
        assert(texts(paths@.take(k + 1)).drop_last() =~= texts(paths@.take(k as int)));
        assert(texts(paths@.take(k + 1)).last() == path@);
        proof { lemma_key_position(recorded, path@, 0); }
        match find_key(&manifest.dependencies, path) {
            None => {
                assert(texts(paths@).take(k + 1) =~= texts(paths@.take(k + 1)));
                assert(table_get(recorded, path@) is None);
                assert(dependency_table(texts(paths@.take(k + 1)), recorded) is None);
                proof { lemma_dependency_table_none(texts(paths@), recorded, k as int + 1); }
                assert(source_dependencies_spec(*manifest, source@, source_hash@) is None);
                return None;
            },
            Some(j) => {
                let value = manifest.dependencies[j].1.clone();
                insert_entry(&mut t, path.clone(), value);
            },
        }
        k = k + 1;
    }
    assert(paths@.take(paths@.len() as int) =~= paths@);
    Some(t)
}

proof fn lemma_dependency_table_none(paths: Seq<Seq<char>>, recorded: Seq<(Seq<char>, String)>, k: int)
    requires
        0 <= k <= paths.len(),
        dependency_table(paths.take(k), recorded) is None,
    ensures
        dependency_table(paths, recorded) is None,
    decreases paths.len() - k,
{
    if k < paths.len() {
        assert(paths.take(k + 1).drop_last() =~= paths.take(k));
        lemma_dependency_table_none(paths, recorded, k + 1);
    } else {
        assert(paths.take(k) =~= paths);
    }
}

/// The entries of `models` whose source is `source`, in order.
pub open spec fn models_of_source_spec(models: Seq<ModelManifestEntry>, source: Seq<char>) -> Seq<ModelManifestEntry>
    decreases models.len(),
{
    if models.len() == 0 {
        Seq::empty()
    } else {
        let r = models_of_source_spec(models.drop_last(), source);
        if models.last().source@ == source {
            r.push(models.last())
        } else {
            r
        }
    }
}

/// The models that the manifest lists for `source`.
pub fn models_of_source(models: &Vec<ModelManifestEntry>, source: &str) -> (r: Vec<ModelManifestEntry>)
    ensures
        r@ == models_of_source_spec(models@, source@),
{
    let mut r: Vec<ModelManifestEntry> = Vec::new();
    let mut i: usize = 0;
    while i < models.len()
        invariant
            0 <= i <= models@.len(),
            r@ == models_of_source_spec(models@.take(i as int), source@),
        decreases models@.len() - i,
    {
        assert(models@.take(i + 1).drop_last() =~= models@.take(i as int));
        if crate::metadata::str_equal(models[i].source.as_str(), source) {
            r.push(models[i].duplicate());
        }
        i = i + 1;
    }
    assert(models@.take(models@.len() as int) =~= models@);
    r
}

/// `path` is one of `paths`.
pub open spec fn listed(paths: Seq<String>, path: Seq<char>) -> bool {
    exists|i: int| 0 <= i < paths.len() && paths[i]@ == path
}

fn is_listed(paths: &Vec<String>, path: &String) -> (r: bool)
    ensures
        r == listed(paths@, path@),
{
    let mut i: usize = 0;
    while i < paths.len()
        invariant
            0 <= i <= paths@.len(),
            forall|k: int| 0 <= k < i ==> paths@[k]@ != path@,
        decreases paths@.len() - i,
    {
        if paths[i] == *path {
            return true;
        }
        i = i + 1;
    }
    false
}

/// The entries of `models` whose source is not among `sources`, in order.
pub open spec fn models_outside_spec(models: Seq<ModelManifestEntry>, sources: Seq<String>) -> Seq<ModelManifestEntry>
    decreases models.len(),
{
    if models.len() == 0 {
        Seq::empty()
    } else {
        let r = models_outside_spec(models.drop_last(), sources);
        if listed(sources, models.last().source@) {
            r
        } else {
            r.push(models.last())
        }
    }
}

/// The previous manifest's models from sources that this run does not
/// export again.
pub fn models_outside(models: &Vec<ModelManifestEntry>, sources: &Vec<String>) -> (r: Vec<ModelManifestEntry>)
    ensures
        r@ == models_outside_spec(models@, sources@),
{
    let mut r: Vec<ModelManifestEntry> = Vec::new();
    let mut i: usize = 0;
    while i < models.len()
        invariant
            0 <= i <= models@.len(),
            r@ == models_outside_spec(models@.take(i as int), sources@),
        decreases models@.len() - i,
    {
        assert(models@.take(i + 1).drop_last() =~= models@.take(i as int));
        if !is_listed(sources, &models[i].source) {
            r.push(models[i].duplicate());
        }
        i = i + 1;
    }
    assert(models@.take(models@.len() as int) =~= models@);
    r
}

/// The entries of `entries` whose source is not among `sources`, in order.
pub open spec fn sources_outside_spec(entries: Seq<SourceEntryView>, sources: Seq<String>) -> Seq<SourceEntryView>
    decreases entries.len(),
{
    if entries.len() == 0 {
        Seq::empty()
    } else {
        let r = sources_outside_spec(entries.drop_last(), sources);
        if listed(sources, entries.last().source) {
            r
        } else {
            r.push(entries.last())
        }
    }
}

/// The views of source entries.
pub open spec fn source_views(entries: Seq<ModelSourceManifestEntry>) -> Seq<SourceEntryView> {
    entries.map_values(|e: ModelSourceManifestEntry| e@)
}

pub(crate) fn duplicate_paths(paths: &Vec<String>) -> (r: Vec<String>)
    ensures
        r@ == paths@,
{
    let mut r: Vec<String> = Vec::new();
    let mut i: usize = 0;
    while i < paths.len()
        invariant
            0 <= i <= paths@.len(),
            r@ =~= paths@.take(i as int),
        decreases paths@.len() - i,
    {
        r.push(paths[i].clone());
        i = i + 1;
    }
    r
}

/// The previous manifest's source entries for sources that this run does
/// not export again.
pub fn sources_outside(entries: &Vec<ModelSourceManifestEntry>, sources: &Vec<String>) -> (r: Vec<ModelSourceManifestEntry>)
    ensures
        source_views(r@) == sources_outside_spec(source_views(entries@), sources@),
{
    let mut r: Vec<ModelSourceManifestEntry> = Vec::new();
    let mut i: usize = 0;
    while i < entries.len()
        invariant
            0 <= i <= entries@.len(),
            source_views(r@) == sources_outside_spec(source_views(entries@.take(i as int)), sources@),
        decreases entries@.len() - i,
    {
        assert(source_views(entries@.take(i + 1)).drop_last() =~= source_views(entries@.take(i as int)));
        assert(source_views(entries@.take(i + 1)).last() == entries@[i as int]@);
        if !is_listed(sources, &entries[i].source) {
            let e = &entries[i];
            let d = ModelSourceManifestEntry {
                source: e.source.clone(),
                hash: e.hash.clone(),
                dependencies: duplicate_paths(&e.dependencies),
            };
            assert(d@.dependencies =~= e@.dependencies);
            let ghost before = r@;
            r.push(d);
            assert(source_views(r@) =~= source_views(before).push(d@));
        }
        i = i + 1;
    }
    assert(entries@.take(entries@.len() as int) =~= entries@);
    r
}


/// The name of the GLB made from a model's glTF output: the output's file
/// stem and `.glb`; an output path without a file name is refused.
pub open spec fn glb_output_name_spec(output: Seq<char>) -> Result<Seq<char>, Seq<char>> {
    match crate::paths::file_name_spec(output) {
        Some(name) => Ok(crate::paths::file_stem_spec(name) + ".glb"@),
        None => Err("invalid GLTF output path: "@ + output),
    }
}

/// The name of the GLB made from the glTF at `output`.
pub fn glb_output_name(output: &str) -> (r: Result<String, String>)
    ensures
        match r {
            Ok(n) => glb_output_name_spec(output@) == Ok::<Seq<char>, Seq<char>>(n@),
            Err(e) => glb_output_name_spec(output@) == Err::<Seq<char>, Seq<char>>(e@),
        },
{
    match crate::paths::file_name(output) {
        Some(name) => {
            let mut r = crate::paths::file_stem(name.as_str());
            r.append(".glb");
            Ok(r)
        },
        None => {
            let mut e = "invalid GLTF output path: ".to_owned();
            e.append(output);
            Err(e)
        },
    }
}

/// The names of a model's outputs: the glTF document and its binary
/// buffer, both named by the output stem.
pub fn model_output_names(output_stem: &str) -> (r: (String, String))
    ensures
        r.0@ == output_stem@ + ".gltf"@,
        r.1@ == output_stem@ + ".bin"@,
{
    let mut gltf = output_stem.to_owned();
    gltf.append(".gltf");
    let mut bin = output_stem.to_owned();
    bin.append(".bin");
    (gltf, bin)
}

/// The files of each downloaded asset: `<download>/<id>/asset.bin` and
/// `<download>/<id>/asset.rbxm`, given as components.
pub open spec fn asset_candidates(download: Seq<Seq<char>>, ids: Seq<Seq<char>>) -> Seq<Seq<Seq<char>>>
    decreases ids.len(),
{
    if ids.len() == 0 {
        Seq::empty()
    } else {
        asset_candidates(download, ids.drop_last()) + seq![
            download.push(ids.last()).push("asset.bin"@),
            download.push(ids.last()).push("asset.rbxm"@),
        ]
    }
}

/// The fallback images of each material: `<assets>/material/<name>_color.png`
/// and `<assets>/material/<name>_normal.png`.
pub open spec fn material_candidates(assets: Seq<Seq<char>>, names: Seq<Seq<char>>) -> Seq<Seq<Seq<char>>>
    decreases names.len(),
{
    if names.len() == 0 {
        Seq::empty()
    } else {
        material_candidates(assets, names.drop_last()) + seq![
            assets.push("material"@).push(names.last() + "_color.png"@),
            assets.push("material"@).push(names.last() + "_normal.png"@),
        ]
    }
}

/// What a model's output depends on: the files of its assets, and, when the
/// export has materials, the fallback images of its primitives' materials.
pub struct ModelDependencies {
    pub asset_ids: Vec<String>,
    pub material_names: Vec<String>,
}

/// The candidate dependency paths of one model.
pub open spec fn dependency_candidates(
    download: Seq<Seq<char>>,
    assets: Seq<Seq<char>>,
    m: ModelDependencies,
    includes_materials: bool,
) -> Seq<Seq<Seq<char>>> {
    asset_candidates(download, texts(m.asset_ids@)) + if includes_materials {
        material_candidates(assets, texts(m.material_names@))
    } else {
        Seq::empty()
    }
}

/// The candidate dependency paths of several models, one after another.
pub open spec fn all_dependency_candidates(
    download: Seq<Seq<char>>,
    assets: Seq<Seq<char>>,
    models: Seq<ModelDependencies>,
    includes_materials: bool,
) -> Seq<Seq<Seq<char>>>
    decreases models.len(),
{
    if models.len() == 0 {
        Seq::empty()
    } else {
        all_dependency_candidates(download, assets, models.drop_last(), includes_materials)
            + dependency_candidates(download, assets, models.last(), includes_materials)
    }
}

fn with_components(dir: &Vec<String>, a: &str, b: &str) -> (r: Vec<String>)
    ensures
        crate::text::texts(r@) == crate::text::texts(dir@).push(a@).push(b@),
{
    let mut r = duplicate_paths(dir);
    let ghost before = r@;
    r.push(a.to_owned());
    r.push(b.to_owned());
    assert(crate::text::texts(r@) =~= crate::text::texts(before).push(a@).push(b@));
    r
}

fn push_candidates(
    out: &mut Vec<Vec<String>>,
    download_dir: &Vec<String>,
    assets_dir: &Vec<String>,
    m: &ModelDependencies,
    includes_materials: bool,
)
    ensures
        crate::paths::path_views(final(out)@) == crate::paths::path_views(old(out)@) + dependency_candidates(
            crate::text::texts(download_dir@),
            crate::text::texts(assets_dir@),
            *m,
            includes_materials,
        ),
{
    let ghost d = crate::text::texts(download_dir@);
    let ghost a = crate::text::texts(assets_dir@);
    let ghost start = crate::paths::path_views(out@);
    let ghost ids = texts(m.asset_ids@);
    let ghost names = texts(m.material_names@);
    let mut i: usize = 0;
    assert(ids.take(0) =~= Seq::<Seq<char>>::empty());
    assert(crate::paths::path_views(out@) =~= start + asset_candidates(d, ids.take(0)));
    while i < m.asset_ids.len()
        invariant
            d == crate::text::texts(download_dir@),
            start == crate::paths::path_views(old(out)@),
            ids == texts(m.asset_ids@),
            i <= m.asset_ids.len(),
            crate::paths::path_views(out@) == start + asset_candidates(d, ids.take(i as int)),
        decreases m.asset_ids.len() - i,
    {
        let ghost before = out@;
        let bin = with_components(download_dir, m.asset_ids[i].as_str(), "asset.bin");
        let rbxm = with_components(download_dir, m.asset_ids[i].as_str(), "asset.rbxm");
        out.push(bin);
        out.push(rbxm);
        assert(ids.take(i + 1).drop_last() =~= ids.take(i as int));
        assert(ids.take(i + 1).last() == m.asset_ids@[i as int]@);
        assert(crate::paths::path_views(out@) =~= crate::paths::path_views(before) + seq![
            d.push(ids.take(i + 1).last()).push("asset.bin"@),
            d.push(ids.take(i + 1).last()).push("asset.rbxm"@),
        ]);
        i = i + 1;
    }
    assert(ids.take(ids.len() as int) =~= ids);
    let ghost mid = crate::paths::path_views(out@);
    if includes_materials {
        let mut k: usize = 0;
        assert(names.take(0) =~= Seq::<Seq<char>>::empty());
        assert(crate::paths::path_views(out@) =~= mid + material_candidates(a, names.take(0)));
        while k < m.material_names.len()
            invariant
                a == crate::text::texts(assets_dir@),
                names == texts(m.material_names@),
                k <= m.material_names.len(),
                crate::paths::path_views(out@) == mid + material_candidates(a, names.take(k as int)),
            decreases m.material_names.len() - k,
        {
            let ghost before = out@;
            let mut color = m.material_names[k].clone();
            color.append("_color.png");
            let mut normal = m.material_names[k].clone();
            normal.append("_normal.png");
            let color_path = with_components(assets_dir, "material", color.as_str());
            let normal_path = with_components(assets_dir, "material", normal.as_str());
            out.push(color_path);
            out.push(normal_path);
            assert(names.take(k + 1).drop_last() =~= names.take(k as int));
            assert(names.take(k + 1).last() == m.material_names@[k as int]@);
            assert(crate::paths::path_views(out@) =~= crate::paths::path_views(before) + seq![
                a.push("material"@).push(names.take(k + 1).last() + "_color.png"@),
                a.push("material"@).push(names.take(k + 1).last() + "_normal.png"@),
            ]);
            k = k + 1;
        }
        assert(names.take(names.len() as int) =~= names);
    } else {
        assert(mid =~= mid + Seq::<Seq<Seq<char>>>::empty());
    }
}

/// The files the models of one source depend on, each once, in path order:
/// the downloaded files of every asset they use and, when the export has
/// materials, the fallback images of their materials. Directories and paths
/// are given as components.
pub fn dependency_paths(
    models: &Vec<ModelDependencies>,
    download_dir: &Vec<String>,
    assets_dir: &Vec<String>,
    includes_materials: bool,
) -> (r: Vec<Vec<String>>)
    ensures
        crate::paths::paths_strictly_sorted(crate::paths::path_views(r@)),
        crate::paths::path_views(r@).to_set() == all_dependency_candidates(
            crate::text::texts(download_dir@),
            crate::text::texts(assets_dir@),
            models@,
            includes_materials,
        ).to_set(),
{
    let ghost d = crate::text::texts(download_dir@);
    let ghost a = crate::text::texts(assets_dir@);
    let mut candidates: Vec<Vec<String>> = Vec::new();
    let mut i: usize = 0;
    assert(crate::paths::path_views(candidates@) =~= all_dependency_candidates(d, a, models@.take(0), includes_materials));
    while i < models.len()
        invariant
            d == crate::text::texts(download_dir@),
            a == crate::text::texts(assets_dir@),
            i <= models.len(),
            crate::paths::path_views(candidates@) == all_dependency_candidates(d, a, models@.take(i as int), includes_materials),
        decreases models.len() - i,
    {
        push_candidates(&mut candidates, download_dir, assets_dir, &models[i], includes_materials);
        assert(models@.take(i + 1).drop_last() =~= models@.take(i as int));
        i = i + 1;
    }
    assert(models@.take(models.len() as int) =~= models@);
    crate::paths::sorted_unique(&candidates)
}

/// Every model listed for a source is one of that source's, and keeping
/// the models outside a run's sources keeps every model of a source the
/// run does not export, in order, and none of a source it does export: a
/// source's cached models survive runs over other sources unchanged.
pub proof fn lemma_models_outside_keep_other_sources(
    models: Seq<ModelManifestEntry>,
    sources: Seq<String>,
    source: Seq<char>,
)
    ensures
        forall|i: int| 0 <= i < models_of_source_spec(models, source).len()
            ==> (#[trigger] models_of_source_spec(models, source)[i]).source@ == source,
        !listed(sources, source) ==> models_of_source_spec(models_outside_spec(models, sources), source)
            == models_of_source_spec(models, source),
        listed(sources, source) ==> models_of_source_spec(models_outside_spec(models, sources), source)
            == Seq::<ModelManifestEntry>::empty(),
    decreases models.len(),
{
    if models.len() > 0 {
        lemma_models_outside_keep_other_sources(models.drop_last(), sources, source);
        let kept = models_outside_spec(models.drop_last(), sources);
        if !listed(sources, models.last().source@) {
            let o = models_outside_spec(models, sources);
            assert(o == kept.push(models.last()));
            assert(o.drop_last() =~= kept);
            assert(o.last() == models.last());
        }
        let rest = models_of_source_spec(models.drop_last(), source);
        if models.last().source@ == source {
            assert forall|i: int| 0 <= i < rest.push(models.last()).len()
                implies (#[trigger] rest.push(models.last())[i]).source@ == source by {
                if i < rest.len() {
                    assert(rest.push(models.last())[i] == rest[i]);
                }
            }
        }
    }
}

/// Keeping the source entries outside a run's sources drops exactly the
/// entries of the run's sources: every kept entry is of another source,
/// and every entry of another source is kept.
pub proof fn lemma_sources_outside_keep_other_sources(entries: Seq<SourceEntryView>, sources: Seq<String>)
    ensures
        forall|i: int| 0 <= i < sources_outside_spec(entries, sources).len()
            ==> !listed(sources, (#[trigger] sources_outside_spec(entries, sources)[i]).source),
        forall|e: SourceEntryView| entries.contains(e) && !listed(sources, e.source)
            ==> #[trigger] sources_outside_spec(entries, sources).contains(e),
    decreases entries.len(),
{
    if entries.len() > 0 {
        let rest = entries.drop_last();
        lemma_sources_outside_keep_other_sources(rest, sources);
        let kept = sources_outside_spec(rest, sources);
        if !listed(sources, entries.last().source) {
            assert forall|i: int| 0 <= i < kept.push(entries.last()).len()
                implies !listed(sources, (#[trigger] kept.push(entries.last())[i]).source) by {
                if i < kept.len() {
                    assert(kept.push(entries.last())[i] == kept[i]);
                }
            }
        }
        assert forall|e: SourceEntryView| entries.contains(e) && !listed(sources, e.source)
            implies #[trigger] sources_outside_spec(entries, sources).contains(e) by {
            let k = choose|k: int| 0 <= k < entries.len() && entries[k] == e;
            let out = sources_outside_spec(entries, sources);
            if k < entries.len() - 1 {
                assert(rest[k] == e);
                assert(rest.contains(e));
                assert(kept.contains(e));
                let j = choose|j: int| 0 <= j < kept.len() && kept[j] == e;
                if !listed(sources, entries.last().source) {
                    assert(out == kept.push(entries.last()));
                    assert(out[j] == e);
                } else {
                    assert(out == kept);
                }
                assert(out.contains(e));
            } else {
                assert(entries.last() == e);
                assert(out == kept.push(entries.last()));
                assert(out[out.len() - 1] == e);
                assert(out.contains(e));
            }
        }
    }
}

/// The manifest a run writes is reusable by the next run with the same
/// settings: it has the current format version, and a tile size that the
/// run accepted (finite and positive) compares equal to itself.
pub proof fn lemma_written_manifest_is_reusable(m: ModelManifest, studs_per_tile_bits: u32, includes_materials: bool)
    requires
        m.version == MODEL_FORMAT_VERSION,
        m.studs_per_tile_bits == studs_per_tile_bits,
        m.includes_materials == includes_materials,
        crate::plan::positive_finite(studs_per_tile_bits),
    ensures
        manifest_reusable(m, studs_per_tile_bits, includes_materials),
{
    assert(!f32_is_nan(studs_per_tile_bits)) by (bit_vector)
        requires
            0 < studs_per_tile_bits < 0x7f80_0000u32,
    ;
}

/// Renormalising a path table whose paths are already normalised and
/// distinct changes nothing: the dependency table a run writes reads back
/// as written.
pub proof fn lemma_renormalized_identity<V>(t: Seq<(Seq<char>, V)>)
    requires
        keys_unique(t),
        keys_normalized(t),
    ensures
        renormalized_table(t) == t,
    decreases t.len(),
{
    if t.len() > 0 {
        let rest = t.drop_last();
        assert(keys_unique(rest) && keys_normalized(rest)) by {
            assert forall|i: int, j: int| 0 <= i < j < rest.len() implies rest[i].0 != rest[j].0 by {
                assert(rest[i] == t[i] && rest[j] == t[j]);
            }
            assert forall|i: int| 0 <= i < rest.len() implies forward_slashes(#[trigger] rest[i].0) == rest[i].0 by {
                assert(rest[i] == t[i]);
            }
        }
        lemma_renormalized_identity(rest);
        let last = t.last();
        assert(forward_slashes(last.0) == last.0) by {
            assert(last == t[t.len() - 1]);
        }
        lemma_key_position(rest, last.0, 0);
        assert(key_position(rest, last.0, 0) is None) by {
            if key_position(rest, last.0, 0) is Some {
                let p = key_position(rest, last.0, 0)->Some_0;
                assert(rest[p] == t[p]);
                assert(t[p].0 != t[t.len() - 1].0);
            }
        }
        assert(rest.push(last) =~= t);
    }
}

} // verus!
