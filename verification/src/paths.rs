//! Paths as lists of components: their order, the names and extensions of
//! files, and keeping path lists sorted.
use vstd::prelude::*;
use crate::metadata::str_equal;
use crate::text::{texts, text_le, text_less_or_equal, lemma_text_le_total, lemma_text_le_antisymmetric, lemma_text_le_transitive};

verus! {

/// The position of the last `c` in `s`.
pub open spec fn last_index_of(s: Seq<char>, c: char) -> Option<int>
    decreases s.len(),
{
    if s.len() == 0 {
        None
    } else if s.last() == c {
        Some(s.len() - 1)
    } else {
        last_index_of(s.drop_last(), c)
    }
}

/// The position of the last dot in a file name.
pub open spec fn last_dot(name: Seq<char>) -> Option<int> {
    last_index_of(name, '.')
}

/// The extension of a file name, as `Path::extension` reads it: what
/// follows the last dot, where there is one and something stands before it.
pub open spec fn file_extension_spec(name: Seq<char>) -> Option<Seq<char>> {
    match last_dot(name) {
        Some(d) => if d == 0 || name == ".."@ {
            None
        } else {
            Some(name.skip(d + 1))
        },
        None => None,
    }
}

pub proof fn lemma_last_index_of(s: Seq<char>, c: char)
    ensures
        match last_index_of(s, c) {
            Some(d) => 0 <= d < s.len() && s[d] == c && forall|k: int| d < k < s.len() ==> s[k] != c,
            None => forall|k: int| 0 <= k < s.len() ==> s[k] != c,
        },
    decreases s.len(),
{
    if s.len() > 0 && s.last() != c {
        let rest = s.drop_last();
        lemma_last_index_of(rest, c);
        match last_index_of(rest, c) {
            Some(d) => {
                assert(s[d] == rest[d]);
                assert forall|k: int| d < k < s.len() implies s[k] != c by {
                    if k < s.len() - 1 {
                        assert(s[k] == rest[k]);
                    }
                }
            },
            None => {
                assert forall|k: int| 0 <= k < s.len() implies s[k] != c by {
                    if k < s.len() - 1 {
                        assert(s[k] == rest[k]);
                    }
                }
            },
        }
    }
}

proof fn lemma_last_index_found(s: Seq<char>, c: char, d: int)
    requires
        0 <= d < s.len(),
        s[d] == c,
        forall|k: int| d < k < s.len() ==> s[k] != c,
    ensures
        last_index_of(s, c) == Some(d),
    decreases s.len(),
{
    if s.last() != c {
        lemma_last_index_found(s.drop_last(), c, d);
    }
}

proof fn lemma_last_index_none(s: Seq<char>, c: char)
    requires
        forall|k: int| 0 <= k < s.len() ==> s[k] != c,
    ensures
        last_index_of(s, c) is None,
    decreases s.len(),
{
    if s.len() > 0 {
        lemma_last_index_none(s.drop_last(), c);
    }
}

/// Finds the last `c` in `s` before position `end`.
pub(crate) fn find_last(s: &str, c: char, end: usize) -> (r: Option<usize>)
    requires
        end <= s@.len(),
    ensures
        match r {
            Some(i) => last_index_of(s@.take(end as int), c) == Some(i as int),
            None => last_index_of(s@.take(end as int), c) is None,
        },
{
    let mut i: usize = end;
    while i > 0 && s.get_char(i - 1) != c
        invariant
            end <= s@.len(),
            i <= end,
            forall|k: int| i <= k < end ==> s@[k] != c,
        decreases i,
    {
        i = i - 1;
    }
    let ghost t = s@.take(end as int);
    if i == 0 {
        proof {
            assert forall|k: int| 0 <= k < t.len() implies t[k] != c by {
                assert(t[k] == s@[k]);
            }
            lemma_last_index_none(t, c);
        }
        None
    } else {
        proof {
            assert(t[i - 1] == c);
            assert forall|k: int| i - 1 < k < t.len() implies t[k] != c by {
                assert(t[k] == s@[k]);
            }
            lemma_last_index_found(t, c, i - 1);
        }
        Some(i - 1)
    }
}

/// The characters of `s` from `start` to `end`.
pub(crate) fn substring(s: &str, start: usize, end: usize) -> (r: String)
    requires
        start <= end <= s@.len(),
    ensures
        r@ == s@.subrange(start as int, end as int),
{
    let mut r = String::new();
    let mut j: usize = start;
    while j < end
        invariant
            start <= j <= end <= s@.len(),
            r@ =~= s@.subrange(start as int, j as int),
        decreases end - j,
    {
        crate::text::push_char(&mut r, s.get_char(j));
        j = j + 1;
    }
    r
}

/// The extension of a file name (`Path::extension`).
pub fn file_extension(name: &str) -> (r: Option<String>)
    ensures
        r matches Some(e) ==> file_extension_spec(name@) == Some(e@),
        r is None ==> file_extension_spec(name@) is None,
{
    let n = name.unicode_len();
    assert(name@.take(n as int) =~= name@);
    proof { lemma_last_index_of(name@, '.'); }
    match find_last(name, '.', n) {
        None => None,
        Some(d) => {
            if d == 0 || str_equal(name, "..") {
                None
            } else {
                assert(name@.skip(d + 1) =~= name@.subrange(d + 1, n as int));
                Some(substring(name, d + 1, n))
            }
        },
    }
}

/// A path's component `seg` that names nothing: empty (between repeated or
/// trailing separators) or the current directory.
pub open spec fn skipped_component(seg: Seq<char>) -> bool {
    seg.len() == 0 || seg == "."@
}

/// The last component of a `/`-separated path, as `Path::file_name` gives
/// it: `None` when there is none or it is `..`.
pub open spec fn file_name_spec(path: Seq<char>) -> Option<Seq<char>>
    decreases path.len(),
{
    match last_index_of(path, '/') {
        None => if skipped_component(path) || path == ".."@ {
            None
        } else {
            Some(path)
        },
        Some(i) => {
            let seg = path.skip(i + 1);
            if skipped_component(seg) {
                proof {
                    lemma_last_index_of(path, '/');
                }
                file_name_spec(path.take(i))
            } else if seg == ".."@ {
                None
            } else {
                Some(seg)
            }
        },
    }
}

/// A file name without its extension, as `Path::file_stem` gives it.
pub open spec fn file_stem_spec(name: Seq<char>) -> Seq<char> {
    match last_dot(name) {
        Some(d) => if d == 0 || name == ".."@ {
            name
        } else {
            name.take(d)
        },
        None => name,
    }
}

/// The last component of a `/`-separated path (`Path::file_name`).
pub fn file_name(path: &str) -> (r: Option<String>)
    ensures
        match r {
            Some(n) => file_name_spec(path@) == Some(n@),
            None => file_name_spec(path@) is None,
        },
{
    let mut end = path.unicode_len();
    assert(path@.take(end as int) =~= path@);
    loop
        invariant
            end <= path@.len(),
            file_name_spec(path@) == file_name_spec(path@.take(end as int)),
        decreases end,
    {
        let ghost t = path@.take(end as int);
        proof { lemma_last_index_of(t, '/'); }
        match find_last(path, '/', end) {
            None => {
                let seg = substring(path, 0, end);
                assert(seg@ =~= t);
                if seg.unicode_len() == 0 || str_equal(seg.as_str(), ".") || str_equal(seg.as_str(), "..") {
                    return None;
                }
                return Some(seg);
            },
            Some(i) => {
                let seg = substring(path, i + 1, end);
                assert(seg@ =~= t.skip(i + 1));
                if seg.unicode_len() == 0 || str_equal(seg.as_str(), ".") {
                    assert(t.take(i as int) =~= path@.take(i as int));
                    end = i;
                } else if str_equal(seg.as_str(), "..") {
                    return None;
                } else {
                    return Some(seg);
                }
            },
        }
    }
}

/// A file name without its extension (`Path::file_stem`).
pub fn file_stem(name: &str) -> (r: String)
    ensures
        r@ == file_stem_spec(name@),
{
    let n = name.unicode_len();
    assert(name@.take(n as int) =~= name@);
    proof { lemma_last_index_of(name@, '.'); }
    match find_last(name, '.', n) {
        None => substring(name, 0, n),
        Some(d) => {
            if d == 0 || str_equal(name, "..") {
                substring(name, 0, n)
            } else {
                substring(name, 0, d)
            }
        },
    }
}

/// `a` sorts no later than `b` as paths: component by component, a proper
/// prefix first (the order of `Path`).
pub open spec fn path_le(a: Seq<Seq<char>>, b: Seq<Seq<char>>) -> bool
    decreases a.len(),
{
    if a.len() == 0 {
        true
    } else if b.len() == 0 {
        false
    } else if a[0] != b[0] {
        text_le(a[0], b[0])
    } else {
        path_le(a.drop_first(), b.drop_first())
    }
}

/// Any two paths are ordered one way or the other.
pub proof fn lemma_path_le_total(a: Seq<Seq<char>>, b: Seq<Seq<char>>)
    ensures
        path_le(a, b) || path_le(b, a),
    decreases a.len(),
{
    if a.len() > 0 && b.len() > 0 {
        if a[0] == b[0] {
            lemma_path_le_total(a.drop_first(), b.drop_first());
        } else {
            lemma_text_le_total(a[0], b[0]);
        }
    }
}

/// The order of paths is transitive.
pub proof fn lemma_path_le_transitive(a: Seq<Seq<char>>, b: Seq<Seq<char>>, c: Seq<Seq<char>>)
    requires
        path_le(a, b),
        path_le(b, c),
    ensures
        path_le(a, c),
    decreases a.len(),
{
    if a.len() > 0 && b.len() > 0 && c.len() > 0 {
        if a[0] == b[0] && b[0] == c[0] {
            lemma_path_le_transitive(a.drop_first(), b.drop_first(), c.drop_first());
        } else if a[0] != b[0] && b[0] != c[0] {
            lemma_text_le_transitive(a[0], b[0], c[0]);
            if a[0] == c[0] {
                lemma_text_le_antisymmetric(a[0], b[0]);
            }
        }
    }
}

/// Whether `a` sorts no later than `b` as paths.
pub fn path_less_or_equal(a: &Vec<String>, b: &Vec<String>) -> (r: bool)
    ensures
        r == path_le(texts(a@), texts(b@)),
{
    let ghost va = texts(a@);
    let ghost vb = texts(b@);
    let mut i: usize = 0;
    assert(va.skip(0) =~= va);
    assert(vb.skip(0) =~= vb);
    loop
        invariant
            va == texts(a@),
            vb == texts(b@),
            i <= a.len(),
            i <= b.len(),
            path_le(va, vb) == path_le(va.skip(i as int), vb.skip(i as int)),
        decreases a.len() - i,
    {
        if i == a.len() {
            return true;
        }
        if i == b.len() {
            return false;
        }
        if !str_equal(a[i].as_str(), b[i].as_str()) {
            return text_less_or_equal(a[i].as_str(), b[i].as_str());
        }
        assert(va.skip(i as int).drop_first() =~= va.skip(i + 1));
        assert(vb.skip(i as int).drop_first() =~= vb.skip(i + 1));
        i = i + 1;
    }
}

/// The paths, each as the texts of its components.
pub open spec fn path_views(paths: Seq<Vec<String>>) -> Seq<Seq<Seq<char>>> {
    paths.map_values(|p: Vec<String>| texts(p@))
}

/// Whether the paths stand in the order of [`path_le`].
pub open spec fn paths_sorted(paths: Seq<Seq<Seq<char>>>) -> bool {
    forall|i: int, j: int| 0 <= i < j < paths.len() ==> path_le(paths[i], paths[j])
}

/// Inserts `path` into sorted `sorted` where it belongs, after the paths
/// that sort no later than it.
pub(crate) fn insert_sorted(sorted: &mut Vec<Vec<String>>, path: Vec<String>)
    requires
        paths_sorted(path_views(old(sorted)@)),
    ensures
        paths_sorted(path_views(final(sorted)@)),
        path_views(final(sorted)@).to_multiset() == path_views(old(sorted)@).to_multiset().insert(texts(path@)),
{
    let ghost p = texts(path@);
    let ghost before = path_views(sorted@);
    let mut j: usize = 0;
    while j < sorted.len() && path_less_or_equal(&sorted[j], &path)
        invariant
            before == path_views(sorted@),
            p == texts(path@),
            j <= sorted.len(),
            forall|k: int| 0 <= k < j ==> path_le(#[trigger] before[k], p),
        decreases sorted.len() - j,
    {
        j = j + 1;
    }
    proof {
        if j < sorted.len() {
            assert(!path_le(before[j as int], p));
            lemma_path_le_total(before[j as int], p);
        }
    }
    sorted.insert(j, path);
    proof {
        let after = path_views(sorted@);
        assert(after =~= before.insert(j as int, p));
        vstd::seq_lib::to_multiset_insert(before, j as int, p);
        assert forall|a: int, b: int| 0 <= a < b < after.len() implies path_le(after[a], after[b]) by {
            if b < j {
            } else if a < j && b == j {
            } else if a < j {
                assert(after[b] == before[b - 1]);
            } else if a == j {
                assert(after[b] == before[b - 1]);
                if b - 1 > j {
                    lemma_path_le_transitive(p, before[j as int], before[b - 1]);
                }
            } else {
                assert(after[a] == before[a - 1]);
                assert(after[b] == before[b - 1]);
            }
        }
    }
}


/// Every path sorts no later than itself.
pub proof fn lemma_path_le_reflexive(a: Seq<Seq<char>>)
    ensures
        path_le(a, a),
    decreases a.len(),
{
    if a.len() > 0 {
        lemma_path_le_reflexive(a.drop_first());
    }
}

/// Paths ordered both ways are equal.
pub proof fn lemma_path_le_antisymmetric(a: Seq<Seq<char>>, b: Seq<Seq<char>>)
    requires
        path_le(a, b),
        path_le(b, a),
    ensures
        a == b,
    decreases a.len(),
{
    if a.len() > 0 {
        if a[0] != b[0] {
            lemma_text_le_antisymmetric(a[0], b[0]);
        }
        lemma_path_le_antisymmetric(a.drop_first(), b.drop_first());
        assert forall|i: int| 0 <= i < a.len() implies a[i] == b[i] by {
            if i > 0 {
                assert(a[i] == a.drop_first()[i - 1]);
                assert(b[i] == b.drop_first()[i - 1]);
            }
        }
        assert(a =~= b);
    }
}

/// Whether two paths have the same components.
pub fn path_equal(a: &Vec<String>, b: &Vec<String>) -> (r: bool)
    ensures
        r == (texts(a@) == texts(b@)),
{
    if a.len() != b.len() {
        return false;
    }
    let mut i: usize = 0;
    while i < a.len()
        invariant
            a@.len() == b@.len(),
            i <= a@.len(),
            forall|k: int| 0 <= k < i ==> a@[k]@ == b@[k]@,
        decreases a.len() - i,
    {
        if !str_equal(a[i].as_str(), b[i].as_str()) {
            assert(texts(a@)[i as int] != texts(b@)[i as int]);
            return false;
        }
        i = i + 1;
    }
    assert(texts(a@) =~= texts(b@));
    true
}

/// Whether the paths stand in strictly increasing order (so none repeats).
pub open spec fn paths_strictly_sorted(paths: Seq<Seq<Seq<char>>>) -> bool {
    forall|i: int, j: int|
        #![trigger paths[i], paths[j]]
        0 <= i < j < paths.len() ==> path_le(paths[i], paths[j]) && paths[i] != paths[j]
}

/// Inserting a path after those that sort no later than it, and before the
/// first that sorts later, keeps a strictly sorted list strictly sorted when
/// the path is not already there.
proof fn lemma_insert_keeps_strict_order(before: Seq<Seq<Seq<char>>>, j: int, p: Seq<Seq<char>>)
    requires
        paths_strictly_sorted(before),
        0 <= j <= before.len(),
        forall|k: int| 0 <= k < j ==> path_le(#[trigger] before[k], p),
        j > 0 ==> before[j - 1] != p,
        j < before.len() ==> path_le(p, before[j]) && p != before[j],
    ensures
        paths_strictly_sorted(before.insert(j, p)),
{
    let after = before.insert(j, p);
    assert forall|a: int, b: int| 0 <= a < b < after.len() implies path_le(after[a], after[b]) && after[a] != after[b] by {
        if b < j {
            assert(after[a] == before[a] && after[b] == before[b]);
            assert(path_le(before[a], before[b]) && before[a] != before[b]);
        } else if a < j && b == j {
            assert(after[a] == before[a] && after[b] == p);
            assert(path_le(before[a], p));
            if a < j - 1 {
                assert(path_le(before[a], before[j - 1]) && before[a] != before[j - 1]);
                if before[a] == p {
                    lemma_path_le_antisymmetric(before[j - 1], p);
                }
            }
            assert(before[a] != p);
        } else if a < j {
            assert(after[a] == before[a] && after[b] == before[b - 1]);
            assert(path_le(before[a], before[b - 1]) && before[a] != before[b - 1]);
        } else if a == j {
            assert(after[a] == p && after[b] == before[b - 1]);
            assert(j < before.len());
            if b - 1 > j {
                assert(path_le(before[j], before[b - 1]));
                lemma_path_le_transitive(p, before[j], before[b - 1]);
                if p == before[b - 1] {
                    lemma_path_le_antisymmetric(before[j], p);
                }
            }
            assert(path_le(p, before[b - 1]));
            assert(p != before[b - 1]);
        } else {
            assert(after[a] == before[a - 1]);
            assert(after[b] == before[b - 1]);
            assert(path_le(before[a - 1], before[b - 1]) && before[a - 1] != before[b - 1]);
        }
    }
}

/// Inserts `path` into strictly sorted `sorted` where it belongs, unless it
/// is there already.
pub(crate) fn insert_sorted_unique(sorted: &mut Vec<Vec<String>>, path: Vec<String>)
    requires
        paths_strictly_sorted(path_views(old(sorted)@)),
    ensures
        paths_strictly_sorted(path_views(final(sorted)@)),
        path_views(final(sorted)@).to_set() == path_views(old(sorted)@).to_set().insert(texts(path@)),
{
    let ghost p = texts(path@);
    let ghost before = path_views(sorted@);
    let mut j: usize = 0;
    while j < sorted.len() && path_less_or_equal(&sorted[j], &path)
        invariant
            before == path_views(sorted@),
            paths_strictly_sorted(before),
            p == texts(path@),
            j <= sorted.len(),
            forall|k: int| 0 <= k < j ==> path_le(#[trigger] before[k], p),
        decreases sorted.len() - j,
    {
        j = j + 1;
    }
    proof {
        if j < sorted.len() {
            lemma_path_le_total(before[j as int], p);
            lemma_path_le_reflexive(p);
            assert(before[j as int] != p);
        }
    }
    if j > 0 && path_equal(&sorted[j - 1], &path) {
        assert(before[j - 1] == p);
        assert(before.to_set().insert(p) =~= before.to_set());
        return;
    }
    sorted.insert(j, path);
    proof {
        let after = path_views(sorted@);
        assert(after =~= before.insert(j as int, p));
        assert(after.to_set() =~= before.to_set().insert(p)) by {
            assert forall|x: Seq<Seq<char>>| after.to_set().contains(x) <==> before.to_set().insert(p).contains(x) by {
                if after.to_set().contains(x) {
                    let k = choose|k: int| 0 <= k < after.len() && after[k] == x;
                    if k < j {
                        assert(after[k] == before[k]);
                    } else if k > j {
                        assert(after[k] == before[k - 1]);
                    }
                }
                if before.to_set().contains(x) {
                    let k = choose|k: int| 0 <= k < before.len() && before[k] == x;
                    if k < j {
                        assert(after[k] == before[k]);
                    } else {
                        assert(after[k + 1] == before[k]);
                    }
                }
                if x == p {
                    assert(after[j as int] == p);
                }
            }
        }
        lemma_insert_keeps_strict_order(before, j as int, p);
    }
}

/// The paths in strictly increasing order, each once.
pub fn sorted_unique(paths: &Vec<Vec<String>>) -> (r: Vec<Vec<String>>)
    ensures
        paths_strictly_sorted(path_views(r@)),
        path_views(r@).to_set() == path_views(paths@).to_set(),
{
    let ghost views = path_views(paths@);
    let mut sorted: Vec<Vec<String>> = Vec::new();
    let mut i: usize = 0;
    assert(path_views(sorted@).to_set() =~= views.take(0).to_set());
    while i < paths.len()
        invariant
            views == path_views(paths@),
            i <= paths.len(),
            paths_strictly_sorted(path_views(sorted@)),
            path_views(sorted@).to_set() == views.take(i as int).to_set(),
        decreases paths.len() - i,
    {
        let copy = crate::pipeline::duplicate_paths(&paths[i]);
        insert_sorted_unique(&mut sorted, copy);
        assert(views.take(i + 1) =~= views.take(i as int).push(views[i as int]));
        proof {
            let t = views.take(i as int);
            let u = views.take(i + 1);
            assert forall|x: Seq<Seq<char>>| u.to_set().contains(x) <==> t.to_set().insert(views[i as int]).contains(x) by {
                if u.to_set().contains(x) {
                    let k = choose|k: int| 0 <= k < u.len() && u[k] == x;
                    if k < i {
                        assert(t[k] == x);
                    }
                }
                if t.to_set().contains(x) {
                    let k = choose|k: int| 0 <= k < t.len() && t[k] == x;
                    assert(u[k] == x);
                }
                if x == views[i as int] {
                    assert(u[i as int] == x);
                }
            }
            assert(u.to_set() =~= t.to_set().insert(views[i as int]));
        }
        i = i + 1;
    }
    assert(views.take(paths.len() as int) =~= views);
    sorted
}

/// The components of `path` after `base`, when `base` is a prefix of it
/// component by component (`Path::strip_prefix`).
pub open spec fn strip_prefix_spec(path: Seq<Seq<char>>, base: Seq<Seq<char>>) -> Option<Seq<Seq<char>>> {
    if base.len() <= path.len() && path.take(base.len() as int) == base {
        Some(path.skip(base.len() as int))
    } else {
        None
    }
}

/// Where an asset is staged for export: a file under `materials_dir` is
/// copied to the same place under `output_dir`; any other file stays where
/// it is.
pub open spec fn staged_path_spec(source: Seq<Seq<char>>, materials_dir: Seq<Seq<char>>, output_dir: Seq<Seq<char>>) -> Seq<Seq<char>> {
    match strip_prefix_spec(source, materials_dir) {
        Some(rest) => output_dir + rest,
        None => source,
    }
}

/// Where an asset is staged for export, all paths given as components.
pub fn staged_path(source: &Vec<String>, materials_dir: &Vec<String>, output_dir: &Vec<String>) -> (r: Vec<String>)
    ensures
        texts(r@) == staged_path_spec(texts(source@), texts(materials_dir@), texts(output_dir@)),
{
    let ghost s = texts(source@);
    let ghost m = texts(materials_dir@);
    let mut is_prefix = materials_dir.len() <= source.len();
    let mut i: usize = 0;
    while is_prefix && i < materials_dir.len()
        invariant
            s == texts(source@),
            m == texts(materials_dir@),
            is_prefix ==> materials_dir@.len() <= source@.len(),
            i <= materials_dir@.len(),
            is_prefix ==> forall|k: int| 0 <= k < i ==> s[k] == m[k],
            !is_prefix ==> strip_prefix_spec(s, m) is None,
        decreases materials_dir@.len() - i + if is_prefix { 1int } else { 0int },
    {
        if !str_equal(source[i].as_str(), materials_dir[i].as_str()) {
            proof {
                assert(s[i as int] != m[i as int]);
                if m.len() <= s.len() && s.take(m.len() as int) == m {
                    assert(s.take(m.len() as int)[i as int] == s[i as int]);
                }
            }
            is_prefix = false;
        } else {
            i = i + 1;
        }
    }
    if !is_prefix {
        proof {
            if m.len() <= s.len() && s.take(m.len() as int) == m {
                assert(false);
            }
        }
        return crate::pipeline::duplicate_paths(source);
    }
    assert(s.take(m.len() as int) =~= m);
    let mut r = crate::pipeline::duplicate_paths(output_dir);
    let mut j: usize = materials_dir.len();
    while j < source.len()
        invariant
            s == texts(source@),
            m.len() <= j <= source@.len(),
            texts(r@) =~= texts(output_dir@) + s.subrange(m.len() as int, j as int),
        decreases source@.len() - j,
    {
        let ghost before = r@;
        r.push(source[j].clone());
        assert(texts(r@) =~= texts(before).push(s[j as int]));
        j = j + 1;
    }
    assert(s.subrange(m.len() as int, s.len() as int) =~= s.skip(m.len() as int));
    r
}
} // verus!
