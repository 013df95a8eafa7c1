//! Paths: the directory of a package, paths relative to the scan root, and
//! the ordered file list of a unit.

use vstd::prelude::*;
use vstd::multiset::Multiset;
use vstd::relations::sorted_by;

use crate::model::views;
use crate::text::{chars_of, has_prefix, lemma_path_order_total, lex_le, lex_le_chars, path_order, starts_with};
use crate::types::ScanError;

verus! {

/// The file name of a package manifest.
pub const MANIFEST_FILE: &'static str = "Cargo.toml";

/// `p` relative to `root`, compared component by component as
/// `Path::strip_prefix` does on normalized paths; `None` where `p` does not
/// lie under `root`.
pub open spec fn relative_to(p: Seq<char>, root: Seq<char>) -> Option<Seq<char>> {
    if root.len() == 0 {
        Some(p)
    } else if p == root {
        Some(seq![])
    } else if root.last() == '/' && has_prefix(p, root) {
        Some(p.skip(root.len() as int))
    } else if has_prefix(p, root.push('/')) {
        Some(p.skip(root.len() as int + 1))
    } else {
        None
    }
}

/// The directory that holds the file at `p`: all before its last `/`
/// (the root directory itself where that is the first character).
pub open spec fn parent_dir(p: Seq<char>) -> Seq<char>
    decreases p.len(),
{
    if p.len() == 0 {
        seq![]
    } else if p.last() == '/' {
        if p.len() == 1 {
            p
        } else {
            p.drop_last()
        }
    } else {
        parent_dir(p.drop_last())
    }
}

/// `name` placed in the directory `dir`.
pub open spec fn joined(dir: Seq<char>, name: Seq<char>) -> Seq<char> {
    if dir.len() == 0 {
        name
    } else if dir.last() == '/' {
        dir + name
    } else {
        dir + seq!['/'] + name
    }
}

/// The path of `entry` relative to `root`, where `entry` lies under `dir`.
pub open spec fn kept_file(entry: Seq<char>, dir: Seq<char>, root: Seq<char>) -> Option<Seq<char>> {
    if relative_to(entry, dir) is Some {
        relative_to(entry, root)
    } else {
        None
    }
}

/// The entries that lie under `dir`, relative to `root`, in the order found.
pub open spec fn found_files(entries: Seq<Seq<char>>, dir: Seq<char>, root: Seq<char>) -> Seq<
    Seq<char>,
>
    decreases entries.len(),
{
    if entries.len() == 0 {
        seq![]
    } else {
        let rest = found_files(entries.drop_last(), dir, root);
        match kept_file(entries.last(), dir, root) {
            Some(f) => rest.push(f),
            None => rest,
        }
    }
}

/// The file list of a package in `dir`, from the entries that a walk of
/// the directory found: those under `dir`, relative to `root`, in order.
pub open spec fn source_files(entries: Seq<Seq<char>>, dir: Seq<char>, root: Seq<char>) -> Seq<
    Seq<char>,
> {
    found_files(entries, dir, root).sort_by(path_order())
}

/// `f` is the path, relative to `root`, of one of `entries` that lies under `dir`.
pub open spec fn from_entry(entries: Seq<Seq<char>>, dir: Seq<char>, root: Seq<char>, f: Seq<char>) -> bool {
    exists|j: int|
        0 <= j < entries.len() && relative_to(#[trigger] entries[j], dir) is Some && relative_to(
            entries[j],
            root,
        ) == Some(f)
}

proof fn lemma_found_files_from_entries(entries: Seq<Seq<char>>, dir: Seq<char>, root: Seq<char>)
    ensures
        forall|k: int|
            0 <= k < found_files(entries, dir, root).len() ==> from_entry(
                entries,
                dir,
                root,
                #[trigger] found_files(entries, dir, root)[k],
            ),
    decreases entries.len(),
{
    if entries.len() > 0 {
        let rest = entries.drop_last();
        lemma_found_files_from_entries(rest, dir, root);
        let ff = found_files(entries, dir, root);
        let rf = found_files(rest, dir, root);
        assert forall|k: int| 0 <= k < ff.len() implies from_entry(entries, dir, root, #[trigger] ff[k]) by {
            if k < rf.len() {
                assert(ff[k] == rf[k]);
                assert(from_entry(rest, dir, root, rf[k]));
                let j = choose|j: int|
                    0 <= j < rest.len() && relative_to(#[trigger] rest[j], dir) is Some
                        && relative_to(rest[j], root) == Some(rf[k]);
                assert(entries[j] == rest[j]);
            } else {
                let j = entries.len() - 1;
                assert(entries[j] == entries.last());
                assert(ff[k] == kept_file(entries.last(), dir, root)->Some_0);
            }
        }
    }
}

/// The file list of a package holds only paths, relative to the scan root,
/// of entries that lie under the package directory, and it is sorted.
pub proof fn lemma_source_files_under_dir(entries: Seq<Seq<char>>, dir: Seq<char>, root: Seq<char>)
    ensures
        sorted_by(source_files(entries, dir, root), path_order()),
        forall|f: Seq<char>|
            #[trigger] source_files(entries, dir, root).contains(f) ==> from_entry(entries, dir, root, f),
{
    lemma_path_order_total();
    let ff = found_files(entries, dir, root);
    ff.lemma_sort_by_ensures(path_order());
    lemma_found_files_from_entries(entries, dir, root);
    assert forall|f: Seq<char>| #[trigger] source_files(entries, dir, root).contains(f) implies from_entry(
        entries,
        dir,
        root,
        f,
    ) by {
        assert(ff.contains(f));
        let k = choose|k: int| 0 <= k < ff.len() && ff[k] == f;
        assert(from_entry(entries, dir, root, ff[k]));
    }
}

/// The files kept from one entry, as a multiset.
spec fn kept_multiset(entry: Seq<char>, dir: Seq<char>, root: Seq<char>) -> Multiset<Seq<char>> {
    match kept_file(entry, dir, root) {
        Some(f) => Multiset::singleton(f),
        None => Multiset::empty(),
    }
}

proof fn lemma_found_files_push(s: Seq<Seq<char>>, x: Seq<char>, dir: Seq<char>, root: Seq<char>)
    ensures
        found_files(s.push(x), dir, root).to_multiset() == found_files(s, dir, root).to_multiset().add(
            kept_multiset(x, dir, root),
        ),
{
    broadcast use vstd::multiset::group_multiset_axioms;

    assert(s.push(x).drop_last() =~= s);
    let ff = found_files(s, dir, root);
    match kept_file(x, dir, root) {
        Some(f) => {
            vstd::seq_lib::to_multiset_build(ff, f);
            assert(ff.to_multiset().insert(f) =~= ff.to_multiset().add(Multiset::singleton(f)));
        },
        None => {
            assert(ff.to_multiset() =~= ff.to_multiset().add(Multiset::empty()));
        },
    }
}

proof fn lemma_found_files_remove(s: Seq<Seq<char>>, i: int, dir: Seq<char>, root: Seq<char>)
    requires
        0 <= i < s.len(),
    ensures
        found_files(s, dir, root).to_multiset() == found_files(s.remove(i), dir, root).to_multiset().add(
            kept_multiset(s[i], dir, root),
        ),
    decreases s.len(),
{
    broadcast use vstd::multiset::group_multiset_axioms;

    let t = s.drop_last();
    assert(t.push(s.last()) =~= s);
    lemma_found_files_push(t, s.last(), dir, root);
    if i == s.len() - 1 {
        assert(s.remove(i) =~= t);
    } else {
        lemma_found_files_remove(t, i, dir, root);
        assert(t.remove(i).push(s.last()) =~= s.remove(i));
        lemma_found_files_push(t.remove(i), s.last(), dir, root);
        assert(t[i] == s[i]);
        let a = found_files(t.remove(i), dir, root).to_multiset();
        let x = kept_multiset(s[i], dir, root);
        let y = kept_multiset(s.last(), dir, root);
        assert(a.add(x).add(y) =~= a.add(y).add(x));
    }
}

proof fn lemma_found_files_permutation(
    a: Seq<Seq<char>>,
    b: Seq<Seq<char>>,
    dir: Seq<char>,
    root: Seq<char>,
)
    requires
        a.to_multiset() == b.to_multiset(),
    ensures
        found_files(a, dir, root).to_multiset() == found_files(b, dir, root).to_multiset(),
    decreases a.len(),
{
    broadcast use vstd::multiset::group_multiset_axioms;
    broadcast use vstd::seq_lib::group_to_multiset_ensures;

    if a.len() == 0 {
        vstd::seq_lib::to_multiset_len(a);
        vstd::seq_lib::to_multiset_len(b);
        assert(b =~= a);
    } else {
        let x = a.last();
        assert(a.to_multiset().count(x) > 0) by {
            assert(a.contains(x)) by {
                assert(a[a.len() - 1] == x);
            }
        }
        assert(b.contains(x));
        let i = choose|i: int| 0 <= i < b.len() && b[i] == x;
        let a1 = a.drop_last();
        assert(a.remove(a.len() - 1) =~= a1);
        vstd::seq_lib::to_multiset_remove(a, a.len() - 1);
        vstd::seq_lib::to_multiset_remove(b, i);
        lemma_found_files_permutation(a1, b.remove(i), dir, root);
        lemma_found_files_remove(a, a.len() - 1, dir, root);
        lemma_found_files_remove(b, i, dir, root);
    }
}

/// The file list of a package does not depend on the order in which the
/// walk of its directory found the entries.
pub proof fn lemma_source_files_ignore_walk_order(
    a: Seq<Seq<char>>,
    b: Seq<Seq<char>>,
    dir: Seq<char>,
    root: Seq<char>,
)
    requires
        a.to_multiset() == b.to_multiset(),
    ensures
        source_files(a, dir, root) == source_files(b, dir, root),
{
    lemma_path_order_total();
    lemma_found_files_permutation(a, b, dir, root);
    let fa = found_files(a, dir, root);
    let fb = found_files(b, dir, root);
    fa.lemma_sort_by_ensures(path_order());
    fb.lemma_sort_by_ensures(path_order());
    vstd::seq_lib::lemma_sorted_unique(fa.sort_by(path_order()), fb.sort_by(path_order()), path_order());
}

/// `path` relative to `reference`, or `None` where it does not lie under it.
pub fn canonicalize_path(path: &String, reference: &String) -> (r: Option<String>)
    ensures
        match r {
            Some(s) => relative_to(path@, reference@) == Some(s@),
            None => relative_to(path@, reference@) is None,
        },
{
    let n = reference.unicode_len();
    let m = path.unicode_len();
    if n == 0 {
        return Some(path.clone());
    }
    if !starts_with(path.as_str(), reference.as_str()) {
        assert(path@ != reference@) by {
            if path@ == reference@ {
                assert(path@.subrange(0, n as int) =~= reference@);
            }
        }
        assert(!has_prefix(path@, reference@.push('/'))) by {
            if has_prefix(path@, reference@.push('/')) {
                assert(path@.subrange(0, n as int) =~= reference@.push('/').subrange(0, n as int));
                assert(reference@.push('/').subrange(0, n as int) =~= reference@);
            }
        }
        return None;
    }
    if m == n {
        assert(path@ =~= reference@);
        return Some(String::new());
    }
    if reference.as_str().get_char(n - 1) == '/' {
        let rest = path.as_str().substring_char(n, m);
        assert(rest@ =~= path@.skip(n as int));
        return Some(String::from_str(rest));
    }
    if path.as_str().get_char(n) == '/' {
        assert(path@.subrange(0, n + 1) =~= reference@.push('/'));
        let rest = path.as_str().substring_char(n + 1, m);
        assert(rest@ =~= path@.skip(n + 1));
        return Some(String::from_str(rest));
    }
    assert(path@.subrange(0, n + 1)[n as int] != reference@.push('/')[n as int]);
    None
}

/// The directory of the package whose manifest is at `manifest_path`.
pub fn package_dir(manifest_path: &String) -> (r: String)
    ensures
        r@ == parent_dir(manifest_path@),
{
    let s = manifest_path.as_str();
    let mut k = s.unicode_len();
    assert(s@.subrange(0, k as int) =~= s@);
    while k > 0
        invariant
            s@ == manifest_path@,
            k <= s@.len(),
            parent_dir(s@) == parent_dir(s@.subrange(0, k as int)),
        decreases k,
    {
        assert(s@.subrange(0, k as int).drop_last() =~= s@.subrange(0, k - 1));
        if s.get_char(k - 1) == '/' {
            let ghost t = s@.subrange(0, k as int);
            assert(t.last() == '/');
            if k == 1 {
                let r = String::from_str(s.substring_char(0, 1));
                assert(parent_dir(t) == t);
                assert(r@ =~= t);
                return r;
            }
            let r = String::from_str(s.substring_char(0, k - 1));
            assert(parent_dir(t) == t.drop_last());
            assert(r@ =~= t.drop_last());
            return r;
        }
        k = k - 1;
    }
    String::new()
}

/// The manifest file of the package in the directory `root`.
pub fn get_manifest_path(root: &String) -> (r: String)
    ensures
        r@ == joined(root@, MANIFEST_FILE@),
{
    let n = root.unicode_len();
    if n == 0 {
        String::from_str(MANIFEST_FILE)
    } else if root.as_str().get_char(n - 1) == '/' {
        root.clone().concat(MANIFEST_FILE)
    } else {
        let r = root.clone().concat("/").concat(MANIFEST_FILE);
        proof {
            reveal_strlit("/");
        }
        assert(r@ =~= root@ + seq!['/'] + MANIFEST_FILE@);
        r
    }
}

/// The glob pattern that finds the Rust sources under `dir`.
pub fn source_pattern(dir: &String) -> (r: String)
    ensures
        r@ == joined(dir@, "**/*.rs"@),
{
    let n = dir.unicode_len();
    if n == 0 {
        String::from_str("**/*.rs")
    } else if dir.as_str().get_char(n - 1) == '/' {
        dir.clone().concat("**/*.rs")
    } else {
        let r = dir.clone().concat("/").concat("**/*.rs");
        proof {
            reveal_strlit("/");
        }
        assert(r@ =~= dir@ + seq!['/'] + "**/*.rs"@);
        r
    }
}

proof fn lemma_insert_sorted(s: Seq<Seq<char>>, p: int, x: Seq<char>)
    requires
        sorted_by(s, path_order()),
        0 <= p <= s.len(),
        forall|j: int| 0 <= j < p ==> lex_le(#[trigger] s[j], x),
        p < s.len() ==> !lex_le(s[p], x),
    ensures
        sorted_by(s.insert(p, x), path_order()),
{
    lemma_path_order_total();
    if p < s.len() {
        assert(path_order()(s[p], x) || path_order()(x, s[p]));
    }
    let t = s.insert(p, x);
    assert forall|i: int, j: int| 0 <= i < j < t.len() implies #[trigger] path_order()(t[i], t[j]) by {
        if j == p {
            assert(t[i] == s[i]);
        } else if i == p {
            assert(t[j] == s[j - 1]);
            assert(path_order()(x, s[p]));
            if j - 1 > p {
                assert(path_order()(s[p], s[j - 1]));
            }
        } else {
            let si = if i < p { i } else { i - 1 };
            let sj = if j < p { j } else { j - 1 };
            assert(t[i] == s[si] && t[j] == s[sj]);
            if si < sj {
                assert(path_order()(s[si], s[sj]));
            } else {
                assert(si == p - 1 && sj == p - 1 || si == sj);
            }
        }
    }
}

/// `v` in lexicographic order.
pub fn sort_paths(v: &Vec<String>) -> (r: Vec<String>)
    ensures
        views(r@) == views(v@).sort_by(path_order()),
{
    let mut keys: Vec<Vec<char>> = Vec::new();
    let mut out: Vec<String> = Vec::new();
    let n = v.len();
    assert(views(out@) =~= views(v@.subrange(0, 0)));
    for i in 0..n
        invariant
            n == v@.len(),
            keys@.len() == out@.len(),
            forall|j: int| 0 <= j < keys@.len() ==> (#[trigger] keys@[j])@ == out@[j]@,
            sorted_by(views(out@), path_order()),
            views(out@).to_multiset() == views(v@.subrange(0, i as int)).to_multiset(),
    {
        let key = chars_of(v[i].as_str());
        let mut p: usize = 0;
        while p < keys.len() && lex_le_chars(&keys[p], &key)
            invariant
                p <= keys@.len(),
                keys@.len() == out@.len(),
                forall|j: int| 0 <= j < keys@.len() ==> (#[trigger] keys@[j])@ == out@[j]@,
                forall|j: int| 0 <= j < p ==> lex_le(#[trigger] views(out@)[j], key@),
            decreases keys@.len() - p,
        {
            p = p + 1;
        }
        proof {
            lemma_insert_sorted(views(out@), p as int, key@);
            vstd::seq_lib::to_multiset_insert(views(out@), p as int, key@);
            vstd::seq_lib::to_multiset_build(views(v@.subrange(0, i as int)), v@[i as int]@);
            assert(views(v@.subrange(0, i + 1)) =~= views(v@.subrange(0, i as int)).push(
                v@[i as int]@,
            ));
        }
        let ghost old_out = out@;
        keys.insert(p, key);
        out.insert(p, v[i].clone());
        assert(views(out@) =~= views(old_out).insert(p as int, v@[i as int]@));
        assert forall|j: int| 0 <= j < keys@.len() implies (#[trigger] keys@[j])@ == out@[j]@ by {
            if j < p {
            } else if j > p {
            }
        }
    }
    proof {
        assert(v@.subrange(0, n as int) =~= v@);
        lemma_path_order_total();
        views(v@).lemma_sort_by_ensures(path_order());
        vstd::seq_lib::lemma_sorted_unique(views(out@), views(v@).sort_by(path_order()), path_order());
    }
    out
}

/// The file list of the package in `dir`, from the paths that a walk of
/// the directory found: those under `dir`, relative to `reference`, in
/// lexicographic order. A package directory outside `reference` is refused.
pub fn get_source_files(dir: &String, reference: &String, entries: &Vec<String>) -> (r: Result<
    Vec<String>,
    ScanError,
>)
    ensures
        match r {
            Ok(files) => relative_to(dir@, reference@) is Some && views(files@) == source_files(
                views(entries@),
                dir@,
                reference@,
            ),
            Err(e) => relative_to(dir@, reference@) is None && e == ScanError::OutsideRoot(*dir),
        },
{
    if canonicalize_path(dir, reference).is_none() {
        return Err(ScanError::OutsideRoot(dir.clone()));
    }
    let mut found: Vec<String> = Vec::new();
    let n = entries.len();
    for i in 0..n
        invariant
            n == entries@.len(),
            views(found@) == found_files(views(entries@.subrange(0, i as int)), dir@, reference@),
    {
        let e = &entries[i];
        assert(views(entries@.subrange(0, i + 1)).drop_last() =~= views(
            entries@.subrange(0, i as int),
        ));
        if canonicalize_path(e, dir).is_some() {
            match canonicalize_path(e, reference) {
                Some(f) => {
                    found.push(f);
                },
                None => {},
            }
        }
        assert(views(found@) =~= found_files(
            views(entries@.subrange(0, i + 1)),
            dir@,
            reference@,
        ));
    }
    assert(entries@.subrange(0, n as int) =~= entries@);
    Ok(sort_paths(&found))
}

} // verus!
