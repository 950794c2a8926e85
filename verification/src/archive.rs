//! Browsing a zip archive as if it were a directory tree: the items
//! directly inside one directory of the archive, and moving up a level.

use vstd::prelude::*;
use crate::order::{text_lt, text_less, lemma_text_lt_transitive, lemma_text_lt_total};
use crate::text::{chars_of, string_of, slice_string, find_first, first_index, lemma_first_index, is_prefix, has_prefix, find_last, last_index, lemma_last_index};

verus! {

#[verifier::external_type_specification]
#[verifier::external_body]
#[verifier::reject_recursive_types(R)]
pub struct ExZipArchive<R>(zip::ZipArchive<R>);

#[verifier::external_type_specification]
#[verifier::external_body]
#[verifier::reject_recursive_types(T)]
pub struct ExCursor<T>(std::io::Cursor<T>);

#[verifier::external_type_specification]
#[verifier::external_body]
pub struct ExZipError(zip::result::ZipError);

/// One item of an archive's central directory as read without
/// decompressing: its full name, its size, and its compressed size.
#[derive(Debug)]
pub struct ZipRecord {
    pub name: String,
    pub size: u64,
    pub compressed_size: u64,
}

/// A record seen as plain values.
pub open spec fn record_view(r: Option<ZipRecord>) -> Option<(Seq<char>, u64, u64)> {
    match r {
        Some(z) => Some((z.name@, z.size, z.compressed_size)),
        None => None,
    }
}

/// What the archive hands out for each index with `by_index_raw` (`None`
/// where that fails or the name cannot be read).
pub uninterp spec fn archive_records(a: zip::ZipArchive<std::io::Cursor<Vec<u8>>>) -> Seq<
    Option<(Seq<char>, u64, u64)>,
>;

/// What reading `bytes` as a zip archive gives: `None` when
/// `ZipArchive::new` refuses them, else the records of each index.
pub uninterp spec fn zip_contents(bytes: Seq<u8>) -> Option<Seq<Option<(Seq<char>, u64, u64)>>>;

/// `ZipArchive::new` over the bytes of an archive. Claims that it fails
/// exactly when `zip_contents` is `None`, and that otherwise the archive's
/// records are those `zip_contents` names; both depend on the bytes alone.
#[verifier::external_body]
fn zip_open(bytes: Vec<u8>) -> (r: Result<zip::ZipArchive<std::io::Cursor<Vec<u8>>>, zip::result::ZipError>)
    ensures
        match r {
            Ok(a) => zip_contents(bytes@) == Some(archive_records(a)),
            Err(_) => zip_contents(bytes@) is None,
        },
{
    zip::ZipArchive::new(std::io::Cursor::new(bytes))
}

/// `ZipArchive::len`: the number of items in the central directory.
#[verifier::external_body]
fn zip_len(a: &zip::ZipArchive<std::io::Cursor<Vec<u8>>>) -> (n: usize)
    ensures
        n == archive_records(*a).len(),
{
    a.len()
}

/// `ZipArchive::by_index_raw` with the item's `name`, `size` and
/// `compressed_size`. Claims the answer is the archive's record at `i` and
/// that reading leaves the records as they were.
#[verifier::external_body]
fn zip_record(a: &mut zip::ZipArchive<std::io::Cursor<Vec<u8>>>, i: usize) -> (r: Option<ZipRecord>)
    requires
        i < archive_records(*old(a)).len(),
    ensures
        archive_records(*final(a)) == archive_records(*old(a)),
        record_view(r) == archive_records(*old(a))[i as int],
{
    match a.by_index_raw(i) {
        Ok(f) => match f.name() {
            Ok(n) => Some(ZipRecord { name: n.into_owned(), size: f.size(), compressed_size: f.compressed_size() }),
            Err(_) => None,
        },
        Err(_) => None,
    }
}

/// The text of a zip error (its `Display`). Nothing is claimed of it.
#[verifier::external_body]
fn zip_error_text(e: &zip::result::ZipError) -> String {
    format!("{}", e)
}

/// One item shown while browsing an archive.
#[derive(Debug)]
pub struct ZipEntry {
    pub name: String,
    pub is_dir: bool,
    pub size: u64,
    pub compressed_size: u64,
}

impl Clone for ZipEntry {
    fn clone(&self) -> (r: Self)
        ensures
            r == *self,
    {
        ZipEntry {
            name: self.name.clone(),
            is_dir: self.is_dir,
            size: self.size,
            compressed_size: self.compressed_size,
        }
    }
}

/// A zip entry seen as plain values.
pub open spec fn zip_entry_view(e: ZipEntry) -> (Seq<char>, bool, u64, u64) {
    (e.name@, e.is_dir, e.size, e.compressed_size)
}

/// What follows `inner` in `name`, when `name` starts with `inner`.
pub open spec fn rest_under(name: Seq<char>, inner: Seq<char>) -> Option<Seq<char>> {
    if has_prefix(name, inner) {
        Some(name.skip(inner.len() as int))
    } else {
        None
    }
}

/// The subdirectory of `inner` that a record lies in, if it lies deeper.
pub open spec fn dir_under(rec: Option<(Seq<char>, u64, u64)>, inner: Seq<char>) -> Option<Seq<char>> {
    match rec {
        None => None,
        Some((name, _, _)) => match rest_under(name, inner) {
            Some(rest) => if rest.len() > 0 && first_index(rest, '/') >= 0 {
                Some(rest.take(first_index(rest, '/')))
            } else {
                None
            },
            None => None,
        },
    }
}

/// The file a record is, directly inside `inner`.
pub open spec fn file_under(rec: Option<(Seq<char>, u64, u64)>, inner: Seq<char>) -> Option<(Seq<char>, bool, u64, u64)> {
    match rec {
        None => None,
        Some((name, size, csize)) => match rest_under(name, inner) {
            Some(rest) => if rest.len() > 0 && first_index(rest, '/') < 0 {
                Some((rest, false, size, csize))
            } else {
                None
            },
            None => None,
        },
    }
}

/// The files directly inside `inner`, in archive order.
pub open spec fn files_under(recs: Seq<Option<(Seq<char>, u64, u64)>>, inner: Seq<char>) -> Seq<(Seq<char>, bool, u64, u64)>
    decreases recs.len(),
{
    if recs.len() == 0 {
        Seq::empty()
    } else {
        let prev = files_under(recs.drop_last(), inner);
        match file_under(recs.last(), inner) {
            Some(f) => prev.push(f),
            None => prev,
        }
    }
}

/// The names of the subdirectories of `inner` that some record lies in.
pub open spec fn dirs_under(recs: Seq<Option<(Seq<char>, u64, u64)>>, inner: Seq<char>) -> Set<Seq<char>> {
    Set::new(|d: Seq<char>| exists|i: int| 0 <= i < recs.len() && dir_under(recs[i], inner) == Some(d))
}

/// `d` is strictly increasing in text order.
pub open spec fn strictly_sorted(d: Seq<Seq<char>>) -> bool {
    forall|a: int, b: int| 0 <= a < b < d.len() ==> text_lt(d[a], d[b])
}

/// `r` is the listing of directory `inner` of an archive with records
/// `recs`: its subdirectories once each, in text order, then its files in
/// archive order.
pub open spec fn lists_dir(r: Seq<ZipEntry>, recs: Seq<Option<(Seq<char>, u64, u64)>>, inner: Seq<char>) -> bool {
    exists|dirs: Seq<Seq<char>>| {
        &&& strictly_sorted(dirs)
        &&& forall|d: Seq<char>| dirs.contains(d) <==> dirs_under(recs, inner).contains(d)
        &&& r.len() == dirs.len() + files_under(recs, inner).len()
        &&& forall|k: int| 0 <= k < dirs.len() ==> #[trigger] zip_entry_view(r[k]) == (dirs[k], true, 0u64, 0u64)
        &&& forall|k: int| 0 <= k < files_under(recs, inner).len() ==> zip_entry_view(#[trigger] r[dirs.len() + k]) == files_under(recs, inner)[k]
    }
}

/// The texts held by a list of character vectors.
pub open spec fn texts(v: Seq<Vec<char>>) -> Seq<Seq<char>> {
    v.map_values(|c: Vec<char>| c@)
}

/// Inserts `d` into the strictly sorted `dirs` unless already there.
fn insert_dir(dirs: &mut Vec<Vec<char>>, d: Vec<char>)
    requires
        strictly_sorted(texts(old(dirs)@)),
    ensures
        strictly_sorted(texts(final(dirs)@)),
        forall|x: Seq<char>| #[trigger] texts(final(dirs)@).contains(x) <==> (texts(old(dirs)@).contains(x) || x == d@),
{
    let ghost before = texts(dirs@);
    let mut pos: usize = 0;
    while pos < dirs.len() && text_less(dirs[pos].as_slice(), d.as_slice())
        invariant
            pos <= dirs.len(),
            texts(dirs@) == before,
            forall|k: int| 0 <= k < pos ==> text_lt(before[k], d@),
        decreases dirs.len() - pos,
    {
        pos = pos + 1;
    }
    if pos < dirs.len() && !text_less(d.as_slice(), dirs[pos].as_slice()) {
        proof {
            lemma_text_lt_total(before[pos as int], d@);
            assert(before[pos as int] == d@);
        }
        return;
    }
    proof {
        if pos < dirs.len() {
            assert(text_lt(d@, before[pos as int]));
        }
    }
    dirs.insert(pos, d);
    proof {
        let after = texts(dirs@);
        assert(after =~= before.insert(pos as int, d@));
        assert forall|a: int, b: int| 0 <= a < b < after.len() implies text_lt(after[a], after[b]) by {
            if a < pos && b < pos {
            } else if a < pos && b == pos {
            } else if a < pos && b > pos {
                lemma_text_lt_transitive(before[a], d@, before[b - 1]);
                if b - 1 > pos {
                    lemma_text_lt_transitive(before[a], before[pos as int], before[b - 1]);
                }
            } else if a == pos {
                if b - 1 > pos {
                    lemma_text_lt_transitive(d@, before[pos as int], before[b - 1]);
                }
            } else {
            }
        }
        assert forall|x: Seq<char>| after.contains(x) <==> (before.contains(x) || x == d@) by {
            if after.contains(x) {
                let k = choose|k: int| 0 <= k < after.len() && after[k] == x;
                if k < pos {
                    assert(before[k] == x);
                } else if k > pos {
                    assert(before[k - 1] == x);
                }
            }
            if before.contains(x) {
                let k = choose|k: int| 0 <= k < before.len() && before[k] == x;
                if k < pos {
                    assert(after[k] == x);
                } else {
                    assert(after[k + 1] == x);
                }
            }
            if x == d@ {
                assert(after[pos as int] == x);
            }
        }
    }
}

/// The records as plain values.
pub open spec fn records_view(v: Seq<Option<ZipRecord>>) -> Seq<Option<(Seq<char>, u64, u64)>> {
    v.map_values(|r: Option<ZipRecord>| record_view(r))
}

proof fn lemma_dirs_step(recs: Seq<Option<(Seq<char>, u64, u64)>>, inner: Seq<char>, i: int)
    requires
        0 <= i < recs.len(),
    ensures
        forall|x: Seq<char>| #[trigger] dirs_under(recs.take(i + 1), inner).contains(x) <==> (dirs_under(recs.take(i), inner).contains(x) || dir_under(recs[i], inner) == Some(x)),
{
    let a = recs.take(i);
    let b = recs.take(i + 1);
    assert forall|x: Seq<char>| #[trigger] dirs_under(b, inner).contains(x) <==> (dirs_under(a, inner).contains(x) || dir_under(recs[i], inner) == Some(x)) by {
        if dirs_under(b, inner).contains(x) {
            let j = choose|j: int| 0 <= j < b.len() && dir_under(b[j], inner) == Some(x);
            if j < i {
                assert(a[j] == b[j]);
            }
        }
        if dirs_under(a, inner).contains(x) {
            let j = choose|j: int| 0 <= j < a.len() && dir_under(a[j], inner) == Some(x);
            assert(b[j] == a[j]);
        }
        if dir_under(recs[i], inner) == Some(x) {
            assert(b[i] == recs[i]);
        }
    }
}

/// The items directly inside directory `inner_dir` of an archive whose
/// records are `records` (a prefix ending in `/`, or empty for the top):
/// its subdirectories once each in text order, then its files in archive
/// order. Records outside `inner_dir`, unreadable ones, and the directory's
/// own record are left out.
pub fn entries_for_dir(records: &Vec<Option<ZipRecord>>, inner_dir: &str) -> (r: Vec<ZipEntry>)
    ensures
        lists_dir(r@, records_view(records@), inner_dir@),
{
    let ghost recs = records_view(records@);
    let inner = chars_of(inner_dir);
    let mut dirs: Vec<Vec<char>> = Vec::new();
    let mut files: Vec<ZipEntry> = Vec::new();
    let mut i: usize = 0;
    assert(recs.take(0) =~= Seq::<Option<(Seq<char>, u64, u64)>>::empty());
    while i < records.len()
        invariant
            i <= records.len(),
            recs == records_view(records@),
            inner@ == inner_dir@,
            strictly_sorted(texts(dirs@)),
            forall|x: Seq<char>| #[trigger] texts(dirs@).contains(x) <==> dirs_under(recs.take(i as int), inner@).contains(x),
            files@.map_values(|e: ZipEntry| zip_entry_view(e)) == files_under(recs.take(i as int), inner@),
        decreases records.len() - i,
    {
        proof {
            lemma_dirs_step(recs, inner@, i as int);
            assert(recs.take(i + 1).drop_last() =~= recs.take(i as int));
            assert(recs.take(i + 1).last() == recs[i as int]);
            assert(recs[i as int] == record_view(records@[i as int]));
        }
        match &records[i] {
            None => {},
            Some(rec) => {
                let v = chars_of(rec.name.as_str());
                if is_prefix(v.as_slice(), inner.as_slice()) {
                    let ghost rest_s = v@.skip(inner.len() as int);
                    let rest_str = slice_string(v.as_slice(), inner.len(), v.len());
                    let rest = chars_of(rest_str.as_str());
                    assert(rest@ =~= rest_s);
                    if rest.len() > 0 {
                        proof { lemma_first_index(rest@, '/'); }
                        match find_first(rest.as_slice(), '/') {
                            Some(k) => {
                                let dname = slice_string(rest.as_slice(), 0, k);
                                let dv = chars_of(dname.as_str());
                                assert(dv@ =~= rest@.take(k as int));
                                insert_dir(&mut dirs, dv);
                            },
                            None => {
                                let ghost before = files@.map_values(|e: ZipEntry| zip_entry_view(e));
                                files.push(ZipEntry {
                                    name: rest_str,
                                    is_dir: false,
                                    size: rec.size,
                                    compressed_size: rec.compressed_size,
                                });
                                assert(files@.map_values(|e: ZipEntry| zip_entry_view(e)) =~= before.push((rest@, false, rec.size, rec.compressed_size)));
                            },
                        }
                    }
                }
            },
        }
        i = i + 1;
    }
    assert(recs.take(records.len() as int) =~= recs);
    let mut out: Vec<ZipEntry> = Vec::new();
    let mut k: usize = 0;
    while k < dirs.len()
        invariant
            k <= dirs.len(),
            out.len() == k,
            forall|j: int| 0 <= j < k ==> #[trigger] zip_entry_view(out@[j]) == (texts(dirs@)[j], true, 0u64, 0u64),
        decreases dirs.len() - k,
    {
        out.push(ZipEntry { name: string_of(dirs[k].as_slice()), is_dir: true, size: 0, compressed_size: 0 });
        k = k + 1;
    }
    let ghost nd = dirs.len() as int;
    let mut j: usize = 0;
    while j < files.len()
        invariant
            j <= files.len(),
            out.len() == nd + j,
            nd == dirs.len(),
            forall|a: int| 0 <= a < nd ==> #[trigger] zip_entry_view(out@[a]) == (texts(dirs@)[a], true, 0u64, 0u64),
            forall|a: int| 0 <= a < j ==> zip_entry_view(#[trigger] out@[nd + a]) == zip_entry_view(files@[a]),
        decreases files.len() - j,
    {
        out.push(files[j].clone());
        j = j + 1;
    }
    proof {
        let ds = texts(dirs@);
        let fs = files_under(recs, inner_dir@);
        assert forall|a: int| 0 <= a < fs.len() implies zip_entry_view(#[trigger] out@[ds.len() + a]) == fs[a] by {
            assert(fs[a] == files@.map_values(|e: ZipEntry| zip_entry_view(e))[a]);
        }
        assert(lists_dir(out@, recs, inner_dir@));
    }
    out
}

/// Reads the bytes of a zip file and lists directory `inner_dir` of it
/// (see `entries_for_dir`). Fails, with the archive error's text, exactly
/// when the bytes are not a readable archive.
pub fn zip_entries_for_dir(archive: Vec<u8>, inner_dir: &str) -> (r: Result<Vec<ZipEntry>, String>)
    ensures
        match r {
            Ok(v) => zip_contents(archive@) matches Some(recs) && lists_dir(v@, recs, inner_dir@),
            Err(_) => zip_contents(archive@) is None,
        },
{
    let ghost bytes = archive@;
    match zip_open(archive) {
        Err(e) => Err(zip_error_text(&e)),
        Ok(mut a) => {
            let ghost recs = archive_records(a);
            let n = zip_len(&a);
            let mut records: Vec<Option<ZipRecord>> = Vec::new();
            let mut i: usize = 0;
            while i < n
                invariant
                    i <= n,
                    n == recs.len(),
                    archive_records(a) == recs,
                    records_view(records@) == recs.take(i as int),
                decreases n - i,
            {
                let rec = zip_record(&mut a, i);
                let ghost prev = records@;
                let ghost rv = record_view(rec);
                records.push(rec);
                assert(records@ == prev.push(rec));
                assert(records_view(records@) =~= records_view(prev).push(rv));
                i = i + 1;
                assert(records_view(records@) =~= recs.take(i as int));
            }
            assert(recs.take(n as int) =~= recs);
            Ok(entries_for_dir(&records, inner_dir))
        },
    }
}

/// `s` without its trailing `/` characters.
pub open spec fn trim_slashes(s: Seq<char>) -> Seq<char>
    decreases s.len(),
{
    if s.len() > 0 && s.last() == '/' {
        trim_slashes(s.drop_last())
    } else {
        s
    }
}

/// The archive directory above `inner`: `None` at the top, otherwise the
/// text up to and including the `/` before its last part (empty for a
/// directory at the top level).
pub open spec fn parent_dir_text(inner: Seq<char>) -> Option<Seq<char>> {
    let t = trim_slashes(inner);
    if t.len() == 0 {
        None
    } else if last_index(t, '/') < 0 {
        Some(Seq::empty())
    } else {
        Some(t.take(last_index(t, '/')).push('/'))
    }
}

proof fn lemma_trim_slashes(s: Seq<char>) -> (n: int)
    ensures
        0 <= n <= s.len(),
        trim_slashes(s) == s.take(n),
        n > 0 ==> s[n - 1] != '/',
        forall|j: int| n <= j < s.len() ==> s[j] == '/',
    decreases s.len(),
{
    if s.len() > 0 && s.last() == '/' {
        let m = lemma_trim_slashes(s.drop_last());
        assert(s.drop_last().take(m) =~= s.take(m));
        assert forall|j: int| m <= j < s.len() implies s[j] == '/' by {
            if j < s.len() - 1 {
                assert(s[j] == s.drop_last()[j]);
            }
        }
        m
    } else {
        assert(s.take(s.len() as int) =~= s);
        s.len() as int
    }
}

/// The directory above `inner` while browsing an archive (`None` at the top).
pub fn parent_zip_dir(inner: &str) -> (r: Option<String>)
    ensures
        opt_string(r) == parent_dir_text(inner@),
{
    let v = chars_of(inner);
    let ghost n = lemma_trim_slashes(v@);
    let mut end: usize = v.len();
    while end > 0 && v[end - 1] == '/'
        invariant
            n <= end <= v.len(),
            forall|j: int| end <= j < v.len() ==> v@[j] == '/',
            trim_slashes(v@) == v@.take(n),
            n > 0 ==> v@[n - 1] != '/',
            forall|j: int| n <= j < v.len() ==> v@[j] == '/',
        decreases end,
    {
        end = end - 1;
    }
    assert(trim_slashes(v@) =~= v@.take(end as int));
    if end == 0 {
        return None;
    }
    let t = slice_string(v.as_slice(), 0, end);
    let tv = chars_of(t.as_str());
    proof { lemma_last_index(tv@, '/'); }
    match find_last(tv.as_slice(), '/') {
        None => Some(String::new()),
        Some(pos) => {
            let mut s = slice_string(tv.as_slice(), 0, pos);
            s.push('/');
            Some(s)
        },
    }
}

/// The optional text seen through its view.
pub open spec fn opt_string(o: Option<String>) -> Option<Seq<char>> {
    match o {
        Some(s) => Some(s@),
        None => None,
    }
}

/// Law: going into a subdirectory `name` of archive directory `inner`
/// (which is empty or ends in `/`) and then up again lands back on `inner`.
pub proof fn law_parent_of_child_dir(inner: Seq<char>, name: Seq<char>)
    requires
        inner.len() == 0 || inner.last() == '/',
        name.len() > 0,
        forall|j: int| 0 <= j < name.len() ==> name[j] != '/',
    ensures
        parent_dir_text(inner + name + seq!['/']) == Some(inner),
{
    let s = inner + name + seq!['/'];
    let t = inner + name;
    assert(s.drop_last() =~= t);
    assert(trim_slashes(t) == t) by {
        assert(t.last() == name.last());
    }
    assert(trim_slashes(s) == t);
    lemma_last_index(t, '/');
    if inner.len() == 0 {
        assert(forall|j: int| 0 <= j < t.len() ==> t[j] == name[j]);
        assert(last_index(t, '/') < 0) by {
            if last_index(t, '/') >= 0 {
                assert(t[last_index(t, '/')] == name[last_index(t, '/')]);
            }
        }
    } else {
        let k = inner.len() - 1;
        assert(t[k] == '/');
        assert(last_index(t, '/') == k) by {
            if last_index(t, '/') > k {
                let j = last_index(t, '/');
                assert(t[j] == name[j - inner.len()]);
            }
        }
        assert(t.take(k).push('/') =~= inner);
    }
}

/// `inner` without its trailing `/` characters.
pub fn trimmed_dir(inner: &str) -> (r: String)
    ensures
        r@ == trim_slashes(inner@),
{
    let v = chars_of(inner);
    let ghost n = lemma_trim_slashes(v@);
    let mut end: usize = v.len();
    while end > 0 && v[end - 1] == '/'
        invariant
            n <= end <= v.len(),
            forall|j: int| end <= j < v.len() ==> v@[j] == '/',
            trim_slashes(v@) == v@.take(n),
            n > 0 ==> v@[n - 1] != '/',
            forall|j: int| n <= j < v.len() ==> v@[j] == '/',
        decreases end,
    {
        end = end - 1;
    }
    slice_string(v.as_slice(), 0, end)
}

} // verus!
