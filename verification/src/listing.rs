//! Directory entries, and the order in which a directory is shown.

use vstd::prelude::*;
use crate::format::Stamp;
use crate::order::{text_lt, text_less, lemma_text_lt_irreflexive, lemma_text_lt_asymmetric, lemma_text_lt_transitive, lemma_text_lt_total};
use crate::paths::{file_name, file_name_of, lowercase_of, to_lowercase};
use crate::text::{chars_of, push_str};

verus! {

/// One item of a directory listing.
#[derive(Debug)]
pub struct Entry {
    pub path: String,
    pub name: String,
    pub is_dir: bool,
    pub size: Option<u64>,
    pub modified: Option<Stamp>,
}

impl Clone for Entry {
    fn clone(&self) -> (r: Self)
        ensures
            r == *self,
    {
        Entry {
            path: self.path.clone(),
            name: self.name.clone(),
            is_dir: self.is_dir,
            size: self.size,
            modified: self.modified,
        }
    }
}

/// Why a directory, or one of its items, could not be read. Each variant
/// holds the text of the underlying error.
#[derive(Debug)]
pub enum ExplorerError {
    Io(String),
    Walk(String),
    NoFileName(String),
}

impl Clone for ExplorerError {
    fn clone(&self) -> (r: Self)
        ensures
            r == *self,
    {
        match self {
            ExplorerError::Io(m) => ExplorerError::Io(m.clone()),
            ExplorerError::Walk(m) => ExplorerError::Walk(m.clone()),
            ExplorerError::NoFileName(m) => ExplorerError::NoFileName(m.clone()),
        }
    }
}

/// The message an error displays.
pub open spec fn error_text(e: ExplorerError) -> Seq<char> {
    match e {
        ExplorerError::Io(m) => "I/O error: "@ + m@,
        ExplorerError::Walk(m) => "WalkDir error: "@ + m@,
        ExplorerError::NoFileName(m) => "Path has no file name: "@ + m@,
    }
}

impl ExplorerError {
    /// The message this error displays.
    pub fn message(&self) -> (r: String)
        ensures
            r@ == error_text(*self),
    {
        let mut s = String::new();
        match self {
            ExplorerError::Io(m) => {
                push_str(&mut s, "I/O error: ");
                push_str(&mut s, m.as_str());
            },
            ExplorerError::Walk(m) => {
                push_str(&mut s, "WalkDir error: ");
                push_str(&mut s, m.as_str());
            },
            ExplorerError::NoFileName(m) => {
                push_str(&mut s, "Path has no file name: ");
                push_str(&mut s, m.as_str());
            },
        }
        s
    }
}

/// The entry for `path` given what its metadata says, as listing builds it:
/// the name is the path's final component (an error when it has none), and
/// only regular files carry a size.
pub open spec fn entry_for(
    path: Seq<char>,
    is_dir: bool,
    is_file: bool,
    len: u64,
) -> Option<(Seq<char>, Option<u64>)> {
    match file_name_of(path) {
        None => None,
        Some(n) => Some((n, if is_file { Some(len) } else { None })),
    }
}

/// Builds the entry for one directory item from its metadata.
pub fn build_entry(
    path: String,
    is_dir: bool,
    is_file: bool,
    len: u64,
    modified: Option<Stamp>,
) -> (r: Result<Entry, ExplorerError>)
    ensures
        match r {
            Ok(e) => entry_for(path@, is_dir, is_file, len) == Some((e.name@, e.size))
                && e.path == path && e.is_dir == is_dir && e.modified == modified,
            Err(err) => entry_for(path@, is_dir, is_file, len) is None
                && err == ExplorerError::NoFileName(path),
        },
{
    match file_name(path.as_str()) {
        None => Err(ExplorerError::NoFileName(path)),
        Some(name) => Ok(
            Entry {
                path,
                name,
                is_dir,
                size: if is_file {
                    Some(len)
                } else {
                    None
                },
                modified,
            },
        ),
    }
}

/// The sort key of an entry's name: its lowercase form.
pub open spec fn name_key(e: Entry) -> Seq<char> {
    lowercase_of(e.name@)
}

/// `x` is listed before `y`: directories first, then by lowercase name.
pub open spec fn listed_before(x: Entry, y: Entry) -> bool {
    (x.is_dir && !y.is_dir) || (x.is_dir == y.is_dir && text_lt(name_key(x), name_key(y)))
}

/// `x` and `y` tie in the listing order.
pub open spec fn same_rank(x: Entry, y: Entry) -> bool {
    x.is_dir == y.is_dir && name_key(x) == name_key(y)
}

/// `r` is `s` put in listing order by a stable sort, item `k` of `r` being
/// item `perm[k]` of `s`: nothing lost or repeated, listing order respected,
/// and tied items kept in the order they came in.
pub open spec fn sorts_stably(s: Seq<Entry>, r: Seq<Entry>, perm: Seq<int>) -> bool {
    &&& r.len() == s.len()
    &&& perm.len() == r.len()
    &&& forall|k: int| 0 <= k < r.len() ==> 0 <= #[trigger] perm[k] < s.len() && r[k] == s[perm[k]]
    &&& forall|a: int, b: int| 0 <= a < b < r.len() ==> perm[a] != perm[b]
    &&& forall|a: int, b: int| 0 <= a < b < r.len() ==> !listed_before(r[b], r[a])
    &&& forall|a: int, b: int|
        0 <= a < b < r.len() && same_rank(r[a], r[b]) ==> perm[a] < perm[b]
}

proof fn lemma_before_facts(x: Entry, y: Entry, z: Entry)
    ensures
        !listed_before(x, x),
        listed_before(x, y) ==> !listed_before(y, x),
        listed_before(x, y) && listed_before(y, z) ==> listed_before(x, z),
        same_rank(x, y) ==> !listed_before(x, y),
        same_rank(x, y) && listed_before(x, z) ==> listed_before(y, z),
        same_rank(x, y) && listed_before(z, x) ==> listed_before(z, y),
        !listed_before(x, y) && !listed_before(y, x) ==> same_rank(x, y),
{
    lemma_text_lt_irreflexive(name_key(x));
    lemma_text_lt_asymmetric(name_key(x), name_key(y));
    lemma_text_lt_transitive(name_key(x), name_key(y), name_key(z));
    lemma_text_lt_total(name_key(x), name_key(y));
}

/// Inserting the next input item at the first place where it sorts
/// strictly earlier keeps the prefix stably sorted.
proof fn lemma_insert_step(s: Seq<Entry>, out: Seq<Entry>, perm: Seq<int>, n: int, pos: int)
    requires
        0 <= n < s.len(),
        sorts_stably(s.take(n), out, perm),
        0 <= pos <= out.len(),
        forall|k: int| 0 <= k < pos ==> !listed_before(s[n], #[trigger] out[k]),
        pos < out.len() ==> listed_before(s[n], out[pos]),
    ensures
        sorts_stably(s.take(n + 1), out.insert(pos, s[n]), perm.insert(pos, n)),
{
    let x = s[n];
    let r = out.insert(pos, x);
    let p = perm.insert(pos, n);
    let t = s.take(n + 1);
    assert forall|k: int| 0 <= k < r.len() implies 0 <= #[trigger] p[k] < t.len() && r[k] == t[p[k]] by {
        if k < pos {
            assert(r[k] == out[k]);
            assert(p[k] == perm[k]);
        } else if k > pos {
            assert(r[k] == out[k - 1]);
            assert(p[k] == perm[k - 1]);
        }
    }
    assert forall|a: int, b: int| 0 <= a < b < r.len() implies p[a] != p[b] by {
        if a != pos && b != pos {
            let a0 = if a < pos { a } else { a - 1 };
            let b0 = if b < pos { b } else { b - 1 };
            assert(p[a] == perm[a0] && p[b] == perm[b0]);
        } else if a == pos {
            assert(p[b] == perm[b - 1]);
        } else {
            assert(p[a] == perm[a]);
        }
    }
    assert forall|a: int, b: int| 0 <= a < b < r.len() implies !listed_before(r[b], r[a]) by {
        if a != pos && b != pos {
            let a0 = if a < pos { a } else { a - 1 };
            let b0 = if b < pos { b } else { b - 1 };
            assert(r[a] == out[a0] && r[b] == out[b0]);
        } else if b == pos {
            assert(r[a] == out[a]);
        } else {
            // a == pos < b: the item at b was at b - 1 >= pos
            let y = out[b - 1];
            assert(r[b] == y);
            lemma_before_facts(y, x, out[pos]);
            if b - 1 > pos {
                assert(!listed_before(out[b - 1], out[pos]));
            }
        }
    }
    assert forall|a: int, b: int|
        0 <= a < b < r.len() && same_rank(r[a], r[b]) implies p[a] < p[b] by {
        if a != pos && b != pos {
            let a0 = if a < pos { a } else { a - 1 };
            let b0 = if b < pos { b } else { b - 1 };
            assert(r[a] == out[a0] && r[b] == out[b0]);
            assert(p[a] == perm[a0] && p[b] == perm[b0]);
        } else if b == pos {
            assert(p[a] == perm[a]);
            assert(0 <= perm[a] < n);
        } else {
            let y = out[b - 1];
            assert(r[b] == y);
            lemma_before_facts(x, y, out[pos]);
            lemma_before_facts(out[pos], out[pos], out[pos]);
            if b - 1 > pos {
                assert(!listed_before(out[b - 1], out[pos]));
            }
        }
    }
}

/// Puts entries in listing order: directories first, then by lowercase
/// name; ties keep their order (a stable sort).
pub fn sort_entries(s: &Vec<Entry>) -> (r: Vec<Entry>)
    ensures
        exists|perm: Seq<int>| #[trigger] sorts_stably(s@, r@, perm),
{
    let mut out: Vec<Entry> = Vec::new();
    let mut keys: Vec<Vec<char>> = Vec::new();
    let ghost mut perm: Seq<int> = Seq::empty();
    let mut n: usize = 0;
    assert(s@.take(0) =~= Seq::<Entry>::empty());
    while n < s.len()
        invariant
            n <= s.len(),
            sorts_stably(s@.take(n as int), out@, perm),
            keys.len() == out.len(),
            forall|k: int| 0 <= k < keys.len() ==> #[trigger] keys[k]@ == name_key(out[k]),
        decreases s.len() - n,
    {
        let x = s[n].clone();
        let low = to_lowercase(x.name.as_str());
        let xk = chars_of(low.as_str());
        let mut pos: usize = 0;
        while pos < out.len() && !(
        (x.is_dir && !out[pos].is_dir) || (x.is_dir == out[pos].is_dir && text_less(
            xk.as_slice(),
            keys[pos].as_slice(),
        )))
            invariant
                pos <= out.len(),
                keys.len() == out.len(),
                forall|k: int| 0 <= k < keys.len() ==> #[trigger] keys[k]@ == name_key(out[k]),
                xk@ == name_key(x),
                forall|k: int| 0 <= k < pos ==> !listed_before(x, #[trigger] out[k]),
            decreases out.len() - pos,
        {
            pos = pos + 1;
        }
        proof {
            assert(x == s@[n as int]);
            assert(s@.take(n as int + 1).take(n as int) =~= s@.take(n as int));
            lemma_insert_step(s@, out@, perm, n as int, pos as int);
            perm = perm.insert(pos as int, n as int);
        }
        let ghost old_keys = keys@;
        let ghost old_out = out@;
        out.insert(pos, x);
        keys.insert(pos, xk);
        n = n + 1;
        proof {
            assert forall|k: int| 0 <= k < keys.len() implies #[trigger] keys[k]@ == name_key(out[k]) by {
                if k < pos {
                    assert(keys@[k] == old_keys[k] && out@[k] == old_out[k]);
                } else if k > pos {
                    assert(keys@[k] == old_keys[k - 1] && out@[k] == old_out[k - 1]);
                    assert(old_keys[k - 1]@ == name_key(old_out[k - 1]));
                }
            }
        }
    }
    assert(s@.take(s.len() as int) =~= s@);
    out
}

/// The entries that could be read, in scan order.
pub open spec fn readable(scanned: Seq<Result<Entry, ExplorerError>>) -> Seq<Entry>
    decreases scanned.len(),
{
    if scanned.len() == 0 {
        Seq::empty()
    } else {
        let prev = readable(scanned.drop_last());
        match scanned.last() {
            Ok(e) => prev.push(e),
            Err(_) => prev,
        }
    }
}

/// Lists a directory from what a scan of it found (items that could not be
/// read are skipped): the readable entries in listing order.
pub fn list_dir(scanned: Vec<Result<Entry, ExplorerError>>) -> (r: Result<Vec<Entry>, ExplorerError>)
    ensures
        r is Ok,
        r->Ok_0@.len() == readable(scanned@).len(),
        exists|perm: Seq<int>| #[trigger] sorts_stably(readable(scanned@), r->Ok_0@, perm),
{
    let mut ok: Vec<Entry> = Vec::new();
    let mut i: usize = 0;
    assert(scanned@.take(0) =~= Seq::<Result<Entry, ExplorerError>>::empty());
    while i < scanned.len()
        invariant
            i <= scanned.len(),
            ok@ == readable(scanned@.take(i as int)),
        decreases scanned.len() - i,
    {
        assert(scanned@.take(i + 1).drop_last() =~= scanned@.take(i as int));
        match &scanned[i] {
            Ok(e) => ok.push(e.clone()),
            Err(_) => {},
        }
        i = i + 1;
    }
    assert(scanned@.take(scanned.len() as int) =~= scanned@);
    let r = sort_entries(&ok);
    proof {
        let perm = choose|perm: Seq<int>| sorts_stably(ok@, r@, perm);
        assert(sorts_stably(ok@, r@, perm));
        assert(r@.len() == ok@.len());
        assert(ok@ == readable(scanned@));
        assert(sorts_stably(readable(scanned@), r@, perm));
        assert(exists|p: Seq<int>| #[trigger] sorts_stably(readable(scanned@), r@, p));
    }
    Ok(r)
}

/// A name that starts with `.` is hidden.
pub open spec fn is_hidden(e: Entry) -> bool {
    e.name@.len() > 0 && e.name@[0] == '.'
}

/// The entries shown: all of them, or only those not hidden.
pub open spec fn shown(entries: Seq<Entry>, show_hidden: bool) -> Seq<Entry>
    decreases entries.len(),
{
    if show_hidden || entries.len() == 0 {
        entries
    } else {
        let prev = shown(entries.drop_last(), show_hidden);
        if is_hidden(entries.last()) {
            prev
        } else {
            prev.push(entries.last())
        }
    }
}

pub proof fn lemma_shown_not_hidden(entries: Seq<Entry>)
    ensures
        forall|k: int| 0 <= k < shown(entries, false).len() ==> !is_hidden(#[trigger] shown(entries, false)[k]),
    decreases entries.len(),
{
    if entries.len() > 0 {
        let prev = shown(entries.drop_last(), false);
        lemma_shown_not_hidden(entries.drop_last());
        assert forall|k: int| 0 <= k < shown(entries, false).len() implies !is_hidden(#[trigger] shown(entries, false)[k]) by {
            if k < prev.len() {
                assert(shown(entries, false)[k] == prev[k]);
            }
        }
    }
}

/// Drops hidden entries unless `show_hidden`.
pub fn retain_shown(entries: Vec<Entry>, show_hidden: bool) -> (r: Vec<Entry>)
    ensures
        r@ == shown(entries@, show_hidden),
{
    if show_hidden {
        return entries;
    }
    let mut out: Vec<Entry> = Vec::new();
    let mut i: usize = 0;
    assert(entries@.take(0) =~= Seq::<Entry>::empty());
    while i < entries.len()
        invariant
            i <= entries.len(),
            !show_hidden,
            out@ == shown(entries@.take(i as int), show_hidden),
        decreases entries.len() - i,
    {
        assert(entries@.take(i + 1).drop_last() =~= entries@.take(i as int));
        let e = &entries[i];
        let v = chars_of(e.name.as_str());
        let hidden = v.len() > 0 && v[0] == '.';
        if !hidden {
            out.push(e.clone());
        }
        i = i + 1;
    }
    assert(entries@.take(entries.len() as int) =~= entries@);
    out
}

/// Law: in a listing, every directory comes before every file, and within
/// each group names go in order of their lowercase forms.
pub proof fn law_directories_first(s: Seq<Entry>, r: Seq<Entry>, perm: Seq<int>)
    requires
        sorts_stably(s, r, perm),
    ensures
        forall|a: int, b: int| 0 <= a < b < r.len() && r[b].is_dir ==> r[a].is_dir,
        forall|a: int, b: int| 0 <= a < b < r.len() && r[a].is_dir == r[b].is_dir
            ==> !text_lt(name_key(r[b]), name_key(r[a])),
{
    assert forall|a: int, b: int| 0 <= a < b < r.len() && r[b].is_dir implies r[a].is_dir by {
        assert(!listed_before(r[b], r[a]));
    }
    assert forall|a: int, b: int| 0 <= a < b < r.len() && r[a].is_dir == r[b].is_dir
        implies !text_lt(name_key(r[b]), name_key(r[a])) by {
        assert(!listed_before(r[b], r[a]));
    }
}

} // verus!
