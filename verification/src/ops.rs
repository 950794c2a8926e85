//! File operations: naming new items and renamed ones, and what the
//! properties window shows. The operations themselves touch the disk and
//! are performed by the caller.

use vstd::prelude::*;
use crate::paths::{parent, parent_of, join, joined, is_whitespace, white_space, file_name, file_name_of, extension, extension_of, file_stem, stem_of};
use crate::text::{chars_of, slice_string, push_str, push_decimal, decimal};
use crate::format::{Stamp, fmt_size, size_text, fmt_system_time, system_time_text};

verus! {

/// `s` without leading and trailing white space (`str::trim`).
pub open spec fn trimmed(s: Seq<char>) -> Seq<char>
    decreases s.len(),
{
    if s.len() > 0 && white_space(s[0]) {
        trimmed(s.drop_first())
    } else if s.len() > 0 && white_space(s.last()) {
        trimmed(s.drop_last())
    } else {
        s
    }
}

proof fn lemma_trim_front(s: Seq<char>, a: int)
    requires
        0 <= a <= s.len(),
        forall|j: int| 0 <= j < a ==> white_space(s[j]),
    ensures
        trimmed(s) == trimmed(s.skip(a)),
    decreases a,
{
    if a > 0 {
        assert(white_space(s[0]));
        lemma_trim_front(s.drop_first(), a - 1);
        assert(s.drop_first().skip(a - 1) =~= s.skip(a));
    } else {
        assert(s.skip(0) =~= s);
    }
}

proof fn lemma_trim_back(s: Seq<char>, b: int)
    requires
        0 <= b <= s.len(),
        s.len() > 0 ==> !white_space(s[0]) || b == 0,
        b > 0 ==> !white_space(s[0]),
        b > 0 ==> !white_space(s[b - 1]),
        forall|j: int| b <= j < s.len() ==> white_space(s[j]),
    ensures
        trimmed(s) == s.take(b),
    decreases s.len() - b,
{
    if b < s.len() {
        assert(white_space(s.last()));
        if b == 0 {
            if s.len() > 0 {
                if white_space(s[0]) {
                    lemma_trim_back(s.drop_first(), 0);
                    assert(s.drop_first().take(0) =~= s.take(0));
                } else {
                    lemma_trim_back(s.drop_last(), 0);
                    assert(s.drop_last().take(0) =~= s.take(0));
                }
            }
        } else {
            lemma_trim_back(s.drop_last(), b);
            assert(s.drop_last().take(b) =~= s.take(b));
        }
    } else {
        if s.len() > 0 {
            assert(!white_space(s[0]));
        }
        assert(s.take(b) =~= s);
    }
}

/// `s` with leading and trailing white space removed.
pub fn trim(s: &str) -> (r: String)
    ensures
        r@ == trimmed(s@),
{
    let v = chars_of(s);
    let mut a: usize = 0;
    while a < v.len() && is_whitespace(v[a])
        invariant
            a <= v.len(),
            forall|j: int| 0 <= j < a ==> white_space(v@[j]),
        decreases v.len() - a,
    {
        a = a + 1;
    }
    let mut b: usize = v.len();
    while b > a && is_whitespace(v[b - 1])
        invariant
            a <= b <= v.len(),
            forall|j: int| b <= j < v.len() ==> white_space(v@[j]),
        decreases b,
    {
        b = b - 1;
    }
    proof {
        lemma_trim_front(v@, a as int);
        let t = v@.skip(a as int);
        assert forall|j: int| (b - a) <= j < t.len() implies white_space(t[j]) by {
            assert(t[j] == v@[a + j]);
        }
        if b > a {
            assert(t[0] == v@[a as int]);
            assert(t[(b - a) - 1] == v@[b - 1]);
        }
        lemma_trim_back(t, (b - a) as int);
        assert(t.take((b - a) as int) =~= v@.subrange(a as int, b as int));
    }
    slice_string(v.as_slice(), a, b)
}

/// Where renaming `path` to `new_name` puts it: the trimmed name joined to
/// the path's parent (or to `.` when it has none).
pub open spec fn rename_target_text(path: Seq<char>, new_name: Seq<char>) -> Seq<char> {
    match parent_of(path) {
        Some(p) => joined(p, trimmed(new_name)),
        None => joined("."@, trimmed(new_name)),
    }
}

/// The destination of renaming `path` to `new_name`.
pub fn rename_target(path: &str, new_name: &str) -> (r: String)
    ensures
        r@ == rename_target_text(path@, new_name@),
{
    let name = trim(new_name);
    match parent(path) {
        Some(p) => join(p.as_str(), name.as_str()),
        None => join(".", name.as_str()),
    }
}

/// The name `name` takes when numbered `i`: `"stem (i).ext"`, where the
/// stem and extension are those `Path` gives for `name` (the whole name
/// and nothing when it has none).
pub open spec fn numbered_name(name: Seq<char>, i: nat) -> Seq<char> {
    let stem = match stem_of(name) {
        Some(s) => s,
        None => name,
    };
    let ext = match extension_of(name) {
        Some(e) => seq!['.'] + e,
        None => Seq::empty(),
    };
    stem + " ("@ + decimal(i) + ")"@ + ext
}

/// The `k`-th path tried for a new item `name` in `parent`: the plain name
/// first, then the name numbered 2, 3, ...
pub open spec fn candidate(parent: Seq<char>, name: Seq<char>, k: nat) -> Seq<char> {
    if k == 0 {
        joined(parent, name)
    } else {
        joined(parent, numbered_name(name, k + 1))
    }
}

/// `f` may answer `answer` when asked about path `p`.
pub open spec fn answered<F: Fn(String) -> bool>(f: F, p: Seq<char>, answer: bool) -> bool {
    exists|s: String| s@ == p && #[trigger] call_ensures(f, (s,), answer)
}

/// The last number tried.
pub const MAX_NUMBER: u32 = 9999;

/// A path for a new item `name` in `parent` that `is_taken` says is free:
/// the plain name if free, else the name numbered 2, 3, ... up to 9999
/// (the 9999th is taken even when it is not free). Only the names before
/// the one returned are asked about, and each of them was reported taken.
pub fn unique_path<F: Fn(String) -> bool>(parent: &str, name: &str, is_taken: F) -> (r: String)
    requires
        forall|s: String| #[trigger] call_requires(is_taken, (s,)),
    ensures
        exists|k: nat| {
            &&& k <= 9998
            &&& r@ == #[trigger] candidate(parent@, name@, k)
            &&& forall|j: nat| j < k ==> answered(is_taken, #[trigger] candidate(parent@, name@, j), true)
            &&& (k == 9998 || answered(is_taken, candidate(parent@, name@, k), false))
        },
{
    let plain = join(parent, name);
    let plain_probe = plain.clone();
    let taken = is_taken(plain_probe);
    if !taken {
        assert(candidate(parent@, name@, 0) == plain@);
        return plain;
    }
    let stem: String = match file_stem(name) {
        Some(s) => s,
        None => crate::text::owned(name),
    };
    let ext: String = match extension(name) {
        Some(e) => {
            let mut d = String::new();
            d.push('.');
            push_str(&mut d, e.as_str());
            d
        },
        None => String::new(),
    };
    let mut i: u32 = 2;
    loop
        invariant
            2 <= i <= MAX_NUMBER,
            forall|s: String| #[trigger] call_requires(is_taken, (s,)),
            forall|j: nat| j < (i - 1) as nat ==> answered(is_taken, #[trigger] candidate(parent@, name@, j), true),
            stem@ == match stem_of(name@) { Some(s) => s, None => name@ },
            ext@ == match extension_of(name@) { Some(e) => seq!['.'] + e, None => Seq::empty() },
        decreases MAX_NUMBER - i,
    {
        let mut file = stem.clone();
        push_str(&mut file, " (");
        push_decimal(&mut file, i as u64);
        push_str(&mut file, ")");
        push_str(&mut file, ext.as_str());
        assert(file@ == numbered_name(name@, i as nat));
        let numbered = join(parent, file.as_str());
        assert(numbered@ == candidate(parent@, name@, (i - 1) as nat));
        let probe = numbered.clone();
        let taken = is_taken(probe);
        if !taken {
            assert(answered(is_taken, candidate(parent@, name@, (i - 1) as nat), false));
            return numbered;
        }
        assert(answered(is_taken, candidate(parent@, name@, (i - 1) as nat), true));
        if i == MAX_NUMBER {
            return numbered;
        }
        i = i + 1;
    }
}

/// What the properties window shows about a path.
#[derive(Debug)]
pub struct Properties {
    pub name: String,
    pub full_path: String,
    pub kind: &'static str,
    pub size: String,
    pub modified: String,
    pub created: String,
    pub readonly: bool,
    pub item_count: Option<usize>,
}

impl Clone for Properties {
    fn clone(&self) -> (r: Self)
        ensures
            r == *self,
    {
        Properties {
            name: self.name.clone(),
            full_path: self.full_path.clone(),
            kind: self.kind,
            size: self.size.clone(),
            modified: self.modified.clone(),
            created: self.created.clone(),
            readonly: self.readonly,
            item_count: self.item_count,
        }
    }
}

/// The properties of `path` from its metadata: whether it is a directory,
/// its length, its times, whether it is read-only, and (for a directory)
/// how many items it holds when that could be read. The name is the final
/// component (the whole path when it has none); a directory shows no size
/// and a file no item count.
pub fn properties(
    path: &str,
    is_dir: bool,
    len: u64,
    item_count: Option<usize>,
    modified: Option<Stamp>,
    created: Option<Stamp>,
    readonly: bool,
) -> (r: Properties)
    ensures
        r.name@ == match file_name_of(path@) { Some(n) => n, None => path@ },
        r.full_path@ == path@,
        r.kind@ == if is_dir { "Directory"@ } else { "File"@ },
        r.size@ == if is_dir { Seq::empty() } else { size_text(len) },
        r.item_count == if is_dir { item_count } else { None },
        r.modified@ == system_time_text(modified),
        r.created@ == system_time_text(created),
        r.readonly == readonly,
{
    let name = match file_name(path) {
        Some(n) => n,
        None => crate::text::owned(path),
    };
    Properties {
        name,
        full_path: crate::text::owned(path),
        kind: if is_dir { "Directory" } else { "File" },
        size: if is_dir { String::new() } else { fmt_size(len) },
        modified: fmt_system_time(modified),
        created: fmt_system_time(created),
        readonly,
        item_count: if is_dir { item_count } else { None },
    }
}

} // verus!
