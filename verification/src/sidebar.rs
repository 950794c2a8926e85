//! The sidebar (quick-access places and drives) and the breadcrumb bar.

use vstd::prelude::*;
use std::path::{Component, Path, PathBuf};
use crate::constants::{ICO_HOME, ICO_DESKTOP, ICO_DOWNLOADS, ICO_DOCUMENTS, ICO_PICTURES, ICO_MUSIC, ICO_VIDEOS};
use crate::ops::answered;
use crate::paths::{join, joined, same, same_path, starts_with, path_starts_with};
use crate::text::{chars_of, slice_string, find_first, first_index, lemma_first_index, has_prefix, is_prefix, owned};

verus! {

/// The lines of `s` as `str::lines` gives them: split after each `\n`,
/// the `\n` (and a `\r` just before it) dropped; no line after a final `\n`.
pub open spec fn lines_of(s: Seq<char>) -> Seq<Seq<char>>
    decreases s.len(),
{
    if s.len() == 0 {
        Seq::empty()
    } else {
        let k = first_index(s, '\n');
        proof { lemma_first_index(s, '\n'); }
        if k < 0 {
            seq![s]
        } else {
            let line = s.take(k);
            let line = if line.len() > 0 && line.last() == '\r' { line.drop_last() } else { line };
            seq![line] + lines_of(s.skip(k + 1))
        }
    }
}

/// The first space-separated field of a mount line (the device).
pub open spec fn device_field(l: Seq<char>) -> Seq<char> {
    let k = first_index(l, ' ');
    if k < 0 { l } else { l.take(k) }
}

/// The second space-separated field of a mount line (the mount point), or nothing.
pub open spec fn mount_field(l: Seq<char>) -> Seq<char> {
    let k = first_index(l, ' ');
    if k < 0 {
        Seq::empty()
    } else {
        let r = l.skip(k + 1);
        let j = first_index(r, ' ');
        if j < 0 { r } else { r.take(j) }
    }
}

/// A device of a disk or disk-like block device.
pub open spec fn is_block_device(d: Seq<char>) -> bool {
    has_prefix(d, "/dev/sd"@) || has_prefix(d, "/dev/nvme"@) || has_prefix(d, "/dev/mmcblk"@)
        || has_prefix(d, "/dev/vd"@) || has_prefix(d, "/dev/hd"@) || has_prefix(d, "/dev/mapper/"@)
}

/// A mount point where removable or user media are mounted.
pub open spec fn is_user_mount(m: Seq<char>) -> bool {
    has_prefix(m, "/media/"@) || has_prefix(m, "/mnt/"@) || has_prefix(m, "/run/media/"@)
}

/// A mount line that the drive list shows.
pub open spec fn mount_shown(l: Seq<char>) -> bool {
    let m = mount_field(l);
    m.len() > 0 && m != "/"@ && (is_block_device(device_field(l)) || is_user_mount(m))
}

/// The mount points the drive list may show, in the order of `lines`.
pub open spec fn shown_mounts(lines: Seq<Seq<char>>) -> Seq<Seq<char>>
    decreases lines.len(),
{
    if lines.len() == 0 {
        Seq::empty()
    } else {
        let prev = shown_mounts(lines.drop_last());
        if mount_shown(lines.last()) { prev.push(mount_field(lines.last())) } else { prev }
    }
}

/// The texts of a list of strings.
pub open spec fn views(v: Seq<String>) -> Seq<Seq<char>> {
    v.map_values(|s: String| s@)
}

fn split_field(l: &Vec<char>) -> (r: (String, String))
    ensures
        r.0@ == device_field(l@),
        r.1@ == mount_field(l@),
{
    proof { lemma_first_index(l@, ' '); }
    match find_first(l.as_slice(), ' ') {
        None => (slice_string(l.as_slice(), 0, l.len()), String::new()),
        Some(k) => {
            assert(k < l@.len());
            assert(k < l.len());
            let dev = slice_string(l.as_slice(), 0, k);
            let rest_s = slice_string(l.as_slice(), k + 1, l.len());
            let rest = chars_of(rest_s.as_str());
            assert(rest@ =~= l@.skip(k + 1));
            proof { lemma_first_index(rest@, ' '); }
            let m = match find_first(rest.as_slice(), ' ') {
                None => rest_s,
                Some(j) => slice_string(rest.as_slice(), 0, j),
            };
            assert(l@.take(l.len() as int) =~= l@);
            (dev, m)
        },
    }
}

fn starts_with_any(s: &Vec<char>, prefixes: &Vec<&'static str>) -> (r: bool)
    ensures
        r == exists|i: int| 0 <= i < prefixes.len() && has_prefix(s@, (#[trigger] prefixes@[i])@),
{
    let mut i: usize = 0;
    while i < prefixes.len()
        invariant
            i <= prefixes.len(),
            forall|j: int| 0 <= j < i ==> !has_prefix(s@, (#[trigger] prefixes@[j])@),
        decreases prefixes.len() - i,
    {
        let p = chars_of(prefixes[i]);
        if is_prefix(s.as_slice(), p.as_slice()) {
            return true;
        }
        i = i + 1;
    }
    false
}

/// The mount points listed in `mounts` (the text of `/proc/mounts`) that
/// the drive list may show: those of disk devices or under `/media/`,
/// `/mnt/` or `/run/media/`, other than `/`, in the order listed.
pub fn mount_candidates(mounts: &str) -> (r: Vec<String>)
    ensures
        views(r@) == shown_mounts(lines_of(mounts@)),
{
    let blocks = vec!["/dev/sd", "/dev/nvme", "/dev/mmcblk", "/dev/vd", "/dev/hd", "/dev/mapper/"];
    let users = vec!["/media/", "/mnt/", "/run/media/"];
    let mut out: Vec<String> = Vec::new();
    let mut rest = chars_of(mounts);
    let ghost mut done: Seq<Seq<char>> = Seq::empty();
    while rest.len() > 0
        invariant
            lines_of(mounts@) == done + lines_of(rest@),
            views(out@) == shown_mounts(done),
            blocks@ == seq!["/dev/sd", "/dev/nvme", "/dev/mmcblk", "/dev/vd", "/dev/hd", "/dev/mapper/"],
            users@ == seq!["/media/", "/mnt/", "/run/media/"],
        decreases rest.len(),
    {
        proof { lemma_first_index(rest@, '\n'); }
        let (line, next): (Vec<char>, Vec<char>) = match find_first(rest.as_slice(), '\n') {
            None => {
                assert(lines_of(rest@) == seq![rest@]);
                (rest.clone(), Vec::new())
            },
            Some(k) => {
                let mut end = k;
                if k > 0 && rest[k - 1] == '\r' {
                    end = k - 1;
                }
                let l = chars_of(slice_string(rest.as_slice(), 0, end).as_str());
                let n = chars_of(slice_string(rest.as_slice(), k + 1, rest.len()).as_str());
                proof {
                    let line_s = rest@.take(k as int);
                    assert(l@ =~= if line_s.len() > 0 && line_s.last() == '\r' { line_s.drop_last() } else { line_s });
                    assert(n@ =~= rest@.skip(k + 1));
                }
                (l, n)
            },
        };
        let ghost old_done = done;
        proof {
            done = done.push(line@);
            assert(lines_of(mounts@) =~= done + lines_of(next@));
            assert(done.drop_last() =~= old_done);
        }
        let (dev, mnt) = split_field(&line);
        let dv = chars_of(dev.as_str());
        let mv = chars_of(mnt.as_str());
        let is_root = mnt == owned("/");
        let block = starts_with_any(&dv, &blocks);
        let user = starts_with_any(&mv, &users);
        proof {
            assert(is_block_device(dv@) == exists|i: int| 0 <= i < blocks.len() && has_prefix(dv@, (#[trigger] blocks@[i])@)) by {
                if is_block_device(dv@) {
                    if has_prefix(dv@, "/dev/sd"@) { assert(blocks@[0]@ == "/dev/sd"@); }
                    else if has_prefix(dv@, "/dev/nvme"@) { assert(blocks@[1]@ == "/dev/nvme"@); }
                    else if has_prefix(dv@, "/dev/mmcblk"@) { assert(blocks@[2]@ == "/dev/mmcblk"@); }
                    else if has_prefix(dv@, "/dev/vd"@) { assert(blocks@[3]@ == "/dev/vd"@); }
                    else if has_prefix(dv@, "/dev/hd"@) { assert(blocks@[4]@ == "/dev/hd"@); }
                    else { assert(blocks@[5]@ == "/dev/mapper/"@); }
                }
            }
            assert(is_user_mount(mv@) == exists|i: int| 0 <= i < users.len() && has_prefix(mv@, (#[trigger] users@[i])@)) by {
                if is_user_mount(mv@) {
                    if has_prefix(mv@, "/media/"@) { assert(users@[0]@ == "/media/"@); }
                    else if has_prefix(mv@, "/mnt/"@) { assert(users@[1]@ == "/mnt/"@); }
                    else { assert(users@[2]@ == "/run/media/"@); }
                }
            }
        }
        if mv.len() > 0 && !is_root && (block || user) {
            out.push(mnt);
        }
        rest = next;
    }
    assert(lines_of(rest@) =~= Seq::<Seq<char>>::empty());
    assert(done + Seq::<Seq<char>>::empty() =~= done);
    out
}

/// What sorting paths by `Path`'s order (component by component) gives.
pub uninterp spec fn sorted_paths(v: Seq<Seq<char>>) -> Seq<Seq<char>>;

/// What `<=` on two `Path`s answers (`Path`'s order, component by component).
pub uninterp spec fn path_le(a: Seq<char>, b: Seq<char>) -> bool;

/// `perm` puts `r` together from the items of `v`, each used once.
pub open spec fn rearranges(r: Seq<String>, v: Seq<String>, perm: Seq<int>) -> bool {
    &&& perm.len() == r.len()
    &&& r.len() == v.len()
    &&& forall|k: int| 0 <= k < r.len() ==> 0 <= #[trigger] perm[k] < v.len() && r[k]@ == v[perm[k]]@
    &&& forall|a: int, b: int| 0 <= a < b < r.len() ==> #[trigger] perm[a] != #[trigger] perm[b]
}

/// `slice::sort` on paths, in `Path`'s order. Claims the result is the one
/// `sorted_paths` names for the texts given, holding the same texts, in
/// ascending `Path` order (as the documentation of `sort` promises). Of the
/// paths sorted it also claims what `Path`'s `Eq` and `Ord` promise
/// together: each equals itself, and two that are each `<=` the other are
/// equal.
#[verifier::external_body]
fn sort_paths(v: Vec<String>) -> (r: Vec<String>)
    ensures
        views(r@) == sorted_paths(views(v@)),
        views(r@).to_multiset() == views(v@).to_multiset(),
        exists|perm: Seq<int>| #[trigger] rearranges(r@, v@, perm),
        forall|i: int, j: int| 0 <= i < j < r@.len() ==> path_le(#[trigger] r@[i]@, #[trigger] r@[j]@),
        forall|i: int| 0 <= i < r@.len() ==> same_path(#[trigger] r@[i]@, r@[i]@),
        forall|i: int, j: int| 0 <= i < r@.len() && 0 <= j < r@.len() && path_le(#[trigger] r@[i]@, #[trigger] r@[j]@)
            && path_le(r@[j]@, r@[i]@) ==> same_path(r@[i]@, r@[j]@),
{
    let mut p: Vec<PathBuf> = v.into_iter().map(PathBuf::from).collect();
    p.sort();
    p.into_iter().map(|x| x.to_string_lossy().into_owned()).collect()
}

/// The present mount points kept for the drive list: each one unless a
/// path equal to it (component by component) is `/` or was kept before.
pub open spec fn kept_mounts(present: Seq<Seq<char>>) -> Seq<Seq<char>>
    decreases present.len(),
{
    if present.len() == 0 {
        Seq::empty()
    } else {
        let prev = kept_mounts(present.drop_last());
        let p = present.last();
        if same_path("/"@, p) || exists|i: int| 0 <= i < prev.len() && same_path(#[trigger] prev[i], p) {
            prev
        } else {
            prev.push(p)
        }
    }
}

/// No kept mount point equals `/` or one kept before it.
proof fn lemma_kept_distinct(present: Seq<Seq<char>>)
    ensures
        forall|k: int| 0 <= k < kept_mounts(present).len() ==> !same_path("/"@, #[trigger] kept_mounts(present)[k]),
        forall|a: int, b: int| 0 <= a < b < kept_mounts(present).len() ==> !same_path(#[trigger] kept_mounts(present)[a], #[trigger] kept_mounts(present)[b]),
    decreases present.len(),
{
    if present.len() > 0 {
        lemma_kept_distinct(present.drop_last());
        let prev = kept_mounts(present.drop_last());
        let p = present.last();
        let cur = kept_mounts(present);
        if same_path("/"@, p) || exists|i: int| 0 <= i < prev.len() && same_path(#[trigger] prev[i], p) {
            assert(cur == prev);
        } else {
            assert(cur == prev.push(p));
            assert forall|a: int, b: int| 0 <= a < b < cur.len() implies !same_path(#[trigger] cur[a], #[trigger] cur[b]) by {
                if b == prev.len() {
                    assert(cur[a] == prev[a]);
                    assert(!same_path(prev[a], p));
                } else {
                    assert(cur[a] == prev[a] && cur[b] == prev[b]);
                }
            }
            assert forall|k: int| 0 <= k < cur.len() implies !same_path("/"@, #[trigger] cur[k]) by {
                if k < prev.len() {
                    assert(cur[k] == prev[k]);
                }
            }
        }
    }
}

/// The drive list: `/` first, then the mount points in `present` (those of
/// `mount_candidates` that exist), without repeats, in ascending `Path`
/// order: exactly the kept mount points, sorted.
pub fn root_dirs_from(present: Vec<String>) -> (r: Vec<String>)
    ensures
        r@.len() >= 1,
        r@[0]@ == "/"@,
        views(r@).drop_first() == sorted_paths(kept_mounts(views(present@))),
        views(r@).drop_first().to_multiset() == kept_mounts(views(present@)).to_multiset(),
        forall|i: int, j: int| 1 <= i < j < r@.len() ==> path_le(#[trigger] r@[i]@, #[trigger] r@[j]@),
        forall|i: int, j: int| 1 <= i < j < r@.len() ==> !path_le(#[trigger] r@[j]@, #[trigger] r@[i]@) && r@[i]@ != r@[j]@,
        forall|i: int| 1 <= i < r@.len() ==> !same_path("/"@, #[trigger] r@[i]@) && r@[i]@ != "/"@,
{
    let mut kept: Vec<String> = Vec::new();
    let mut i: usize = 0;
    assert(views(present@).take(0) =~= Seq::<Seq<char>>::empty());
    while i < present.len()
        invariant
            i <= present.len(),
            views(kept@) == kept_mounts(views(present@).take(i as int)),
        decreases present.len() - i,
    {
        let p = &present[i];
        let ghost prefix = views(present@).take(i + 1);
        assert(prefix.drop_last() =~= views(present@).take(i as int));
        assert(prefix.last() == p@);
        let mut dup = same("/", p.as_str());
        let mut j: usize = 0;
        while j < kept.len() && !dup
            invariant
                j <= kept.len(),
                dup ==> (same_path("/"@, p@) || exists|k: int| 0 <= k < kept@.len() && same_path(#[trigger] views(kept@)[k], p@)),
                !dup ==> !same_path("/"@, p@) && forall|k: int| 0 <= k < j ==> !same_path(#[trigger] views(kept@)[k], p@),
            decreases kept.len() - j,
        {
            if same(kept[j].as_str(), p.as_str()) {
                assert(views(kept@)[j as int] == kept@[j as int]@);
                dup = true;
            }
            j = j + 1;
        }
        if !dup {
            let ghost before = views(kept@);
            kept.push(p.clone());
            assert(views(kept@) =~= before.push(p@));
        }
        i = i + 1;
    }
    assert(views(present@).take(present.len() as int) =~= views(present@));
    proof { lemma_kept_distinct(views(present@)); }
    let ghost kv = kept@;
    let sorted = sort_paths(kept);
    let mut r: Vec<String> = Vec::new();
    r.push(owned("/"));
    let mut k: usize = 0;
    while k < sorted.len()
        invariant
            k <= sorted.len(),
            r@.len() == k + 1,
            r@[0]@ == "/"@,
            forall|a: int| 0 <= a < k ==> #[trigger] r@[a + 1]@ == sorted@[a]@,
        decreases sorted.len() - k,
    {
        r.push(sorted[k].clone());
        k = k + 1;
    }
    assert(views(r@).drop_first() =~= views(sorted@));
    let ghost perm = choose|perm: Seq<int>| rearranges(sorted@, kv, perm);
    assert(views(kv) == kept_mounts(views(present@)));
    assert forall|i: int| 0 <= i < sorted@.len() implies !same_path("/"@, #[trigger] sorted@[i]@) && sorted@[i]@ != "/"@ by {
        assert(sorted@[i]@ == kv[perm[i]]@);
        assert(views(kv)[perm[i]] == kv[perm[i]]@);
        assert(same_path(sorted@[i]@, sorted@[i]@));
    }
    assert forall|i: int, j: int| 0 <= i < j < sorted@.len() implies !path_le(#[trigger] sorted@[j]@, #[trigger] sorted@[i]@) && sorted@[i]@ != sorted@[j]@ by {
        let (a, b) = (perm[i], perm[j]);
        assert(sorted@[i]@ == kv[a]@ && sorted@[j]@ == kv[b]@);
        assert(views(kv)[a] == kv[a]@ && views(kv)[b] == kv[b]@);
        assert(a != b);
        assert(path_le(sorted@[i]@, sorted@[j]@));
        if path_le(sorted@[j]@, sorted@[i]@) {
            assert(same_path(sorted@[i]@, sorted@[j]@));
            assert(same_path(sorted@[j]@, sorted@[i]@));
            if a < b {
                assert(!same_path(views(kv)[a], views(kv)[b]));
            } else {
                assert(!same_path(views(kv)[b], views(kv)[a]));
            }
        }
        if sorted@[i]@ == sorted@[j]@ {
            assert(same_path(sorted@[i]@, sorted@[i]@));
            if a < b {
                assert(!same_path(views(kv)[a], views(kv)[b]));
            } else {
                assert(!same_path(views(kv)[b], views(kv)[a]));
            }
        }
    }
    assert forall|i: int| 1 <= i < r@.len() implies !same_path("/"@, #[trigger] r@[i]@) && r@[i]@ != "/"@ by {
        assert(r@[(i - 1) + 1]@ == sorted@[i - 1]@);
    }
    assert forall|i: int, j: int| 1 <= i < j < r@.len() implies !path_le(#[trigger] r@[j]@, #[trigger] r@[i]@) && r@[i]@ != r@[j]@ by {
        assert(r@[(i - 1) + 1]@ == sorted@[i - 1]@);
        assert(r@[(j - 1) + 1]@ == sorted@[j - 1]@);
    }
    assert forall|i: int, j: int| 1 <= i < j < r@.len() implies path_le(#[trigger] r@[i]@, #[trigger] r@[j]@) by {
        assert(r@[(i - 1) + 1]@ == sorted@[i - 1]@);
        assert(r@[(j - 1) + 1]@ == sorted@[j - 1]@);
        assert(path_le(sorted@[i - 1]@, sorted@[j - 1]@));
    }
    r
}

/// A quick-access place: its label, icon and path.
pub type Place = (&'static str, &'static str, String);

/// The places below home offered in quick access, in order.
pub open spec fn place_names() -> Seq<(&'static str, &'static str, &'static str)> {
    seq![
        ("Desktop", ICO_DESKTOP, "Desktop"),
        ("Downloads", ICO_DOWNLOADS, "Downloads"),
        ("Documents", ICO_DOCUMENTS, "Documents"),
        ("Pictures", ICO_PICTURES, "Pictures"),
        ("Music", ICO_MUSIC, "Music"),
        ("Videos", ICO_VIDEOS, "Videos"),
    ]
}

/// Items 1.. of `r` are the places numbered `picked` (increasing, below
/// `upto`), each reported present; every other place below `upto` was
/// reported absent.
pub open spec fn picks_places<F: Fn(String) -> bool>(r: Seq<Place>, home: Seq<char>, is_present: F, picked: Seq<int>, upto: int) -> bool {
    &&& picked.len() == r.len() - 1
    &&& forall|a: int, b: int| 0 <= a < b < picked.len() ==> picked[a] < picked[b]
    &&& forall|a: int| 0 <= a < picked.len() ==> {
        &&& 0 <= #[trigger] picked[a] < upto
        &&& r[a + 1].0@ == place_names()[picked[a]].0@
        &&& r[a + 1].1@ == place_names()[picked[a]].1@
        &&& r[a + 1].2@ == joined(home, place_names()[picked[a]].2@)
        &&& answered(is_present, r[a + 1].2@, true)
    }
    &&& forall|k: int| 0 <= k < upto && !picked.contains(k) ==> answered(is_present, #[trigger] joined(home, place_names()[k].2@), false)
}

/// The quick-access list for `home`: home itself, then each of Desktop,
/// Downloads, Documents, Pictures, Music and Videos inside it that
/// `is_present` says exists. Each of those six is asked about once, and one
/// is listed exactly when it was reported present.
pub fn quick_access<F: Fn(String) -> bool>(home: &str, is_present: F) -> (r: Vec<Place>)
    requires
        forall|s: String| #[trigger] call_requires(is_present, (s,)),
    ensures
        r@.len() >= 1,
        r@[0].0@ == "Home"@ && r@[0].1@ == ICO_HOME@ && r@[0].2@ == home@,
        exists|picked: Seq<int>| #[trigger] picks_places(r@, home@, is_present, picked, 6),
{
    let names = vec![
        ("Desktop", ICO_DESKTOP, "Desktop"),
        ("Downloads", ICO_DOWNLOADS, "Downloads"),
        ("Documents", ICO_DOCUMENTS, "Documents"),
        ("Pictures", ICO_PICTURES, "Pictures"),
        ("Music", ICO_MUSIC, "Music"),
        ("Videos", ICO_VIDEOS, "Videos"),
    ];
    let mut r: Vec<Place> = Vec::new();
    r.push(("Home", ICO_HOME, owned(home)));
    let ghost mut picked: Seq<int> = Seq::empty();
    let mut k: usize = 0;
    while k < names.len()
        invariant
            names@ == place_names(),
            k <= names.len(),
            forall|s: String| #[trigger] call_requires(is_present, (s,)),
            r@.len() >= 1,
            r@[0].0@ == "Home"@ && r@[0].1@ == ICO_HOME@ && r@[0].2@ == home@,
            picks_places(r@, home@, is_present, picked, k as int),
        decreases names.len() - k,
    {
        let (label, icon, sub) = names[k];
        let path = join(home, sub);
        let probe = path.clone();
        let present = is_present(probe);
        let ghost old_r = r@;
        let ghost old_picked = picked;
        assert(names@[k as int] == place_names()[k as int]);
        assert(path@ == joined(home@, place_names()[k as int].2@));
        assert(answered(is_present, path@, present));
        if present {
            r.push((label, icon, path));
            proof {
                picked = picked.push(k as int);
                assert forall|j: int| 0 <= j < k + 1 && !picked.contains(j) implies answered(is_present, #[trigger] joined(home@, place_names()[j].2@), false) by {
                    assert(picked[picked.len() - 1] == k);
                    assert(j != k);
                    assert(!old_picked.contains(j)) by {
                        if old_picked.contains(j) {
                            let t = choose|t: int| 0 <= t < old_picked.len() && old_picked[t] == j;
                            assert(picked[t] == j);
                        }
                    }
                    assert(picks_places(old_r, home@, is_present, old_picked, k as int));
                    assert(answered(is_present, joined(home@, place_names()[j].2@), false));
                }
                assert forall|a: int| 0 <= a < picked.len() implies {
                    &&& 0 <= #[trigger] picked[a] < k + 1
                    &&& r@[a + 1].0@ == place_names()[picked[a]].0@
                    &&& r@[a + 1].1@ == place_names()[picked[a]].1@
                    &&& r@[a + 1].2@ == joined(home@, place_names()[picked[a]].2@)
                    &&& answered(is_present, r@[a + 1].2@, true)
                } by {
                    if a < old_picked.len() {
                        assert(r@[a + 1] == old_r[a + 1]);
                    }
                }
            }
        } else {
            proof {
                assert forall|j: int| 0 <= j < k + 1 && !picked.contains(j) implies answered(is_present, #[trigger] joined(home@, place_names()[j].2@), false) by {
                    if j == k {
                        assert(joined(home@, place_names()[j].2@) == path@);
                        assert(!present);
                        assert(answered(is_present, path@, false));
                    } else {
                        assert(picks_places(old_r, home@, is_present, old_picked, k as int));
                        assert(j < k);
                        assert(!old_picked.contains(j));
                        assert(answered(is_present, joined(home@, place_names()[j].2@), false));
                    }
                }
            }
        }
        k = k + 1;
    }
    r
}

/// A sidebar place is highlighted when the explorer is at it or inside it.
pub fn is_active(place: &str, active_dir: &str) -> (r: bool)
    ensures
        r == (same_path(place@, active_dir@) || path_starts_with(active_dir@, place@)),
{
    same(place, active_dir) || starts_with(active_dir, place)
}

/// The kind of a path component.
#[derive(Clone, Copy, Debug, PartialEq, Eq, Structural)]
pub enum PartKind {
    Prefix,
    RootDir,
    CurDir,
    ParentDir,
    Normal,
}

/// A component of a path: its kind and its text.
#[derive(Debug)]
pub struct PathPart {
    pub kind: PartKind,
    pub text: String,
}

/// The components seen as plain values.
pub open spec fn part_views(v: Seq<PathPart>) -> Seq<(PartKind, Seq<char>)> {
    v.map_values(|p: PathPart| (p.kind, p.text@))
}

/// What `Path::components` gives for `p`.
pub uninterp spec fn components_of(p: Seq<char>) -> Seq<(PartKind, Seq<char>)>;

/// `Path::components`, each with its kind and its text. Claims the result
/// is what `components_of` names.
#[verifier::external_body]
fn components(p: &str) -> (r: Vec<PathPart>)
    ensures
        part_views(r@) == components_of(p@),
{
    Path::new(p)
        .components()
        .map(|c| {
            let kind = match c {
                Component::Prefix(_) => PartKind::Prefix,
                Component::RootDir => PartKind::RootDir,
                Component::CurDir => PartKind::CurDir,
                Component::ParentDir => PartKind::ParentDir,
                Component::Normal(_) => PartKind::Normal,
            };
            PathPart { kind, text: c.as_os_str().to_string_lossy().into_owned() }
        })
        .collect()
}

/// The breadcrumbs of a path with components `parts`, with the path built
/// so far: each component extends the path; root, prefix and normal
/// components get a crumb (labelled `/` for the root), `.` and `..` none.
pub open spec fn crumbs(parts: Seq<(PartKind, Seq<char>)>) -> (Seq<(Seq<char>, Seq<char>)>, Seq<char>)
    decreases parts.len(),
{
    if parts.len() == 0 {
        (Seq::empty(), Seq::empty())
    } else {
        let (prev, acc) = crumbs(parts.drop_last());
        let (kind, text) = parts.last();
        let acc2 = joined(acc, text);
        match kind {
            PartKind::CurDir => (prev, acc2),
            PartKind::ParentDir => (prev, acc2),
            PartKind::RootDir => (prev.push(("/"@, acc2)), acc2),
            _ => (prev.push((text, acc2)), acc2),
        }
    }
}

/// The crumbs seen as plain values.
pub open spec fn crumb_views(v: Seq<(String, String)>) -> Seq<(Seq<char>, Seq<char>)> {
    v.map_values(|c: (String, String)| (c.0@, c.1@))
}

/// The breadcrumb bar for `path`: a label and the path it leads to for
/// each of its components.
pub fn breadcrumb_segments(path: &str) -> (r: Vec<(String, String)>)
    ensures
        crumb_views(r@) == crumbs(components_of(path@)).0,
{
    let parts = components(path);
    let ghost ps = part_views(parts@);
    let mut out: Vec<(String, String)> = Vec::new();
    let mut acc = String::new();
    let mut i: usize = 0;
    assert(ps.take(0) =~= Seq::<(PartKind, Seq<char>)>::empty());
    while i < parts.len()
        invariant
            i <= parts.len(),
            ps == part_views(parts@),
            crumb_views(out@) == crumbs(ps.take(i as int)).0,
            acc@ == crumbs(ps.take(i as int)).1,
        decreases parts.len() - i,
    {
        let part = &parts[i];
        assert(ps.take(i + 1).drop_last() =~= ps.take(i as int));
        assert(ps.take(i + 1).last() == (part.kind, part.text@));
        let next = join(acc.as_str(), part.text.as_str());
        let ghost before = crumb_views(out@);
        match part.kind {
            PartKind::CurDir | PartKind::ParentDir => {},
            PartKind::RootDir => {
                out.push((owned("/"), next.clone()));
                assert(crumb_views(out@) =~= before.push(("/"@, next@)));
            },
            _ => {
                out.push((part.text.clone(), next.clone()));
                assert(crumb_views(out@) =~= before.push((part.text@, next@)));
            },
        }
        acc = next;
        i = i + 1;
    }
    assert(ps.take(parts.len() as int) =~= ps);
    out
}

/// The first `c` in `f` is at `k`.
proof fn lemma_first_at(f: Seq<char>, c: char, k: int)
    requires
        0 <= k < f.len(),
        f[k] == c,
        forall|j: int| 0 <= j < k ==> f[j] != c,
    ensures
        first_index(f, c) == k,
{
    lemma_first_index(f, c);
}

/// `c` does not occur in `f`.
proof fn lemma_first_none(f: Seq<char>, c: char)
    requires
        forall|j: int| 0 <= j < f.len() ==> f[j] != c,
    ensures
        first_index(f, c) == -1,
{
    lemma_first_index(f, c);
}

/// Law: a mount line `device mount-point rest` (fields without spaces or
/// line breaks) puts its mount point in the drive list exactly when the
/// mount point is not `/` and the device is a disk (its name starts with
/// `/dev/sd`, `/dev/nvme`, `/dev/mmcblk`, `/dev/vd`, `/dev/hd` or
/// `/dev/mapper/`) or the mount point lies under `/media/`, `/mnt/` or
/// `/run/media/`.
pub proof fn law_mount_line(dev: Seq<char>, mnt: Seq<char>, rest: Seq<char>)
    requires
        mnt.len() > 0,
        forall|j: int| 0 <= j < dev.len() ==> dev[j] != ' ' && dev[j] != '\n' && dev[j] != '\r',
        forall|j: int| 0 <= j < mnt.len() ==> mnt[j] != ' ' && mnt[j] != '\n' && mnt[j] != '\r',
        forall|j: int| 0 <= j < rest.len() ==> rest[j] != '\n' && rest[j] != '\r',
        rest.len() == 0 || rest[0] == ' ',
    ensures
        shown_mounts(lines_of(dev + seq![' '] + mnt + rest + seq!['\n'])) == if mnt != "/"@ && (
            has_prefix(dev, "/dev/sd"@) || has_prefix(dev, "/dev/nvme"@) || has_prefix(dev, "/dev/mmcblk"@)
                || has_prefix(dev, "/dev/vd"@) || has_prefix(dev, "/dev/hd"@) || has_prefix(dev, "/dev/mapper/"@)
                || has_prefix(mnt, "/media/"@) || has_prefix(mnt, "/mnt/"@) || has_prefix(mnt, "/run/media/"@)) {
            seq![mnt]
        } else {
            Seq::<Seq<char>>::empty()
        },
{
    let l = dev + seq![' '] + mnt + rest;
    let text = l + seq!['\n'];
    assert forall|j: int| 0 <= j < text.len() - 1 implies text[j] != '\n' by {
        if j < dev.len() {
            assert(text[j] == dev[j]);
        } else if j == dev.len() {
        } else if j < dev.len() + 1 + mnt.len() {
            assert(text[j] == mnt[j - dev.len() - 1]);
        } else {
            assert(text[j] == rest[j - dev.len() - 1 - mnt.len()]);
        }
    }
    lemma_first_at(text, '\n', text.len() - 1);
    assert(text.take(text.len() - 1) =~= l);
    assert(text.skip(text.len() as int) =~= Seq::<char>::empty());
    if l.len() > 0 {
        assert(l.last() != '\r') by {
            if rest.len() > 0 {
                assert(l.last() == rest[rest.len() - 1]);
            } else {
                assert(l.last() == mnt[mnt.len() - 1]);
            }
        }
    }
    assert(lines_of(text) == seq![l] + lines_of(Seq::<char>::empty()));
    assert(lines_of(text) =~= seq![l]);
    assert forall|j: int| 0 <= j < dev.len() implies l[j] != ' ' by {
        assert(l[j] == dev[j]);
    }
    lemma_first_at(l, ' ', dev.len() as int);
    assert(l.take(dev.len() as int) =~= dev);
    let r = l.skip(dev.len() as int + 1);
    assert(r =~= mnt + rest);
    if rest.len() > 0 {
        assert forall|j: int| 0 <= j < mnt.len() implies r[j] != ' ' by {
            assert(r[j] == mnt[j]);
        }
        lemma_first_at(r, ' ', mnt.len() as int);
        assert(r.take(mnt.len() as int) =~= mnt);
    } else {
        assert(r =~= mnt);
        lemma_first_none(r, ' ');
    }
    assert(device_field(l) == dev);
    assert(mount_field(l) == mnt);
    assert(seq![l].drop_last() =~= Seq::<Seq<char>>::empty());
    assert(shown_mounts(Seq::<Seq<char>>::empty()) == Seq::<Seq<char>>::empty());
    assert(shown_mounts(seq![l]) == if mount_shown(l) { seq![mount_field(l)] } else { Seq::<Seq<char>>::empty() });
    assert(lines_of(text) == seq![l]);
}

proof fn lemma_lines_concat(a: Seq<char>, b: Seq<char>)
    requires
        a.len() > 0 ==> a.last() == '\n',
    ensures
        lines_of(a + b) == lines_of(a) + lines_of(b),
    decreases a.len(),
{
    if a.len() == 0 {
        assert(a + b =~= b);
        assert(lines_of(a) =~= Seq::<Seq<char>>::empty());
        assert(lines_of(a) + lines_of(b) =~= lines_of(b));
    } else {
        let ab = a + b;
        lemma_first_index(a, '\n');
        let k = first_index(a, '\n');
        assert(a[a.len() - 1] == '\n');
        assert(k >= 0);
        assert forall|j: int| 0 <= j < k implies ab[j] != '\n' by {
            assert(ab[j] == a[j]);
        }
        lemma_first_at(ab, '\n', k);
        assert(ab.take(k) =~= a.take(k));
        let rest = a.skip(k + 1);
        assert(ab.skip(k + 1) =~= rest + b);
        if rest.len() > 0 {
            assert(rest.last() == a.last());
        }
        lemma_lines_concat(rest, b);
        assert(lines_of(ab) =~= lines_of(a) + lines_of(b));
    }
}

proof fn lemma_shown_concat(x: Seq<Seq<char>>, y: Seq<Seq<char>>)
    ensures
        shown_mounts(x + y) == shown_mounts(x) + shown_mounts(y),
    decreases y.len(),
{
    if y.len() == 0 {
        assert(x + y =~= x);
        assert(shown_mounts(x) + shown_mounts(y) =~= shown_mounts(x));
    } else {
        lemma_shown_concat(x, y.drop_last());
        assert((x + y).drop_last() =~= x + y.drop_last());
        assert((x + y).last() == y.last());
        if mount_shown(y.last()) {
            assert(shown_mounts(x) + shown_mounts(y) =~= (shown_mounts(x) + shown_mounts(y.drop_last())).push(mount_field(y.last())));
        } else {
            assert(shown_mounts(x) + shown_mounts(y) =~= shown_mounts(x) + shown_mounts(y.drop_last()));
        }
    }
}

/// Law: the candidates of a mounts text made of complete lines followed
/// by more text are those of the lines followed by those of the rest:
/// every line is read, in order, on its own.
pub proof fn law_mount_lines_in_order(a: Seq<char>, b: Seq<char>)
    requires
        a.len() > 0 ==> a.last() == '\n',
    ensures
        shown_mounts(lines_of(a + b)) == shown_mounts(lines_of(a)) + shown_mounts(lines_of(b)),
{
    lemma_lines_concat(a, b);
    lemma_shown_concat(lines_of(a), lines_of(b));
}

} // verus!
