//! Discovery of the one disk to install onto.
//!
//! The caller reads the block-device tree and the mount table and hands their contents over;
//! the choice is made here.
use vstd::prelude::*;
use vstd::string::*;
use crate::command::InstallError;
use crate::text::{cat, has_prefix, is_digit, is_whitespace, is_ws, join_path, lemma_lex_order,
    lemma_word_end_bounds, lemma_ws_end_bounds, lex_less, lex_lt, lines_of, occurs_at,
    occurs_at_index, owned, path_join, skip_word, skip_ws, split_lines, starts_with, trim,
    trim_bounds, trimmed, word_end, ws_end};

verus! {

/// A disk that can take the installation.
#[derive(Debug, Clone, PartialEq, Eq)]
pub struct Disk {
    pub name: String,
    pub dev_path: String,
    pub size_bytes: u64,
    pub model: Option<String>,
}

pub struct DiskView {
    pub name: Seq<char>,
    pub dev_path: Seq<char>,
    pub size_bytes: u64,
    pub model: Option<Seq<char>>,
}

impl View for Disk {
    type V = DiskView;

    open spec fn view(&self) -> DiskView {
        DiskView {
            name: self.name@,
            dev_path: self.dev_path@,
            size_bytes: self.size_bytes,
            model: crate::command::opt_view(self.model),
        }
    }
}

/// What the block-device tree says of one entry: its name, whether it has a backing device,
/// and the raw contents of its attribute files (`None` where a file could not be read).
#[derive(Debug)]
pub struct BlockDevice {
    pub name: String,
    pub has_device: bool,
    pub removable: Option<String>,
    pub read_only: Option<String>,
    pub size: Option<String>,
    pub model: Option<String>,
}

/// Where the scanner looks, and the smallest disk it accepts.
#[derive(Debug, Clone)]
pub struct DiskScanner {
    sys_root: String,
    proc_root: String,
    min_size_bytes: u64,
}

/// Names of real disks (`sd*`, `vd*`, `nvme*`), never loop, RAM, optical, floppy, mapper or
/// RAID devices.
pub open spec fn candidate_name(n: Seq<char>) -> bool {
    !has_prefix(n, "loop"@) && !has_prefix(n, "ram"@) && !has_prefix(n, "sr"@) && !has_prefix(
        n,
        "fd"@,
    ) && !has_prefix(n, "dm-"@) && !has_prefix(n, "md"@) && (has_prefix(n, "sd"@) || has_prefix(
        n,
        "vd"@,
    ) || has_prefix(n, "nvme"@))
}

pub fn is_candidate_name(name: &str) -> (r: bool)
    ensures
        r == candidate_name(name@),
{
    if starts_with(name, "loop") || starts_with(name, "ram") || starts_with(name, "sr")
        || starts_with(name, "fd") || starts_with(name, "dm-") || starts_with(name, "md") {
        return false;
    }
    starts_with(name, "sd") || starts_with(name, "vd") || starts_with(name, "nvme")
}

pub open spec fn all_digits(s: Seq<char>) -> bool {
    forall|k: int| 0 <= k < s.len() ==> is_digit(#[trigger] s[k])
}

pub open spec fn digits_value(s: Seq<char>) -> nat
    decreases s.len(),
{
    if s.len() == 0 {
        0
    } else {
        digits_value(s.drop_last()) * 10 + ((s.last() as u32 - '0' as u32) as nat)
    }
}

/// The number an attribute file holds: decimal digits, an optional `+` before them, and
/// whitespace around them.
pub open spec fn attr_number(s: Seq<char>) -> Option<nat> {
    let t = trim(s);
    let u = if t.len() > 0 && t[0] == '+' {
        t.drop_first()
    } else {
        t
    };
    if u.len() > 0 && all_digits(u) {
        Some(digits_value(u))
    } else {
        None
    }
}

/// The attribute's value when it is a number that fits in 64 bits.
pub open spec fn attr_u64(s: Option<String>) -> Option<u64> {
    match s {
        Some(c) => match attr_number(c@) {
            Some(v) => if v <= u64::MAX {
                Some(v as u64)
            } else {
                None
            },
            None => None,
        },
        None => None,
    }
}

proof fn lemma_digits_prefix(s: Seq<char>, i: int, j: int)
    requires
        0 <= i <= j <= s.len(),
        all_digits(s),
    ensures
        digits_value(s.subrange(0, i)) <= digits_value(s.subrange(0, j)),
    decreases j - i,
{
    if i < j {
        lemma_digits_prefix(s, i, j - 1);
        assert(s.subrange(0, j).drop_last() =~= s.subrange(0, j - 1));
        assert(is_digit(s[j - 1]));
    }
}

/// The value of an attribute file's contents, when they are a number that fits in 64 bits.
pub fn parse_attr_u64(s: &str) -> (r: Option<u64>)
    ensures
        r == (match attr_number(s@) {
            Some(v) => if v <= u64::MAX {
                Some(v as u64)
            } else {
                None
            },
            None => None,
        }),
{
    let (a, b) = trim_bounds(s);
    let t = s.substring_char(a, b);
    let tn = b - a;
    let mut i: usize = 0;
    if tn > 0 && t.get_char(0) == '+' {
        i = 1;
    }
    let ghost u = if tn > 0 && t@[0] == '+' {
        t@.drop_first()
    } else {
        t@
    };
    proof {
        assert(u =~= t@.subrange(i as int, tn as int));
    }
    proof {
        assert(attr_number(s@) == if u.len() > 0 && all_digits(u) {
            Some(digits_value(u))
        } else {
            None
        });
    }
    if i >= tn {
        return None;
    }
    let start = i;
    let mut v: u64 = 0;
    while i < tn
        invariant
            t@ == trim(s@),
            attr_number(s@) == if u.len() > 0 && all_digits(u) {
                Some(digits_value(u))
            } else {
                None
            },
            tn == t@.len(),
            start <= i <= tn,
            u == t@.subrange(start as int, tn as int),
            all_digits(u.subrange(0, i - start)),
            v as nat == digits_value(u.subrange(0, i - start)),
        decreases tn - i,
    {
        let c = t.get_char(i);
        if !('0' <= c && c <= '9') {
            proof {
                assert(u[i - start] == c);
                assert(!is_digit(u[i - start]));
            }
            return None;
        }
        let d = (c as u32 - '0' as u32) as u64;
        proof {
            assert(u.subrange(0, i + 1 - start).drop_last() =~= u.subrange(0, i - start));
            assert(u[i - start] == c);
        }
        if v > (u64::MAX - d) / 10 {
            proof {
                assert(digits_value(u.subrange(0, i + 1 - start)) == v * 10 + d);
                assert(v * 10 + d > u64::MAX) by (nonlinear_arith)
                    requires
                        v > (u64::MAX - d) / 10,
                        d <= 9,
                ;
                if all_digits(u) {
                    lemma_digits_prefix(u, i + 1 - start, u.len() as int);
                    assert(u.subrange(0, u.len() as int) =~= u);
                }
            }
            return None;
        }
        v = v * 10 + d;
        i = i + 1;
    }
    proof {
        assert(u.subrange(0, tn - start) =~= u);
    }
    Some(v)
}

/// First index at or after `i` where `p` occurs in `s`, or -1.
pub open spec fn find_from(s: Seq<char>, p: Seq<char>, i: int) -> int
    decreases s.len() + 1 - i,
{
    if i < 0 || i > s.len() || i + p.len() > s.len() {
        -1
    } else if occurs_at(s, p, i) {
        i
    } else {
        find_from(s, p, i + 1)
    }
}

/// The mount source of a mount-table line: the second word after the ` - ` separator
/// (the first is the file-system type).
pub open spec fn mount_source(line: Seq<char>) -> Option<Seq<char>> {
    let k = find_from(line, " - "@, 0);
    if k < 0 {
        None
    } else {
        let f = line.subrange(k + " - "@.len(), line.len() as int);
        let a = ws_end(f, 0);
        let b = word_end(f, a);
        let c = ws_end(f, b);
        let d = word_end(f, c);
        if c >= f.len() {
            None
        } else {
            Some(f.subrange(c, d))
        }
    }
}

/// Some line of the mount table mounts `/dev/<name>` or a device whose path begins with it
/// (its partitions).
pub open spec fn is_mounted(mountinfo: Seq<char>, name: Seq<char>) -> bool {
    exists|i: int|
        0 <= i < lines_of(mountinfo).len() && #[trigger] mounts_device(lines_of(mountinfo)[i], name)
}

/// The line mounts `/dev/<name>` or a device whose path begins with it.
pub open spec fn mounts_device(line: Seq<char>, name: Seq<char>) -> bool {
    match mount_source(line) {
        Some(src) => has_prefix(src, "/dev/"@ + name),
        None => false,
    }
}

proof fn lemma_find_from(s: Seq<char>, p: Seq<char>, i: int)
    requires
        0 <= i,
    ensures
        find_from(s, p, i) == -1 || (i <= find_from(s, p, i) && find_from(s, p, i) + p.len()
            <= s.len()),
    decreases s.len() + 1 - i,
{
    if i <= s.len() && i + p.len() <= s.len() && !occurs_at(s, p, i) {
        lemma_find_from(s, p, i + 1);
    }
}

/// Where `p` first occurs in `s`.
fn find_separator(s: &str, p: &str) -> (r: Option<usize>)
    ensures
        r is None ==> find_from(s@, p@, 0) == -1,
        r matches Some(k) ==> find_from(s@, p@, 0) == k && k + p@.len() <= s@.len(),
{
    let n = s.unicode_len();
    let m = p.unicode_len();
    if m == 0 {
        assert(s@.subrange(0, 0) =~= p@);
        assert(occurs_at(s@, p@, 0));
        return Some(0);
    }
    let mut k: usize = 0;
    while k < n && m <= n - k
        invariant
            n == s@.len(),
            m == p@.len(),
            find_from(s@, p@, 0) == find_from(s@, p@, k as int),
        decreases n - k,
    {
        if occurs_at_index(s, p, k) {
            return Some(k);
        }
        k = k + 1;
    }
    None
}

/// The mount source named by one line of the mount table.
pub fn mount_source_of(line: &str) -> (r: Option<String>)
    ensures
        r matches Some(x) ==> mount_source(line@) == Some(x@),
        r is None ==> mount_source(line@) is None,
{
    let n = line.unicode_len();
    let sep = " - ";
    proof {
        reveal_strlit(" - ");
    }
    let k = match find_separator(line, sep) {
        Some(k) => k,
        None => {
            return None;
        },
    };
    let f = line.substring_char(k + 3, n);
    let a = skip_ws(f, 0);
    let b = skip_word(f, a);
    let c = skip_ws(f, b);
    let d = skip_word(f, c);
    proof {
        lemma_ws_end_bounds(f@, b as int);
        lemma_word_end_bounds(f@, c as int);
    }
    if c >= f.unicode_len() {
        None
    } else {
        Some(String::from_str(f.substring_char(c, d)))
    }
}

/// Whether the mount table mounts the disk `name` or one of its partitions.
pub fn is_device_mounted(mountinfo: &str, name: &str) -> (r: bool)
    ensures
        r == is_mounted(mountinfo@, name@),
{
    let lines = split_lines(mountinfo);
    let needle = cat("/dev/", name);
    let mut i: usize = 0;
    while i < lines.len()
        invariant
            lines@.len() == lines_of(mountinfo@).len(),
            forall|k: int| 0 <= k < lines@.len() ==> #[trigger] lines@[k]@ == lines_of(mountinfo@)[k],
            needle@ == "/dev/"@ + name@,
            i <= lines@.len(),
            forall|k: int| 0 <= k < i ==> !#[trigger] mounts_device(lines_of(mountinfo@)[k], name@),
        decreases lines@.len() - i,
    {
        let src = mount_source_of(lines[i].as_str());
        match src {
            Some(x) => {
                if starts_with(x.as_str(), needle.as_str()) {
                    assert(mounts_device(lines_of(mountinfo@)[i as int], name@));
                    return true;
                }
            },
            None => {},
        }
        i = i + 1;
    }
    false
}

pub open spec fn attr_is_zero(a: Option<String>) -> bool {
    attr_u64(a) == Some(0u64)
}

/// Size in bytes: the sector count times 512, saturating at the largest `u64`.
pub open spec fn size_of(e: BlockDevice) -> Option<u64> {
    match attr_u64(e.size) {
        Some(v) => Some(
            if v * 512 > u64::MAX {
                u64::MAX
            } else {
                (v * 512) as u64
            },
        ),
        None => None,
    }
}

/// A device that can take the installation: a real-disk name, a backing device, not removable,
/// not read-only (both attributes readable and zero), a readable size of at least `min` bytes,
/// and neither it nor a partition of it mounted.
#[verifier::opaque]
pub open spec fn is_eligible(e: BlockDevice, mountinfo: Seq<char>, min: u64) -> bool {
    &&& candidate_name(e.name@)
    &&& e.has_device
    &&& attr_is_zero(e.removable)
    &&& attr_is_zero(e.read_only)
    &&& size_of(e) is Some
    &&& size_of(e)->Some_0 >= min
    &&& !is_mounted(mountinfo, e.name@)
}

#[verifier::opaque]
pub open spec fn disk_of(e: BlockDevice) -> DiskView {
    DiskView {
        name: e.name@,
        dev_path: "/dev/"@ + e.name@,
        size_bytes: size_of(e)->Some_0,
        model: match e.model {
            Some(m) => Some(trim(m@)),
            None => None,
        },
    }
}

pub open spec fn eligible_count(v: Seq<BlockDevice>, mountinfo: Seq<char>, min: u64) -> nat
    decreases v.len(),
{
    if v.len() == 0 {
        0
    } else {
        eligible_count(v.drop_last(), mountinfo, min) + (if is_eligible(
            v.last(),
            mountinfo,
            min,
        ) {
            1nat
        } else {
            0nat
        })
    }
}

/// The disks found, in name order: each is an eligible device of `entries`, and each eligible
/// device is among them.
pub open spec fn is_scan_result(
    r: Seq<Disk>,
    entries: Seq<BlockDevice>,
    mountinfo: Seq<char>,
    min: u64,
) -> bool {
    &&& r.len() == eligible_count(entries, mountinfo, min)
    &&& forall|i: int, j: int| 0 <= i < j < r.len() ==> !lex_lt(r[j].name@, r[i].name@)
    &&& all_found(r, entries, mountinfo, min)
    &&& none_missed(r, entries, mountinfo, min)
}

/// Each disk of `r` is an eligible device of `entries`.
pub open spec fn all_found(
    r: Seq<Disk>,
    entries: Seq<BlockDevice>,
    mountinfo: Seq<char>,
    min: u64,
) -> bool {
    forall|i: int|
        0 <= i < r.len() ==> exists|j: int|
            0 <= j < entries.len() && is_eligible(entries[j], mountinfo, min) && #[trigger] r[i]@
                == disk_of(entries[j])
}

/// Each eligible device of `entries` is a disk of `r`.
pub open spec fn none_missed(
    r: Seq<Disk>,
    entries: Seq<BlockDevice>,
    mountinfo: Seq<char>,
    min: u64,
) -> bool {
    forall|j: int|
        0 <= j < entries.len() && is_eligible(#[trigger] entries[j], mountinfo, min) ==> exists|
            i: int,
        | 0 <= i < r.len() && r[i]@ == disk_of(entries[j])
}

fn attr_zero(a: &Option<String>) -> (r: bool)
    ensures
        r == attr_is_zero(*a),
{
    match a {
        Some(c) => match parse_attr_u64(c.as_str()) {
            Some(v) => v == 0,
            None => false,
        },
        None => false,
    }
}

/// The disk that an eligible device describes, when it is eligible.
fn check_device(e: &BlockDevice, mountinfo: &str, min: u64) -> (r: Option<Disk>)
    ensures
        r is Some <==> is_eligible(*e, mountinfo@, min),
        r matches Some(d) ==> d@ == disk_of(*e),
{
    reveal(is_eligible);
    reveal(disk_of);
    if !is_candidate_name(e.name.as_str()) || !e.has_device {
        return None;
    }
    if !attr_zero(&e.removable) || !attr_zero(&e.read_only) {
        return None;
    }
    let sectors = match &e.size {
        Some(c) => parse_attr_u64(c.as_str()),
        None => None,
    };
    let sectors = match sectors {
        Some(v) => v,
        None => {
            return None;
        },
    };
    let size_bytes = if sectors > u64::MAX / 512 {
        u64::MAX
    } else {
        sectors * 512
    };
    proof {
        assert(size_of(*e) == Some(size_bytes)) by (nonlinear_arith)
            requires
                size_of(*e) == Some(
                    if sectors * 512 > u64::MAX {
                        u64::MAX
                    } else {
                        (sectors * 512) as u64
                    },
                ),
                size_bytes == if sectors > u64::MAX / 512 {
                    u64::MAX
                } else {
                    (sectors * 512) as u64
                },
        ;
    }
    if size_bytes < min {
        return None;
    }
    if is_device_mounted(mountinfo, e.name.as_str()) {
        return None;
    }
    let model = match &e.model {
        Some(m) => Some(trimmed(m.as_str())),
        None => None,
    };
    Some(
        Disk {
            name: owned(e.name.as_str()),
            dev_path: cat("/dev/", e.name.as_str()),
            size_bytes,
            model,
        },
    )
}

proof fn lemma_found_are_candidates(
    r: Seq<Disk>,
    entries: Seq<BlockDevice>,
    m: Seq<char>,
    min: u64,
)
    requires
        all_found(r, entries, m, min),
    ensures
        forall|i: int| 0 <= i < r.len() ==> candidate_name(#[trigger] r[i].name@),
{
    reveal(is_eligible);
    reveal(disk_of);
    assert forall|i: int| 0 <= i < r.len() implies candidate_name(#[trigger] r[i].name@) by {
        let j = choose|j: int|
            0 <= j < entries.len() && is_eligible(entries[j], m, min) && #[trigger] r[i]@ == disk_of(
                entries[j],
            );
    }
}

/// Where a disk named `name` goes in a list kept in name order: after every disk whose name
/// is not greater.
fn insert_position(r: &Vec<Disk>, name: &str) -> (p: usize)
    ensures
        p <= r@.len(),
        forall|i: int| 0 <= i < p ==> !lex_lt(name@, #[trigger] r@[i].name@),
        p < r@.len() ==> lex_lt(name@, r@[p as int].name@),
{
    let mut p: usize = 0;
    while p < r.len() && !lex_less(name, r[p].name.as_str())
        invariant
            p <= r@.len(),
            forall|i: int| 0 <= i < p ==> !lex_lt(name@, #[trigger] r@[i].name@),
        decreases r@.len() - p,
    {
        p = p + 1;
    }
    p
}

proof fn lemma_scan_skip(r: Seq<Disk>, entries: Seq<BlockDevice>, k: int, m: Seq<char>, min: u64)
    requires
        0 <= k < entries.len(),
        is_scan_result(r, entries.subrange(0, k), m, min),
        !is_eligible(entries[k], m, min),
    ensures
        is_scan_result(r, entries.subrange(0, k + 1), m, min),
{
    let pre = entries.subrange(0, k);
    let post = entries.subrange(0, k + 1);
    assert(post.drop_last() =~= pre);
    assert(post.last() == entries[k]);
    assert(eligible_count(post, m, min) == eligible_count(pre, m, min));
    assert forall|i: int| 0 <= i < r.len() implies exists|j: int|
        0 <= j < post.len() && is_eligible(post[j], m, min) && #[trigger] r[i]@ == disk_of(post[j]) by {
        let j = choose|j: int|
            0 <= j < pre.len() && is_eligible(pre[j], m, min) && #[trigger] r[i]@ == disk_of(pre[j]);
        assert(post[j] == pre[j]);
    }
    assert forall|j: int| 0 <= j < post.len() && is_eligible(#[trigger] post[j], m, min) implies exists|
        i: int,
    | 0 <= i < r.len() && r[i]@ == disk_of(post[j]) by {
        assert(post[j] == pre[j]);
    }
}

proof fn lemma_insert_sorted(old_r: Seq<Disk>, p: int, d: Disk)
    requires
        forall|i: int, j: int| 0 <= i < j < old_r.len() ==> !lex_lt(old_r[j].name@, old_r[i].name@),
        0 <= p <= old_r.len(),
        forall|i: int| 0 <= i < p ==> !lex_lt(d.name@, #[trigger] old_r[i].name@),
        p < old_r.len() ==> lex_lt(d.name@, old_r[p].name@),
    ensures
        forall|i: int, j: int|
            0 <= i < j < old_r.insert(p, d).len() ==> !lex_lt(
                old_r.insert(p, d)[j].name@,
                old_r.insert(p, d)[i].name@,
            ),
{
    let r = old_r.insert(p, d);
    assert forall|i: int, j: int| 0 <= i < j < r.len() implies !lex_lt(r[j].name@, r[i].name@) by {
        if j == p {
            assert(r[j] == d);
            assert(r[i] == old_r[i]);
            lemma_lex_order(d.name@, old_r[i].name@, d.name@);
        } else if i == p {
            assert(r[i] == d);
            assert(r[j] == old_r[j - 1]);
            lemma_lex_order(d.name@, old_r[p].name@, old_r[j - 1].name@);
            lemma_lex_order(old_r[j - 1].name@, d.name@, old_r[p].name@);
            lemma_lex_order(old_r[j - 1].name@, old_r[p].name@, d.name@);
            if j - 1 > p {
                assert(!lex_lt(old_r[j - 1].name@, old_r[p].name@));
            }
        } else {
            let oi = if i < p {
                i
            } else {
                i - 1
            };
            let oj = if j < p {
                j
            } else {
                j - 1
            };
            assert(r[i] == old_r[oi] && r[j] == old_r[oj]);
            assert(oi < oj);
        }
    }
}

proof fn lemma_insert_sound(
    old_r: Seq<Disk>,
    p: int,
    d: Disk,
    entries: Seq<BlockDevice>,
    k: int,
    m: Seq<char>,
    min: u64,
)
    requires
        0 <= k < entries.len(),
        is_scan_result(old_r, entries.subrange(0, k), m, min),
        0 <= p <= old_r.len(),
        is_eligible(entries[k], m, min),
        d@ == disk_of(entries[k]),
    ensures
        all_found(old_r.insert(p, d), entries.subrange(0, k + 1), m, min),
{
    let pre = entries.subrange(0, k);
    let post = entries.subrange(0, k + 1);
    let r = old_r.insert(p, d);
    assert forall|i: int| 0 <= i < r.len() implies exists|j: int|
        0 <= j < post.len() && is_eligible(post[j], m, min) && #[trigger] r[i]@ == disk_of(post[j]) by {
        if i == p {
            assert(post[k] == entries[k]);
        } else {
            let oi = if i < p {
                i
            } else {
                i - 1
            };
            assert(r[i] == old_r[oi]);
            let j = choose|j: int|
                0 <= j < pre.len() && is_eligible(pre[j], m, min) && #[trigger] old_r[oi]@
                    == disk_of(pre[j]);
            assert(post[j] == pre[j]);
        }
    }
}

proof fn lemma_insert_complete(
    old_r: Seq<Disk>,
    p: int,
    d: Disk,
    entries: Seq<BlockDevice>,
    k: int,
    m: Seq<char>,
    min: u64,
)
    requires
        0 <= k < entries.len(),
        is_scan_result(old_r, entries.subrange(0, k), m, min),
        0 <= p <= old_r.len(),
        d@ == disk_of(entries[k]),
    ensures
        none_missed(old_r.insert(p, d), entries.subrange(0, k + 1), m, min),
{
    let pre = entries.subrange(0, k);
    let post = entries.subrange(0, k + 1);
    let r = old_r.insert(p, d);
    assert forall|j: int| 0 <= j < post.len() && is_eligible(#[trigger] post[j], m, min) implies exists|
        i: int,
    | 0 <= i < r.len() && r[i]@ == disk_of(post[j]) by {
        if j == k {
            assert(r[p]@ == disk_of(post[j]));
        } else {
            assert(post[j] == pre[j]);
            let i = choose|i: int| 0 <= i < old_r.len() && old_r[i]@ == disk_of(pre[j]);
            if i < p {
                assert(r[i] == old_r[i]);
            } else {
                assert(r[i + 1] == old_r[i]);
            }
        }
    }
}

#[verifier::rlimit(40)]
proof fn lemma_scan_insert(
    old_r: Seq<Disk>,
    p: int,
    d: Disk,
    entries: Seq<BlockDevice>,
    k: int,
    m: Seq<char>,
    min: u64,
)
    requires
        0 <= k < entries.len(),
        is_scan_result(old_r, entries.subrange(0, k), m, min),
        0 <= p <= old_r.len(),
        forall|i: int| 0 <= i < p ==> !lex_lt(d.name@, #[trigger] old_r[i].name@),
        p < old_r.len() ==> lex_lt(d.name@, old_r[p].name@),
        is_eligible(entries[k], m, min),
        d@ == disk_of(entries[k]),
    ensures
        is_scan_result(old_r.insert(p, d), entries.subrange(0, k + 1), m, min),
{
    let post = entries.subrange(0, k + 1);
    assert(post.drop_last() =~= entries.subrange(0, k));
    assert(post.last() == entries[k]);
    assert(eligible_count(post, m, min) == eligible_count(entries.subrange(0, k), m, min) + 1);
    assert(old_r.insert(p, d).len() == old_r.len() + 1);
    lemma_insert_sorted(old_r, p, d);
    lemma_insert_sound(old_r, p, d, entries, k, m, min);
    lemma_insert_complete(old_r, p, d, entries, k, m, min);
}

impl DiskScanner {
    pub closed spec fn spec_min_size(&self) -> u64 {
        self.min_size_bytes
    }

    pub closed spec fn spec_sys_root(&self) -> Seq<char> {
        self.sys_root@
    }

    pub closed spec fn spec_proc_root(&self) -> Seq<char> {
        self.proc_root@
    }

    /// A scanner over the given block-device and process trees, accepting disks of at least
    /// `min_size_bytes`.
    pub fn new(sys_root: &str, proc_root: &str, min_size_bytes: u64) -> (r: DiskScanner)
        ensures
            r.spec_sys_root() == sys_root@,
            r.spec_proc_root() == proc_root@,
            r.spec_min_size() == min_size_bytes,
    {
        DiskScanner { sys_root: owned(sys_root), proc_root: owned(proc_root), min_size_bytes }
    }

    /// The live system's trees, and disks of at least 8 GiB.
    pub fn new_default() -> (r: DiskScanner)
        ensures
            r.spec_sys_root() == "/sys"@,
            r.spec_proc_root() == "/proc"@,
            r.spec_min_size() == 8 * 1024 * 1024 * 1024,
    {
        DiskScanner::new("/sys", "/proc", 8 * 1024 * 1024 * 1024)
    }

    pub fn min_size_bytes(&self) -> (r: u64)
        ensures
            r == self.spec_min_size(),
    {
        self.min_size_bytes
    }

    /// The directory that lists the block devices.
    pub fn block_dir(&self) -> (r: String)
        ensures
            r@ == path_join(self.spec_sys_root(), "block"@),
    {
        join_path(self.sys_root.as_str(), "block")
    }

    /// The mount table of the running process.
    pub fn mountinfo_path(&self) -> (r: String)
        ensures
            r@ == path_join(self.spec_proc_root(), "self/mountinfo"@),
    {
        join_path(self.proc_root.as_str(), "self/mountinfo")
    }

    /// The eligible disks among `entries`, given the mount table's contents, in name order.
    pub fn eligible_disks(&self, entries: &Vec<BlockDevice>, mountinfo: &str) -> (r: Vec<Disk>)
        ensures
            is_scan_result(r@, entries@, mountinfo@, self.spec_min_size()),
            forall|i: int| 0 <= i < r@.len() ==> candidate_name(#[trigger] r@[i].name@),
    {
        let min = self.min_size_bytes;
        let mut r: Vec<Disk> = Vec::new();
        let mut k: usize = 0;
        while k < entries.len()
            invariant
                min == self.spec_min_size(),
                k <= entries@.len(),
                is_scan_result(r@, entries@.subrange(0, k as int), mountinfo@, min),
            decreases entries@.len() - k,
        {
            match check_device(&entries[k], mountinfo, min) {
                Some(d) => {
                    let p = insert_position(&r, d.name.as_str());
                    let ghost old_r = r@;
                    r.insert(p, d);
                    proof {
                        lemma_scan_insert(old_r, p as int, r@[p as int], entries@, k as int, mountinfo@, min);
                    }
                },
                None => {
                    proof {
                        lemma_scan_skip(r@, entries@, k as int, mountinfo@, min);
                    }
                },
            }
            k = k + 1;
        }
        proof {
            assert(entries@.subrange(0, k as int) =~= entries@);
            lemma_found_are_candidates(r@, entries@, mountinfo@, min);
        }
        r
    }
    /// The one eligible disk. No eligible disk, or more than one, is an error; the latter names
    /// every candidate's device path, in name order.
    pub fn choose_single_target_disk(&self, entries: &Vec<BlockDevice>, mountinfo: &str) -> (r:
        Result<Disk, InstallError>)
        ensures
            (eligible_count(entries@, mountinfo@, self.spec_min_size()) == 0) <==> (
            r matches Err(e) && e is NoEligibleDisk),
            (eligible_count(entries@, mountinfo@, self.spec_min_size()) == 1) <==> r is Ok,
            (eligible_count(entries@, mountinfo@, self.spec_min_size()) >= 2) <==> (
            r matches Err(e) && e is AmbiguousTarget),
            r matches Ok(d) ==> exists|j: int|
                0 <= j < entries@.len() && is_eligible(entries@[j], mountinfo@, self.spec_min_size())
                    && #[trigger] d@ == disk_of(entries@[j]),
            r matches Err(InstallError::AmbiguousTarget(paths)) ==> paths@.len() == eligible_count(
                entries@,
                mountinfo@,
                self.spec_min_size(),
            ) && forall|j: int|
                0 <= j < entries@.len() && is_eligible(
                    #[trigger] entries@[j],
                    mountinfo@,
                    self.spec_min_size(),
                ) ==> exists|i: int| 0 <= i < paths@.len() && paths@[i]@ == disk_of(entries@[j]).dev_path,
    {
        let mut v = self.eligible_disks(entries, mountinfo);
        if v.len() == 0 {
            return Err(InstallError::NoEligibleDisk);
        }
        if v.len() == 1 {
            let d = v.pop().unwrap();
            proof {
                assert(d == v@.push(d)[0]);
            }
            return Ok(d);
        }
        let ghost disks = v@;
        let mut paths: Vec<String> = Vec::new();
        let mut i: usize = 0;
        while i < v.len()
            invariant
                v@ == disks,
                i <= v@.len(),
                paths@.len() == i,
                forall|k: int| 0 <= k < i ==> #[trigger] paths@[k]@ == disks[k].dev_path@,
            decreases v@.len() - i,
        {
            paths.push(owned(v[i].dev_path.as_str()));
            i = i + 1;
        }
        proof {
            assert forall|j: int|
                0 <= j < entries@.len() && is_eligible(
                    #[trigger] entries@[j],
                    mountinfo@,
                    self.spec_min_size(),
                ) implies exists|k: int| 0 <= k < paths@.len() && paths@[k]@ == disk_of(entries@[j]).dev_path by {
                let k = choose|k: int| 0 <= k < disks.len() && disks[k]@ == disk_of(entries@[j]);
                assert(paths@[k]@ == disks[k].dev_path@);
            }
        }
        Err(InstallError::AmbiguousTarget(paths))
    }
}

/// Names of devices that are never install targets: loop, RAM, optical, floppy, mapper and
/// RAID devices.
pub open spec fn virtual_name(n: Seq<char>) -> bool {
    has_prefix(n, "loop"@) || has_prefix(n, "ram"@) || has_prefix(n, "sr"@) || has_prefix(n, "fd"@)
        || has_prefix(n, "dm-"@) || has_prefix(n, "md"@)
}

/// A scan reports no virtual device, and only devices that the scanned tree lists.
pub proof fn lemma_scan_reports_only_listed_real_disks(
    r: Seq<Disk>,
    entries: Seq<BlockDevice>,
    mountinfo: Seq<char>,
    min: u64,
)
    requires
        is_scan_result(r, entries, mountinfo, min),
    ensures
        forall|i: int| 0 <= i < r.len() ==> !virtual_name(#[trigger] r[i].name@),
        forall|i: int|
            0 <= i < r.len() ==> exists|j: int|
                0 <= j < entries.len() && #[trigger] r[i].name@ == entries[j].name@,
{
    reveal(is_eligible);
    reveal(disk_of);
    assert forall|i: int| 0 <= i < r.len() implies !virtual_name(#[trigger] r[i].name@) && exists|
        j: int,
    | 0 <= j < entries.len() && #[trigger] r[i].name@ == entries[j].name@ by {
        let j = choose|j: int|
            0 <= j < entries.len() && is_eligible(entries[j], mountinfo, min) && #[trigger] r[i]@
                == disk_of(entries[j]);
        assert(r[i]@.name == r[i].name@);
    }
}

/// The names of the entries are distinct, as in a directory listing.
pub open spec fn distinct_names(entries: Seq<BlockDevice>) -> bool {
    forall|i: int, j: int|
        0 <= i < entries.len() && 0 <= j < entries.len() && #[trigger] entries[i].name@
            == #[trigger] entries[j].name@ ==> i == j
}

/// A scan of a listing with distinct names reports no removable device: no disk it reports
/// bears the name of an entry that is removable (or whose removable flag is unreadable).
pub proof fn lemma_scan_excludes_removable(
    r: Seq<Disk>,
    entries: Seq<BlockDevice>,
    mountinfo: Seq<char>,
    min: u64,
    j: int,
)
    requires
        is_scan_result(r, entries, mountinfo, min),
        distinct_names(entries),
        0 <= j < entries.len(),
        attr_u64(entries[j].removable) != Some(0u64),
    ensures
        forall|i: int| 0 <= i < r.len() ==> #[trigger] r[i].name@ != entries[j].name@,
{
    reveal(is_eligible);
    reveal(disk_of);
    assert forall|i: int| 0 <= i < r.len() implies #[trigger] r[i].name@ != entries[j].name@ by {
        let k = choose|k: int|
            0 <= k < entries.len() && is_eligible(entries[k], mountinfo, min) && #[trigger] r[i]@
                == disk_of(entries[k]);
        assert(r[i]@.name == r[i].name@);
        if r[i].name@ == entries[j].name@ {
            assert(entries[k].name@ == entries[j].name@);
        }
    }
}

/// A removable device is never eligible, whatever else holds of it.
pub proof fn lemma_removable_never_eligible(e: BlockDevice, mountinfo: Seq<char>, min: u64)
    requires
        attr_u64(e.removable) != Some(0u64),
    ensures
        !is_eligible(e, mountinfo, min),
{
    reveal(is_eligible);
}


} // verus!
