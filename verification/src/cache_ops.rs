//! Cache directory maintenance: size reporting and content deletion.
//!
//! A cache directory is described by a snapshot of its entries. Deletion is planned
//! on the snapshot: the plan names only entries below the cache root, and never the
//! active lock.

use vstd::prelude::*;
use vstd::string::StringExecFns;

use crate::cache_lock;
use crate::dirty_check;
use crate::native;
use crate::native::{copy_bytes, copy_names, name_is};
use crate::resolver;
use crate::text;
use crate::text::{i64_text, u64_text};

verus! {

/// `a / b` to the nearest whole number, halves to the even one.
pub open spec fn half_even(a: nat, b: nat) -> nat {
    let q = a / b;
    let r = a % b;
    if 2 * r > b || (2 * r == b && q % 2 == 1) {
        q + 1
    } else {
        q
    }
}

/// The distance between neighbouring double-precision numbers at `n`, for whole
/// numbers: one below 2^53, and twice as much for each further binary digit.
pub open spec fn double_step(n: nat) -> nat
    decreases n,
{
    if n < 9007199254740992 {
        1
    } else {
        2 * double_step(n / 2)
    }
}

/// The double-precision number nearest to `n`.
pub open spec fn double_near(n: nat) -> nat {
    half_even(n, double_step(n)) * double_step(n)
}

fn divide_half_even(a: u128, b: u128) -> (r: u128)
    requires
        0 < b <= 0x1_0000_0000_0000_0000,
    ensures
        r == half_even(a as nat, b as nat),
        r <= a,
{
    let q: u128 = a / b;
    let m: u128 = a % b;
    if 2 * m > b || (2 * m == b && q % 2 == 1) {
        proof {
            assert(q + 1 <= a) by (nonlinear_arith)
                requires
                    q == a / b,
                    m == a % b,
                    b > 0,
                    2 * m >= b,
            ;
        }
        q + 1
    } else {
        q
    }
}

fn step_at(n: u64) -> (r: u64)
    ensures
        r == double_step(n as nat),
        0 < r <= 2048,
    decreases n,
{
    proof {
        lemma_steps(n as nat);
    }
    if n < 9007199254740992 {
        1
    } else {
        2 * step_at(n / 2)
    }
}

/// Below 2^64 a step is one of the first twelve powers of two.
proof fn lemma_steps(n: nat)
    requires
        n < 0x1_0000_0000_0000_0000,
    ensures
        ({
            let d = double_step(n);
            d == 1 || d == 2 || d == 4 || d == 8 || d == 16 || d == 32 || d == 64 || d == 128 || d
                == 256 || d == 512 || d == 1024 || d == 2048
        }),
{
    reveal_with_fuel(double_step, 13);
}

/// Rounds a byte count to the nearest double-precision number.
fn nearest_double(n: u64) -> (r: u128)
    ensures
        r == double_near(n as nat),
        r <= 0x1_0000_0000_0000_0000,
{
    let step: u128 = step_at(n) as u128;
    let q: u128 = divide_half_even(n as u128, step);
    assert(q * step <= 0x1_0000_0000_0000_0000) by {
        lemma_rounded_bound(n as nat, step as nat);
    }
    q * step
}

proof fn lemma_rounded_bound(n: nat, step: nat)
    requires
        n < 0x1_0000_0000_0000_0000,
        step == double_step(n),
    ensures
        half_even(n, step) * step <= 0x1_0000_0000_0000_0000,
{
    lemma_steps(n);
    let k = 0x1_0000_0000_0000_0000nat / step;
    assert(k * step == 0x1_0000_0000_0000_0000nat) by (nonlinear_arith)
        requires
            k == 0x1_0000_0000_0000_0000nat / step,
            step == 1 || step == 2 || step == 4 || step == 8 || step == 16 || step == 32 || step
                == 64 || step == 128 || step == 256 || step == 512 || step == 1024 || step == 2048,
    ;
    let q = half_even(n, step);
    assert(q <= k) by (nonlinear_arith)
        requires
            k * step == 0x1_0000_0000_0000_0000nat,
            n < 0x1_0000_0000_0000_0000nat,
            step > 0,
            q <= n / step + 1,
    ;
    assert(q * step <= k * step) by (nonlinear_arith)
        requires
            q <= k,
            step > 0,
    ;
}

/// The binary unit that a count is displayed in: its name and its size.
pub open spec fn display_unit(bytes: nat) -> (Seq<char>, nat) {
    if bytes < 1048576 {
        ("KiB"@, 1024)
    } else if bytes < 1073741824 {
        ("MiB"@, 1048576)
    } else if bytes < 1099511627776 {
        ("GiB"@, 1073741824)
    } else if bytes < 1125899906842624 {
        ("TiB"@, 1099511627776)
    } else {
        ("PiB"@, 1125899906842624)
    }
}

/// A whole number of hundredths as a decimal fraction with two places.
pub open spec fn two_places(hundredths: nat) -> Seq<char> {
    text::decimal(hundredths / 100) + "."@ + text::decimal((hundredths % 100) / 10)
        + text::decimal(hundredths % 10)
}

/// A byte count for display: bytes below 1024; otherwise in the largest unit that it
/// reaches, without decimals for whole multiples and with two for other counts.
pub open spec fn bytes_text(bytes: nat) -> Seq<char> {
    let (name, size) = display_unit(bytes);
    let exact = " ("@ + text::decimal(bytes) + " Bytes)"@;
    if bytes < 1024 {
        text::decimal(bytes) + " Bytes"@
    } else if bytes % size == 0 {
        text::decimal(bytes / size) + name + exact
    } else {
        two_places(half_even(double_near(bytes) * 100, size)) + name + exact
    }
}

/// Format a byte count for screen display (IEC binary units).
pub fn format_bytes(bytes: u64) -> (r: String)
    ensures
        r@ == bytes_text(bytes as nat),
{
    let mut r = String::new();
    if bytes < 1024 {
        let mut plain = u64_text(bytes);
        plain.append(" Bytes");
        return plain;
    }
    let (name, size): (&str, u64) = if bytes < 1048576 {
        ("KiB", 1024)
    } else if bytes < 1073741824 {
        ("MiB", 1048576)
    } else if bytes < 1099511627776 {
        ("GiB", 1073741824)
    } else if bytes < 1125899906842624 {
        ("TiB", 1099511627776)
    } else {
        ("PiB", 1125899906842624)
    };
    let mut tail = " (".to_string();
    tail.append(u64_text(bytes).as_str());
    tail.append(" Bytes)");
    if bytes % size == 0 {
        r = u64_text(bytes / size);
    } else {
        let h: u128 = divide_half_even(nearest_double(bytes) * 100, size as u128);
        assert(h <= 0x1_0000_0000_0000_0000) by {
            lemma_hundredths_fit(bytes as nat, size as nat);
        }
        r = hundredths_text(h);
    }
    r.append(name);
    r.append(tail.as_str());
    r
}

proof fn lemma_hundredths_fit(bytes: nat, size: nat)
    requires
        double_near(bytes) <= 0x1_0000_0000_0000_0000,
        size >= 1024,
    ensures
        half_even(double_near(bytes) * 100, size) <= 0x1_0000_0000_0000_0000,
{
    let a = double_near(bytes) * 100;
    assert(a / size + 1 <= 0x1_0000_0000_0000_0000) by (nonlinear_arith)
        requires
            a <= 0x1_0000_0000_0000_0000 * 100,
            size >= 1024,
    ;
}

fn hundredths_text(h: u128) -> (r: String)
    requires
        h <= 0x1_0000_0000_0000_0000,
    ensures
        r@ == two_places(h as nat),
{
    let whole: u64 = (h / 100) as u64;
    let tens: u64 = ((h % 100) / 10) as u64;
    let ones: u64 = (h % 10) as u64;
    let mut r = u64_text(whole);
    r.append(".");
    r.append(u64_text(tens).as_str());
    r.append(u64_text(ones).as_str());
    r
}

/// The description of a maximum file size: what its special values mean, or the limit.
pub open spec fn max_size_text(max: int) -> Seq<char> {
    if max == -1 {
        "metadata only (−1: no File contents read)"@
    } else if max == 0 {
        "all files (0: File contents read for every size)"@
    } else if max > 0 {
        bytes_text(max as nat)
    } else {
        "invalid ("@ + text::signed_decimal(max) + ")"@
    }
}

/// Human description of `walk.max_file_size_bytes` special cases and limits.
pub fn format_max_file_size_limit(max: i64) -> (r: String)
    ensures
        r@ == max_size_text(max as int),
{
    if max == -1 {
        "metadata only (−1: no File contents read)".to_string()
    } else if max == 0 {
        "all files (0: File contents read for every size)".to_string()
    } else if max > 0 {
        format_bytes(max as u64)
    } else {
        let mut r = "invalid (".to_string();
        r.append(i64_text(max).as_str());
        r.append(")");
        r
    }
}

/// A compact size for a table cell: one decimal in KiB or MiB, bytes below 1024.
pub open spec fn compact_text(bytes: nat) -> Seq<char> {
    if bytes < 1024 {
        text::decimal(bytes) + "B"@
    } else {
        let (name, size): (Seq<char>, nat) = if bytes < 1048576 {
            ("KiB"@, 1024)
        } else {
            ("MiB"@, 1048576)
        };
        let tenths = half_even(double_near(bytes) * 10, size);
        text::decimal(tenths / 10) + "."@ + text::decimal(tenths % 10) + name
    }
}

/// Compact size for the status table.
pub fn format_bytes_compact(bytes: u64) -> (r: String)
    ensures
        r@ == compact_text(bytes as nat),
{
    if bytes < 1024 {
        let mut r = u64_text(bytes);
        r.append("B");
        return r;
    }
    let (name, size): (&str, u64) = if bytes < 1048576 {
        ("KiB", 1024)
    } else {
        ("MiB", 1048576)
    };
    let tenths: u128 = divide_half_even(nearest_double(bytes) * 10, size as u128);
    assert(tenths <= 0x1_0000_0000_0000_0000) by {
        let a = double_near(bytes as nat) * 10;
        assert(a / (size as nat) + 1 <= 0x1_0000_0000_0000_0000) by (nonlinear_arith)
            requires
                a <= 0x1_0000_0000_0000_0000 * 10,
                size >= 1024,
        ;
    }
    let mut r = u64_text((tenths / 10) as u64);
    r.append(".");
    r.append(u64_text((tenths % 10) as u64).as_str());
    r.append(name);
    r
}

/// An entry of a cache directory, as it was found.
#[derive(Debug)]
pub enum CacheNode {
    /// A regular file and its length in bytes.
    File { name: Vec<u8>, len: u64 },
    /// A symbolic link, or anything else that is neither a file nor a directory.
    Other { name: Vec<u8> },
    /// A directory and its entries.
    Folder { name: Vec<u8>, entries: Vec<CacheNode> },
}

/// The file name of an entry.
pub open spec fn node_name(n: CacheNode) -> Seq<u8> {
    match n {
        CacheNode::File { name, .. } => name@,
        CacheNode::Other { name } => name@,
        CacheNode::Folder { name, .. } => name@,
    }
}

/// The name of the lock file.
pub open spec fn lock_name() -> Seq<u8> {
    native::utf8(cache_lock::LOCK_NAME@)
}

/// The bytes in the files of an entry. The lock, and whatever bears its name, is not
/// counted.
pub open spec fn node_bytes(n: CacheNode) -> nat
    decreases n,
{
    if node_name(n) == lock_name() {
        0
    } else {
        match n {
            CacheNode::File { len, .. } => len as nat,
            CacheNode::Other { .. } => 0,
            CacheNode::Folder { entries, .. } => list_bytes(entries@),
        }
    }
}

/// The bytes in the files of a list of entries.
pub open spec fn list_bytes(s: Seq<CacheNode>) -> nat
    decreases s,
{
    if s.len() == 0 {
        0
    } else {
        list_bytes(s.drop_last()) + node_bytes(s.last())
    }
}

impl CacheNode {
    fn is_lock(&self) -> (r: bool)
        ensures
            r == (node_name(*self) == lock_name()),
    {
        match self {
            CacheNode::File { name, .. } => name_is(name.as_slice(), cache_lock::LOCK_NAME),
            CacheNode::Other { name } => name_is(name.as_slice(), cache_lock::LOCK_NAME),
            CacheNode::Folder { name, .. } => name_is(name.as_slice(), cache_lock::LOCK_NAME),
        }
    }
}

/// The first entries of a directory hold no more than all of them.
proof fn lemma_list_bytes_grows(s: Seq<CacheNode>, n: int)
    requires
        0 <= n <= s.len(),
    ensures
        list_bytes(s.take(n)) <= list_bytes(s),
    decreases s.len() - n,
{
    if n < s.len() {
        lemma_list_bytes_grows(s, n + 1);
        assert(s.take(n + 1).drop_last() == s.take(n));
    } else {
        assert(s.take(n) == s);
    }
}

/// The bytes in the files below a directory, if a 64-bit count holds them.
pub fn tree_size(entries: &Vec<CacheNode>) -> (r: Option<u64>)
    ensures
        match r {
            Some(n) => n == list_bytes(entries@),
            None => list_bytes(entries@) > u64::MAX,
        },
    decreases entries,
{
    let mut total: u64 = 0;
    let mut i: usize = 0;
    while i < entries.len()
        invariant
            i <= entries.len(),
            total == list_bytes(entries@.take(i as int)),
        decreases entries.len() - i,
    {
        let node = &entries[i];
        proof {
            let next = entries@.take(i as int + 1);
            assert(next.drop_last() == entries@.take(i as int));
            assert(list_bytes(next) == list_bytes(entries@.take(i as int)) + node_bytes(*node));
            lemma_list_bytes_grows(entries@, i as int + 1);
        }
        let mut part: u64 = 0;
        if !node.is_lock() {
            match node {
                CacheNode::File { len, .. } => {
                    part = *len;
                },
                CacheNode::Other { .. } => {},
                CacheNode::Folder { entries: inner, .. } => {
                    match tree_size(inner) {
                        Some(n) => {
                            part = n;
                        },
                        None => {
                            return None;
                        },
                    }
                },
            }
        }
        match total.checked_add(part) {
            Some(sum) => {
                total = sum;
            },
            None => {
                return None;
            },
        }
        i = i + 1;
    }
    assert(entries@.take(entries@.len() as int) == entries@);
    Some(total)
}

/// Compute the on-disk size in bytes of a directory tree.
pub fn dir_size(entries: &Vec<CacheNode>) -> (r: u64)
    requires
        list_bytes(entries@) <= u64::MAX,
    ensures
        r == list_bytes(entries@),
{
    match tree_size(entries) {
        Some(n) => n,
        None => 0,
    }
}

/// One entry to remove: its path below the cache root, whether it is a directory that
/// is empty by then, and the bytes that go with it.
#[derive(Debug)]
pub struct Removal {
    pub path: Vec<Vec<u8>>,
    pub folder: bool,
    pub bytes: u64,
}

/// The mathematical form of a removal.
pub struct Cut {
    pub path: Seq<Seq<u8>>,
    pub folder: bool,
    pub bytes: nat,
}

impl View for Removal {
    type V = Cut;

    open spec fn view(&self) -> Cut {
        Cut { path: native::names(self.path@), folder: self.folder, bytes: self.bytes as nat }
    }
}

/// The mathematical form of a list of removals.
pub open spec fn cuts(v: Seq<Removal>) -> Seq<Cut> {
    v.map_values(|r: Removal| r@)
}

/// The entry is the lock, or a directory that holds it at some depth.
pub open spec fn node_keeps(n: CacheNode) -> bool
    decreases n,
{
    node_name(n) == lock_name() || match n {
        CacheNode::Folder { entries, .. } => list_keeps(entries@),
        _ => false,
    }
}

/// Some entry is the lock or holds it.
pub open spec fn list_keeps(s: Seq<CacheNode>) -> bool
    decreases s,
{
    s.len() > 0 && (list_keeps(s.drop_last()) || node_keeps(s.last()))
}

/// The removals for one entry of the directory `at`: its contents before itself, the
/// lock left alone, and a directory that holds the lock kept.
pub open spec fn node_cuts(at: Seq<Seq<u8>>, n: CacheNode) -> Seq<Cut>
    decreases n,
{
    let path = at.push(node_name(n));
    if node_name(n) == lock_name() {
        Seq::empty()
    } else {
        match n {
            CacheNode::File { len, .. } => seq![Cut { path, folder: false, bytes: len as nat }],
            CacheNode::Other { .. } => seq![Cut { path, folder: false, bytes: 0 }],
            CacheNode::Folder { entries, .. } => {
                let inner = list_cuts(path, entries@);
                if list_keeps(entries@) {
                    inner
                } else {
                    inner.push(Cut { path, folder: true, bytes: 0 })
                }
            },
        }
    }
}

/// The removals for the entries of the directory `at`, in order.
pub open spec fn list_cuts(at: Seq<Seq<u8>>, s: Seq<CacheNode>) -> Seq<Cut>
    decreases s,
{
    if s.len() == 0 {
        Seq::empty()
    } else {
        list_cuts(at, s.drop_last()) + node_cuts(at, s.last())
    }
}

fn copy_name(n: &CacheNode) -> (r: Vec<u8>)
    ensures
        r@ == node_name(*n),
{
    match n {
        CacheNode::File { name, .. } => copy_bytes(name.as_slice()),
        CacheNode::Other { name } => copy_bytes(name.as_slice()),
        CacheNode::Folder { name, .. } => copy_bytes(name.as_slice()),
    }
}

fn path_to(at: &Vec<Vec<u8>>, n: &CacheNode) -> (r: Vec<Vec<u8>>)
    ensures
        native::names(r@) == native::names(at@).push(node_name(*n)),
{
    let mut path = copy_names(at);
    path.push(copy_name(n));
    assert(native::names(path@) == native::names(at@).push(node_name(*n)));
    path
}

fn push_removal(plan: &mut Vec<Removal>, path: Vec<Vec<u8>>, folder: bool, bytes: u64)
    ensures
        cuts(final(plan)@) == cuts(old(plan)@).push(
            Cut { path: native::names(path@), folder, bytes: bytes as nat },
        ),
{
    plan.push(Removal { path, folder, bytes });
    assert(cuts(plan@) == cuts(old(plan)@).push(
        Cut { path: native::names(path@), folder, bytes: bytes as nat },
    ));
}

/// Appends the removals for the entries of a directory; tells whether the lock is
/// among what stays.
fn plan_removals(at: &Vec<Vec<u8>>, entries: &Vec<CacheNode>, plan: &mut Vec<Removal>) -> (kept:
    bool)
    ensures
        kept == list_keeps(entries@),
        cuts(final(plan)@) == cuts(old(plan)@) + list_cuts(native::names(at@), entries@),
    decreases entries,
{
    let ghost start = cuts(plan@);
    let ghost dir = native::names(at@);
    let mut kept = false;
    let mut i: usize = 0;
    assert(start + list_cuts(dir, entries@.take(0)) == start);
    while i < entries.len()
        invariant
            i <= entries.len(),
            dir == native::names(at@),
            kept == list_keeps(entries@.take(i as int)),
            cuts(plan@) == start + list_cuts(dir, entries@.take(i as int)),
        decreases entries.len() - i,
    {
        let node = &entries[i];
        let ghost next = entries@.take(i as int + 1);
        let ghost done = list_cuts(dir, entries@.take(i as int));
        let ghost path = dir.push(node_name(*node));
        proof {
            assert(next.drop_last() == entries@.take(i as int));
            assert(list_keeps(next) == (list_keeps(entries@.take(i as int)) || node_keeps(*node)));
            assert(list_cuts(dir, next) == done + node_cuts(dir, *node));
        }
        if node.is_lock() {
            kept = true;
            assert(start + (done + Seq::<Cut>::empty()) == start + done);
        } else {
            match node {
                CacheNode::File { len, .. } => {
                    push_removal(plan, path_to(at, node), false, *len);
                    assert((start + done).push(
                        Cut { path, folder: false, bytes: *len as nat },
                    ) == start + (done + seq![
                        Cut { path, folder: false, bytes: *len as nat },
                    ]));
                },
                CacheNode::Other { .. } => {
                    push_removal(plan, path_to(at, node), false, 0);
                    assert((start + done).push(Cut { path, folder: false, bytes: 0 }) == start + (
                    done + seq![Cut { path, folder: false, bytes: 0 }]));
                },
                CacheNode::Folder { entries: inner, .. } => {
                    let below = path_to(at, node);
                    let inner_kept = plan_removals(&below, inner, plan);
                    let ghost inner_cuts = list_cuts(path, inner@);
                    assert(start + done + inner_cuts == start + (done + inner_cuts));
                    if inner_kept {
                        kept = true;
                    } else {
                        push_removal(plan, below, true, 0);
                        let ghost cut = Cut { path, folder: true, bytes: 0 };
                        assert((start + (done + inner_cuts)).push(cut) == start + (done
                            + inner_cuts.push(cut)));
                    }
                },
            }
        }
        i = i + 1;
    }
    assert(entries@.take(entries@.len() as int) == entries@);
    kept
}

/// The entries of the directory `at` that a deletion would take away, as far as they
/// stand in the directory itself.
pub open spec fn previewed(at: Seq<Seq<u8>>, s: Seq<CacheNode>) -> Seq<Seq<Seq<u8>>>
    decreases s.len(),
{
    if s.len() == 0 {
        Seq::empty()
    } else if node_name(s.last()) == lock_name() {
        previewed(at, s.drop_last())
    } else {
        previewed(at, s.drop_last()).push(at.push(node_name(s.last())))
    }
}

/// The views of a list of paths.
pub open spec fn path_views(v: Seq<Vec<Vec<u8>>>) -> Seq<Seq<Seq<u8>>> {
    v.map_values(|p: Vec<Vec<u8>>| native::names(p@))
}

fn preview(at: &Vec<Vec<u8>>, entries: &Vec<CacheNode>, shown: &mut Vec<Vec<Vec<u8>>>)
    ensures
        path_views(final(shown)@) == path_views(old(shown)@) + previewed(
            native::names(at@),
            entries@,
        ),
{
    let ghost start = path_views(shown@);
    let ghost dir = native::names(at@);
    let mut i: usize = 0;
    assert(start + previewed(dir, entries@.take(0)) == start);
    while i < entries.len()
        invariant
            i <= entries.len(),
            dir == native::names(at@),
            path_views(shown@) == start + previewed(dir, entries@.take(i as int)),
        decreases entries.len() - i,
    {
        let node = &entries[i];
        let ghost done = previewed(dir, entries@.take(i as int));
        assert(entries@.take(i as int + 1).drop_last() == entries@.take(i as int));
        if !node.is_lock() {
            let ghost before = path_views(shown@);
            shown.push(path_to(at, node));
            let ghost path = dir.push(node_name(*node));
            assert(path_views(shown@) == before.push(path));
            assert((start + done).push(path) == start + done.push(path));
        }
        i = i + 1;
    }
    assert(entries@.take(entries@.len() as int) == entries@);
}

/// What a deletion does: the entries it only announces, or those it removes.
#[derive(Debug)]
pub struct Deletion {
    /// The entries that a dry run announces.
    pub announced: Vec<Vec<Vec<u8>>>,
    /// The removals to perform, in order.
    pub removals: Vec<Removal>,
    /// The bytes that go, or would go, with them.
    pub planned: u64,
}

/// Delete all files and subdirectories of a cache directory, keeping the directory
/// itself and the lock. A dry run announces the entries and removes nothing.
pub fn delete_dir_contents(entries: &Vec<CacheNode>, dry_run: bool) -> (r: Deletion)
    requires
        list_bytes(entries@) <= u64::MAX,
    ensures
        r.planned == list_bytes(entries@),
        dry_run ==> r.removals@.len() == 0 && path_views(r.announced@) == previewed(
            Seq::empty(),
            entries@,
        ),
        !dry_run ==> r.announced@.len() == 0 && cuts(r.removals@) == list_cuts(
            Seq::empty(),
            entries@,
        ),
{
    let at: Vec<Vec<u8>> = Vec::new();
    let mut announced: Vec<Vec<Vec<u8>>> = Vec::new();
    let mut removals: Vec<Removal> = Vec::new();
    assert(native::names(at@) == Seq::<Seq<u8>>::empty());
    assert(path_views(announced@) == Seq::<Seq<Seq<u8>>>::empty());
    assert(cuts(removals@) == Seq::<Cut>::empty());
    if dry_run {
        preview(&at, entries, &mut announced);
        assert(path_views(announced@) == previewed(Seq::empty(), entries@));
    } else {
        plan_removals(&at, entries, &mut removals);
        assert(cuts(removals@) == list_cuts(Seq::empty(), entries@));
    }
    Deletion { announced, removals, planned: dir_size(entries) }
}

/// The entries of the first directory of that name, or none.
pub open spec fn below(s: Seq<CacheNode>, name: Seq<u8>) -> Seq<CacheNode>
    decreases s.len(),
{
    if s.len() == 0 {
        Seq::empty()
    } else {
        match s[0] {
            CacheNode::Folder { name: n, entries } => if n@ == name {
                entries@
            } else {
                below(s.drop_first(), name)
            },
            _ => below(s.drop_first(), name),
        }
    }
}

fn find_folder<'a>(entries: &'a Vec<CacheNode>, name: &[u8]) -> (r: Option<&'a Vec<CacheNode>>)
    ensures
        match r {
            Some(v) => v@ == below(entries@, name@),
            None => below(entries@, name@) == Seq::<CacheNode>::empty(),
        },
{
    let mut i: usize = 0;
    assert(entries@.skip(0) == entries@);
    while i < entries.len()
        invariant
            i <= entries.len(),
            below(entries@, name@) == below(entries@.skip(i as int), name@),
        decreases entries.len() - i,
    {
        assert(entries@.skip(i as int).drop_first() == entries@.skip(i as int + 1));
        match &entries[i] {
            CacheNode::Folder { name: n, entries: inner } => {
                if native::bytes_eq(n.as_slice(), name) {
                    return Some(inner);
                }
            },
            _ => {},
        }
        i = i + 1;
    }
    None
}

fn find_tree<'a>(entries: &'a Vec<CacheNode>, top: &str, remote: &[u8]) -> (r: Option<
    &'a Vec<CacheNode>,
>)
    ensures
        match r {
            Some(v) => v@ == tree_of(entries@, top@, remote@),
            None => tree_of(entries@, top@, remote@) == Seq::<CacheNode>::empty(),
        },
{
    match find_folder(entries, top.as_bytes()) {
        Some(outer) => find_folder(outer, remote),
        None => None,
    }
}

/// The entries of a remote's tree below the directory `top` of a cache.
pub open spec fn tree_of(s: Seq<CacheNode>, top: Seq<char>, remote: Seq<u8>) -> Seq<CacheNode> {
    below(below(s, native::utf8(top)), remote)
}

/// The path of a remote's tree below the cache root.
pub open spec fn remote_tree(top: Seq<char>, remote: Seq<u8>) -> Seq<Seq<u8>> {
    seq![native::utf8(top), remote]
}

/// Delete the contents of `vfs/<remote>` and `vfsMeta/<remote>` and nothing else. A dry
/// run announces the entries and removes nothing.
pub fn delete_remote_trees(entries: &Vec<CacheNode>, remote: &[u8], dry_run: bool) -> (r: Deletion)
    requires
        list_bytes(tree_of(entries@, "vfs"@, remote@)) + list_bytes(
            tree_of(entries@, "vfsMeta"@, remote@),
        ) <= u64::MAX,
    ensures
        ({
            let content = tree_of(entries@, "vfs"@, remote@);
            let meta = tree_of(entries@, "vfsMeta"@, remote@);
            &&& r.planned == list_bytes(content) + list_bytes(meta)
        }),
        ({
            let content = tree_of(entries@, "vfs"@, remote@);
            let meta = tree_of(entries@, "vfsMeta"@, remote@);
            let content_at = remote_tree("vfs"@, remote@);
            let meta_at = remote_tree("vfsMeta"@, remote@);
            &&& dry_run ==> r.removals@.len() == 0 && path_views(r.announced@) == previewed(
                content_at,
                content,
            ) + previewed(meta_at, meta)
            &&& !dry_run ==> r.announced@.len() == 0 && cuts(r.removals@) == list_cuts(
                content_at,
                content,
            ) + list_cuts(meta_at, meta)
        }),
{
    let mut announced: Vec<Vec<Vec<u8>>> = Vec::new();
    let mut removals: Vec<Removal> = Vec::new();
    assert(path_views(announced@) == Seq::<Seq<Seq<u8>>>::empty());
    assert(cuts(removals@) == Seq::<Cut>::empty());
    let content: u64 = delete_tree(
        entries,
        "vfs",
        remote,
        dry_run,
        &mut announced,
        &mut removals,
    );
    let meta: u64 = delete_tree(
        entries,
        "vfsMeta",
        remote,
        dry_run,
        &mut announced,
        &mut removals,
    );
    Deletion { announced, removals, planned: content + meta }
}

fn delete_tree(
    entries: &Vec<CacheNode>,
    top: &str,
    remote: &[u8],
    dry_run: bool,
    announced: &mut Vec<Vec<Vec<u8>>>,
    removals: &mut Vec<Removal>,
) -> (planned: u64)
    requires
        list_bytes(tree_of(entries@, top@, remote@)) <= u64::MAX,
    ensures
        planned == list_bytes(tree_of(entries@, top@, remote@)),
        ({
            let tree = tree_of(entries@, top@, remote@);
            let at = remote_tree(top@, remote@);
            &&& dry_run ==> final(removals)@ == old(removals)@ && path_views(final(announced)@)
                == path_views(old(announced)@) + previewed(at, tree)
            &&& !dry_run ==> final(announced)@ == old(announced)@ && cuts(final(removals)@)
                == cuts(old(removals)@) + list_cuts(at, tree)
        }),
{
    let mut at: Vec<Vec<u8>> = Vec::new();
    at.push(copy_bytes(top.as_bytes()));
    at.push(copy_bytes(remote));
    assert(native::names(at@) == remote_tree(top@, remote@));
    let none: Vec<CacheNode> = Vec::new();
    assert(none@ == Seq::<CacheNode>::empty());
    let tree = match find_tree(entries, top, remote) {
        Some(v) => v,
        None => &none,
    };
    if dry_run {
        preview(&at, tree, announced);
    } else {
        plan_removals(&at, tree, removals);
    }
    dir_size(tree)
}

/// The bytes that a purge takes: those of the trees of a known remote, else all of them.
pub open spec fn purged_bytes(s: Seq<CacheNode>, remote: Option<Seq<u8>>) -> nat {
    match remote {
        Some(r) => list_bytes(tree_of(s, "vfs"@, r)) + list_bytes(tree_of(s, "vfsMeta"@, r)),
        None => list_bytes(s),
    }
}

/// What a purge removes, in order.
pub open spec fn purged_cuts(s: Seq<CacheNode>, remote: Option<Seq<u8>>) -> Seq<Cut> {
    match remote {
        Some(r) => list_cuts(remote_tree("vfs"@, r), tree_of(s, "vfs"@, r)) + list_cuts(
            remote_tree("vfsMeta"@, r),
            tree_of(s, "vfsMeta"@, r),
        ),
        None => list_cuts(Seq::empty(), s),
    }
}

/// What a simulated purge announces.
pub open spec fn purge_preview(s: Seq<CacheNode>, remote: Option<Seq<u8>>) -> Seq<Seq<Seq<u8>>> {
    match remote {
        Some(r) => previewed(remote_tree("vfs"@, r), tree_of(s, "vfs"@, r)) + previewed(
            remote_tree("vfsMeta"@, r),
            tree_of(s, "vfsMeta"@, r),
        ),
        None => previewed(Seq::empty(), s),
    }
}

/// The view of an optional byte string.
pub open spec fn opt_bytes(b: Option<&[u8]>) -> Option<Seq<u8>> {
    match b {
        Some(s) => Some(s@),
        None => None,
    }
}

fn tree_bytes(entries: &Vec<CacheNode>, top: &str, remote: &[u8]) -> (r: Option<u64>)
    ensures
        match r {
            Some(n) => n == list_bytes(tree_of(entries@, top@, remote@)),
            None => list_bytes(tree_of(entries@, top@, remote@)) > u64::MAX,
        },
{
    match find_tree(entries, top, remote) {
        Some(tree) => tree_size(tree),
        None => {
            assert(list_bytes(Seq::<CacheNode>::empty()) == 0);
            Some(0)
        },
    }
}

/// Empty a cache: the trees of its remote where that is known, so that other remotes in
/// the same cache stay untouched, and everything where it is not. A dry run announces
/// the entries and removes nothing. There is no plan for more bytes than 64 bits count.
pub fn purge(entries: &Vec<CacheNode>, remote: Option<&[u8]>, dry_run: bool) -> (r: Option<Deletion>)
    ensures
        match r {
            None => purged_bytes(entries@, opt_bytes(remote)) > u64::MAX,
            Some(d) => {
                &&& d.planned == purged_bytes(entries@, opt_bytes(remote))
                &&& dry_run ==> d.removals@.len() == 0 && path_views(d.announced@)
                    == purge_preview(entries@, opt_bytes(remote))
                &&& !dry_run ==> d.announced@.len() == 0 && cuts(d.removals@) == purged_cuts(
                    entries@,
                    opt_bytes(remote),
                )
            },
        },
{
    match remote {
        Some(name) => {
            let content = match tree_bytes(entries, "vfs", name) {
                Some(n) => n,
                None => {
                    return None;
                },
            };
            let meta = match tree_bytes(entries, "vfsMeta", name) {
                Some(n) => n,
                None => {
                    return None;
                },
            };
            if content > u64::MAX - meta {
                return None;
            }
            Some(delete_remote_trees(entries, name, dry_run))
        },
        None => match tree_size(entries) {
            Some(_) => Some(delete_dir_contents(entries, dry_run)),
            None => None,
        },
    }
}

/// The bytes of a list of removals.
pub open spec fn cut_bytes(s: Seq<Cut>) -> nat
    decreases s.len(),
{
    if s.len() == 0 {
        0
    } else {
        cut_bytes(s.drop_last()) + s.last().bytes
    }
}

/// The bytes of those removals that were carried out.
pub open spec fn freed(s: Seq<Cut>, done: Seq<bool>) -> nat
    decreases s.len(),
{
    if s.len() == 0 {
        0
    } else {
        freed(s.drop_last(), done) + if done[s.len() - 1] {
            s.last().bytes
        } else {
            0
        }
    }
}

proof fn lemma_freed_bound(s: Seq<Cut>, done: Seq<bool>, n: int)
    requires
        0 <= n <= s.len(),
    ensures
        freed(s.take(n), done) <= cut_bytes(s.take(n)) <= cut_bytes(s),
    decreases n,
{
    lemma_cut_bytes_grows(s, n);
    if n > 0 {
        lemma_freed_bound(s, done, n - 1);
        lemma_cut_bytes_grows(s, n - 1);
        assert(s.take(n).drop_last() == s.take(n - 1));
    }
}

proof fn lemma_cut_bytes_grows(s: Seq<Cut>, n: int)
    requires
        0 <= n <= s.len(),
    ensures
        cut_bytes(s.take(n)) <= cut_bytes(s),
    decreases s.len() - n,
{
    if n < s.len() {
        lemma_cut_bytes_grows(s, n + 1);
        assert(s.take(n + 1).drop_last() == s.take(n));
    } else {
        assert(s.take(n) == s);
    }
}

/// The bytes deleted, given for each removal whether it succeeded.
pub fn deleted_bytes(removals: &Vec<Removal>, done: &Vec<bool>) -> (r: u64)
    requires
        done@.len() == removals@.len(),
        cut_bytes(cuts(removals@)) <= u64::MAX,
    ensures
        r == freed(cuts(removals@), done@),
{
    let ghost all = cuts(removals@);
    let mut total: u64 = 0;
    let mut i: usize = 0;
    while i < removals.len()
        invariant
            i <= removals.len(),
            done@.len() == removals@.len(),
            all == cuts(removals@),
            cut_bytes(all) <= u64::MAX,
            total == freed(all.take(i as int), done@),
        decreases removals.len() - i,
    {
        proof {
            lemma_freed_bound(all, done@, i as int + 1);
            assert(all.take(i as int + 1).drop_last() == all.take(i as int));
            assert(all.take(i as int + 1).last() == removals@[i as int]@);
        }
        if done[i] {
            total = total + removals[i].bytes;
        }
        i = i + 1;
    }
    assert(all.take(all.len() as int) == all);
    total
}

/// Every removal below `at` names an entry strictly below it, and no directory on the
/// way nor the entry itself bears the name of the lock: the directory `at` stays, the
/// lock stays, and nothing outside `at` is touched.
pub proof fn law_removals_stay_below(at: Seq<Seq<u8>>, s: Seq<CacheNode>, i: int)
    requires
        0 <= i < list_cuts(at, s).len(),
    ensures
        ({
            let path = list_cuts(at, s)[i].path;
            &&& path.len() > at.len()
            &&& path.take(at.len() as int) == at
            &&& forall|j: int| at.len() <= j < path.len() ==> #[trigger] path[j] != lock_name()
        }),
    decreases s,
{
    if s.len() > 0 {
        let head = list_cuts(at, s.drop_last());
        if i < head.len() {
            law_removals_stay_below(at, s.drop_last(), i);
            assert(list_cuts(at, s)[i] == head[i]);
        } else {
            let n = s.last();
            let k = i - head.len();
            let path = at.push(node_name(n));
            assert(list_cuts(at, s)[i] == node_cuts(at, n)[k]);
            assert(path.take(at.len() as int) == at);
            match n {
                CacheNode::Folder { entries, .. } => {
                    let inner = list_cuts(path, entries@);
                    if k < inner.len() {
                        law_removals_stay_below(path, entries@, k);
                        let q = inner[k].path;
                        assert(node_cuts(at, n)[k] == inner[k]);
                        assert(q.take(at.len() as int) == q.take(path.len() as int).take(
                            at.len() as int,
                        ));
                        assert(q[at.len() as int] == q.take(path.len() as int)[at.len() as int]);
                        assert forall|j: int| at.len() <= j < q.len() implies #[trigger] q[j]
                            != lock_name() by {
                            if j == at.len() {
                                assert(q[j] == path[j]);
                            }
                        }
                    }
                },
                _ => {},
            }
        }
    }
}

/// A purge that succeeds throughout frees exactly the bytes that it was planned for and
/// that a dry run counts; of a whole cache these are the bytes that its size report gives.
pub proof fn law_deletion_frees_all(s: Seq<CacheNode>, remote: Option<Seq<u8>>, done: Seq<bool>)
    requires
        done.len() == purged_cuts(s, remote).len(),
        forall|i: int| 0 <= i < done.len() ==> done[i],
    ensures
        cut_bytes(purged_cuts(s, remote)) == purged_bytes(s, remote),
        freed(purged_cuts(s, remote), done) == purged_bytes(s, remote),
        purged_bytes(s, None) == list_bytes(s),
{
    match remote {
        Some(r) => {
            let content = list_cuts(remote_tree("vfs"@, r), tree_of(s, "vfs"@, r));
            let meta = list_cuts(remote_tree("vfsMeta"@, r), tree_of(s, "vfsMeta"@, r));
            lemma_cuts_total(remote_tree("vfs"@, r), tree_of(s, "vfs"@, r));
            lemma_cuts_total(remote_tree("vfsMeta"@, r), tree_of(s, "vfsMeta"@, r));
            lemma_cut_bytes_add(content, meta);
        },
        None => {
            lemma_cuts_total(Seq::empty(), s);
        },
    }
    lemma_freed_all(purged_cuts(s, remote), done);
}

proof fn lemma_freed_all(s: Seq<Cut>, done: Seq<bool>)
    requires
        s.len() <= done.len(),
        forall|i: int| 0 <= i < done.len() ==> done[i],
    ensures
        freed(s, done) == cut_bytes(s),
    decreases s.len(),
{
    if s.len() > 0 {
        lemma_freed_all(s.drop_last(), done);
    }
}

proof fn lemma_cut_bytes_add(a: Seq<Cut>, b: Seq<Cut>)
    ensures
        cut_bytes(a + b) == cut_bytes(a) + cut_bytes(b),
    decreases b.len(),
{
    if b.len() > 0 {
        assert((a + b).drop_last() == a + b.drop_last());
        lemma_cut_bytes_add(a, b.drop_last());
    } else {
        assert(a + b == a);
    }
}

proof fn lemma_cuts_total(at: Seq<Seq<u8>>, s: Seq<CacheNode>)
    ensures
        cut_bytes(list_cuts(at, s)) == list_bytes(s),
    decreases s,
{
    if s.len() > 0 {
        let n = s.last();
        lemma_cuts_total(at, s.drop_last());
        lemma_cut_bytes_add(list_cuts(at, s.drop_last()), node_cuts(at, n));
        lemma_node_cuts_total(at, n);
    }
}

proof fn lemma_node_cuts_total(at: Seq<Seq<u8>>, n: CacheNode)
    ensures
        cut_bytes(node_cuts(at, n)) == node_bytes(n),
    decreases n,
{
    let c = node_cuts(at, n);
    let path = at.push(node_name(n));
    if node_name(n) != lock_name() {
        match n {
            CacheNode::Folder { entries, .. } => {
                lemma_cuts_total(path, entries@);
                let cut = Cut { path, folder: true, bytes: 0 };
                let inner = list_cuts(path, entries@);
                assert(inner.push(cut).drop_last() == inner);
                assert(node_bytes(n) == list_bytes(entries@));
            },
            _ => {
                assert(c.drop_last() == Seq::<Cut>::empty());
                assert(cut_bytes(c.drop_last()) == 0);
            },
        }
    }
}

/// Purging the trees of one remote removes nothing but entries below `vfs/<remote>` and
/// `vfsMeta/<remote>`: those two directories, and every other remote, stay.
pub proof fn law_other_remotes_untouched(s: Seq<CacheNode>, remote: Seq<u8>, i: int)
    requires
        0 <= i < purged_cuts(s, Some(remote)).len(),
    ensures
        ({
            let path = purged_cuts(s, Some(remote))[i].path;
            &&& path.len() > 2
            &&& path[0] == native::utf8("vfs"@) || path[0] == native::utf8("vfsMeta"@)
            &&& path[1] == remote
        }),
{
    let content = list_cuts(remote_tree("vfs"@, remote), tree_of(s, "vfs"@, remote));
    if i < content.len() {
        lemma_tree_cut("vfs"@, remote, tree_of(s, "vfs"@, remote), i);
    } else {
        lemma_tree_cut("vfsMeta"@, remote, tree_of(s, "vfsMeta"@, remote), i - content.len());
    }
}

proof fn lemma_tree_cut(top: Seq<char>, remote: Seq<u8>, tree: Seq<CacheNode>, i: int)
    requires
        0 <= i < list_cuts(remote_tree(top, remote), tree).len(),
    ensures
        ({
            let path = list_cuts(remote_tree(top, remote), tree)[i].path;
            path.len() > 2 && path[0] == native::utf8(top) && path[1] == remote
        }),
{
    let at = remote_tree(top, remote);
    law_removals_stay_below(at, tree, i);
    let path = list_cuts(at, tree)[i].path;
    assert(path.take(2)[0] == path[0]);
    assert(path.take(2)[1] == path[1]);
}

/// A place below a cache as a path.
pub open spec fn place(cache: Seq<native::Part>, path: Seq<Seq<u8>>) -> Seq<native::Part> {
    cache + path.map_values(|n: Seq<u8>| native::Part::Normal(n))
}

/// A remote name as a path of one component.
pub open spec fn remote_path(remote: Seq<u8>) -> Seq<native::Part> {
    seq![native::Part::Normal(remote)]
}

/// The directory whose metadata is scanned before a purge.
pub open spec fn scanned_dir(cache: Seq<native::Part>, remote: Option<Seq<u8>>) -> Seq<
    native::Part,
> {
    dirty_check::metadata_dir(
        cache,
        match remote {
            Some(r) => Some(remote_path(r)),
            None => None,
        },
    )
}

/// The path lies in one of the trees of a remote: its content or its metadata.
pub open spec fn in_tree_of(
    path: Seq<native::Part>,
    cache: Seq<native::Part>,
    remote: Seq<u8>,
) -> bool {
    native::begins(path, resolver::content_dir(cache, remote_path(remote))) || native::begins(
        path,
        resolver::meta_dir(cache, remote_path(remote)),
    )
}

/// What a purge removes has had its metadata scanned: every removal lies below the cache,
/// for a known remote in one of its trees, and whatever remote a removal belongs to, the
/// metadata of that remote is the scanned directory or lies below it.
pub proof fn law_purge_is_covered_by_scan(
    cache: Seq<native::Part>,
    s: Seq<CacheNode>,
    remote: Option<Seq<u8>>,
    i: int,
)
    requires
        cache.len() > 0,
        0 <= i < purged_cuts(s, remote).len(),
    ensures
        ({
            let path = place(cache, purged_cuts(s, remote)[i].path);
            &&& native::begins(path, cache)
            &&& remote matches Some(r) ==> in_tree_of(path, cache, r) && scanned_dir(cache, remote)
                == resolver::meta_dir(cache, remote_path(r))
            &&& forall|r: Seq<u8>| #[trigger]
                in_tree_of(path, cache, r) ==> native::begins(
                    resolver::meta_dir(cache, remote_path(r)),
                    scanned_dir(cache, remote),
                )
        }),
{
    let cut = purged_cuts(s, remote)[i].path;
    let path = place(cache, cut);
    let n = cache.len() as int;
    assert(path.take(n) == cache);
    if let Some(r) = remote {
        law_other_remotes_untouched(s, r, i);
        lemma_remote_dirs(cache, r);
        assert(path[n] == native::Part::Normal(cut[0]));
        assert(path[n + 1] == native::Part::Normal(cut[1]));
        let below = cache + seq![native::Part::Normal(cut[0]), native::Part::Normal(r)];
        assert(path.take(n + 2) == below);
        assert(in_tree_of(path, cache, r));
    }
    assert forall|r: Seq<u8>| #[trigger] in_tree_of(path, cache, r) implies native::begins(
        resolver::meta_dir(cache, remote_path(r)),
        scanned_dir(cache, remote),
    ) by {
        lemma_remote_dirs(cache, r);
        let meta = resolver::meta_dir(cache, remote_path(r));
        match remote {
            Some(known) => {
                let content = resolver::content_dir(cache, remote_path(r));
                if native::begins(path, content) {
                    assert(path.take(n + 2)[n + 1] == content[n + 1]);
                } else {
                    assert(path.take(n + 2)[n + 1] == meta[n + 1]);
                }
                assert(path[n + 1] == native::Part::Normal(r));
                assert(r == known);
                assert(meta.take(meta.len() as int) == meta);
            },
            None => {
                let all = native::joined(cache, seq![native::named("vfsMeta"@)]);
                assert(all == cache + seq![native::named("vfsMeta"@)]);
                assert(meta.take(n + 1) == all);
            },
        }
    }
}

proof fn lemma_remote_dirs(cache: Seq<native::Part>, r: Seq<u8>)
    requires
        cache.len() > 0,
    ensures
        resolver::content_dir(cache, remote_path(r)) == cache + seq![
            native::named("vfs"@),
            native::Part::Normal(r),
        ],
        resolver::meta_dir(cache, remote_path(r)) == cache + seq![
            native::named("vfsMeta"@),
            native::Part::Normal(r),
        ],
{
    let content = seq![native::named("vfs"@)];
    let meta = seq![native::named("vfsMeta"@)];
    assert(native::joined(cache, content) == cache + content);
    assert(native::joined(cache, meta) == cache + meta);
    assert(cache + content + remote_path(r) == cache + seq![
        native::named("vfs"@),
        native::Part::Normal(r),
    ]);
    assert(cache + meta + remote_path(r) == cache + seq![
        native::named("vfsMeta"@),
        native::Part::Normal(r),
    ]);
}

/// The snapshot of a directory holds the entry at that path: directory by directory down
/// to the entry itself.
pub open spec fn holds(s: Seq<CacheNode>, path: Seq<Seq<u8>>, n: CacheNode) -> bool
    decreases path.len(),
{
    path.len() > 0 && exists|i: int|
        0 <= i < s.len() && node_name(#[trigger] s[i]) == path[0] && if path.len() == 1 {
            s[i] == n
        } else {
            match s[i] {
                CacheNode::Folder { entries, .. } => holds(entries@, path.drop_first(), n),
                _ => false,
            }
        }
}

/// The bytes that go with an entry itself: those of a file.
pub open spec fn own_bytes(n: CacheNode) -> nat {
    match n {
        CacheNode::File { len, .. } => len as nat,
        _ => 0,
    }
}

/// No entry below the directory, at any depth, bears the name of the lock.
pub open spec fn lock_free(s: Seq<CacheNode>) -> bool {
    forall|p: Seq<Seq<u8>>, n: CacheNode| #[trigger] holds(s, p, n) ==> p.last() != lock_name()
}

proof fn lemma_holds_more(s: Seq<CacheNode>, path: Seq<Seq<u8>>, n: CacheNode)
    requires
        s.len() > 0,
        holds(s.drop_last(), path, n),
    ensures
        holds(s, path, n),
{
    let t = s.drop_last();
    let i = choose|i: int|
        0 <= i < t.len() && node_name(#[trigger] t[i]) == path[0] && if path.len() == 1 {
            t[i] == n
        } else {
            match t[i] {
                CacheNode::Folder { entries, .. } => holds(entries@, path.drop_first(), n),
                _ => false,
            }
        };
    assert(s[i] == t[i]);
}

proof fn lemma_holds_inside(
    s: Seq<CacheNode>,
    i: int,
    entries: Seq<CacheNode>,
    path: Seq<Seq<u8>>,
    n: CacheNode,
)
    requires
        0 <= i < s.len(),
        s[i] matches CacheNode::Folder { entries: e, .. } && e@ == entries,
        holds(entries, path, n),
    ensures
        holds(s, seq![node_name(s[i])] + path, n),
{
    let p = seq![node_name(s[i])] + path;
    assert(p.drop_first() == path);
    assert(node_name(s[i]) == p[0]);
}

proof fn lemma_keeps(s: Seq<CacheNode>)
    ensures
        list_keeps(s) <==> !lock_free(s),
    decreases s, 1nat,
{
    if s.len() > 0 {
        let t = s.drop_last();
        let last = s.last();
        lemma_keeps(t);
        if list_keeps(t) {
            let (p, n): (Seq<Seq<u8>>, CacheNode) = choose|p: Seq<Seq<u8>>, n: CacheNode|
                #[trigger] holds(t, p, n) && p.last() == lock_name();
            lemma_holds_more(s, p, n);
            assert(!lock_free(s));
        }
        if node_name(last) == lock_name() {
            let p = seq![node_name(last)];
            assert(s[s.len() - 1] == last);
            assert(node_name(s[s.len() - 1]) == p[0]);
            assert(holds(s, p, last));
            assert(p.last() == lock_name());
            assert(!lock_free(s));
        }
        assert(list_keeps(s) == (list_keeps(t) || node_keeps(last)));
        if let CacheNode::Folder { entries, .. } = last {
            lemma_keeps(entries@);
            assert(node_keeps(last) == (node_name(last) == lock_name() || list_keeps(entries@)));
            if list_keeps(entries@) {
                let (p, n): (Seq<Seq<u8>>, CacheNode) = choose|p: Seq<Seq<u8>>, n: CacheNode|
                    #[trigger] holds(entries@, p, n) && p.last() == lock_name();
                lemma_holds_inside(s, s.len() - 1, entries@, p, n);
                let q = seq![node_name(last)] + p;
                assert(p.len() > 0);
                assert(q.last() == p.last());
                assert(!lock_free(s));
            }
        }
        if !list_keeps(s) {
            assert forall|p: Seq<Seq<u8>>, n: CacheNode| #[trigger] holds(s, p, n) implies p.last()
                != lock_name() by {
                let i = choose|i: int|
                    0 <= i < s.len() && node_name(#[trigger] s[i]) == p[0] && if p.len() == 1 {
                        s[i] == n
                    } else {
                        match s[i] {
                            CacheNode::Folder { entries, .. } => holds(
                                entries@,
                                p.drop_first(),
                                n,
                            ),
                            _ => false,
                        }
                    };
                if i < t.len() {
                    assert(t[i] == s[i]);
                    assert(holds(t, p, n));
                    assert(lock_free(t));
                } else if p.len() == 1 {
                    assert(s[i] == last);
                    assert(!node_keeps(last));
                    assert(p.last() == p[0]);
                } else {
                    if let CacheNode::Folder { entries, .. } = last {
                        assert(holds(entries@, p.drop_first(), n));
                        assert(!list_keeps(entries@));
                        assert(lock_free(entries@));
                        assert(p.drop_first().last() == p.last());
                    }
                }
            }
        }
    } else {
        assert forall|p: Seq<Seq<u8>>, n: CacheNode| !#[trigger] holds(s, p, n) by {}
    }
}

/// Every removal is that of an entry of the snapshot, at exactly its path. It is marked as
/// a directory if and only if the entry is one, and then nothing named like the lock lies
/// anywhere below it; it counts the bytes of a file, and none for anything else.
pub proof fn law_removal_is_of_an_entry(at: Seq<Seq<u8>>, s: Seq<CacheNode>, i: int) -> (n:
    CacheNode)
    requires
        0 <= i < list_cuts(at, s).len(),
    ensures
        ({
            let cut = list_cuts(at, s)[i];
            &&& cut.path.len() > at.len()
            &&& cut.path.take(at.len() as int) == at
            &&& holds(s, cut.path.skip(at.len() as int), n)
            &&& cut.folder <==> n is Folder
            &&& cut.bytes == own_bytes(n)
            &&& n matches CacheNode::Folder { entries, .. } ==> lock_free(entries@)
        }),
    decreases s,
{
    law_removals_stay_below(at, s, i);
    let cut = list_cuts(at, s)[i];
    let rel = cut.path.skip(at.len() as int);
    let head = list_cuts(at, s.drop_last());
    if i < head.len() {
        assert(cut == head[i]);
        let n = law_removal_is_of_an_entry(at, s.drop_last(), i);
        lemma_holds_more(s, rel, n);
        n
    } else {
        let last = s.last();
        let k = i - head.len();
        let path = at.push(node_name(last));
        assert(cut == node_cuts(at, last)[k]);
        assert(s[s.len() - 1] == last);
        match last {
            CacheNode::Folder { entries, .. } => {
                let inner = list_cuts(path, entries@);
                if k < inner.len() {
                    assert(cut == inner[k]);
                    let n = law_removal_is_of_an_entry(path, entries@, k);
                    let below = cut.path.skip(path.len() as int);
                    lemma_holds_inside(s, s.len() - 1, entries@, below, n);
                    assert(cut.path[at.len() as int] == cut.path.take(path.len() as int)[at.len()
                        as int]);
                    assert(rel =~= seq![node_name(last)] + below);
                    n
                } else {
                    lemma_keeps(entries@);
                    assert(rel =~= seq![node_name(last)]);
                    assert(node_name(s[s.len() - 1]) == rel[0]);
                    last
                }
            },
            _ => {
                assert(rel =~= seq![node_name(last)]);
                assert(node_name(s[s.len() - 1]) == rel[0]);
                last
            },
        }
    }
}

/// Where the removals for one entry stand among those of its directory.
proof fn lemma_cuts_of_entry(at: Seq<Seq<u8>>, s: Seq<CacheNode>, i: int) -> (offset: int)
    requires
        0 <= i < s.len(),
    ensures
        0 <= offset,
        offset + node_cuts(at, s[i]).len() <= list_cuts(at, s).len(),
        forall|k: int|
            0 <= k < node_cuts(at, s[i]).len() ==> list_cuts(at, s)[offset + k]
                == #[trigger] node_cuts(at, s[i])[k],
    decreases s.len(),
{
    let head = list_cuts(at, s.drop_last());
    if i == s.len() - 1 {
        assert(s.last() == s[i]);
        head.len() as int
    } else {
        assert(s.drop_last()[i] == s[i]);
        let offset = lemma_cuts_of_entry(at, s.drop_last(), i);
        assert forall|k: int| 0 <= k < node_cuts(at, s[i]).len() implies list_cuts(at, s)[offset + k]
            == #[trigger] node_cuts(at, s[i])[k] by {
            assert(list_cuts(at, s)[offset + k] == head[offset + k]);
        }
        offset
    }
}

/// Every entry of the snapshot that is no lock, and has nothing named like the lock above
/// or below it, has a removal of its own, marked as a directory if and only if it is one.
pub proof fn law_every_entry_is_removed(
    at: Seq<Seq<u8>>,
    s: Seq<CacheNode>,
    path: Seq<Seq<u8>>,
    n: CacheNode,
) -> (i: int)
    requires
        holds(s, path, n),
        forall|j: int| 0 <= j < path.len() ==> #[trigger] path[j] != lock_name(),
        n matches CacheNode::Folder { entries, .. } ==> lock_free(entries@),
    ensures
        0 <= i < list_cuts(at, s).len(),
        list_cuts(at, s)[i] == (Cut {
            path: at + path,
            folder: n is Folder,
            bytes: own_bytes(n),
        }),
    decreases path.len(),
{
    let e = choose|e: int|
        0 <= e < s.len() && node_name(#[trigger] s[e]) == path[0] && if path.len() == 1 {
            s[e] == n
        } else {
            match s[e] {
                CacheNode::Folder { entries, .. } => holds(entries@, path.drop_first(), n),
                _ => false,
            }
        };
    let node = s[e];
    let below = at.push(node_name(node));
    let offset = lemma_cuts_of_entry(at, s, e);
    let mine = node_cuts(at, node);
    if path.len() == 1 {
        assert(at + path =~= below);
        match node {
            CacheNode::Folder { entries, .. } => {
                lemma_keeps(entries@);
                let k = list_cuts(below, entries@).len() as int;
                assert(mine[k] == Cut { path: below, folder: true, bytes: 0 });
                offset + k
            },
            _ => {
                assert(mine[0].path == below);
                offset
            },
        }
    } else {
        let rest = path.drop_first();
        let entries = node->Folder_entries@;
        assert forall|j: int| 0 <= j < rest.len() implies #[trigger] rest[j] != lock_name() by {
            assert(rest[j] == path[j + 1]);
        }
        let k = law_every_entry_is_removed(below, entries, rest, n);
        assert(below + rest =~= at + path);
        assert(mine[k] == list_cuts(below, entries)[k]);
        offset + k
    }
}

/// No two entries of a directory, at any depth, share a name.
pub open spec fn tidy(s: Seq<CacheNode>) -> bool
    decreases s,
{
    s.len() == 0 || {
        &&& tidy(s.drop_last())
        &&& forall|i: int|
            0 <= i < s.len() - 1 ==> node_name(#[trigger] s[i]) != node_name(s.last())
        &&& match s.last() {
            CacheNode::Folder { entries, .. } => tidy(entries@),
            _ => true,
        }
    }
}

/// A removal below `at` begins with the name of one of its entries.
proof fn lemma_cut_under_entry(at: Seq<Seq<u8>>, s: Seq<CacheNode>, i: int) -> (e: int)
    requires
        0 <= i < list_cuts(at, s).len(),
    ensures
        0 <= e < s.len(),
        list_cuts(at, s)[i].path.len() > at.len(),
        list_cuts(at, s)[i].path[at.len() as int] == node_name(s[e]),
{
    let n = law_removal_is_of_an_entry(at, s, i);
    let path = list_cuts(at, s)[i].path;
    let rel = path.skip(at.len() as int);
    let e = choose|e: int|
        0 <= e < s.len() && node_name(#[trigger] s[e]) == rel[0] && if rel.len() == 1 {
            s[e] == n
        } else {
            match s[e] {
                CacheNode::Folder { entries, .. } => holds(entries@, rel.drop_first(), n),
                _ => false,
            }
        };
    assert(rel[0] == path[at.len() as int]);
    e
}

/// A directory is removed only after everything below it: no removal that follows it lies
/// at or below its path.
pub proof fn law_contents_go_first(at: Seq<Seq<u8>>, s: Seq<CacheNode>, i: int, j: int)
    requires
        tidy(s),
        0 <= i < j < list_cuts(at, s).len(),
        list_cuts(at, s)[i].folder,
    ensures
        ({
            let dir = list_cuts(at, s)[i].path;
            let later = list_cuts(at, s)[j].path;
            !(later.len() >= dir.len() && later.take(dir.len() as int) == dir)
        }),
    decreases s,
{
    let head = list_cuts(at, s.drop_last());
    let last = s.last();
    let dir = list_cuts(at, s)[i].path;
    let later = list_cuts(at, s)[j].path;
    let m = at.len() as int;
    if j < head.len() {
        law_contents_go_first(at, s.drop_last(), i, j);
        assert(list_cuts(at, s)[i] == head[i]);
        assert(list_cuts(at, s)[j] == head[j]);
    } else if i < head.len() {
        assert(list_cuts(at, s)[i] == head[i]);
        let e = lemma_cut_under_entry(at, s.drop_last(), i);
        assert(s.drop_last()[e] == s[e]);
        assert(node_name(s[e]) != node_name(last));
        lemma_node_cut_name(at, last, j - head.len());
        assert(list_cuts(at, s)[j] == node_cuts(at, last)[j - head.len()]);
        if later.len() >= dir.len() && later.take(dir.len() as int) == dir {
            assert(later.take(dir.len() as int)[m] == later[m]);
        }
    } else {
        let a = i - head.len();
        let b = j - head.len();
        assert(list_cuts(at, s)[i] == node_cuts(at, last)[a]);
        assert(list_cuts(at, s)[j] == node_cuts(at, last)[b]);
        if let CacheNode::Folder { entries, .. } = last {
            let path = at.push(node_name(last));
            let inner = list_cuts(path, entries@);
            assert(a < inner.len());
            assert(node_cuts(at, last)[a] == inner[a]);
            if b < inner.len() {
                assert(node_cuts(at, last)[b] == inner[b]);
                law_contents_go_first(path, entries@, a, b);
            } else {
                law_removals_stay_below(path, entries@, a);
            }
        }
    }
}

proof fn lemma_node_cut_name(at: Seq<Seq<u8>>, n: CacheNode, k: int)
    requires
        0 <= k < node_cuts(at, n).len(),
    ensures
        node_cuts(at, n)[k].path.len() > at.len(),
        node_cuts(at, n)[k].path[at.len() as int] == node_name(n),
{
    let path = at.push(node_name(n));
    if let CacheNode::Folder { entries, .. } = n {
        let inner = list_cuts(path, entries@);
        if k < inner.len() {
            law_removals_stay_below(path, entries@, k);
            let q = inner[k].path;
            assert(q.take(path.len() as int)[at.len() as int] == q[at.len() as int]);
            assert(node_cuts(at, n)[k] == inner[k]);
        }
    }
}

/// The size of a directory adds up over its entries: the length of a file, nothing for
/// anything else that is no directory, what lies below a directory, and nothing for what
/// bears the name of the lock.
pub proof fn law_sizes_add_up(a: Seq<CacheNode>, b: Seq<CacheNode>, n: CacheNode)
    ensures
        list_bytes(a + b) == list_bytes(a) + list_bytes(b),
        list_bytes(Seq::empty()) == 0,
        node_name(n) == lock_name() ==> list_bytes(seq![n]) == 0,
        node_name(n) != lock_name() ==> list_bytes(seq![n]) == match n {
            CacheNode::File { len, .. } => len as nat,
            CacheNode::Other { .. } => 0,
            CacheNode::Folder { entries, .. } => list_bytes(entries@),
        },
    decreases b.len(),
{
    let none = Seq::<CacheNode>::empty();
    assert(list_bytes(none) == 0);
    if b.len() == 0 {
        assert(a + b == a);
        assert(b == none);
    } else {
        assert((a + b).drop_last() == a + b.drop_last());
        law_sizes_add_up(a, b.drop_last(), n);
    }
    let one = seq![n];
    assert(one.drop_last() == none);
    assert(one.last() == n);
    assert(list_bytes(one) == list_bytes(none) + node_bytes(n));
}

/// The lock is the file that a run creates in the cache.
pub proof fn law_name_of_the_lock()
    ensures
        lock_name() == native::utf8("warm-drive-cache.lock"@),
{
}

/// A dry run announces exactly the entries of the directory itself that are not the lock,
/// in their order.
pub proof fn law_preview(at: Seq<Seq<u8>>, s: Seq<CacheNode>, n: CacheNode, p: Seq<Seq<u8>>)
    ensures
        previewed(at, Seq::empty()) == Seq::<Seq<Seq<u8>>>::empty(),
        node_name(n) == lock_name() ==> previewed(at, s.push(n)) == previewed(at, s),
        node_name(n) != lock_name() ==> previewed(at, s.push(n)) == previewed(at, s).push(
            at.push(node_name(n)),
        ),
        previewed(at, s).contains(p) <==> exists|i: int|
            0 <= i < s.len() && node_name(#[trigger] s[i]) != lock_name() && p == at.push(
                node_name(s[i]),
            ),
    decreases s.len(),
{
    assert(s.push(n).drop_last() == s);
    assert(s.push(n).last() == n);
    let out = previewed(at, s);
    if s.len() > 0 {
        let t = s.drop_last();
        let last = s.last();
        law_preview(at, t, last, p);
        assert(t.push(last) == s);
        let before = previewed(at, t);
        assert(forall|i: int| 0 <= i < t.len() ==> #[trigger] t[i] == s[i]);
        assert(s[s.len() - 1] == last);
        if node_name(last) != lock_name() {
            let mine = at.push(node_name(last));
            assert(out == before.push(mine));
            assert(out[before.len() as int] == mine);
            if before.contains(p) {
                let k = before.index_of(p);
                assert(out[k] == p);
            }
            if out.contains(p) {
                let k = out.index_of(p);
                if k < before.len() {
                    assert(before[k] == p);
                    assert(before.contains(p));
                }
            }
        }
        if before.contains(p) {
            let i = choose|i: int|
                0 <= i < t.len() && node_name(#[trigger] t[i]) != lock_name() && p == at.push(
                    node_name(t[i]),
                );
            assert(s[i] == t[i]);
        }
        if exists|i: int|
            0 <= i < s.len() && node_name(#[trigger] s[i]) != lock_name() && p == at.push(
                node_name(s[i]),
            ) {
            let i = choose|i: int|
                0 <= i < s.len() && node_name(#[trigger] s[i]) != lock_name() && p == at.push(
                    node_name(s[i]),
                );
            if i < t.len() {
                assert(t[i] == s[i]);
            }
        }
    } else {
        assert(!out.contains(p));
    }
}

/// The entries below a name are those of the first directory of that name, and there are
/// none where no directory bears it.
pub proof fn law_below(s: Seq<CacheNode>, name: Seq<u8>, i: int)
    ensures
        0 <= i < s.len() && s[i] is Folder && node_name(s[i]) == name && (forall|j: int|
            0 <= j < i ==> !((#[trigger] s[j]) is Folder && node_name(s[j]) == name)) ==> below(
            s,
            name,
        ) == s[i]->Folder_entries@,
        (forall|j: int|
            0 <= j < s.len() ==> !((#[trigger] s[j]) is Folder && node_name(s[j]) == name))
            ==> below(s, name) == Seq::<CacheNode>::empty(),
    decreases s.len(),
{
    if s.len() > 0 {
        let rest = s.drop_first();
        law_below(rest, name, i - 1);
        assert(forall|j: int| 0 <= j < rest.len() ==> #[trigger] rest[j] == s[j + 1]);
    }
}

/// A purge empties what it is for: with no remote known every entry of the cache that the
/// lock does not hold back, and with a known remote every such entry of its content and of
/// its metadata.
pub proof fn law_purge_empties_the_trees(
    s: Seq<CacheNode>,
    remote: Seq<u8>,
    path: Seq<Seq<u8>>,
    n: CacheNode,
)
    requires
        forall|j: int| 0 <= j < path.len() ==> #[trigger] path[j] != lock_name(),
        n matches CacheNode::Folder { entries, .. } ==> lock_free(entries@),
    ensures
        holds(s, path, n) ==> purged_cuts(s, None).contains(
            Cut { path, folder: n is Folder, bytes: own_bytes(n) },
        ),
        holds(below(below(s, native::utf8("vfs"@)), remote), path, n) ==> purged_cuts(
            s,
            Some(remote),
        ).contains(
            Cut {
                path: seq![native::utf8("vfs"@), remote] + path,
                folder: n is Folder,
                bytes: own_bytes(n),
            },
        ),
        holds(below(below(s, native::utf8("vfsMeta"@)), remote), path, n) ==> purged_cuts(
            s,
            Some(remote),
        ).contains(
            Cut {
                path: seq![native::utf8("vfsMeta"@), remote] + path,
                folder: n is Folder,
                bytes: own_bytes(n),
            },
        ),
{
    let none = Seq::<Seq<u8>>::empty();
    if holds(s, path, n) {
        let i = law_every_entry_is_removed(none, s, path, n);
        assert(none + path == path);
        assert(purged_cuts(s, None)[i] == list_cuts(none, s)[i]);
    }
    let content = tree_of(s, "vfs"@, remote);
    let meta = tree_of(s, "vfsMeta"@, remote);
    let cuts = list_cuts(remote_tree("vfs"@, remote), content);
    let all = purged_cuts(s, Some(remote));
    if holds(content, path, n) {
        let i = law_every_entry_is_removed(remote_tree("vfs"@, remote), content, path, n);
        assert(all[i] == cuts[i]);
    }
    if holds(meta, path, n) {
        let i = law_every_entry_is_removed(remote_tree("vfsMeta"@, remote), meta, path, n);
        assert(all[cuts.len() + i] == list_cuts(remote_tree("vfsMeta"@, remote), meta)[i]);
    }
}

/// A dry run announces the entries of the trees that a purge would empty.
pub proof fn law_purge_preview(s: Seq<CacheNode>, remote: Seq<u8>, p: Seq<Seq<u8>>)
    ensures
        purge_preview(s, None).contains(p) <==> exists|i: int|
            0 <= i < s.len() && node_name(#[trigger] s[i]) != lock_name() && p == seq![
                node_name(s[i]),
            ],
        ({
            let content = below(below(s, native::utf8("vfs"@)), remote);
            let meta = below(below(s, native::utf8("vfsMeta"@)), remote);
            purge_preview(s, Some(remote)).contains(p) <==> (exists|i: int|
                0 <= i < content.len() && node_name(#[trigger] content[i]) != lock_name() && p
                    == seq![native::utf8("vfs"@), remote, node_name(content[i])]) || (exists|i: int|
                0 <= i < meta.len() && node_name(#[trigger] meta[i]) != lock_name() && p == seq![
                    native::utf8("vfsMeta"@),
                    remote,
                    node_name(meta[i]),
                ])
        }),
{
    let none = Seq::<Seq<u8>>::empty();
    let any = vstd::pervasive::arbitrary::<CacheNode>();
    law_preview(none, s, any, p);
    assert(forall|i: int| none.push(node_name(#[trigger] s[i])) =~= seq![node_name(s[i])]);
    let content = tree_of(s, "vfs"@, remote);
    let meta = tree_of(s, "vfsMeta"@, remote);
    let a = remote_tree("vfs"@, remote);
    let b = remote_tree("vfsMeta"@, remote);
    law_preview(a, content, any, p);
    law_preview(b, meta, any, p);
    assert(forall|i: int|
        a.push(node_name(#[trigger] content[i])) =~= seq![
            native::utf8("vfs"@),
            remote,
            node_name(content[i]),
        ]);
    assert(forall|i: int|
        b.push(node_name(#[trigger] meta[i])) =~= seq![
            native::utf8("vfsMeta"@),
            remote,
            node_name(meta[i]),
        ]);
    let x = previewed(a, content);
    let y = previewed(b, meta);
    let both = x + y;
    if both.contains(p) {
        let k = both.index_of(p);
        if k < x.len() {
            assert(x[k] == p);
        } else {
            assert(y[k - x.len()] == p);
        }
    }
    if x.contains(p) {
        assert(both[x.index_of(p)] == p);
    }
    if y.contains(p) {
        assert(both[x.len() + y.index_of(p)] == p);
    }
}

/// The bytes that a deletion frees are those of the removals that succeeded, and of no
/// others.
pub proof fn law_freed_bytes(s: Seq<Cut>, done: Seq<bool>, cut: Cut, ok: bool)
    requires
        s.len() == done.len(),
    ensures
        freed(Seq::empty(), Seq::empty()) == 0,
        freed(s.push(cut), done.push(ok)) == freed(s, done) + if ok {
            cut.bytes
        } else {
            0
        },
        cut_bytes(s.push(cut)) == cut_bytes(s) + cut.bytes,
{
    assert(s.push(cut).drop_last() == s);
    lemma_freed_prefix(s, done, done.push(ok));
}

proof fn lemma_freed_prefix(s: Seq<Cut>, a: Seq<bool>, b: Seq<bool>)
    requires
        forall|i: int| 0 <= i < s.len() ==> #[trigger] a[i] == b[i],
    ensures
        freed(s, a) == freed(s, b),
    decreases s.len(),
{
    if s.len() > 0 {
        assert(a[s.len() - 1] == b[s.len() - 1]);
        lemma_freed_prefix(s.drop_last(), a, b);
    }
}

/// Rounding goes to the nearest whole number: it is off by half at most, and by exactly
/// half only towards an even number.
pub proof fn law_rounding(a: nat, b: nat)
    requires
        b > 0,
    ensures
        2 * (half_even(a, b) * b - a) <= b,
        2 * (a - half_even(a, b) * b) <= b,
        2 * (half_even(a, b) * b - a) == b || 2 * (a - half_even(a, b) * b) == b ==> half_even(
            a,
            b,
        ) % 2 == 0,
        a < 9007199254740992 ==> double_near(a) == a,
{
    let q = a / b;
    let r = a % b;
    assert(a == q * b + r && r < b) by (nonlinear_arith)
        requires
            q == a / b,
            r == a % b,
            b > 0,
    ;
    assert((q + 1) * b == q * b + b) by (nonlinear_arith);
    if a < 9007199254740992 {
        assert(double_step(a) == 1);
        assert(half_even(a, 1) == a);
    }
}

/// How a byte count is displayed: in bytes below 1024, and otherwise in the largest binary
/// unit that it reaches, with the count itself in brackets. A whole multiple of the unit
/// shows no decimals, any other count the two that come nearest to it.
pub proof fn law_bytes_text(bytes: nat, unit: Seq<char>, size: nat)
    requires
        bytes < 9007199254740992,
        (unit == "KiB"@ && size == 1024) || (unit == "MiB"@ && size == 1048576) || (unit == "GiB"@
            && size == 1073741824) || (unit == "TiB"@ && size == 1099511627776) || (unit == "PiB"@
            && size == 1125899906842624),
        size <= bytes,
        bytes < 1024 * size,
    ensures
        bytes % size == 0 ==> bytes_text(bytes) == text::decimal(bytes / size) + unit + (" ("@
            + text::decimal(bytes) + " Bytes)"@),
        bytes % size != 0 ==> exists|h: nat|
            2 * (h * size - 100 * bytes) <= size && 2 * (100 * bytes - h * size) <= size
                && bytes_text(bytes) == #[trigger] text::decimal(h / 100) + "."@ + text::decimal(
                (h / 10) % 10,
            ) + text::decimal(h % 10) + unit + (" ("@ + text::decimal(bytes) + " Bytes)"@),
{
    law_rounding(bytes, 1);
    law_rounding(bytes * 100, size);
    let h = half_even(double_near(bytes) * 100, size);
    assert((h % 100) / 10 == (h / 10) % 10);
    if bytes % size != 0 {
        assert(bytes_text(bytes) == text::decimal(h / 100) + "."@ + text::decimal((h / 10) % 10)
            + text::decimal(h % 10) + unit + (" ("@ + text::decimal(bytes) + " Bytes)"@));
    }
}

/// Small counts are displayed in bytes, in either form.
pub proof fn law_small_bytes_text(bytes: nat)
    requires
        bytes < 1024,
    ensures
        bytes_text(bytes) == text::decimal(bytes) + " Bytes"@,
        compact_text(bytes) == text::decimal(bytes) + "B"@,
{
}

/// The compact form of a larger count: the one decimal that comes nearest to it, in MiB
/// from the first MiB on and in KiB below.
pub proof fn law_compact_text(bytes: nat) -> (tenths: nat)
    requires
        1024 <= bytes < 9007199254740992,
    ensures
        ({
            let size: nat = if bytes < 1048576 {
                1024
            } else {
                1048576
            };
            &&& 2 * (tenths * size - 10 * bytes) <= size
            &&& 2 * (10 * bytes - tenths * size) <= size
            &&& compact_text(bytes) == text::decimal(tenths / 10) + "."@ + text::decimal(
                tenths % 10,
            ) + if bytes < 1048576 {
                "KiB"@
            } else {
                "MiB"@
            }
        }),
{
    let size: nat = if bytes < 1048576 {
        1024
    } else {
        1048576
    };
    law_rounding(bytes, 1);
    law_rounding(bytes * 10, size);
    half_even(double_near(bytes) * 10, size)
}

/// How a maximum file size is described: the two special values in words, a limit as a
/// byte count, anything else as invalid.
pub proof fn law_max_size_text(max: int)
    ensures
        max == -1 ==> text::starts_with(max_size_text(max), "metadata only"@),
        max == 0 ==> text::starts_with(max_size_text(max), "all files"@),
        max > 0 ==> max_size_text(max) == bytes_text(max as nat),
        max < -1 ==> max_size_text(max) == "invalid ("@ + text::signed_decimal(max) + ")"@,
{
    reveal_strlit("metadata only");
    reveal_strlit("metadata only (−1: no File contents read)");
    reveal_strlit("all files");
    reveal_strlit("all files (0: File contents read for every size)");
    if max == -1 {
        assert(max_size_text(max).subrange(0, 13) =~= "metadata only"@);
    }
    if max == 0 {
        assert(max_size_text(max).subrange(0, 9) =~= "all files"@);
    }
}

/// The removals of a directory are those of its entries, one after the other: one for a file
/// or anything else that is no directory, none for what bears the name of the lock, and for a
/// directory those of its entries followed by its own, unless something named like the lock
/// lies below it. Nothing is removed twice.
pub proof fn law_removals_add_up(
    at: Seq<Seq<u8>>,
    a: Seq<CacheNode>,
    b: Seq<CacheNode>,
    n: CacheNode,
)
    ensures
        list_cuts(at, a + b) == list_cuts(at, a) + list_cuts(at, b),
        list_cuts(at, Seq::empty()) == Seq::<Cut>::empty(),
        node_name(n) == lock_name() ==> list_cuts(at, seq![n]) == Seq::<Cut>::empty(),
        node_name(n) != lock_name() ==> list_cuts(at, seq![n]) == match n {
            CacheNode::File { len, .. } => seq![
                Cut { path: at.push(node_name(n)), folder: false, bytes: len as nat },
            ],
            CacheNode::Other { .. } => seq![
                Cut { path: at.push(node_name(n)), folder: false, bytes: 0 },
            ],
            CacheNode::Folder { entries, .. } => if lock_free(entries@) {
                list_cuts(at.push(node_name(n)), entries@).push(
                    Cut { path: at.push(node_name(n)), folder: true, bytes: 0 },
                )
            } else {
                list_cuts(at.push(node_name(n)), entries@)
            },
        },
    decreases b.len(),
{
    let none = Seq::<CacheNode>::empty();
    assert(list_cuts(at, none) =~= Seq::<Cut>::empty());
    if b.len() == 0 {
        assert(a + b =~= a);
        assert(b =~= none);
    } else {
        assert((a + b).drop_last() =~= a + b.drop_last());
        assert((a + b).last() == b.last());
        law_removals_add_up(at, a, b.drop_last(), n);
        assert(list_cuts(at, a + b) =~= list_cuts(at, a) + list_cuts(at, b));
    }
    let one = seq![n];
    assert(one.drop_last() =~= none);
    assert(one.last() == n);
    assert(list_cuts(at, one) == list_cuts(at, none) + node_cuts(at, n));
    assert(list_cuts(at, one) =~= node_cuts(at, n));
    if let CacheNode::Folder { entries, .. } = n {
        lemma_keeps(entries@);
    }
}

/// A purge of a remote empties its content first and its metadata then, and one without a
/// known remote everything; the bytes that it plans to free are those of what it empties.
pub proof fn law_purge_takes_trees_in_order(s: Seq<CacheNode>, remote: Seq<u8>)
    ensures
        ({
            let content = below(below(s, native::utf8("vfs"@)), remote);
            let meta = below(below(s, native::utf8("vfsMeta"@)), remote);
            &&& purged_cuts(s, Some(remote)) == list_cuts(
                seq![native::utf8("vfs"@), remote],
                content,
            ) + list_cuts(seq![native::utf8("vfsMeta"@), remote], meta)
            &&& purged_bytes(s, Some(remote)) == list_bytes(content) + list_bytes(meta)
            &&& purge_preview(s, Some(remote)) == previewed(
                seq![native::utf8("vfs"@), remote],
                content,
            ) + previewed(seq![native::utf8("vfsMeta"@), remote], meta)
        }),
        purged_cuts(s, None) == list_cuts(Seq::empty(), s),
        purged_bytes(s, None) == list_bytes(s),
        purge_preview(s, None) == previewed(Seq::empty(), s),
{
}

} // verus!
