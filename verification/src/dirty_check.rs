//! Protect dirty rclone VFS entries before cache removal.
//!
//! rclone keeps one JSON file per cached object below `<cache-dir>/vfsMeta`. While such
//! a file says `Dirty`, the object has not been saved to its source, and the cache must
//! not be emptied. The wait for it is bounded by the size of the object.

use vstd::prelude::*;
use vstd::string::StringExecFns;

use crate::native;
use crate::native::NativePath;
use crate::report::{no_texts, say};
use crate::text;
use crate::text::{
    chars_of, slice_eq, slice_is, slice_lower, slice_signed_number, u64_text,
};

verus! {

/// A value of a metadata file, as far as it can be read as a truth value, a number or
/// a text.
#[derive(Debug, Clone)]
pub struct MetaValue {
    pub truth: Option<bool>,
    pub unsigned: Option<u64>,
    pub signed: Option<i64>,
    pub text: Option<String>,
}

/// The mathematical form of a metadata value.
pub struct Reading {
    pub truth: Option<bool>,
    pub unsigned: Option<u64>,
    pub signed: Option<i64>,
    pub text: Option<Seq<char>>,
}

impl View for MetaValue {
    type V = Reading;

    open spec fn view(&self) -> Reading {
        Reading {
            truth: self.truth,
            unsigned: self.unsigned,
            signed: self.signed,
            text: match self.text {
                Some(s) => Some(s@),
                None => None,
            },
        }
    }
}

/// The views of the members of an object.
pub open spec fn members(v: Seq<(String, MetaValue)>) -> Seq<(Seq<char>, Reading)> {
    v.map_values(|m: (String, MetaValue)| (m.0@, m.1@))
}

/// The view of a document: the members of an object in the order in which the parser
/// gives them, nothing for a document that is no object, or why it is no document.
pub open spec fn document(r: Result<Option<Vec<(String, MetaValue)>>, String>) -> Result<
    Option<Seq<(Seq<char>, Reading)>>,
    Seq<char>,
> {
    match r {
        Ok(Some(v)) => Ok(Some(members(v@))),
        Ok(None) => Ok(None),
        Err(e) => Err(e@),
    }
}

/// What `serde_json` reads in a text.
pub uninterp spec fn json_document(text: Seq<char>) -> Result<
    Option<Seq<(Seq<char>, Reading)>>,
    Seq<char>,
>;

/// Parses a text with `serde_json::from_str` into a value and takes it apart: the
/// members of an object, each as far as `as_bool`, `as_u64`, `as_i64` and `as_str` read
/// it, and the parser's message for a text that is no JSON. The contract names the
/// result, which depends on the text alone.
#[verifier::external_body]
fn read_json(text: &str) -> (r: Result<Option<Vec<(String, MetaValue)>>, String>)
    ensures
        document(r) == json_document(text@),
{
    let value: serde_json::Value = serde_json::from_str(text).map_err(|e| e.to_string())?;
    let read = |v: &serde_json::Value| MetaValue {
        truth: v.as_bool(),
        unsigned: v.as_u64(),
        signed: v.as_i64(),
        text: v.as_str().map(|s| s.to_string()),
    };
    Ok(value.as_object().map(|o| o.iter().map(|(k, v)| (k.clone(), read(v))).collect()))
}

/// The first member whose key is `name` but for the case of ASCII letters.
pub open spec fn member(s: Seq<(Seq<char>, Reading)>, name: Seq<char>) -> Option<Reading>
    decreases s.len(),
{
    if s.len() == 0 {
        None
    } else if text::lower_all(s[0].0) == text::lower_all(name) {
        Some(s[0].1)
    } else {
        member(s.drop_first(), name)
    }
}

/// The value is `true`, or a text that says so in any mixture of cases.
pub open spec fn says_true(v: Reading) -> bool {
    match v.truth {
        Some(b) => b,
        None => match v.text {
            Some(s) => text::lower_all(s) == "true"@,
            None => false,
        },
    }
}

/// The non-negative number that a value holds or spells.
pub open spec fn size_of(v: Option<Reading>) -> Option<nat> {
    match v {
        None => None,
        Some(r) => if r.unsigned is Some {
            Some(r.unsigned->0 as nat)
        } else if r.signed is Some && r.signed->0 >= 0 {
            Some(r.signed->0 as nat)
        } else {
            match r.text {
                Some(s) => text::number_value(s, u64::MAX as nat),
                None => None,
            }
        },
    }
}

fn same_ignoring_case(a: &str, b: &str) -> (r: bool)
    ensures
        r == (text::lower_all(a@) == text::lower_all(b@)),
{
    let x = chars_of(a);
    let y = chars_of(b);
    slice_eq(slice_lower(x.as_slice()).as_slice(), slice_lower(y.as_slice()).as_slice())
}

/// Find a member by name, ignoring the case of ASCII letters.
pub fn field<'a>(object: &'a Vec<(String, MetaValue)>, name: &str) -> (r: Option<&'a MetaValue>)
    ensures
        match r {
            Some(v) => member(members(object@), name@) == Some(v@),
            None => member(members(object@), name@) is None,
        },
{
    let ghost all = members(object@);
    let mut i: usize = 0;
    assert(all.skip(0) == all);
    while i < object.len()
        invariant
            i <= object.len(),
            all == members(object@),
            member(all, name@) == member(all.skip(i as int), name@),
        decreases object.len() - i,
    {
        assert(all.skip(i as int)[0] == (object@[i as int].0@, object@[i as int].1@));
        assert(all.skip(i as int).drop_first() == all.skip(i as int + 1));
        if same_ignoring_case(object[i].0.as_str(), name) {
            return Some(&object[i].1);
        }
        i = i + 1;
    }
    None
}

/// Whether a value says true.
pub fn true_value(v: &MetaValue) -> (r: bool)
    ensures
        r == says_true(v@),
{
    match v.truth {
        Some(b) => b,
        None => match &v.text {
            Some(s) => {
                let c = chars_of(s.as_str());
                slice_is(slice_lower(c.as_slice()).as_slice(), "true")
            },
            None => false,
        },
    }
}

/// The view of an optional value.
pub open spec fn maybe(v: Option<&MetaValue>) -> Option<Reading> {
    match v {
        Some(m) => Some(m@),
        None => None,
    }
}

/// The size that a value holds or spells.
pub fn number(v: Option<&MetaValue>) -> (r: Option<u64>)
    ensures
        match r {
            Some(n) => size_of(maybe(v)) == Some(n as nat),
            None => size_of(maybe(v)) is None,
        },
{
    match v {
        None => None,
        Some(m) => {
            if let Some(n) = m.unsigned {
                return Some(n);
            }
            if let Some(n) = m.signed {
                if n >= 0 {
                    return Some(n as u64);
                }
            }
            match &m.text {
                Some(s) => {
                    let c = chars_of(s.as_str());
                    slice_signed_number(c.as_slice(), u64::MAX)
                },
                None => None,
            }
        },
    }
}

/// An entry that rclone has not saved to its source: its metadata file and the size of
/// its content.
#[derive(Debug, Clone, PartialEq, Eq)]
pub struct DirtyEntry {
    pub metadata_path: NativePath,
    pub content_size: u64,
}

/// What came of opening and reading a metadata file.
#[derive(Debug)]
pub enum MetaFile {
    /// The file could not be opened: the reason.
    Unopened(String),
    /// The file could not be read: the reason.
    Unread(String),
    /// The text of the file.
    Read(String),
}

/// What a document says of its object: whether it is dirty, and then how large. A
/// missing or unusable size is taken from the length of the metadata file.
pub open spec fn judged(
    shown: Seq<char>,
    doc: Result<Option<Seq<(Seq<char>, Reading)>>, Seq<char>>,
    file_len: nat,
) -> Result<Option<nat>, Seq<char>> {
    match doc {
        Err(e) => Err("invalid rclone metadata JSON "@ + shown + ": "@ + e),
        Ok(None) => Ok(None),
        Ok(Some(object)) => match member(object, "Dirty"@) {
            None => Ok(None),
            Some(v) => if !says_true(v) {
                Ok(None)
            } else {
                match size_of(member(object, "Size"@)) {
                    Some(n) => Ok(Some(n)),
                    None => Ok(Some(file_len)),
                }
            },
        },
    }
}

/// The view of a verdict on a metadata file.
pub open spec fn verdict(r: Result<Option<u64>, String>) -> Result<Option<nat>, Seq<char>> {
    match r {
        Ok(Some(n)) => Ok(Some(n as nat)),
        Ok(None) => Ok(None),
        Err(m) => Err(m@),
    }
}

/// Decides from a document that has been read whether its object is dirty.
pub fn judge_metadata(
    shown: &str,
    doc: Result<Option<Vec<(String, MetaValue)>>, String>,
    file_len: u64,
) -> (r: Result<Option<u64>, String>)
    ensures
        verdict(r) == judged(shown@, document(doc), file_len as nat),
{
    let object = match doc {
        Err(e) => {
            let mut m = "invalid rclone metadata JSON ".to_string();
            m.append(shown);
            m.append(": ");
            m.append(e.as_str());
            return Err(m);
        },
        Ok(None) => {
            return Ok(None);
        },
        Ok(Some(object)) => object,
    };
    match field(&object, "Dirty") {
        None => {
            return Ok(None);
        },
        Some(v) => {
            if !true_value(v) {
                return Ok(None);
            }
        },
    }
    match number(field(&object, "Size")) {
        Some(n) => Ok(Some(n)),
        None => Ok(Some(file_len)),
    }
}

/// Decides from a metadata file whether its object is dirty, and then how large it is.
pub fn parse_dirty_metadata(shown: &str, file: MetaFile, file_len: u64) -> (r: Result<
    Option<u64>,
    String,
>)
    ensures
        match file {
            MetaFile::Unopened(e) => r is Err && r->Err_0@
                == "cannot open rclone metadata read-only "@ + shown@ + ": "@ + e@,
            MetaFile::Unread(e) => r is Err && r->Err_0@ == "cannot read rclone metadata "@
                + shown@ + ": "@ + e@,
            MetaFile::Read(content) => verdict(r) == judged(
                shown@,
                json_document(content@),
                file_len as nat,
            ),
        },
{
    match file {
        MetaFile::Unopened(e) => {
            let mut m = "cannot open rclone metadata read-only ".to_string();
            m.append(shown);
            m.append(": ");
            m.append(e.as_str());
            Err(m)
        },
        MetaFile::Unread(e) => {
            let mut m = "cannot read rclone metadata ".to_string();
            m.append(shown);
            m.append(": ");
            m.append(e.as_str());
            Err(m)
        },
        MetaFile::Read(content) => judge_metadata(shown, read_json(content.as_str()), file_len),
    }
}

/// The directory whose metadata decides: that of one remote, or of all.
pub open spec fn metadata_dir(cache: Seq<native::Part>, remote: Option<Seq<native::Part>>) -> Seq<
    native::Part,
> {
    let all = native::joined(cache, seq![native::named("vfsMeta"@)]);
    match remote {
        Some(name) => native::joined(all, name),
        None => all,
    }
}

/// The directory to scan for metadata.
pub fn metadata_root(cache: &NativePath, remote: Option<&NativePath>) -> (r: NativePath)
    ensures
        r@ == metadata_dir(
            cache@,
            match remote {
                Some(p) => Some(p@),
                None => None,
            },
        ),
{
    let all = cache.join(&NativePath::of_name("vfsMeta"));
    match remote {
        Some(name) => all.join(name),
        None => all,
    }
}

/// What stands where the metadata directory should be.
#[derive(Debug, Clone, Copy, PartialEq, Eq, Structural)]
pub enum RootState {
    Missing,
    NotADirectory,
    Directory,
}

/// Whether there is a directory to scan; anything else in its place is an error.
pub fn scan_root(shown: &str, state: RootState) -> (r: Result<bool, String>)
    ensures
        match state {
            RootState::Missing => r == Ok::<bool, String>(false),
            RootState::Directory => r == Ok::<bool, String>(true),
            RootState::NotADirectory => r is Err && r->Err_0@
                == "rclone metadata path is not a directory: "@ + shown@,
        },
{
    match state {
        RootState::Missing => Ok(false),
        RootState::Directory => Ok(true),
        RootState::NotADirectory => {
            let mut m = "rclone metadata path is not a directory: ".to_string();
            m.append(shown);
            Err(m)
        },
    }
}

/// An entry met while scanning for metadata.
#[derive(Debug)]
pub enum ScanItem {
    /// The walk failed: the reason.
    Failed(String),
    /// A directory, a link or anything else that is no regular file.
    NotAFile,
    /// A regular file.
    File { path: NativePath, shown: String, file: MetaFile, file_len: u64 },
}

/// The view of the entries found dirty.
pub open spec fn found(v: Seq<DirtyEntry>) -> Seq<(Seq<native::Part>, nat)> {
    v.map_values(|e: DirtyEntry| (e.metadata_path@, e.content_size as nat))
}

/// The verdict on a metadata file, opened or not.
pub open spec fn file_verdict(shown: Seq<char>, file: MetaFile, file_len: nat) -> Result<
    Option<nat>,
    Seq<char>,
> {
    match file {
        MetaFile::Unopened(e) => Err(
            "cannot open rclone metadata read-only "@ + shown + ": "@ + e@,
        ),
        MetaFile::Unread(e) => Err("cannot read rclone metadata "@ + shown + ": "@ + e@),
        MetaFile::Read(content) => judged(shown, json_document(content@), file_len),
    }
}

/// What an entry of a scan adds to the list of dirty files: nothing, itself, or the
/// failure that ends the scan.
pub open spec fn scan_entry(root_shown: Seq<char>, item: ScanItem) -> Result<
    Option<(Seq<native::Part>, nat)>,
    Seq<char>,
> {
    match item {
        ScanItem::Failed(e) => Err("cannot traverse rclone metadata "@ + root_shown + ": "@ + e@),
        ScanItem::NotAFile => Ok(None),
        ScanItem::File { path, shown, file, file_len } => match file_verdict(
            shown@,
            file,
            file_len as nat,
        ) {
            Err(m) => Err(m),
            Ok(None) => Ok(None),
            Ok(Some(n)) => Ok(Some((path@, n))),
        },
    }
}

/// What a whole scan finds: the dirty files in the order in which they were met, or the
/// first failure.
pub open spec fn scan_result(root_shown: Seq<char>, items: Seq<ScanItem>) -> Result<
    Seq<(Seq<native::Part>, nat)>,
    Seq<char>,
>
    decreases items.len(),
{
    if items.len() == 0 {
        Ok(Seq::empty())
    } else {
        match scan_result(root_shown, items.drop_last()) {
            Err(m) => Err(m),
            Ok(before) => match scan_entry(root_shown, items.last()) {
                Err(m) => Err(m),
                Ok(None) => Ok(before),
                Ok(Some(entry)) => Ok(before.push(entry)),
            },
        }
    }
}

/// Takes one entry of a scan into account: a dirty file joins the list, and the first
/// failure ends the scan.
pub fn scan(dirty: &mut Vec<DirtyEntry>, root_shown: &str, item: ScanItem) -> (r: Result<
    (),
    String,
>)
    ensures
        match scan_entry(root_shown@, item) {
            Err(m) => final(dirty)@ == old(dirty)@ && r is Err && r->Err_0@ == m,
            Ok(None) => final(dirty)@ == old(dirty)@ && r is Ok,
            Ok(Some(entry)) => found(final(dirty)@) == found(old(dirty)@).push(entry) && r is Ok,
        },
{
    match item {
        ScanItem::Failed(e) => {
            let mut m = "cannot traverse rclone metadata ".to_string();
            m.append(root_shown);
            m.append(": ");
            m.append(e.as_str());
            Err(m)
        },
        ScanItem::NotAFile => Ok(()),
        ScanItem::File { path, shown, file, file_len } => {
            match parse_dirty_metadata(shown.as_str(), file, file_len) {
                Err(m) => Err(m),
                Ok(None) => Ok(()),
                Ok(Some(n)) => {
                    dirty.push(DirtyEntry { metadata_path: path, content_size: n });
                    assert(found(dirty@) == found(old(dirty)@).push((path@, n as nat)));
                    Ok(())
                },
            }
        },
    }
}

/// Whether an entry of a scan is no file, or a metadata file that was read, holds valid
/// JSON and does not call its object dirty.
pub open spec fn saved(item: ScanItem) -> bool {
    match item {
        ScanItem::Failed(_) => false,
        ScanItem::NotAFile => true,
        ScanItem::File { path, shown, file, file_len } => match file {
            MetaFile::Unopened(_) => false,
            MetaFile::Unread(_) => false,
            MetaFile::Read(content) => match json_document(content@) {
                Err(_) => false,
                Ok(None) => true,
                Ok(Some(object)) => match member(object, "Dirty"@) {
                    None => true,
                    Some(v) => !says_true(v),
                },
            },
        },
    }
}

/// A scan ends without a failure and with nothing dirty exactly when every metadata file
/// was read, holds valid JSON and does not call its object dirty.
pub proof fn law_clean_means_all_saved(root_shown: Seq<char>, items: Seq<ScanItem>)
    ensures
        scan_result(root_shown, items) == Ok::<Seq<(Seq<native::Part>, nat)>, Seq<char>>(
            Seq::empty(),
        ) <==> (forall|i: int| 0 <= i < items.len() ==> saved(#[trigger] items[i])),
    decreases items.len(),
{
    if items.len() > 0 {
        let init = items.drop_last();
        law_clean_means_all_saved(root_shown, init);
        let last = items.last();
        assert(saved(last) <==> scan_entry(root_shown, last) == Ok::<
            Option<(Seq<native::Part>, nat)>,
            Seq<char>,
        >(None));
        assert((forall|i: int| 0 <= i < items.len() ==> saved(#[trigger] items[i])) <==> (forall|
            i: int,
        |
            0 <= i < init.len() ==> saved(#[trigger] init[i])) && saved(last)) by {
            assert(items[items.len() - 1] == last);
            assert(forall|i: int| 0 <= i < init.len() ==> #[trigger] init[i] == items[i]);
            assert forall|i: int|
                (forall|k: int| 0 <= k < init.len() ==> saved(#[trigger] init[k])) && saved(last)
                    && 0 <= i < items.len() implies saved(#[trigger] items[i]) by {
                if i < init.len() {
                    assert(init[i] == items[i]);
                }
            }
        }
        if let Ok(before) = scan_result(root_shown, init) {
            if let Ok(Some(entry)) = scan_entry(root_shown, last) {
                assert(before.push(entry).len() > 0);
            }
        }
    }
}

/// The seconds that a dirty entry may take to be saved: one for each 4 KiB of content,
/// at least one, and at most the configured maximum unless that is zero.
pub open spec fn wait_limit(size: nat, configured_max: nat) -> nat {
    let rounded = if size + 4095 > u64::MAX {
        u64::MAX as nat
    } else {
        size + 4095
    };
    let by_size = if rounded / 4096 < 1 {
        1
    } else {
        rounded / 4096
    };
    if configured_max == 0 || by_size <= configured_max {
        by_size
    } else {
        configured_max
    }
}

/// The seconds that an entry of a size may take to be saved.
pub fn calculated_wait_secs(size: u64, configured_max: u64) -> (r: u64)
    ensures
        r == wait_limit(size as nat, configured_max as nat),
{
    let rounded: u64 = if size > u64::MAX - 4095 {
        u64::MAX
    } else {
        size + 4095
    };
    let by_size: u64 = if rounded / 4096 < 1 {
        1
    } else {
        rounded / 4096
    };
    if configured_max == 0 || by_size <= configured_max {
        by_size
    } else {
        configured_max
    }
}

/// The wait for an entry is at least a second and at most the configured maximum, and
/// it does not shrink with the size of the entry.
pub proof fn law_wait_is_bounded(size: nat, larger: nat, configured_max: nat)
    requires
        size <= larger <= u64::MAX,
    ensures
        1 <= wait_limit(size, configured_max),
        configured_max > 0 ==> wait_limit(size, configured_max) <= configured_max,
        wait_limit(size, configured_max) <= wait_limit(larger, configured_max),
        size + 4095 <= u64::MAX ==> wait_limit(size, 0) * 4096 >= size,
{
}

/// When each dirty entry was first seen, in milliseconds of the wait's clock.
#[derive(Debug)]
pub struct CleanWait {
    configured_max: u64,
    interval_ms: u64,
    first_seen: Vec<(NativePath, u64)>,
}

/// The map that a list of entries stands for; a later entry outranks an earlier one.
pub open spec fn seen_map(s: Seq<(NativePath, u64)>) -> Map<Seq<native::Part>, u64>
    decreases s.len(),
{
    if s.len() == 0 {
        Map::empty()
    } else {
        seen_map(s.drop_last()).insert(s.last().0@, s.last().1)
    }
}

/// The path occurs in the list.
pub open spec fn lists(s: Seq<(NativePath, u64)>, path: Seq<native::Part>) -> bool {
    exists|i: int| 0 <= i < s.len() && #[trigger] s[i].0@ == path
}

/// No path occurs twice.
pub open spec fn distinct(s: Seq<(NativePath, u64)>) -> bool {
    forall|i: int, j: int|
        0 <= i < j < s.len() ==> #[trigger] s[i].0@ != #[trigger] s[j].0@
}

proof fn lemma_seen_map(s: Seq<(NativePath, u64)>)
    requires
        distinct(s),
    ensures
        forall|i: int|
            0 <= i < s.len() ==> seen_map(s).contains_key(#[trigger] s[i].0@) && seen_map(
                s,
            )[s[i].0@] == s[i].1,
        forall|p: Seq<native::Part>|
            seen_map(s).contains_key(p) <==> #[trigger] lists(s, p),
    decreases s.len(),
{
    if s.len() > 0 {
        let t = s.drop_last();
        assert forall|i: int, j: int| 0 <= i < j < t.len() implies #[trigger] t[i].0@
            != #[trigger] t[j].0@ by {
            assert(s[i].0@ != s[j].0@);
        }
        lemma_seen_map(t);
        assert forall|i: int| 0 <= i < s.len() implies seen_map(s).contains_key(
            #[trigger] s[i].0@,
        ) && seen_map(s)[s[i].0@] == s[i].1 by {
            if i < t.len() {
                assert(t[i].0@ == s[i].0@);
                assert(s[i].0@ != s[s.len() - 1].0@);
            }
        }
        assert forall|p: Seq<native::Part>|
            seen_map(s).contains_key(p) implies #[trigger] lists(s, p) by {
            if p == s.last().0@ {
                assert(s[s.len() - 1].0@ == p);
            } else {
                assert(seen_map(t).contains_key(p));
                assert(lists(t, p));
                let i = choose|i: int| 0 <= i < t.len() && #[trigger] t[i].0@ == p;
                assert(s[i].0@ == p);
            }
        }
    }
}

/// The path is that of a dirty entry.
pub open spec fn is_dirty(dirty: Seq<DirtyEntry>, path: Seq<native::Part>) -> bool {
    exists|i: int| 0 <= i < dirty.len() && #[trigger] dirty[i].metadata_path@ == path
}

/// What a scan means for the wait.
#[derive(Debug, Clone, Copy, PartialEq, Eq, Structural)]
pub enum Round {
    /// Nothing is dirty: the wait is over.
    Clean,
    /// Some entries are dirty: look at each of them.
    Dirty,
}

/// What one dirty entry means for the wait.
#[derive(Debug)]
pub struct Observation {
    /// The line to print.
    pub line: String,
    /// Why the wait is given up, if it is.
    pub given_up: Option<String>,
}

/// Whole seconds between two readings of a millisecond clock.
pub open spec fn seconds_between(start: nat, now: nat) -> nat {
    if now < start {
        0
    } else {
        ((now - start) / 1000) as nat
    }
}

/// Starts a wait with one look each second.
pub fn wait_until_clean(configured_max: u64) -> (w: CleanWait)
    ensures
        w.wf(),
        w.limit() == configured_max,
        w.interval() == 1000,
        w.seen() == Map::<Seq<native::Part>, u64>::empty(),
{
    wait_until_clean_with_interval(configured_max, 1000)
}

/// Starts a wait with a pause of `interval_ms` milliseconds between two looks.
pub fn wait_until_clean_with_interval(configured_max: u64, interval_ms: u64) -> (w: CleanWait)
    ensures
        w.wf(),
        w.limit() == configured_max,
        w.interval() == interval_ms,
        w.seen() == Map::<Seq<native::Part>, u64>::empty(),
{
    CleanWait { configured_max, interval_ms, first_seen: Vec::new() }
}

impl CleanWait {
    /// No entry is recorded twice.
    pub closed spec fn wf(self) -> bool {
        distinct(self.first_seen@)
    }

    /// When each entry was first seen.
    pub closed spec fn seen(self) -> Map<Seq<native::Part>, u64> {
        seen_map(self.first_seen@)
    }

    /// The configured maximum in seconds; zero for none.
    pub closed spec fn limit(self) -> u64 {
        self.configured_max
    }

    /// The pause between two looks in milliseconds.
    pub closed spec fn interval(self) -> u64 {
        self.interval_ms
    }

    /// The pause between two looks in milliseconds.
    pub fn pause_ms(&self) -> (r: u64)
        ensures
            r == self.interval(),
    {
        self.interval_ms
    }

    /// Begins a look: a stop request ends the wait with an error.
    pub fn begin_look(&self, cancelled: bool) -> (r: Result<(), String>)
        ensures
            match r {
                Ok(_) => !cancelled,
                Err(m) => cancelled && m@ == cancelled_text(),
            },
    {
        if cancelled {
            return Err("cancelled while waiting for dirty rclone metadata".to_string());
        }
        Ok(())
    }

    /// Takes the result of a scan: entries that are no longer dirty are forgotten.
    pub fn take_scan(&mut self, dirty: &Vec<DirtyEntry>) -> (r: Round)
        requires
            old(self).wf(),
        ensures
            final(self).wf(),
            final(self).limit() == old(self).limit(),
            final(self).interval() == old(self).interval(),
            (r == Round::Clean) == (dirty@.len() == 0),
            forall|p: Seq<native::Part>| #[trigger]
                final(self).seen().contains_key(p) <==> old(self).seen().contains_key(p)
                    && is_dirty(dirty@, p),
            forall|p: Seq<native::Part>| #[trigger]
                final(self).seen().contains_key(p) ==> final(self).seen()[p] == old(
                    self,
                ).seen()[p],
    {
        let ghost before = self.first_seen@;
        let mut kept: Vec<(NativePath, u64)> = Vec::new();
        let mut i: usize = 0;
        while i < self.first_seen.len()
            invariant
                i <= self.first_seen@.len(),
                self.first_seen@ == before,
                self.configured_max == old(self).configured_max,
                self.interval_ms == old(self).interval_ms,
                distinct(before),
                distinct(kept@),
                forall|k: int|
                    0 <= k < kept@.len() ==> is_dirty(dirty@, #[trigger] kept@[k].0@) && exists|
                        j: int,
                    |
                        0 <= j < i && #[trigger] before[j].0@ == kept@[k].0@ && before[j].1
                            == kept@[k].1,
                forall|j: int|
                    0 <= j < i && is_dirty(dirty@, #[trigger] before[j].0@) ==> lists(
                        kept@,
                        before[j].0@,
                    ),
            decreases before.len() - i,
        {
            let item = &self.first_seen[i];
            let mut still = false;
            let mut j: usize = 0;
            while j < dirty.len()
                invariant
                    j <= dirty.len(),
                    still == exists|k: int|
                        0 <= k < j && #[trigger] dirty@[k].metadata_path@ == item.0@,
                decreases dirty.len() - j,
            {
                if dirty[j].metadata_path.same(&item.0) {
                    assert(dirty@[j as int].metadata_path@ == item.0@);
                    still = true;
                }
                j = j + 1;
            }
            assert(still == is_dirty(dirty@, before[i as int].0@));
            if still {
                let ghost old_kept = kept@;
                kept.push((item.0.copy(), item.1));
                proof {
                    assert forall|k: int| 0 <= k < old_kept.len() implies #[trigger] old_kept[k].0@
                        != item.0@ by {
                        let j = choose|j: int|
                            0 <= j < i && #[trigger] before[j].0@ == old_kept[k].0@ && before[j].1
                                == old_kept[k].1;
                        assert(before[j].0@ != before[i as int].0@);
                    }
                    assert forall|k: int, l: int| 0 <= k < l < kept@.len() implies
                        #[trigger] kept@[k].0@ != #[trigger] kept@[l].0@ by {
                        assert(old_kept[k] == kept@[k]);
                        if l < old_kept.len() {
                            assert(old_kept[l] == kept@[l]);
                        }
                    }
                    assert forall|k: int| 0 <= k < kept@.len() implies is_dirty(
                        dirty@,
                        #[trigger] kept@[k].0@,
                    ) && exists|j: int|
                        0 <= j < i + 1 && #[trigger] before[j].0@ == kept@[k].0@ && before[j].1
                            == kept@[k].1 by {
                        if k < old_kept.len() {
                            assert(old_kept[k] == kept@[k]);
                            let j = choose|j: int|
                                0 <= j < i && #[trigger] before[j].0@ == old_kept[k].0@
                                    && before[j].1 == old_kept[k].1;
                            assert(before[j].0@ == kept@[k].0@);
                        } else {
                            assert(before[i as int].0@ == kept@[k].0@);
                        }
                    }
                    assert forall|j: int|
                        0 <= j < i + 1 && is_dirty(dirty@, #[trigger] before[j].0@) implies lists(
                        kept@,
                        before[j].0@,
                    ) by {
                        if j < i {
                            let k = choose|k: int|
                                0 <= k < old_kept.len() && #[trigger] old_kept[k].0@
                                    == before[j].0@;
                            assert(kept@[k].0@ == before[j].0@);
                        } else {
                            assert(kept@[kept@.len() - 1].0@ == before[j].0@);
                        }
                    }
                }
            }
            i = i + 1;
        }
        self.first_seen = kept;
        proof {
            lemma_seen_map(before);
            lemma_seen_map(self.first_seen@);
            let now = self.first_seen@;
            assert forall|p: Seq<native::Part>| #[trigger]
                seen_map(now).contains_key(p) implies seen_map(before).contains_key(p) && is_dirty(
                dirty@,
                p,
            ) && seen_map(now)[p] == seen_map(before)[p] by {
                assert(lists(now, p));
                let k = choose|k: int| 0 <= k < now.len() && #[trigger] now[k].0@ == p;
                let j = choose|j: int|
                    0 <= j < before.len() && #[trigger] before[j].0@ == now[k].0@ && before[j].1
                        == now[k].1;
                assert(seen_map(before)[before[j].0@] == before[j].1);
            }
            assert forall|p: Seq<native::Part>|
                seen_map(before).contains_key(p) && is_dirty(dirty@, p) implies #[trigger] seen_map(
                now,
            ).contains_key(p) by {
                assert(lists(before, p));
                let j = choose|j: int| 0 <= j < before.len() && #[trigger] before[j].0@ == p;
                assert(lists(now, before[j].0@));
            }
        }
        if dirty.len() == 0 {
            Round::Clean
        } else {
            Round::Dirty
        }
    }

    /// Looks at one dirty entry at time `now_ms`: its wait starts when it is first seen,
    /// and it is given up once the limit for its size is reached.
    pub fn observe(&mut self, item: &DirtyEntry, shown: &str, now_ms: u64) -> (r: Observation)
        requires
            old(self).wf(),
        ensures
            final(self).wf(),
            final(self).limit() == old(self).limit(),
            final(self).interval() == old(self).interval(),
            ({
                let path = item.metadata_path@;
                let start = first_seen_at(old(self).seen(), path, now_ms);
                let elapsed = seconds_between(start as nat, now_ms as nat);
                let limit = wait_limit(item.content_size as nat, old(self).limit() as nat);
                &&& final(self).seen() == old(self).seen().insert(path, start)
                &&& r.line@ == waiting_text(shown@, elapsed, limit)
                &&& r.given_up is Some <==> elapsed >= limit
                &&& r.given_up matches Some(m) ==> m@ == overdue_text(shown@, elapsed)
            }),
    {
        let ghost before = self.first_seen@;
        let ghost path = item.metadata_path@;
        let mut start: Option<u64> = None;
        let mut i: usize = 0;
        while i < self.first_seen.len()
            invariant
                i <= self.first_seen@.len(),
                self.first_seen@ == before,
                self.configured_max == old(self).configured_max,
                self.interval_ms == old(self).interval_ms,
                path == item.metadata_path@,
                distinct(before),
                match start {
                    Some(t) => exists|j: int|
                        0 <= j < i && #[trigger] before[j].0@ == path && before[j].1 == t,
                    None => forall|j: int| 0 <= j < i ==> #[trigger] before[j].0@ != path,
                },
            decreases before.len() - i,
        {
            if self.first_seen[i].0.same(&item.metadata_path) {
                assert(before[i as int].0@ == path);
                start = Some(self.first_seen[i].1);
            }
            i = i + 1;
        }
        proof {
            lemma_seen_map(before);
            assert(seen_map(before).contains_key(path) <==> lists(before, path));
        }
        let started: u64 = match start {
            Some(t) => {
                assert(seen_map(before)[path] == t);
                assert(seen_map(before).insert(path, t) == seen_map(before));
                t
            },
            None => {
                self.first_seen.push((item.metadata_path.copy(), now_ms));
                proof {
                    let after = self.first_seen@;
                    assert(after.drop_last() == before);
                    assert forall|i: int, j: int| 0 <= i < j < after.len() implies
                        #[trigger] after[i].0@ != #[trigger] after[j].0@ by {
                        assert(before[i] == after[i]);
                        if j < before.len() {
                            assert(before[j] == after[j]);
                        }
                    }
                }
                now_ms
            },
        };
        let elapsed: u64 = if now_ms < started {
            0
        } else {
            (now_ms - started) / 1000
        };
        let limit: u64 = calculated_wait_secs(item.content_size, self.configured_max);
        let mut line = "   ⏳ Waiting for rclone to save ".to_string();
        line.append(shown);
        line.append(" (Dirty=true) — ");
        line.append(u64_text(elapsed).as_str());
        line.append("s of ");
        line.append(u64_text(limit).as_str());
        line.append("s");
        if elapsed >= limit {
            let mut m = "rclone cache metadata ".to_string();
            m.append(shown);
            m.append(" remained Dirty=true for ");
            m.append(u64_text(elapsed).as_str());
            m.append(
                "s; the cache was not removed because the file has not been saved to the rclone source",
            );
            return Observation { line, given_up: Some(m) };
        }
        Observation { line, given_up: None }
    }
}

/// No entry is waited for without end: once the limit for its size has passed since it
/// was first seen, the elapsed seconds have reached it.
pub proof fn law_deadline_is_kept(start: nat, now: nat, size: nat, configured_max: nat)
    requires
        now >= start + 1000 * wait_limit(size, configured_max),
    ensures
        seconds_between(start, now) >= wait_limit(size, configured_max),
{
}

/// Where a wait stands.
#[derive(Debug)]
pub enum CleanPhase {
    /// Between two looks, and before the first.
    Resting,
    /// Waiting for the result of a scan.
    Scanning,
    /// Looking at the dirty entries of a scan, one after the other.
    Observing { dirty: Vec<DirtyEntry>, at: usize },
    Done(Result<(), String>),
}

/// What the caller of a wait reports.
#[derive(Debug)]
pub enum CleanEvent {
    /// The next look may begin; whether a stop was requested.
    Ready { cancelled: bool },
    Scanned(Result<Vec<DirtyEntry>, String>),
    /// The metadata file of the entry, as displayed, and the time in milliseconds.
    Observed { shown: String, now_ms: u64 },
}

/// What the caller of a wait is to do.
#[derive(Debug)]
pub enum CleanAction {
    /// Scan the metadata.
    Scan,
    /// Report the time for a dirty entry of the last scan.
    Observe(usize),
    /// Pause for this many milliseconds.
    Pause(u64),
    /// The wait is over: nothing is dirty, or why it was given up.
    Finish(Result<(), String>),
}

/// The view of the outcome of a wait.
pub open spec fn outcome(r: Result<(), String>) -> Result<(), Seq<char>> {
    match r {
        Ok(_) => Ok(()),
        Err(m) => Err(m@),
    }
}

/// The mathematical form of a phase.
pub enum Stage {
    Resting,
    Scanning,
    Observing { dirty: Seq<(Seq<native::Part>, nat)>, at: int },
    Done(Result<(), Seq<char>>),
}

impl View for CleanPhase {
    type V = Stage;

    open spec fn view(&self) -> Stage {
        match self {
            CleanPhase::Resting => Stage::Resting,
            CleanPhase::Scanning => Stage::Scanning,
            CleanPhase::Observing { dirty, at } => Stage::Observing {
                dirty: found(dirty@),
                at: *at as int,
            },
            CleanPhase::Done(r) => Stage::Done(outcome(*r)),
        }
    }
}

/// The mathematical form of a report.
pub enum Told {
    Ready { cancelled: bool },
    Scanned(Result<Seq<(Seq<native::Part>, nat)>, Seq<char>>),
    Observed { shown: Seq<char>, now_ms: u64 },
}

impl View for CleanEvent {
    type V = Told;

    open spec fn view(&self) -> Told {
        match self {
            CleanEvent::Ready { cancelled } => Told::Ready { cancelled: *cancelled },
            CleanEvent::Scanned(Ok(dirty)) => Told::Scanned(Ok(found(dirty@))),
            CleanEvent::Scanned(Err(e)) => Told::Scanned(Err(e@)),
            CleanEvent::Observed { shown, now_ms } => Told::Observed {
                shown: shown@,
                now_ms: *now_ms,
            },
        }
    }
}

/// The mathematical form of a request.
pub enum Asked {
    Scan,
    Observe(int),
    Pause(u64),
    Finish(Result<(), Seq<char>>),
}

impl View for CleanAction {
    type V = Asked;

    open spec fn view(&self) -> Asked {
        match self {
            CleanAction::Scan => Asked::Scan,
            CleanAction::Observe(i) => Asked::Observe(*i as int),
            CleanAction::Pause(ms) => Asked::Pause(*ms),
            CleanAction::Finish(r) => Asked::Finish(outcome(*r)),
        }
    }
}

/// The path is that of an entry of the list.
pub open spec fn names(dirty: Seq<(Seq<native::Part>, nat)>, path: Seq<native::Part>) -> bool {
    exists|i: int| 0 <= i < dirty.len() && (#[trigger] dirty[i]).0 == path
}

/// When each entry was first seen, without the entries that are no longer dirty.
pub open spec fn still_dirty(
    seen: Map<Seq<native::Part>, u64>,
    dirty: Seq<(Seq<native::Part>, nat)>,
) -> Map<Seq<native::Part>, u64> {
    Map::new(
        |p: Seq<native::Part>| seen.contains_key(p) && names(dirty, p),
        |p: Seq<native::Part>| seen[p],
    )
}

/// What a wait knows: its limit in seconds, the pause between two looks, when each
/// entry was first seen, and where it stands.
pub struct Wait {
    pub limit: u64,
    pub interval: u64,
    pub seen: Map<Seq<native::Part>, u64>,
    pub stage: Stage,
}

/// The effect of one report on a wait.
pub struct CleanMove {
    pub wait: Wait,
    pub lines: Seq<Seq<char>>,
    pub asked: Asked,
}

/// The wait is over.
pub open spec fn ended(w: Wait, lines: Seq<Seq<char>>, r: Result<(), Seq<char>>) -> CleanMove {
    CleanMove { wait: Wait { stage: Stage::Done(r), ..w }, lines, asked: Asked::Finish(r) }
}

/// Why a wait is given up for a stop request.
pub open spec fn cancelled_text() -> Seq<char> {
    "cancelled while waiting for dirty rclone metadata"@
}

/// What is printed about a dirty entry.
pub open spec fn waiting_text(shown: Seq<char>, elapsed: nat, limit: nat) -> Seq<char> {
    "   ⏳ Waiting for rclone to save "@ + shown + " (Dirty=true) — "@ + text::decimal(elapsed)
        + "s of "@ + text::decimal(limit) + "s"@
}

/// Why a wait is given up for an entry that stays dirty.
pub open spec fn overdue_text(shown: Seq<char>, elapsed: nat) -> Seq<char> {
    "rclone cache metadata "@ + shown + " remained Dirty=true for "@ + text::decimal(elapsed)
        + "s; the cache was not removed because the file has not been saved to the rclone source"@
}

/// When an entry that is seen now was first seen.
pub open spec fn first_seen_at(
    seen: Map<Seq<native::Part>, u64>,
    path: Seq<native::Part>,
    now_ms: u64,
) -> u64 {
    if seen.contains_key(path) {
        seen[path]
    } else {
        now_ms
    }
}

/// A dirty entry was looked at: the wait ends where the entry has reached its limit, and
/// otherwise goes on to the next entry or to the next look.
pub open spec fn on_observed(
    w: Wait,
    dirty: Seq<(Seq<native::Part>, nat)>,
    at: int,
    shown: Seq<char>,
    now_ms: u64,
) -> CleanMove {
    let path = dirty[at].0;
    let start = first_seen_at(w.seen, path, now_ms);
    let elapsed = seconds_between(start as nat, now_ms as nat);
    let limit = wait_limit(dirty[at].1, w.limit as nat);
    let w = Wait { seen: w.seen.insert(path, start), ..w };
    let lines = seq![waiting_text(shown, elapsed, limit)];
    if elapsed >= limit {
        ended(w, lines, Err(overdue_text(shown, elapsed)))
    } else if at + 1 < dirty.len() {
        CleanMove {
            wait: Wait { stage: Stage::Observing { dirty, at: at + 1 }, ..w },
            lines,
            asked: Asked::Observe(at + 1),
        }
    } else {
        CleanMove {
            wait: Wait { stage: Stage::Resting, ..w },
            lines,
            asked: Asked::Pause(w.interval),
        }
    }
}

/// The steps of a wait.
pub open spec fn clean_move(w: Wait, told: Told) -> CleanMove {
    let none = Seq::<Seq<char>>::empty();
    match (w.stage, told) {
        (Stage::Resting, Told::Ready { cancelled }) => if cancelled {
            ended(w, none, Err(cancelled_text()))
        } else {
            CleanMove { wait: Wait { stage: Stage::Scanning, ..w }, lines: none, asked: Asked::Scan }
        },
        (Stage::Scanning, Told::Scanned(Err(e))) => ended(w, none, Err(e)),
        (Stage::Scanning, Told::Scanned(Ok(dirty))) => {
            let w = Wait { seen: still_dirty(w.seen, dirty), ..w };
            if dirty.len() == 0 {
                ended(w, none, Ok(()))
            } else {
                CleanMove {
                    wait: Wait { stage: Stage::Observing { dirty, at: 0 }, ..w },
                    lines: none,
                    asked: Asked::Observe(0),
                }
            }
        },
        (Stage::Observing { dirty, at }, Told::Observed { shown, now_ms }) => on_observed(
            w,
            dirty,
            at,
            shown,
            now_ms,
        ),
        (Stage::Resting, _) => CleanMove { wait: w, lines: none, asked: Asked::Pause(w.interval) },
        (Stage::Scanning, _) => CleanMove { wait: w, lines: none, asked: Asked::Scan },
        (Stage::Observing { dirty, at }, _) => CleanMove {
            wait: w,
            lines: none,
            asked: Asked::Observe(at),
        },
        (Stage::Done(r), _) => CleanMove { wait: w, lines: none, asked: Asked::Finish(r) },
    }
}

/// A phase that speaks of a dirty entry has such an entry.
pub open spec fn has_entry(stage: Stage) -> bool {
    stage matches Stage::Observing { dirty, at } ==> 0 <= at < dirty.len()
}

impl CleanWait {
    /// What the wait knows in a phase.
    pub open spec fn in_phase(self, stage: Stage) -> Wait {
        Wait { limit: self.limit(), interval: self.interval(), seen: self.seen(), stage }
    }
}

/// One step of the wait for clean metadata: the lines to print, the next phase, and what
/// to do. A wait begins in the phase `Resting`.
pub fn clean_step(wait: &mut CleanWait, phase: CleanPhase, event: CleanEvent) -> (r: (
    Vec<String>,
    CleanPhase,
    CleanAction,
))
    requires
        old(wait).wf(),
        has_entry(phase@),
    ensures
        final(wait).wf(),
        has_entry(r.1@),
        ({
            let m = clean_move(old(wait).in_phase(phase@), event@);
            &&& final(wait).in_phase(r.1@) == m.wait
            &&& text::texts(r.0@) == m.lines
            &&& r.2@ == m.asked
        }),
{
    let ghost before = *wait;
    let mut lines = no_texts();
    match (phase, event) {
        (CleanPhase::Resting, CleanEvent::Ready { cancelled }) => match wait.begin_look(cancelled) {
            Err(m) => (lines, CleanPhase::Done(Err(m.clone())), CleanAction::Finish(Err(m))),
            Ok(_) => (lines, CleanPhase::Scanning, CleanAction::Scan),
        },
        (CleanPhase::Scanning, CleanEvent::Scanned(Err(e))) => (
            lines,
            CleanPhase::Done(Err(e.clone())),
            CleanAction::Finish(Err(e)),
        ),
        (CleanPhase::Scanning, CleanEvent::Scanned(Ok(dirty))) => {
            let round = wait.take_scan(&dirty);
            proof {
                lemma_names(dirty@);
                assert(wait.seen() == still_dirty(before.seen(), found(dirty@)));
            }
            match round {
                Round::Clean => (lines, CleanPhase::Done(Ok(())), CleanAction::Finish(Ok(()))),
                Round::Dirty => (
                    lines,
                    CleanPhase::Observing { dirty, at: 0 },
                    CleanAction::Observe(0),
                ),
            }
        },
        (CleanPhase::Observing { dirty, at }, CleanEvent::Observed { shown, now_ms }) => {
            let seen = wait.observe(&dirty[at], shown.as_str(), now_ms);
            say(&mut lines, seen.line.as_str());
            assert(text::texts(lines@) == seq![seen.line@]);
            if let Some(m) = seen.given_up {
                return (lines, CleanPhase::Done(Err(m.clone())), CleanAction::Finish(Err(m)));
            }
            if at < dirty.len() - 1 {
                return (
                    lines,
                    CleanPhase::Observing { dirty, at: at + 1 },
                    CleanAction::Observe(at + 1),
                );
            }
            (lines, CleanPhase::Resting, CleanAction::Pause(wait.pause_ms()))
        },
        (CleanPhase::Resting, _) => (
            lines,
            CleanPhase::Resting,
            CleanAction::Pause(wait.pause_ms()),
        ),
        (CleanPhase::Scanning, _) => (lines, CleanPhase::Scanning, CleanAction::Scan),
        (CleanPhase::Observing { dirty, at }, _) => (
            lines,
            CleanPhase::Observing { dirty, at },
            CleanAction::Observe(at),
        ),
        (CleanPhase::Done(r), _) => {
            let again: Result<(), String> = match &r {
                Ok(_) => Ok(()),
                Err(m) => Err(m.clone()),
            };
            (lines, CleanPhase::Done(r), CleanAction::Finish(again))
        },
    }
}

proof fn lemma_names(dirty: Seq<DirtyEntry>)
    ensures
        forall|p: Seq<native::Part>|
            is_dirty(dirty, p) <==> #[trigger] names(found(dirty), p),
{
    assert forall|p: Seq<native::Part>| is_dirty(dirty, p) <==> #[trigger] names(
        found(dirty),
        p,
    ) by {
        if is_dirty(dirty, p) {
            let i = choose|i: int|
                0 <= i < dirty.len() && #[trigger] dirty[i].metadata_path@ == p;
            assert(found(dirty)[i].0 == p);
        }
        if names(found(dirty), p) {
            let i = choose|i: int| 0 <= i < found(dirty).len() && (#[trigger] found(dirty)[i]).0
                == p;
            assert(dirty[i].metadata_path@ == p);
        }
    }
}

/// A wait that has not begun.
pub open spec fn new_wait(limit: u64, interval: u64) -> Wait {
    Wait { limit, interval, seen: Map::empty(), stage: Stage::Resting }
}

/// What a wait knows after a sequence of reports.
pub open spec fn wait_after(limit: u64, interval: u64, told: Seq<Told>) -> Wait
    decreases told.len(),
{
    if told.len() == 0 {
        new_wait(limit, interval)
    } else {
        clean_move(wait_after(limit, interval, told.drop_last()), told.last()).wait
    }
}

/// What a wait asks for after a sequence of reports, of which there is one at least.
pub open spec fn asked_after(limit: u64, interval: u64, told: Seq<Told>) -> Asked {
    clean_move(wait_after(limit, interval, told.drop_last()), told.last()).asked
}

/// A wait succeeds only on a scan that was asked for, did not fail and found nothing
/// dirty: it is the last report that the wait heeded.
pub proof fn law_success_needs_clean_scan(limit: u64, interval: u64, told: Seq<Told>) -> (k: int)
    requires
        told.len() > 0,
        asked_after(limit, interval, told) == Asked::Finish(Ok(())),
    ensures
        0 <= k < told.len(),
        wait_after(limit, interval, told.take(k)).stage == Stage::Scanning,
        told[k] matches Told::Scanned(Ok(dirty)) && dirty.len() == 0,
        forall|m: int|
            k < m <= told.len() ==> wait_after(limit, interval, #[trigger] told.take(m)).stage
                == Stage::Done(Ok(())),
    decreases told.len(),
{
    let n = told.len() as int;
    let init = told.drop_last();
    assert(told.take(n) == told);
    assert(told.take(n - 1) == init);
    if wait_after(limit, interval, init).stage == Stage::Done(Ok(())) {
        assert(init.len() > 0);
        let k = law_success_needs_clean_scan(limit, interval, init);
        assert(init.take(k) == told.take(k));
        assert forall|m: int| k < m <= n implies wait_after(
            limit,
            interval,
            #[trigger] told.take(m),
        ).stage == Stage::Done(Ok(())) by {
            if m < n {
                assert(init.take(m) == told.take(m));
            }
        }
        k
    } else {
        n - 1
    }
}

/// A wait that hears the result of a scan succeeds on it exactly when the files that the
/// scan met were all read, hold valid JSON and call no object dirty.
pub proof fn law_success_means_all_saved(
    limit: u64,
    interval: u64,
    told: Seq<Told>,
    root_shown: Seq<char>,
    items: Seq<ScanItem>,
)
    requires
        told.len() > 0,
        wait_after(limit, interval, told.drop_last()).stage == Stage::Scanning,
        told.last() == Told::Scanned(scan_result(root_shown, items)),
    ensures
        asked_after(limit, interval, told) == Asked::Finish(Ok(())) <==> (forall|i: int|
            0 <= i < items.len() ==> saved(#[trigger] items[i])),
{
    law_clean_means_all_saved(root_shown, items);
    if let Ok(dirty) = scan_result(root_shown, items) {
        if dirty.len() == 0 {
            assert(dirty == Seq::<(Seq<native::Part>, nat)>::empty());
        }
    }
}

/// A wait whose scan fails ends with the error of the scan.
pub proof fn law_scan_error_is_handed_on(
    limit: u64,
    interval: u64,
    told: Seq<Told>,
    e: Seq<char>,
)
    requires
        told.len() > 0,
        wait_after(limit, interval, told.drop_last()).stage == Stage::Scanning,
        told.last() == Told::Scanned(Err(e)),
    ensures
        asked_after(limit, interval, told) == Asked::Finish(Err(e)),
{
}

/// A stop that is requested before a look ends the wait, and no scan is asked for any
/// more.
pub proof fn law_stop_ends_the_wait(limit: u64, interval: u64, told: Seq<Told>, more: Seq<Told>)
    requires
        wait_after(limit, interval, told).stage == Stage::Resting,
    ensures
        asked_after(limit, interval, told.push(Told::Ready { cancelled: true }) + more)
            == Asked::Finish(Err(cancelled_text())),
    decreases more.len(),
{
    let stopped = told.push(Told::Ready { cancelled: true });
    assert(stopped.drop_last() == told);
    lemma_stays_done(limit, interval, stopped, more, Err(cancelled_text()));
    if more.len() == 0 {
        assert(stopped + more == stopped);
    } else {
        assert((stopped + more).drop_last() == stopped + more.drop_last());
        lemma_stays_done(limit, interval, stopped, more.drop_last(), Err(cancelled_text()));
    }
}

proof fn lemma_stays_done(
    limit: u64,
    interval: u64,
    told: Seq<Told>,
    more: Seq<Told>,
    r: Result<(), Seq<char>>,
)
    requires
        wait_after(limit, interval, told).stage == Stage::Done(r),
    ensures
        wait_after(limit, interval, told + more).stage == Stage::Done(r),
    decreases more.len(),
{
    if more.len() == 0 {
        assert(told + more == told);
    } else {
        lemma_stays_done(limit, interval, told, more.drop_last(), r);
        assert((told + more).drop_last() == told + more.drop_last());
    }
}

/// The wait looks at the entry of `path` when it hears report `k`.
pub open spec fn looks_at(
    limit: u64,
    interval: u64,
    told: Seq<Told>,
    k: int,
    path: Seq<native::Part>,
) -> bool {
    wait_after(limit, interval, told.take(k)).stage matches Stage::Observing { dirty, at }
        && dirty[at].0 == path && told[k] is Observed
}

/// An entry that every scan finds dirty is waited for no longer than the limit for its
/// size: where the clock shows that much time since it was first looked at, the wait
/// ends with an error.
pub proof fn law_overdue_entry_ends_the_wait(
    limit: u64,
    interval: u64,
    told: Seq<Told>,
    path: Seq<native::Part>,
    first: int,
    last: int,
)
    requires
        0 <= first < last < told.len(),
        looks_at(limit, interval, told, first, path),
        !wait_after(limit, interval, told.take(first)).seen.contains_key(path),
        looks_at(limit, interval, told, last, path),
        forall|k: int|
            first < k < last && (#[trigger] told[k]) is Scanned && told[k]->Scanned_0 is Ok
                ==> names(told[k]->Scanned_0->Ok_0, path),
        ({
            let stage = wait_after(limit, interval, told.take(last)).stage;
            let size = stage->dirty[stage->at].1;
            told[last]->now_ms >= told[first]->now_ms + 1000 * wait_limit(size, limit as nat)
        }),
    ensures
        asked_after(limit, interval, told.take(last + 1)) matches Asked::Finish(r) && r is Err,
{
    lemma_remembered(limit, interval, told, path, first, last);
    let w = wait_after(limit, interval, told.take(last));
    assert(told.take(last + 1).drop_last() == told.take(last));
    assert(w.limit == limit) by {
        lemma_limit_kept(limit, interval, told.take(last));
    }
    law_deadline_is_kept(
        told[first]->now_ms as nat,
        told[last]->now_ms as nat,
        w.stage->dirty[w.stage->at].1,
        limit as nat,
    );
}

proof fn lemma_limit_kept(limit: u64, interval: u64, told: Seq<Told>)
    ensures
        wait_after(limit, interval, told).limit == limit,
        wait_after(limit, interval, told).interval == interval,
    decreases told.len(),
{
    if told.len() > 0 {
        lemma_limit_kept(limit, interval, told.drop_last());
    }
}

/// The time at which an entry was first looked at is kept while every scan lists it.
proof fn lemma_remembered(
    limit: u64,
    interval: u64,
    told: Seq<Told>,
    path: Seq<native::Part>,
    first: int,
    k: int,
)
    requires
        0 <= first < k < told.len(),
        looks_at(limit, interval, told, first, path),
        !wait_after(limit, interval, told.take(first)).seen.contains_key(path),
        forall|j: int|
            first < j < k && (#[trigger] told[j]) is Scanned && told[j]->Scanned_0 is Ok ==> names(
                told[j]->Scanned_0->Ok_0,
                path,
            ),
    ensures
        ({
            let seen = wait_after(limit, interval, told.take(k)).seen;
            seen.contains_key(path) && seen[path] == told[first]->now_ms
        }),
    decreases k,
{
    assert(told.take(k).drop_last() == told.take(k - 1));
    assert(told.take(k).last() == told[k - 1]);
    if k - 1 > first {
        lemma_remembered(limit, interval, told, path, first, k - 1);
        if told[k - 1] is Scanned && told[k - 1]->Scanned_0 is Ok {
            assert(names(told[k - 1]->Scanned_0->Ok_0, path));
        }
    }
}

/// A member is looked up among all members of an object: there is none exactly when no
/// key at any index is the name up to the case of letters, and otherwise it is the one at
/// the smallest such index.
pub proof fn law_member_by_index(s: Seq<(Seq<char>, Reading)>, name: Seq<char>, i: int)
    ensures
        member(s, name) is None <==> forall|j: int|
            0 <= j < s.len() ==> !text::same_but_case((#[trigger] s[j]).0, name),
        0 <= i < s.len() && text::same_but_case(s[i].0, name) && (forall|j: int|
            0 <= j < i ==> !text::same_but_case((#[trigger] s[j]).0, name)) ==> member(s, name)
            == Some(s[i].1),
    decreases s.len(),
{
    if s.len() > 0 {
        let rest = s.drop_first();
        law_member_by_index(rest, name, i - 1);
        text::law_case_of_letters(s[0].0, name);
        assert(forall|j: int| 0 <= j < rest.len() ==> #[trigger] rest[j] == s[j + 1]);
        if !text::same_but_case(s[0].0, name) {
            if forall|j: int| 0 <= j < rest.len() ==> !text::same_but_case(
                (#[trigger] rest[j]).0,
                name,
            ) {
                assert forall|j: int| 0 <= j < s.len() implies !text::same_but_case(
                    (#[trigger] s[j]).0,
                    name,
                ) by {
                    if j > 0 {
                        assert(rest[j - 1] == s[j]);
                    }
                }
            } else {
                let j = choose|j: int|
                    0 <= j < rest.len() && text::same_but_case((#[trigger] rest[j]).0, name);
                assert(s[j + 1] == rest[j]);
            }
        } else {
            assert(text::same_but_case(s[0].0, name));
        }
    }
}

/// A value says true exactly when it is the truth value, or is none and spells it in any
/// mixture of cases.
pub proof fn law_saying_true(v: Reading)
    ensures
        v.truth == Some(true) ==> says_true(v),
        v.truth == Some(false) ==> !says_true(v),
        v.truth is None && v.text is None ==> !says_true(v),
        v.truth is None && v.text is Some ==> (says_true(v) <==> text::same_but_case(
            v.text->0,
            seq!['t', 'r', 'u', 'e'],
        )),
{
    reveal_strlit("true");
    assert("true"@ =~= seq!['t', 'r', 'u', 'e']);
    if v.text is Some {
        let t = v.text->0;
        text::law_case_of_letters(t, "true"@);
        assert(text::lower_all("true"@) =~= "true"@);
    }
}

/// A size is the number that a value holds, or the one that its text spells; a negative
/// number is no size.
pub proof fn law_size_of_value(v: Reading, n: nat)
    ensures
        size_of(None) is None,
        v.unsigned matches Some(u) ==> size_of(Some(v)) == Some(u as nat),
        v.unsigned is None && (v.signed is None || v.signed->0 < 0) && v.text is None ==> size_of(
            Some(v),
        ) is None,
        v.unsigned is None && v.signed is Some && v.signed->0 >= 0 ==> size_of(Some(v)) == Some(
            v.signed->0 as nat,
        ),
        v.unsigned is None && v.signed is None && v.text == Some(text::decimal(n)) && n
            <= u64::MAX ==> size_of(Some(v)) == Some(n),
{
    text::law_numerals(n, u64::MAX as nat, Seq::empty(), '0');
}

/// The members with that name, up to the case of letters, are exactly the one at index `i`.
pub open spec fn only_member(s: Seq<(Seq<char>, Reading)>, name: Seq<char>, i: int) -> bool {
    0 <= i < s.len() && forall|j: int|
        0 <= j < s.len() ==> (text::same_but_case((#[trigger] s[j]).0, name) <==> j == i)
}

/// An object whose one `Dirty` member, wherever it stands, says true is never taken for
/// saved, and is given the size of its one `Size` member, or the length of the metadata
/// file where it has none; an object without a `Dirty` member, or whose one says anything
/// else, is saved.
pub proof fn law_dirty_object(
    path: NativePath,
    shown: String,
    content: String,
    file_len: u64,
    object: Seq<(Seq<char>, Reading)>,
    i: int,
    j: int,
)
    ensures
        json_document(content@) == Ok::<Option<Seq<(Seq<char>, Reading)>>, Seq<char>>(
            Some(object),
        ) ==> ({
            let item = ScanItem::File { path, shown, file: MetaFile::Read(content), file_len };
            let verdict = judged(shown@, json_document(content@), file_len as nat);
            let true_word = |v: Reading|
                v.truth == Some(true) || (v.truth is None && v.text is Some && text::same_but_case(
                    v.text->0,
                    seq!['t', 'r', 'u', 'e'],
                ));
            &&& only_member(object, seq!['D', 'i', 'r', 't', 'y'], i) && true_word(object[i].1)
                ==> {
                &&& !saved(item)
                &&& only_member(object, seq!['S', 'i', 'z', 'e'], j) && object[j].1.unsigned is Some
                    ==> verdict == Ok::<Option<nat>, Seq<char>>(
                    Some(object[j].1.unsigned->0 as nat),
                )
                &&& (forall|k: int|
                    0 <= k < object.len() ==> !text::same_but_case(
                        (#[trigger] object[k]).0,
                        seq!['S', 'i', 'z', 'e'],
                    )) ==> verdict == Ok::<Option<nat>, Seq<char>>(Some(file_len as nat))
            }
            &&& only_member(object, seq!['D', 'i', 'r', 't', 'y'], i) && !true_word(object[i].1)
                ==> saved(item) && verdict == Ok::<Option<nat>, Seq<char>>(None)
            &&& (forall|k: int|
                0 <= k < object.len() ==> !text::same_but_case(
                    (#[trigger] object[k]).0,
                    seq!['D', 'i', 'r', 't', 'y'],
                )) ==> saved(item) && verdict == Ok::<Option<nat>, Seq<char>>(None)
        }),
{
    reveal_strlit("Dirty");
    reveal_strlit("Size");
    assert("Dirty"@ =~= seq!['D', 'i', 'r', 't', 'y']);
    assert("Size"@ =~= seq!['S', 'i', 'z', 'e']);
    law_member_by_index(object, "Dirty"@, i);
    law_member_by_index(object, "Size"@, j);
    if 0 <= i < object.len() {
        law_saying_true(object[i].1);
    }
    if 0 <= j < object.len() {
        law_size_of_value(object[j].1, 0);
    }
}

/// Metadata that cannot be opened, cannot be read or is no JSON is never taken for saved:
/// it ends the scan with an error that ends in the cause.
pub proof fn law_unreadable_metadata(
    root_shown: Seq<char>,
    path: NativePath,
    shown: String,
    file: MetaFile,
    file_len: u64,
)
    ensures
        (match file {
            MetaFile::Read(content) => json_document(content@) is Err,
            _ => true,
        }) ==> ({
            let item = ScanItem::File { path, shown, file, file_len };
            let cause = match file {
                MetaFile::Unopened(e) => e@,
                MetaFile::Unread(e) => e@,
                MetaFile::Read(content) => json_document(content@)->Err_0,
            };
            &&& !saved(item)
            &&& scan_entry(root_shown, item) matches Err(m) && m.len() >= cause.len() && m.skip(
                m.len() - cause.len(),
            ) == cause
        }),
{
    let cause = match file {
        MetaFile::Unopened(e) => e@,
        MetaFile::Unread(e) => e@,
        MetaFile::Read(content) => json_document(content@)->Err_0,
    };
    let item = ScanItem::File { path, shown, file, file_len };
    if let Err(m) = scan_entry(root_shown, item) {
        assert(m.skip(m.len() - cause.len()) =~= cause);
    }
}

/// A scan that does not fail lists every dirty file with its path and size, in the order
/// in which it was met, and nothing else.
pub proof fn law_scan_lists_the_dirty(root_shown: Seq<char>, items: Seq<ScanItem>, item: ScanItem)
    ensures
        scan_result(root_shown, Seq::empty()) == Ok::<Seq<(Seq<native::Part>, nat)>, Seq<char>>(
            Seq::empty(),
        ),
        match (scan_result(root_shown, items), item) {
            (Ok(list), ScanItem::File { path, shown, file: MetaFile::Read(content), file_len }) => {
                &&& saved(item) ==> scan_result(root_shown, items.push(item)) == Ok::<
                    Seq<(Seq<native::Part>, nat)>,
                    Seq<char>,
                >(list)
                &&& judged(shown@, json_document(content@), file_len as nat) matches Ok(
                    Some(n),
                ) ==> scan_result(root_shown, items.push(item)) == Ok::<
                    Seq<(Seq<native::Part>, nat)>,
                    Seq<char>,
                >(list.push((path@, n)))
            },
            (Ok(list), ScanItem::NotAFile) => scan_result(root_shown, items.push(item)) == Ok::<
                Seq<(Seq<native::Part>, nat)>,
                Seq<char>,
            >(list),
            (Ok(_), ScanItem::Failed(e)) => scan_result(root_shown, items.push(item)) is Err,
            (Err(m), _) => scan_result(root_shown, items.push(item)) == Err::<
                Seq<(Seq<native::Part>, nat)>,
                Seq<char>,
            >(m),
            _ => true,
        },
{
    assert(items.push(item).drop_last() == items);
}

/// The wait for an entry is the least number of seconds, one at least, that covers its
/// size at 4 KiB a second, cut down to the configured maximum where that is less.
pub proof fn law_wait_limit_is_least(size: nat, configured_max: nat)
    requires
        size + 4095 <= u64::MAX,
    ensures
        ({
            let n = wait_limit(size, 0);
            &&& n >= 1
            &&& n * 4096 >= size
            &&& n == 1 || (n - 1) * 4096 < size
            &&& wait_limit(size, configured_max) == if configured_max == 0 || n <= configured_max {
                n
            } else {
                configured_max
            }
        }),
{
}

/// The seconds of a wait are the whole seconds that the clock has gone on.
pub proof fn law_whole_seconds(start: nat, now: nat)
    ensures
        now >= start ==> 1000 * seconds_between(start, now) <= now - start && now - start < 1000 * (
        seconds_between(start, now) + 1),
        now < start ==> seconds_between(start, now) == 0,
{
}

/// A look at a dirty entry ends the wait only if the entry has been waited for as long as
/// its size allows. Otherwise the next entry of the scan is looked at, and after the last
/// one the wait pauses: no entry is passed over.
pub proof fn law_every_entry_is_looked_at(
    w: Wait,
    dirty: Seq<(Seq<native::Part>, nat)>,
    at: int,
    shown: Seq<char>,
    now_ms: u64,
)
    requires
        w.stage == (Stage::Observing { dirty, at }),
        0 <= at < dirty.len(),
    ensures
        ({
            let m = clean_move(w, Told::Observed { shown, now_ms });
            let path = dirty[at].0;
            let start = if w.seen.contains_key(path) {
                w.seen[path]
            } else {
                now_ms
            };
            let limit = wait_limit(dirty[at].1, w.limit as nat);
            &&& m.asked is Finish <==> now_ms >= start + 1000 * limit
            &&& m.asked matches Asked::Finish(r) ==> r is Err
            &&& now_ms < start + 1000 * limit && at + 1 < dirty.len() ==> m.asked
                == Asked::Observe(at + 1) && m.wait.stage == (Stage::Observing {
                dirty,
                at: at + 1,
            })
            &&& now_ms < start + 1000 * limit && at + 1 == dirty.len() ==> m.asked == Asked::Pause(
                w.interval,
            ) && m.wait.stage == Stage::Resting
            &&& m.wait.seen == w.seen.insert(path, start)
            &&& m.lines.len() == 1
        }),
{
    law_wait_is_bounded(0, 0, w.limit as nat);
    assert(wait_limit(dirty[at].1, w.limit as nat) >= 1);
}

/// A scan that finds something dirty has its entries looked at from the first on, and
/// an entry that it does not list is forgotten, so that it starts anew when it is dirty
/// again; the others keep the time at which they were first seen.
pub proof fn law_scan_forgets_the_saved(
    w: Wait,
    dirty: Seq<(Seq<native::Part>, nat)>,
    path: Seq<native::Part>,
)
    requires
        w.stage == Stage::Scanning,
        dirty.len() > 0,
    ensures
        ({
            let m = clean_move(w, Told::Scanned(Ok(dirty)));
            let listed = exists|i: int| 0 <= i < dirty.len() && (#[trigger] dirty[i]).0 == path;
            &&& m.asked == Asked::Observe(0)
            &&& m.wait.stage == (Stage::Observing { dirty, at: 0 })
            &&& m.wait.seen.contains_key(path) <==> w.seen.contains_key(path) && listed
            &&& m.wait.seen.contains_key(path) ==> m.wait.seen[path] == w.seen[path]
        }),
{
}

/// A look begins with a scan of the metadata unless a stop was requested.
pub proof fn law_look_begins_with_scan(w: Wait)
    requires
        w.stage == Stage::Resting,
    ensures
        clean_move(w, Told::Ready { cancelled: false }).asked == Asked::Scan,
        clean_move(w, Told::Ready { cancelled: false }).wait.stage == Stage::Scanning,
        clean_move(w, Told::Ready { cancelled: true }).asked matches Asked::Finish(r) && r is Err,
{
}

/// The metadata of a remote stands below `vfsMeta` of the cache, and that of all remotes
/// is `vfsMeta` itself.
pub proof fn law_metadata_dirs(cache: Seq<native::Part>, remote: Seq<u8>)
    requires
        cache.len() > 0,
    ensures
        metadata_dir(cache, None) == cache + seq![
            native::Part::Normal(native::utf8("vfsMeta"@)),
        ],
        metadata_dir(cache, Some(seq![native::Part::Normal(remote)])) == cache + seq![
            native::Part::Normal(native::utf8("vfsMeta"@)),
            native::Part::Normal(remote),
        ],
{
    let meta = seq![native::named("vfsMeta"@)];
    assert(native::joined(cache, meta) == cache + meta);
    assert(cache + meta + seq![native::Part::Normal(remote)] =~= cache + seq![
        native::named("vfsMeta"@),
        native::Part::Normal(remote),
    ]);
}

/// A text is a size where it is a number, whatever the value is otherwise.
pub proof fn law_size_spelled(v: Reading, s: Seq<char>)
    requires
        v.unsigned is None,
        v.signed is None || v.signed->0 < 0,
        v.text == Some(s),
    ensures
        size_of(Some(v)) == text::number_value(s, u64::MAX as nat),
{
}

/// A dirty object has the size that its `Size` member holds or spells, and the length of the
/// metadata file where that is no size or is missing. A document that is no object is saved.
pub proof fn law_size_of_dirty_object(
    shown: Seq<char>,
    object: Seq<(Seq<char>, Reading)>,
    i: int,
    file_len: nat,
)
    requires
        only_member(object, seq!['D', 'i', 'r', 't', 'y'], i),
        object[i].1.truth == Some(true),
    ensures
        ({
            let doc = Ok::<Option<Seq<(Seq<char>, Reading)>>, Seq<char>>(Some(object));
            let size = size_of(member(object, seq!['S', 'i', 'z', 'e']));
            judged(shown, doc, file_len) == Ok::<Option<nat>, Seq<char>>(
                Some(
                    if size is Some {
                        size->0
                    } else {
                        file_len
                    },
                ),
            )
        }),
        judged(shown, Ok(None), file_len) == Ok::<Option<nat>, Seq<char>>(None),
{
    reveal_strlit("Dirty");
    reveal_strlit("Size");
    assert("Dirty"@ =~= seq!['D', 'i', 'r', 't', 'y']);
    assert("Size"@ =~= seq!['S', 'i', 'z', 'e']);
    law_member_by_index(object, "Dirty"@, i);
    law_saying_true(object[i].1);
}

/// The wait for the largest sizes is that of the largest count.
pub proof fn law_wait_limit_of_huge_sizes(size: nat)
    requires
        size + 4095 > u64::MAX,
    ensures
        wait_limit(size, 0) == u64::MAX as nat / 4096,
{
}

/// A report of something that was not asked for leaves a wait as it is, and so does anything
/// behind its end. A failed scan ends it with that failure, and a clean one with success.
pub proof fn law_only_answers_move_a_wait(w: Wait, told: Told, cause: Seq<char>)
    ensures
        w.stage is Resting && !(told is Ready) ==> clean_move(w, told).wait == w,
        w.stage is Scanning && !(told is Scanned) ==> clean_move(w, told).wait == w,
        w.stage is Observing && !(told is Observed) ==> clean_move(w, told).wait == w,
        w.stage is Done ==> clean_move(w, told).wait == w && clean_move(w, told).asked
            == Asked::Finish(w.stage->Done_0),
        w.stage is Scanning ==> clean_move(w, Told::Scanned(Err(cause))).asked == Asked::Finish(
            Err(cause),
        ),
        w.stage is Scanning ==> clean_move(w, Told::Scanned(Ok(Seq::empty()))).asked
            == Asked::Finish(Ok(())),
        clean_move(w, told).wait.limit == w.limit,
        clean_move(w, told).wait.interval == w.interval,
{
}

/// What is said of a dirty entry names it, with the seconds that it has been waited for and
/// those that it may take.
pub proof fn law_dirty_entries_are_named(shown: Seq<char>, elapsed: nat, limit: nat)
    ensures
        text::contains_text(waiting_text(shown, elapsed, limit), shown),
        text::contains_text(
            waiting_text(shown, elapsed, limit),
            text::decimal(elapsed) + "s of "@ + text::decimal(limit) + "s"@,
        ),
        text::contains_text(overdue_text(shown, elapsed), shown),
        text::contains_text(overdue_text(shown, elapsed), text::decimal(elapsed) + "s;"@),
{
    let none = Seq::<char>::empty();
    let a = "   ⏳ Waiting for rclone to save "@;
    let b = " (Dirty=true) — "@;
    let e = text::decimal(elapsed);
    let t = e + "s of "@ + text::decimal(limit) + "s"@;
    text::lemma_stands_in(a, shown, b + t);
    assert(a + shown + (b + t) =~= waiting_text(shown, elapsed, limit));
    text::lemma_stands_in(a + shown + b, t, none);
    assert(a + shown + b + t + none =~= waiting_text(shown, elapsed, limit));
    let c = "rclone cache metadata "@;
    let d = " remained Dirty=true for "@;
    let f =
        "s; the cache was not removed because the file has not been saved to the rclone source"@;
    text::lemma_stands_in(c, shown, d + e + f);
    assert(c + shown + (d + e + f) =~= overdue_text(shown, elapsed));
    reveal_strlit(
        "s; the cache was not removed because the file has not been saved to the rclone source",
    );
    reveal_strlit("s;");
    assert(f =~= "s;"@ + f.skip(2));
    text::lemma_stands_in(c + shown + d, e + "s;"@, f.skip(2));
    assert(c + shown + d + (e + "s;"@) + f.skip(2) =~= overdue_text(shown, elapsed));
}

} // verus!
