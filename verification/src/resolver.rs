//! Safe mapping from a mount path to rclone's on-disk VFS cache layout.
//!
//! rclone stores content below `<cache-dir>/vfs/<remote-name>/<remote-path>`. A shared
//! cache directory often has several remote directories; callers pass the remote of
//! the mount, or it is inferred from the mount table or from a single directory below
//! `vfs`. A destination is computed first and then confirmed against what the file
//! system says of its nearest existing ancestor.

use vstd::prelude::*;
use vstd::slice::slice_subrange;
use vstd::string::StringExecFns;

use crate::native;
use crate::native::{copy_bytes, Component, NativePath};
use crate::text;
use crate::text::{
    chars_of, join, slice_has, slice_is, slice_lines, slice_lower, slice_starts_with,
    slice_strip_both, slice_strip_right, slice_trim, slice_until, slice_words, string_of, CharClass,
};

verus! {

/// The remote name in a `remote:` or `remote:path` token. Flags, absolute paths and
/// web addresses name no remote.
pub open spec fn remote_name(tok: Seq<char>) -> Option<Seq<char>> {
    let t = text::strip_both(text::trim(tok), CharClass::Quote);
    let n = text::until(t, CharClass::Only(':')) as int;
    let before = t.take(n);
    let name = if text::starts_with(before, "rclone#"@) {
        before.skip("rclone#"@.len() as int)
    } else {
        before
    };
    if t.len() > 0 && (t[0] == '-' || t[0] == '/') {
        None
    } else if n == t.len() {
        None
    } else if name.len() == 0 || name.contains('/') || text::lower_all(name) == "http"@
        || text::lower_all(name) == "https"@ {
        None
    } else {
        Some(name)
    }
}

/// Take the rclone remote name from a `remote:` / `remote:path` spec.
pub fn remote_name_from_spec(tok: &str) -> (r: Option<String>)
    ensures
        match r {
            Some(name) => remote_name(tok@) == Some(name@),
            None => remote_name(tok@) is None,
        },
{
    let all = chars_of(tok);
    let t = slice_strip_both(slice_trim(all.as_slice()), CharClass::Quote);
    if t.len() > 0 && (t[0] == '-' || t[0] == '/') {
        return None;
    }
    let n = slice_until(t, CharClass::Only(':'));
    if n == t.len() {
        return None;
    }
    let before = slice_subrange(t, 0, n);
    assert(before@ == t@.take(n as int));
    let prefix = chars_of("rclone#");
    let name = if slice_starts_with(before, prefix.as_slice()) {
        slice_subrange(before, prefix.len(), before.len())
    } else {
        before
    };
    if name.len() == 0 {
        return None;
    }
    if slice_has(name, CharClass::Only('/')) {
        assert(name@.contains('/'));
        return None;
    }
    assert(!name@.contains('/')) by {
        if name@.contains('/') {
            assert(text::in_class(CharClass::Only('/'), name@[name@.index_of('/')]));
        }
    }
    let low = slice_lower(name);
    if slice_is(low.as_slice(), "http") || slice_is(low.as_slice(), "https") {
        return None;
    }
    Some(string_of(name))
}

/// A word of unit text without quotes around it and without a line continuation.
pub open spec fn bare_word(word: Seq<char>) -> Seq<char> {
    text::strip_right(text::strip_both(word, CharClass::Quote), CharClass::Only('\\'))
}

/// The remote that the first of the given words to name one names.
pub open spec fn first_remote(words: Seq<Seq<char>>) -> Option<Seq<char>>
    decreases words.len(),
{
    if words.len() == 0 {
        None
    } else if remote_name(bare_word(words[0])) is Some {
        remote_name(bare_word(words[0]))
    } else {
        first_remote(words.drop_first())
    }
}

/// Find the first rclone `remote:` token in unit / ExecStart text.
pub fn parse_rclone_remote_name(unit_text: &str) -> (r: Option<String>)
    ensures
        match r {
            Some(name) => first_remote(text::words(unit_text@)) == Some(name@),
            None => first_remote(text::words(unit_text@)) is None,
        },
{
    let all = chars_of(unit_text);
    let words = slice_words(all.as_slice());
    let ghost views = text::texts(words@);
    let mut i: usize = 0;
    assert(views.skip(0) == views);
    while i < words.len()
        invariant
            i <= words.len(),
            views == text::texts(words@),
            views == text::words(unit_text@),
            first_remote(views) == first_remote(views.skip(i as int)),
        decreases words.len() - i,
    {
        let w = chars_of(words[i].as_str());
        assert(views.skip(i as int)[0] == w@);
        assert(views.skip(i as int).drop_first() == views.skip(i as int + 1));
        let tok = slice_strip_right(
            slice_strip_both(w.as_slice(), CharClass::Quote),
            CharClass::Only('\\'),
        );
        match remote_name_from_spec(string_of(tok).as_str()) {
            Some(name) => {
                return Some(name);
            },
            None => {},
        }
        i = i + 1;
    }
    None
}

/// The remote of a pair: the one that its unit names, else the one mounted.
pub open spec fn pair_remote(start: Option<Seq<char>>, mounted: Option<Seq<char>>) -> Option<
    Seq<char>,
> {
    match start {
        Some(t) => match first_remote(text::words(t)) {
            Some(name) => Some(name),
            None => mounted,
        },
        None => mounted,
    }
}

/// The rclone remote that serves a pair, given the start command of its unit, where it
/// has one, and the remote that the mount table names for its sync directory.
pub fn remote_for_pair(exec_start: Option<&str>, mounted: Option<String>) -> (r: Option<String>)
    ensures
        text::opt_view(r) == pair_remote(text::opt_text(exec_start), text::opt_view(mounted)),
{
    if let Some(t) = exec_start {
        if let Some(name) = parse_rclone_remote_name(t) {
            return Some(name);
        }
    }
    mounted
}

/// Content tree: `<cache-dir>/vfs/<remote>`.
pub open spec fn content_dir(cache: Seq<native::Part>, remote: Seq<native::Part>) -> Seq<
    native::Part,
> {
    native::joined(native::joined(cache, seq![native::named("vfs"@)]), remote)
}

/// Metadata tree: `<cache-dir>/vfsMeta/<remote>`.
pub open spec fn meta_dir(cache: Seq<native::Part>, remote: Seq<native::Part>) -> Seq<
    native::Part,
> {
    native::joined(native::joined(cache, seq![native::named("vfsMeta"@)]), remote)
}

/// The directory that holds the content of a remote.
pub fn vfs_content_dir(cache_root: &NativePath, remote: &NativePath) -> (r: NativePath)
    ensures
        r@ == content_dir(cache_root@, remote@),
{
    cache_root.join(&NativePath::of_name("vfs")).join(remote)
}

/// The directory that holds the metadata of a remote.
pub fn vfs_meta_dir(cache_root: &NativePath, remote: &NativePath) -> (r: NativePath)
    ensures
        r@ == meta_dir(cache_root@, remote@),
{
    cache_root.join(&NativePath::of_name("vfsMeta")).join(remote)
}

/// A line of the mount table: what is mounted, and where.
#[derive(Debug)]
pub struct MountLine {
    pub source: String,
    pub target: String,
}

/// The first two words of each line of a mount table; nothing if a line has fewer.
pub open spec fn mount_table(lines: Seq<Seq<char>>) -> Option<Seq<(Seq<char>, Seq<char>)>> {
    if forall|i: int| 0 <= i < lines.len() ==> text::words(#[trigger] lines[i]).len() >= 2 {
        Some(lines.map_values(|l: Seq<char>| (text::words(l)[0], text::words(l)[1])))
    } else {
        None
    }
}

/// The sources and targets of mount lines.
pub open spec fn mount_pairs(v: Seq<MountLine>) -> Seq<(Seq<char>, Seq<char>)> {
    v.map_values(|m: MountLine| (m.source@, m.target@))
}

/// Reads the sources and targets of a mount table such as `/proc/self/mounts`.
pub fn parse_mount_table(table: &str) -> (r: Option<Vec<MountLine>>)
    ensures
        match r {
            Some(v) => mount_table(text::lines(table@)) == Some(mount_pairs(v@)),
            None => mount_table(text::lines(table@)) is None,
        },
{
    let all = chars_of(table);
    let rows = slice_lines(all.as_slice());
    let ghost views = text::texts(rows@);
    let ghost pairs = views.map_values(|l: Seq<char>| (text::words(l)[0], text::words(l)[1]));
    let mut v: Vec<MountLine> = Vec::new();
    let mut i: usize = 0;
    while i < rows.len()
        invariant
            i <= rows.len(),
            views == text::texts(rows@),
            views == text::lines(table@),
            pairs == views.map_values(|l: Seq<char>| (text::words(l)[0], text::words(l)[1])),
            forall|j: int| 0 <= j < i ==> text::words(#[trigger] views[j]).len() >= 2,
            mount_pairs(v@) == pairs.take(i as int),
        decreases rows.len() - i,
    {
        let row = chars_of(rows[i].as_str());
        assert(views[i as int] == row@);
        let fields = slice_words(row.as_slice());
        assert(text::texts(fields@).len() == fields@.len());
        if fields.len() < 2 {
            assert(text::words(views[i as int]).len() < 2);
            return None;
        }
        assert(text::texts(fields@)[0] == fields@[0]@);
        assert(text::texts(fields@)[1] == fields@[1]@);
        v.push(MountLine { source: fields[0].clone(), target: fields[1].clone() });
        assert(mount_pairs(v@) == pairs.take(i as int).push(pairs[i as int]));
        assert(pairs.take(i as int + 1) == pairs.take(i as int).push(pairs[i as int]));
        i = i + 1;
    }
    assert(pairs.take(pairs.len() as int) == pairs);
    Some(v)
}

/// A mount whose target has been resolved by the file system.
#[derive(Debug)]
pub struct Mounted {
    pub source: String,
    /// The canonical target.
    pub target: NativePath,
    /// The length of the canonical target in bytes.
    pub target_len: usize,
}

/// The mount lies at or above `sync`.
pub open spec fn covers(m: Mounted, sync: Seq<native::Part>) -> bool {
    native::begins(sync, m.target@)
}

/// The mount that `sync` lies on: of the mounts that cover it the one with the longest
/// target, and among equals the last.
pub open spec fn nearest_mount(mounts: Seq<Mounted>, sync: Seq<native::Part>) -> Option<Mounted>
    decreases mounts.len(),
{
    if mounts.len() == 0 {
        None
    } else {
        let before = nearest_mount(mounts.drop_last(), sync);
        let last = mounts.last();
        match before {
            Some(m) => if covers(last, sync) && last.target_len >= m.target_len {
                Some(last)
            } else {
                before
            },
            None => if covers(last, sync) {
                Some(last)
            } else {
                None
            },
        }
    }
}

/// The mount that a path lies on covers it, and no mount that covers it has a longer
/// target, nor does a later one have an equal target; there is such a mount exactly when
/// some mount covers the path.
pub proof fn law_nearest_mount(mounts: Seq<Mounted>, sync: Seq<native::Part>)
    ensures
        match nearest_mount(mounts, sync) {
            Some(m) => exists|i: int|
                0 <= i < mounts.len() && #[trigger] mounts[i] == m && covers(m, sync) && forall|
                    j: int,
                |
                    0 <= j < mounts.len() && covers(#[trigger] mounts[j], sync)
                        ==> mounts[j].target_len <= m.target_len && (j > i
                        ==> mounts[j].target_len < m.target_len),
            None => forall|j: int| 0 <= j < mounts.len() ==> !covers(#[trigger] mounts[j], sync),
        },
    decreases mounts.len(),
{
    if mounts.len() > 0 {
        let init = mounts.drop_last();
        law_nearest_mount(init, sync);
        let n = mounts.len() - 1;
        assert(forall|j: int| 0 <= j < n ==> init[j] == #[trigger] mounts[j]);
        assert(mounts[n] == mounts.last());
        if let Some(m) = nearest_mount(init, sync) {
            let i = choose|i: int|
                0 <= i < init.len() && #[trigger] init[i] == m && covers(m, sync) && forall|j: int|
                    0 <= j < init.len() && covers(#[trigger] init[j], sync) ==> init[j].target_len
                        <= m.target_len && (j > i ==> init[j].target_len < m.target_len);
            assert(mounts[i] == m);
            assert forall|j: int| 0 <= j < n && covers(#[trigger] mounts[j], sync) implies
                mounts[j].target_len <= m.target_len && (j > i ==> mounts[j].target_len
                < m.target_len) by {
                assert(init[j] == mounts[j]);
            }
        }
    }
}

/// The remote that is mounted on a path: what the source of its mount names, if that
/// names a remote.
pub open spec fn remote_on(mounts: Seq<Mounted>, sync: Seq<native::Part>) -> Option<Seq<char>> {
    match nearest_mount(mounts, sync) {
        Some(m) => remote_name(m.source@),
        None => None,
    }
}

/// Infer the rclone remote that is mounted on `sync_root`.
pub fn remote_from_mounts(sync_root: &NativePath, mounts: &Vec<Mounted>) -> (r: Option<String>)
    ensures
        text::opt_view(r) == remote_on(mounts@, sync_root@),
{
    let mut best: Option<usize> = None;
    let mut i: usize = 0;
    while i < mounts.len()
        invariant
            i <= mounts.len(),
            match best {
                Some(k) => k < i && nearest_mount(mounts@.take(i as int), sync_root@) == Some(
                    mounts@[k as int],
                ),
                None => nearest_mount(mounts@.take(i as int), sync_root@) is None,
            },
        decreases mounts.len() - i,
    {
        assert(mounts@.take(i as int + 1).drop_last() == mounts@.take(i as int));
        if sync_root.starts_with(&mounts[i].target) {
            let take = match best {
                Some(k) => mounts[i].target_len >= mounts[k].target_len,
                None => true,
            };
            if take {
                best = Some(i);
            }
        }
        i = i + 1;
    }
    assert(mounts@.take(mounts@.len() as int) == mounts@);
    match best {
        Some(k) => remote_name_from_spec(mounts[k].source.as_str()),
        None => None,
    }
}

/// Why a mount path has no destination in the cache.
#[derive(Debug)]
pub struct ResolutionError {
    pub mount_path: NativePath,
    pub cache_root: NativePath,
    pub relative_path: Option<NativePath>,
    pub attempted_destination: Option<NativePath>,
    pub message: String,
}

/// The view of an optional path.
pub open spec fn maybe(p: Option<NativePath>) -> Option<Seq<native::Part>> {
    match p {
        Some(q) => Some(q@),
        None => None,
    }
}

/// The error carries exactly these values.
pub open spec fn reports(
    e: ResolutionError,
    mount: Seq<native::Part>,
    cache: Seq<native::Part>,
    relative: Option<Seq<native::Part>>,
    destination: Option<Seq<native::Part>>,
    message: Seq<char>,
) -> bool {
    &&& e.mount_path@ == mount
    &&& e.cache_root@ == cache
    &&& maybe(e.relative_path) == relative
    &&& maybe(e.attempted_destination) == destination
    &&& e.message@ == message
}

/// A path as displayed, or the word for one that was not reached.
pub open spec fn shown_or_unresolved(s: Option<Seq<char>>) -> Seq<char> {
    match s {
        Some(t) => t,
        None => "<unresolved>"@,
    }
}

impl ResolutionError {
    /// The error in words, given its paths as displayed.
    pub fn describe(
        &self,
        mount: &str,
        cache: &str,
        relative: Option<&str>,
        destination: Option<&str>,
    ) -> (r: String)
        ensures
            r@ == self.message@ + " (mount="@ + mount@ + ", cache="@ + cache@ + ", relative="@
                + shown_or_unresolved(text::opt_text(relative)) + ", destination="@
                + shown_or_unresolved(text::opt_text(destination)) + ")"@,
    {
        let mut r = self.message.clone();
        r.append(" (mount=");
        r.append(mount);
        r.append(", cache=");
        r.append(cache);
        r.append(", relative=");
        match relative {
            Some(p) => r.append(p),
            None => r.append("<unresolved>"),
        }
        r.append(", destination=");
        match destination {
            Some(p) => r.append(p),
            None => r.append("<unresolved>"),
        }
        r.append(")");
        r
    }
}

fn fault(
    mount: &NativePath,
    cache: &NativePath,
    relative: Option<NativePath>,
    destination: Option<NativePath>,
    message: String,
) -> (e: ResolutionError)
    ensures
        reports(e, mount@, cache@, maybe(relative), maybe(destination), message@),
{
    ResolutionError {
        mount_path: mount.copy(),
        cache_root: cache.copy(),
        relative_path: relative,
        attempted_destination: destination,
        message,
    }
}

/// A destination that has been computed and not yet confirmed.
#[derive(Debug)]
pub struct Destination {
    pub mount_path: NativePath,
    pub cache_root: NativePath,
    pub relative: NativePath,
    pub path: NativePath,
}

/// The components of the mount path below the sync root.
pub open spec fn relative_part(mount: Seq<native::Part>, sync: Seq<native::Part>) -> Seq<
    native::Part,
> {
    mount.skip(sync.len() as int)
}

/// The outcome of mapping a mount path beneath the directory of a remote.
pub open spec fn maps_with(
    r: Result<Destination, ResolutionError>,
    sync: Seq<native::Part>,
    cache: Seq<native::Part>,
    remote: Seq<native::Part>,
    mount: Seq<native::Part>,
) -> bool {
    let rel = relative_part(mount, sync);
    match r {
        Ok(d) => {
            &&& native::begins(mount, sync)
            &&& !native::leaves(rel)
            &&& d.mount_path@ == mount
            &&& d.cache_root@ == cache
            &&& d.relative@ == rel
            &&& d.path@ == native::joined(content_dir(cache, remote), rel)
        },
        Err(e) => if !native::begins(mount, sync) {
            reports(e, mount, cache, None, None, "mount path is outside configured sync root"@)
        } else {
            native::leaves(rel) && reports(
                e,
                mount,
                cache,
                Some(rel),
                None,
                "relative path contains traversal"@,
            )
        },
    }
}

/// Map a mount path beneath the directory of a remote.
///
/// A mount path outside the sync root, and one whose relative part leaves it, are
/// rejected.
pub fn resolve_with_remote(
    sync_root: &NativePath,
    cache_root: &NativePath,
    remote: &NativePath,
    mount_path: &NativePath,
) -> (r: Result<Destination, ResolutionError>)
    ensures
        maps_with(r, sync_root@, cache_root@, remote@, mount_path@),
{
    let rel = match mount_path.strip_prefix(sync_root) {
        Some(rel) => rel,
        None => {
            return Err(
                fault(
                    mount_path,
                    cache_root,
                    None,
                    None,
                    "mount path is outside configured sync root".to_string(),
                ),
            );
        },
    };
    if rel.has_traversal() {
        return Err(
            fault(
                mount_path,
                cache_root,
                Some(rel),
                None,
                "relative path contains traversal".to_string(),
            ),
        );
    }
    let path = vfs_content_dir(cache_root, remote).join(&rel);
    Ok(
        Destination {
            mount_path: mount_path.copy(),
            cache_root: cache_root.copy(),
            relative: rel,
            path,
        },
    )
}

/// How many ancestors a path has, itself counted: one for each component, and the
/// empty path behind a relative one.
pub open spec fn ancestor_count(p: Seq<native::Part>) -> nat {
    if p.len() > 0 && p[0] == native::Part::Root {
        p.len()
    } else {
        p.len() + 1
    }
}

impl Destination {
    /// The destination and its ancestors, nearest first.
    pub fn ancestors(&self) -> (r: Vec<NativePath>)
        ensures
            r@.len() == ancestor_count(self.path@),
            forall|k: int|
                0 <= k < r@.len() ==> #[trigger] r@[k]@ == self.path@.take(self.path@.len() - k),
    {
        let mut r: Vec<NativePath> = Vec::new();
        let n = self.path.parts.len();
        let mut least: usize = 0;
        if n > 0 {
            assert(self.path@[0] == self.path.parts@[0]@);
            match self.path.parts[0] {
                Component::Root => {
                    least = 1;
                },
                _ => {},
            }
        }
        let mut len: usize = n;
        let mut more = true;
        while more
            invariant
                least <= len <= n,
                least <= 1,
                n == self.path@.len(),
                r@.len() == if more {
                    n - len
                } else {
                    n - least + 1
                },
                forall|j: int| 0 <= j < r@.len() ==> #[trigger] r@[j]@ == self.path@.take(n - j),
            decreases len + if more {
                1int
            } else {
                0int
            },
        {
            let p = self.path.slice(0, len);
            assert(p@ == self.path@.take(len as int));
            r.push(p);
            if len == least {
                more = false;
            } else {
                len = len - 1;
            }
        }
        r
    }

    /// The nearest ancestor that exists, given for each ancestor whether it does; the
    /// cache root if none does.
    pub fn nearest_existing(&self, exists: &Vec<bool>) -> (r: NativePath)
        requires
            exists@.len() == ancestor_count(self.path@),
        ensures
            match first_true(exists@) {
                Some(k) => r@ == self.path@.take(self.path@.len() - k),
                None => r@ == self.cache_root@,
            },
    {
        let n = self.path.parts.len();
        let mut k: usize = 0;
        assert(exists@.skip(0) == exists@);
        while k < exists.len()
            invariant
                k <= exists.len(),
                exists@.len() <= n + 1,
                n == self.path@.len(),
                first_true(exists@) == match first_true(exists@.skip(k as int)) {
                    Some(j) => Some(j + k as int),
                    None => None,
                },
            decreases exists.len() - k,
        {
            assert(exists@.skip(k as int).drop_first() == exists@.skip(k as int + 1));
            if exists[k] {
                let r = self.path.slice(0, n - k);
                assert(r@ == self.path@.take(n - k));
                return r;
            }
            k = k + 1;
        }
        self.cache_root.copy()
    }

    /// Confirms the destination: its nearest existing ancestor must lie, in canonical
    /// form, below the canonical cache root.
    pub fn confirm(
        self,
        canonical_root: Result<NativePath, String>,
        canonical_existing: Result<NativePath, String>,
    ) -> (r: Result<NativePath, ResolutionError>)
        ensures
            match canonical_root {
                Err(cause) => r is Err && reports(
                    r->Err_0,
                    self.mount_path@,
                    self.cache_root@,
                    Some(self.relative@),
                    Some(self.path@),
                    "cannot canonicalize cache root: "@ + cause@,
                ),
                Ok(root) => match canonical_existing {
                    Err(cause) => r is Err && reports(
                        r->Err_0,
                        self.mount_path@,
                        self.cache_root@,
                        Some(self.relative@),
                        Some(self.path@),
                        "cannot canonicalize destination parent: "@ + cause@,
                    ),
                    Ok(existing) => if native::begins(existing@, root@) {
                        r is Ok && r->Ok_0@ == self.path@
                    } else {
                        r is Err && reports(
                            r->Err_0,
                            self.mount_path@,
                            self.cache_root@,
                            Some(self.relative@),
                            Some(self.path@),
                            "destination escapes configured cache root"@,
                        )
                    },
                },
            },
    {
        let root = match canonical_root {
            Ok(p) => p,
            Err(cause) => {
                let mut m = "cannot canonicalize cache root: ".to_string();
                m.append(cause.as_str());
                return Err(
                    fault(&self.mount_path, &self.cache_root, Some(self.relative), Some(self.path), m),
                );
            },
        };
        let existing = match canonical_existing {
            Ok(p) => p,
            Err(cause) => {
                let mut m = "cannot canonicalize destination parent: ".to_string();
                m.append(cause.as_str());
                return Err(
                    fault(&self.mount_path, &self.cache_root, Some(self.relative), Some(self.path), m),
                );
            },
        };
        if !existing.starts_with(&root) {
            return Err(
                fault(
                    &self.mount_path,
                    &self.cache_root,
                    Some(self.relative),
                    Some(self.path),
                    "destination escapes configured cache root".to_string(),
                ),
            );
        }
        Ok(self.path)
    }
}

/// The index of the first true element.
pub open spec fn first_true(s: Seq<bool>) -> Option<int>
    decreases s.len(),
{
    if s.len() == 0 {
        None
    } else if s[0] {
        Some(0)
    } else {
        match first_true(s.drop_first()) {
            Some(k) => Some(k + 1),
            None => None,
        }
    }
}

/// What `std` makes of a byte string when it displays it: ill-formed parts replaced.
pub uninterp spec fn lossy_text(bytes: Seq<u8>) -> Seq<char>;

/// Decodes bytes with `String::from_utf8_lossy`. The result is named; well-formed UTF-8
/// comes back unchanged.
#[verifier::external_body]
pub(crate) fn lossy(bytes: &[u8]) -> (r: String)
    ensures
        r@ == lossy_text(bytes@),
        vstd::utf8::valid_utf8(bytes@) ==> native::utf8(r@) == bytes@,
{
    String::from_utf8_lossy(bytes).into_owned()
}

/// What is known of the remotes of a cache when the caller names none.
#[derive(Debug)]
pub struct VfsLayout {
    /// The remote that the mount table gives for the sync root.
    pub mounted: Option<String>,
    /// The directories below `<cache-dir>/vfs`, or why they could not be listed.
    pub remotes: Result<Vec<Vec<u8>>, String>,
}

/// The remote to use: the one the caller names, else the only directory below `vfs`,
/// else the one of the mount table.
pub open spec fn chosen_remote(remote: Option<Seq<native::Part>>, layout: VfsLayout) -> Option<
    Seq<native::Part>,
> {
    match remote {
        Some(r) => Some(r),
        None => match layout.remotes {
            Ok(list) => if list@.len() == 1 {
                Some(seq![native::Part::Normal(list@[0]@)])
            } else {
                mounted_remote(layout)
            },
            Err(_) => mounted_remote(layout),
        },
    }
}

/// The remote that the mount table gives, as a path of one name.
pub open spec fn mounted_remote(layout: VfsLayout) -> Option<Seq<native::Part>> {
    match layout.mounted {
        Some(name) => Some(seq![native::named(name@)]),
        None => None,
    }
}

/// Why no remote can be chosen.
pub open spec fn no_remote_text(layout: VfsLayout) -> Seq<char> {
    match layout.remotes {
        Err(cause) => "cannot inspect rclone VFS layout: "@ + cause@,
        Ok(list) => if list@.len() == 0 {
            "no <cache-dir>/vfs/<remote-name> directory yet and rclone remote could not be inferred"@
        } else {
            "shared cache has multiple vfs remotes ("@ + text::joined(
                list@.map_values(|n: Vec<u8>| lossy_text(n@)),
                ", "@,
            ) + "); set paths[].service to the mount unit or use a dedicated --cache-dir"@
        },
    }
}

fn shown_names(list: &Vec<Vec<u8>>) -> (r: Vec<String>)
    ensures
        text::texts(r@) == list@.map_values(|n: Vec<u8>| lossy_text(n@)),
{
    let mut r: Vec<String> = Vec::new();
    let ghost all = list@.map_values(|n: Vec<u8>| lossy_text(n@));
    let mut i: usize = 0;
    while i < list.len()
        invariant
            i <= list.len(),
            all == list@.map_values(|n: Vec<u8>| lossy_text(n@)),
            text::texts(r@) == all.take(i as int),
        decreases list.len() - i,
    {
        r.push(lossy(list[i].as_slice()));
        assert(text::texts(r@) == all.take(i as int).push(all[i as int]));
        assert(all.take(i as int + 1) == all.take(i as int).push(all[i as int]));
        i = i + 1;
    }
    assert(all.take(all.len() as int) == all);
    r
}

/// Resolve a mount file to its VFS cache path. `remote` is the rclone remote name
/// (`gdrive` in `gdrive:folder`). When omitted, a single `vfs/*` directory is used, and
/// otherwise the mount table decides.
pub fn resolve_for_remote(
    sync_root: &NativePath,
    cache_root: &NativePath,
    mount_path: &NativePath,
    remote: Option<&NativePath>,
    layout: &VfsLayout,
) -> (r: Result<Destination, ResolutionError>)
    ensures
        match chosen_remote(
            match remote {
                Some(p) => Some(p@),
                None => None,
            },
            *layout,
        ) {
            Some(name) => maps_with(r, sync_root@, cache_root@, name, mount_path@),
            None => r is Err && if native::begins(mount_path@, sync_root@) {
                reports(
                    r->Err_0,
                    mount_path@,
                    cache_root@,
                    Some(relative_part(mount_path@, sync_root@)),
                    Some(native::joined(cache_root@, seq![native::named("vfs"@)])),
                    no_remote_text(*layout),
                )
            } else {
                reports(
                    r->Err_0,
                    mount_path@,
                    cache_root@,
                    None,
                    None,
                    "mount path is outside configured sync root"@,
                )
            },
        },
{
    if let Some(name) = remote {
        return resolve_with_remote(sync_root, cache_root, name, mount_path);
    }
    if let Ok(list) = &layout.remotes {
        if list.len() == 1 {
            let mut parts: Vec<Component> = Vec::new();
            parts.push(Component::Normal(copy_bytes(list[0].as_slice())));
            let only = NativePath { parts };
            assert(only@ == seq![native::Part::Normal(list@[0]@)]);
            return resolve_with_remote(sync_root, cache_root, &only, mount_path);
        }
    }
    if let Some(name) = &layout.mounted {
        let name = NativePath::of_name(name.as_str());
        return resolve_with_remote(sync_root, cache_root, &name, mount_path);
    }
    let rel = match mount_path.strip_prefix(sync_root) {
        Some(rel) => rel,
        None => {
            return Err(
                fault(
                    mount_path,
                    cache_root,
                    None,
                    None,
                    "mount path is outside configured sync root".to_string(),
                ),
            );
        },
    };
    let vfs = cache_root.join(&NativePath::of_name("vfs"));
    match &layout.remotes {
        Err(cause) => {
            let mut m = "cannot inspect rclone VFS layout: ".to_string();
            m.append(cause.as_str());
            Err(fault(mount_path, cache_root, Some(rel), Some(vfs), m))
        },
        Ok(list) => {
            if list.len() == 0 {
                return Err(
                    fault(
                        mount_path,
                        cache_root,
                        Some(rel),
                        Some(vfs),
                        "no <cache-dir>/vfs/<remote-name> directory yet and rclone remote could not be inferred".to_string(),
                    ),
                );
            }
            let names = shown_names(list);
            let mut m = "shared cache has multiple vfs remotes (".to_string();
            m.append(join(&names, ", ").as_str());
            m.append("); set paths[].service to the mount unit or use a dedicated --cache-dir");
            Err(fault(mount_path, cache_root, Some(rel), Some(vfs), m))
        },
    }
}

/// Resolve a mount file to its VFS cache path with no remote named.
pub fn resolve(
    sync_root: &NativePath,
    cache_root: &NativePath,
    mount_path: &NativePath,
    layout: &VfsLayout,
) -> (r: Result<Destination, ResolutionError>)
    ensures
        match chosen_remote(None, *layout) {
            Some(name) => maps_with(r, sync_root@, cache_root@, name, mount_path@),
            None => r is Err && if native::begins(mount_path@, sync_root@) {
                reports(
                    r->Err_0,
                    mount_path@,
                    cache_root@,
                    Some(relative_part(mount_path@, sync_root@)),
                    Some(native::joined(cache_root@, seq![native::named("vfs"@)])),
                    no_remote_text(*layout),
                )
            } else {
                reports(
                    r->Err_0,
                    mount_path@,
                    cache_root@,
                    None,
                    None,
                    "mount path is outside configured sync root"@,
                )
            },
        },
{
    resolve_for_remote(sync_root, cache_root, mount_path, None, layout)
}

/// A remote name is not empty, and free of separators and colons.
pub proof fn law_remote_name_is_plain(tok: Seq<char>)
    ensures
        remote_name(tok) matches Some(name) ==> name.len() > 0 && !name.contains('/')
            && !name.contains(':'),
{
    if let Some(name) = remote_name(tok) {
        let t = text::strip_both(text::trim(tok), CharClass::Quote);
        text::lemma_until(t, CharClass::Only(':'));
        let n = text::until(t, CharClass::Only(':')) as int;
        let before = t.take(n);
        if name.contains(':') {
            let k = name.index_of(':');
            let shift = before.len() - name.len();
            assert(name[k] == before[shift + k]);
            assert(text::in_class(CharClass::Only(':'), t[shift + k]));
        }
    }
}

/// The destination of a mount file lies below `<cache-dir>/vfs/<remote>`, and what
/// follows that directory is the file's path below the sync root, which nothing leaves.
pub proof fn law_destination_below_remote(
    cache: Seq<native::Part>,
    name: Seq<u8>,
    rel: Seq<native::Part>,
)
    requires
        cache.len() > 0,
        native::plain_name(name),
        !native::leaves(rel),
    ensures
        ({
            let dir = cache + seq![native::named("vfs"@), native::Part::Normal(name)];
            let dest = native::joined(content_dir(cache, seq![native::Part::Normal(name)]), rel);
            &&& native::begins(dest, dir)
            &&& !native::leaves(dest.skip(dir.len() as int))
        }),
{
    let remote = seq![native::Part::Normal(name)];
    let vfs = seq![native::named("vfs"@)];
    let dir = cache + seq![native::named("vfs"@), native::Part::Normal(name)];
    assert(native::joined(cache, vfs) == cache + vfs);
    assert(content_dir(cache, remote) == cache + vfs + remote);
    assert(cache + vfs + remote == dir);
    let dest = native::joined(dir, rel);
    if rel.len() > 0 {
        assert(rel[0] != native::Part::Root);
    }
    let tail = if rel.len() > 0 && rel[0] == native::Part::Current {
        rel.drop_first()
    } else {
        rel
    };
    assert(dest == dir + tail);
    assert(dest.take(dir.len() as int) == dir);
    assert(dest.skip(dir.len() as int) == tail);
    if native::leaves(tail) {
        let i = choose|i: int|
            0 <= i < tail.len() && (#[trigger] tail[i] == native::Part::Parent || tail[i]
                == native::Part::Root);
        let shift = rel.len() - tail.len();
        assert(rel[i + shift] == tail[i]);
    }
}

/// The trees of two remotes of one cache have no path in common.
pub proof fn law_remotes_apart(
    cache: Seq<native::Part>,
    one: Seq<u8>,
    other: Seq<u8>,
    path: Seq<native::Part>,
)
    requires
        cache.len() > 0,
        native::plain_name(one),
        native::plain_name(other),
        one != other,
        native::begins(path, content_dir(cache, seq![native::Part::Normal(one)])),
    ensures
        !native::begins(path, content_dir(cache, seq![native::Part::Normal(other)])),
{
    let vfs = seq![native::named("vfs"@)];
    let n = cache.len() as int + 1;
    assert(native::joined(cache, vfs) == cache + vfs);
    let a = content_dir(cache, seq![native::Part::Normal(one)]);
    let b = content_dir(cache, seq![native::Part::Normal(other)]);
    assert(a == cache + vfs + seq![native::Part::Normal(one)]);
    assert(b == cache + vfs + seq![native::Part::Normal(other)]);
    assert(a[n] == native::Part::Normal(one));
    assert(b[n] == native::Part::Normal(other));
    if native::begins(path, b) {
        assert(path.take(a.len() as int)[n] == path[n]);
        assert(path.take(b.len() as int)[n] == path[n]);
    }
}

/// A token names the remote that stands before its first colon, character by character as
/// it is written: with a path or nothing behind the colon, and with or without the prefix
/// that the mount table adds.
pub proof fn law_remote_name_as_written(name: Seq<char>, rest: Seq<char>)
    requires
        name.len() > 0,
        forall|i: int|
            0 <= i < name.len() ==> #[trigger] name[i] != ':' && name[i] != '/' && name[i] != '"'
                && name[i] != '\'' && !text::is_space(name[i]),
        name[0] != '-',
        forall|i: int|
            0 <= i < rest.len() ==> #[trigger] rest[i] != '"' && rest[i] != '\''
                && !text::is_space(rest[i]),
        !text::starts_with(name, "rclone#"@),
        text::lower_all(name) != "http"@,
        text::lower_all(name) != "https"@,
    ensures
        remote_name(name + seq![':'] + rest) == Some(name),
        remote_name("rclone#"@ + name + seq![':'] + rest) == Some(name),
{
    let prefix = "rclone#"@;
    reveal_strlit("rclone#");
    let plain = name + seq![':'] + rest;
    let long = prefix + name + seq![':'] + rest;
    lemma_bare_token(plain);
    lemma_bare_token(long);
    let k = CharClass::Only(':');
    lemma_colon_at(plain, name.len() as int);
    lemma_colon_at(long, (prefix.len() + name.len()) as int);
    assert(plain.take(name.len() as int) == name);
    let both = prefix + name;
    assert(long.take(both.len() as int) == both);
    assert(both.subrange(0, prefix.len() as int) == prefix);
    assert(both.skip(prefix.len() as int) == name);
    assert(long[0] == 'r');
    assert(plain[0] == name[0]);
    if name.contains('/') {
        let i = name.index_of('/');
        assert(name[i] == '/');
    }
}

proof fn lemma_bare_token(t: Seq<char>)
    requires
        t.len() > 0,
        forall|i: int|
            0 <= i < t.len() ==> #[trigger] t[i] != '"' && t[i] != '\'' && !text::is_space(t[i]),
    ensures
        text::strip_both(text::trim(t), CharClass::Quote) == t,
{
    let none = Seq::<char>::empty();
    assert(none + t + none == t);
    assert(!text::is_space(t[0]) && !text::is_space(t.last()));
    text::law_strip(none, t, none, CharClass::Space);
    text::law_strip(none, t, none, CharClass::Quote);
}

proof fn lemma_colon_at(t: Seq<char>, n: int)
    requires
        0 <= n < t.len(),
        t[n] == ':',
        forall|i: int| 0 <= i < n ==> #[trigger] t[i] != ':',
    ensures
        text::until(t, CharClass::Only(':')) == n,
{
    let k = CharClass::Only(':');
    text::lemma_until(t, k);
    let m = text::until(t, k) as int;
    if m < n {
        assert(text::in_class(k, t[m]));
    } else if m > n {
        assert(!text::in_class(k, t[n]));
    }
}

/// A remote that a token names stands in it unchanged, directly before its first colon.
pub proof fn law_remote_name_is_found_in_token(tok: Seq<char>) -> (at: int)
    requires
        remote_name(tok) is Some,
    ensures
        ({
            let name = remote_name(tok)->0;
            &&& 0 <= at && at + name.len() < tok.len()
            &&& forall|i: int| 0 <= i < name.len() ==> tok[at + i] == #[trigger] name[i]
            &&& tok[at + name.len()] == ':'
            &&& forall|i: int| 0 <= i < at + name.len() ==> #[trigger] tok[i] != ':'
        }),
{
    let name = remote_name(tok)->0;
    let a = text::strip_left(tok, CharClass::Space);
    let b = text::trim(tok);
    let c = text::strip_left(b, CharClass::Quote);
    let t = text::strip_both(b, CharClass::Quote);
    text::lemma_strip_left(tok, CharClass::Space);
    text::lemma_strip_right(a, CharClass::Space);
    text::lemma_strip_left(b, CharClass::Quote);
    text::lemma_strip_right(c, CharClass::Quote);
    text::lemma_until(t, CharClass::Only(':'));
    let before = tok.len() - a.len();
    let quotes = b.len() - c.len();
    let shift = before + quotes;
    assert forall|i: int| 0 <= i < t.len() implies #[trigger] t[i] == tok[shift + i] by {
        assert(t[i] == c[i]);
        assert(c[i] == b[quotes + i]);
        assert(b[quotes + i] == a[quotes + i]);
        assert(a[quotes + i] == tok[before + quotes + i]);
    }
    let n = text::until(t, CharClass::Only(':')) as int;
    let skip = n - name.len();
    assert forall|i: int| 0 <= i < name.len() implies tok[shift + skip + i]
        == #[trigger] name[i] by {
        assert(name[i] == t[skip + i]);
    }
    assert(text::in_class(CharClass::Only(':'), t[n]));
    assert(tok[shift + n] == t[n]);
    assert forall|i: int| 0 <= i < shift + n implies #[trigger] tok[i] != ':' by {
        if i < before {
            assert(text::in_class(CharClass::Space, tok[i]));
        } else if i < shift {
            assert(text::in_class(CharClass::Quote, b[i - before]));
            assert(b[i - before] == a[i - before]);
            assert(a[i - before] == tok[i]);
        } else {
            assert(!text::in_class(CharClass::Only(':'), t[i - shift]));
            assert(t[i - shift] == tok[i]);
        }
    }
    shift + skip
}

/// The remote of a unit text is that of its first word that names one, and there is none
/// only if no word does.
pub proof fn law_first_remote(words: Seq<Seq<char>>, i: int)
    ensures
        first_remote(words) is None <==> forall|j: int|
            0 <= j < words.len() ==> remote_name(bare_word(#[trigger] words[j])) is None,
        0 <= i < words.len() && remote_name(bare_word(words[i])) is Some && (forall|j: int|
            0 <= j < i ==> remote_name(bare_word(#[trigger] words[j])) is None)
            ==> first_remote(words) == remote_name(bare_word(words[i])),
    decreases words.len(),
{
    if words.len() > 0 {
        let rest = words.drop_first();
        law_first_remote(rest, i - 1);
        assert(forall|j: int| 0 <= j < rest.len() ==> #[trigger] rest[j] == words[j + 1]);
        assert(words[0] == words[0]);
        if remote_name(bare_word(words[0])) is None {
            if forall|j: int| 0 <= j < rest.len() ==> remote_name(bare_word(#[trigger] rest[j]))
                is None {
                assert forall|j: int| 0 <= j < words.len() implies remote_name(
                    bare_word(#[trigger] words[j]),
                ) is None by {
                    if j > 0 {
                        assert(rest[j - 1] == words[j]);
                    }
                }
            }
        }
    }
}

/// A word of unit text is read without the quotes around it and without the backslash of
/// a line continuation; nothing else of it is dropped.
pub proof fn law_bare_word(word: Seq<char>)
    requires
        word.len() > 0,
        word[0] != '"' && word[0] != '\'',
        word.last() != '"' && word.last() != '\'' && word.last() != '\\',
    ensures
        bare_word(word) == word,
        bare_word(seq!['"'] + word + seq!['"']) == word,
        bare_word(word + seq!['\\']) == word,
{
    let none = Seq::<char>::empty();
    let q = seq!['"'];
    let slash = seq!['\\'];
    assert(none + word + none == word);
    text::law_strip(none, word, none, CharClass::Quote);
    text::law_strip(q, word, q, CharClass::Quote);
    let folded = word + slash;
    assert(none + folded + none == folded);
    assert(folded[0] == word[0]);
    text::law_strip(none, folded, none, CharClass::Quote);
    assert(text::strip_right(word, CharClass::Only('\\')) == word);
    assert(folded.drop_last() == word);
}

/// The unit of a pair decides its remote wherever it names one; the mount table is asked
/// only otherwise.
pub proof fn law_pair_remote(start: Seq<char>, mounted: Option<Seq<char>>)
    ensures
        first_remote(text::words(start)) is Some ==> pair_remote(Some(start), mounted)
            == first_remote(text::words(start)),
        first_remote(text::words(start)) is None ==> pair_remote(Some(start), mounted) == mounted,
        pair_remote(None, mounted) == mounted,
{
}

/// A line of the mount table gives its first two words, each unchanged.
pub proof fn law_mount_line(source: Seq<char>, target: Seq<char>, rest: Seq<char>)
    requires
        source.len() > 0,
        target.len() > 0,
        forall|i: int| 0 <= i < source.len() ==> !text::is_space(#[trigger] source[i]),
        forall|i: int| 0 <= i < target.len() ==> !text::is_space(#[trigger] target[i]),
    ensures
        mount_table(seq![source + seq![' '] + target + seq![' '] + rest]) == Some(
            seq![(source, target)],
        ),
        mount_table(seq![source]) is None,
{
    let k = CharClass::Space;
    let line = source + seq![' '] + target + seq![' '] + rest;
    let head = source + seq![' '] + target;
    assert(forall|i: int| 0 <= i < source.len() ==> !text::in_class(k, #[trigger] source[i]));
    assert(forall|i: int| 0 <= i < target.len() ==> !text::in_class(k, #[trigger] target[i]));
    text::law_pieces(source, ' ', target, k);
    text::law_pieces(target, ' ', rest, k);
    text::law_pieces(head, ' ', rest, k);
    assert(line == head + seq![' '] + rest);
    let w = text::words(line);
    assert(w == seq![source] + seq![target] + text::pieces(rest, k));
    assert(w[0] == source && w[1] == target);
    let one = seq![line];
    assert(text::words(one[0]).len() >= 2);
    assert(one.map_values(|l: Seq<char>| (text::words(l)[0], text::words(l)[1])) =~= seq![
        (source, target),
    ]);
    assert(text::words(source) == seq![source]);
    assert(text::words(seq![source][0]).len() < 2);
}

/// Which remote a cache is taken to belong to: the one that is named wins over everything,
/// then the only directory below `vfs`, then the mount table.
pub proof fn law_chosen_remote(
    remote: Option<Seq<native::Part>>,
    layout: VfsLayout,
    name: Seq<char>,
)
    ensures
        remote is Some ==> chosen_remote(remote, layout) == remote,
        remote is None && layout.remotes is Ok && layout.remotes->Ok_0@.len() == 1
            ==> chosen_remote(remote, layout) == Some(
            seq![native::Part::Normal(layout.remotes->Ok_0@[0]@)],
        ),
        remote is None && (layout.remotes is Err || layout.remotes->Ok_0@.len() != 1) ==> {
            &&& layout.mounted is None ==> chosen_remote(remote, layout) is None
            &&& layout.mounted is Some && layout.mounted->0@ == name ==> chosen_remote(
                remote,
                layout,
            ) == Some(seq![native::Part::Normal(native::utf8(name))])
        },
{
}

/// A file below the sync root has a destination: its own path below that root, component
/// by component, beneath `vfs/<remote>` of the cache. So two files never share one.
pub proof fn law_file_is_mapped(
    r: Result<Destination, ResolutionError>,
    sync: Seq<native::Part>,
    cache: Seq<native::Part>,
    remote: Seq<u8>,
    rel: Seq<native::Part>,
)
    requires
        cache.len() > 0,
        forall|i: int| 0 <= i < rel.len() ==> (#[trigger] rel[i]) is Normal,
        maps_with(r, sync, cache, seq![native::Part::Normal(remote)], sync + rel),
    ensures
        r is Ok,
        r->Ok_0.path@ == cache + seq![
            native::Part::Normal(native::utf8("vfs"@)),
            native::Part::Normal(remote),
        ] + rel,
        r->Ok_0.relative@ == rel,
        r->Ok_0.cache_root@ == cache,
        r->Ok_0.mount_path@ == sync + rel,
{
    let mount = sync + rel;
    assert(mount.take(sync.len() as int) == sync);
    assert(mount.skip(sync.len() as int) == rel);
    let vfs = seq![native::named("vfs"@)];
    let name = seq![native::Part::Normal(remote)];
    assert(native::joined(cache, vfs) == cache + vfs);
    assert(content_dir(cache, name) == cache + vfs + name);
    let dir = cache + seq![native::named("vfs"@), native::Part::Normal(remote)];
    assert(cache + vfs + name == dir);
    if rel.len() > 0 {
        assert(rel[0] is Normal);
    }
    assert(native::joined(dir, rel) == dir + rel);
    if native::leaves(rel) {
        let i = choose|i: int|
            0 <= i < rel.len() && (#[trigger] rel[i] == native::Part::Parent || rel[i]
                == native::Part::Root);
        assert(rel[i] is Normal);
    }
}

/// A mount path outside the sync root, or one that climbs, never has a destination.
pub proof fn law_outside_is_rejected(
    r: Result<Destination, ResolutionError>,
    sync: Seq<native::Part>,
    cache: Seq<native::Part>,
    remote: Seq<native::Part>,
    mount: Seq<native::Part>,
)
    requires
        maps_with(r, sync, cache, remote, mount),
        !(exists|rest: Seq<native::Part>| mount == #[trigger] (sync + rest)) || mount.skip(
            sync.len() as int,
        ).contains(native::Part::Parent),
    ensures
        r is Err,
{
    native::law_path_beginnings(mount, sync);
    native::law_path_beginnings(mount.skip(sync.len() as int), sync);
}

/// The trees of a remote stand below the cache under their fixed names.
pub proof fn law_trees_of_a_remote(cache: Seq<native::Part>, remote: Seq<u8>)
    requires
        cache.len() > 0,
    ensures
        content_dir(cache, seq![native::Part::Normal(remote)]) == cache + seq![
            native::Part::Normal(native::utf8("vfs"@)),
            native::Part::Normal(remote),
        ],
        meta_dir(cache, seq![native::Part::Normal(remote)]) == cache + seq![
            native::Part::Normal(native::utf8("vfsMeta"@)),
            native::Part::Normal(remote),
        ],
{
    let none = Seq::<native::Part>::empty();
    native::law_joined_paths(cache, native::utf8("vfs"@), none);
    native::law_joined_paths(cache, native::utf8("vfsMeta"@), none);
    let vfs = cache + seq![native::named("vfs"@)];
    let meta = cache + seq![native::named("vfsMeta"@)];
    native::law_joined_paths(vfs, remote, none);
    native::law_joined_paths(meta, remote, none);
    assert(seq![native::named("vfs"@)] + none == seq![native::named("vfs"@)]);
    assert(seq![native::named("vfsMeta"@)] + none == seq![native::named("vfsMeta"@)]);
    assert(seq![native::Part::Normal(remote)] + none == seq![native::Part::Normal(remote)]);
    assert(vfs + seq![native::Part::Normal(remote)] =~= cache + seq![
        native::named("vfs"@),
        native::Part::Normal(remote),
    ]);
    assert(meta + seq![native::Part::Normal(remote)] =~= cache + seq![
        native::named("vfsMeta"@),
        native::Part::Normal(remote),
    ]);
}

/// The first true element is true, and none before it is.
pub proof fn law_first_true(s: Seq<bool>)
    ensures
        match first_true(s) {
            Some(k) => 0 <= k < s.len() && s[k] && forall|j: int| 0 <= j < k ==> !s[j],
            None => forall|j: int| 0 <= j < s.len() ==> !s[j],
        },
    decreases s.len(),
{
    if s.len() > 0 {
        let rest = s.drop_first();
        law_first_true(rest);
        assert(forall|j: int| 0 < j < s.len() ==> s[j] == rest[j - 1]);
    }
}

/// A mount table is read line by line, each line for its first two words, in order; one line
/// with fewer is enough for the whole not to be read.
pub proof fn law_mount_table(lines: Seq<Seq<char>>, i: int)
    requires
        0 <= i < lines.len(),
    ensures
        text::words(lines[i]).len() < 2 ==> mount_table(lines) is None,
        mount_table(lines) matches Some(t) ==> t.len() == lines.len() && t[i] == (
            text::words(lines[i])[0],
            text::words(lines[i])[1],
        ),
        (forall|j: int| 0 <= j < lines.len() ==> text::words(#[trigger] lines[j]).len() >= 2)
            ==> mount_table(lines) is Some,
        mount_table(Seq::empty()) == Some(Seq::<(Seq<char>, Seq<char>)>::empty()),
{
    let none = Seq::<Seq<char>>::empty();
    assert(none.map_values(|l: Seq<char>| (text::words(l)[0], text::words(l)[1])) =~= Seq::<
        (Seq<char>, Seq<char>),
    >::empty());
}

/// The remote that is mounted on a path is named by the source of the mount with the longest
/// target at or above the path, of equal ones the last; where nothing is mounted there, or
/// the source names no remote, there is none.
pub proof fn law_mounted_remote(mounts: Seq<Mounted>, sync: Seq<native::Part>, i: int)
    ensures
        0 <= i < mounts.len() && covers(mounts[i], sync) && (forall|j: int|
            0 <= j < mounts.len() && covers(#[trigger] mounts[j], sync) ==> mounts[j].target_len
                <= mounts[i].target_len && (j > i ==> mounts[j].target_len < mounts[i].target_len))
            ==> remote_on(mounts, sync) == remote_name(mounts[i].source@),
        (forall|j: int| 0 <= j < mounts.len() ==> !covers(#[trigger] mounts[j], sync))
            ==> remote_on(mounts, sync) is None,
        0 <= i < mounts.len() ==> (covers(mounts[i], sync) <==> exists|rest: Seq<native::Part>|
            sync == #[trigger] (mounts[i].target@ + rest)),
{
    law_nearest_mount(mounts, sync);
    if 0 <= i < mounts.len() {
        native::law_path_beginnings(sync, mounts[i].target@);
    }
}

/// A path has itself and every shorter beginning as an ancestor, down to the root or, where
/// it is relative, to the empty path.
pub proof fn law_ancestors(p: Seq<native::Part>)
    ensures
        p.len() > 0 && p[0] is Root ==> ancestor_count(p) == p.len(),
        p.len() > 0 && !(p[0] is Root) ==> ancestor_count(p) == p.len() + 1,
        p.len() == 0 ==> ancestor_count(p) == 1,
{
}

/// Where no remote can be chosen the reason says why: the listing failed, for a cause that is
/// told; there is nothing below `vfs`; or there are several, which are all named.
pub proof fn law_reasons_for_no_remote(layout: VfsLayout, i: int)
    ensures
        layout.remotes matches Err(cause) ==> exists|head: Seq<char>|
            no_remote_text(layout) == #[trigger] (head + cause@),
        layout.remotes matches Ok(list) ==> 0 <= i < list@.len() ==> text::contains_text(
            no_remote_text(layout),
            lossy_text(list@[i]@),
        ),
{
    if let Err(cause) = layout.remotes {
        assert(no_remote_text(layout) == "cannot inspect rclone VFS layout: "@ + cause@);
    }
    if let Ok(list) = layout.remotes {
        if 0 <= i < list@.len() {
            let names = list@.map_values(|n: Vec<u8>| lossy_text(n@));
            let (a, b) = lemma_joined_holds(names, ", "@, i);
            let head = "shared cache has multiple vfs remotes ("@;
            let tail = "); set paths[].service to the mount unit or use a dedicated --cache-dir"@;
            text::lemma_stands_in(head + a, names[i], b + tail);
            assert(head + a + names[i] + (b + tail) =~= head + text::joined(names, ", "@) + tail);
        }
    }
}

proof fn lemma_joined_holds(parts: Seq<Seq<char>>, sep: Seq<char>, i: int) -> (r: (
    Seq<char>,
    Seq<char>,
))
    requires
        0 <= i < parts.len(),
    ensures
        text::joined(parts, sep) == r.0 + parts[i] + r.1,
    decreases parts.len(),
{
    let rest = parts.drop_last();
    let none = Seq::<char>::empty();
    text::law_joined(rest, parts.last(), sep);
    assert(rest.push(parts.last()) =~= parts);
    if rest.len() == 0 {
        assert(parts =~= seq![parts.last()]);
        assert(text::joined(parts, sep) =~= none + parts[i] + none);
        (none, none)
    } else if i == parts.len() - 1 {
        let a = text::joined(rest, sep) + sep;
        assert(text::joined(parts, sep) =~= a + parts[i] + none);
        (a, none)
    } else {
        let (a, b) = lemma_joined_holds(rest, sep, i);
        assert(rest[i] == parts[i]);
        assert(text::joined(parts, sep) =~= a + parts[i] + (b + sep + parts.last()));
        (a, b + sep + parts.last())
    }
}

} // verus!
