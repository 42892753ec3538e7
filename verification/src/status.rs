//! The live status display: a summary, and a boxed table with one row per worker.
//!
//! A frame is redrawn in place. That works only if every emitted row stays within one
//! physical row and the whole block within the screen, so rows are clipped to one
//! column less than the terminal has, and the block to one row less.

use vstd::prelude::*;
use vstd::slice::slice_subrange;
use vstd::string::StringExecFns;

use crate::cache_ops;
use crate::cache_ops::format_bytes_compact;
use crate::config;
use crate::config::source_filename_max_chars;
use crate::report::{glue, no_texts, say};
use crate::text;
use crate::text::{
    chars_of, padded_left, padded_right, push_repeated, slice_starts_with, slice_strip_left,
    slice_usize, string_of, u64_text, usize_text, CharClass,
};

verus! {

/// Maximum characters for a source filename at the default display width.
pub const DISPLAY_PATH_MAX_CHARS: usize = 40;

/// The least time between two frames that are not forced, in milliseconds.
pub const STATUS_REFRESH_MS: u64 = 80;

/// Cells in the per-row progress bar (each cell is 10% of the file).
pub const PROGRESS_CELLS: usize = 10;

/// Erases the current physical row.
pub const CSI_ERASE_LINE: &'static str = "\x1b[2K";

/// Erases the screen from the cursor down.
pub const CSI_ERASE_DOWN: &'static str = "\x1b[J";

/// A text that is too long shows its tail behind an ellipsis.
pub open spec fn truncated(s: Seq<char>, max_chars: nat) -> Seq<char> {
    if s.len() <= max_chars {
        s
    } else {
        "…"@ + s.skip(s.len() - (max_chars - 1))
    }
}

/// Truncate long paths for the live status line (show the tail, the most useful part).
pub fn truncate_display(s: &str, max_chars: usize) -> (r: String)
    requires
        max_chars > 0 || s@.len() == 0,
    ensures
        r@ == truncated(s@, max_chars as nat),
{
    let all = chars_of(s);
    if all.len() <= max_chars {
        return s.to_string();
    }
    let tail = slice_subrange(all.as_slice(), all.len() - (max_chars - 1), all.len());
    assert(tail@ == s@.skip(s@.len() - (max_chars - 1)));
    glue("…", string_of(tail).as_str())
}

/// A truncated text is never longer than allowed, and one that fits is unchanged.
pub proof fn law_truncated_fits(s: Seq<char>, max_chars: nat)
    requires
        max_chars > 0,
    ensures
        truncated(s, max_chars).len() <= max_chars,
        s.len() > max_chars ==> truncated(s, max_chars).len() == max_chars,
        s.len() <= max_chars ==> truncated(s, max_chars) == s,
{
    reveal_strlit("…");
}

/// What a worker thread is doing right now.
#[derive(Debug, Clone, Copy, PartialEq, Eq, Structural)]
pub enum ThreadWorkMode {
    /// Waiting for the next path from the queue.
    Idle,
    /// Reading the contents of a file.
    ByteRead,
    /// Fetching attributes only.
    AttrOnly,
}

/// One worker's row of the table.
#[derive(Debug, Clone, PartialEq, Eq)]
pub struct ThreadSlotView {
    pub mode: ThreadWorkMode,
    pub size: u64,
    /// Bytes streamed so far on a read.
    pub bytes_done: u64,
    /// The path as displayed; truncated when the row is drawn.
    pub path: String,
}

/// The mathematical form of a row.
pub struct Slot {
    pub mode: ThreadWorkMode,
    pub size: u64,
    pub bytes_done: u64,
    pub path: Seq<char>,
}

impl View for ThreadSlotView {
    type V = Slot;

    open spec fn view(&self) -> Slot {
        Slot { mode: self.mode, size: self.size, bytes_done: self.bytes_done, path: self.path@ }
    }
}

/// The row of a worker that has nothing to do.
pub open spec fn idle_slot() -> Slot {
    Slot { mode: ThreadWorkMode::Idle, size: 0, bytes_done: 0, path: Seq::empty() }
}

impl ThreadSlotView {
    /// A worker that has nothing to do.
    pub fn idle() -> (r: Self)
        ensures
            r@ == idle_slot(),
    {
        let r = ThreadSlotView {
            mode: ThreadWorkMode::Idle,
            size: 0,
            bytes_done: 0,
            path: String::new(),
        };
        assert(r.path@ == Seq::<char>::empty());
        r
    }
}

/// `root` is the path itself or a directory above it.
pub open spec fn under_root(path: Seq<char>, root: Seq<char>) -> bool {
    root.len() > 0 && text::starts_with(path, root) && (path.len() == root.len() || path[root.len() as int]
        == '/')
}

/// The length of the longest of the roots that the path is under; zero if there is none.
pub open spec fn longest_root(path: Seq<char>, roots: Seq<Seq<char>>) -> nat
    decreases roots.len(),
{
    if roots.len() == 0 {
        0
    } else {
        let before = longest_root(path, roots.drop_last());
        if under_root(path, roots.last()) && roots.last().len() > before {
            roots.last().len()
        } else {
            before
        }
    }
}

/// A path without its longest root, or with a tilde for the home directory.
pub open spec fn relative_display(
    path: Seq<char>,
    roots: Seq<Seq<char>>,
    home: Option<Seq<char>>,
) -> Seq<char> {
    let n = longest_root(path, roots);
    if n > 0 {
        let rest = text::strip_left(path.skip(n as int), CharClass::Only('/'));
        if rest.len() == 0 {
            "."@
        } else {
            rest
        }
    } else if home matches Some(h) && under_root(path, h) {
        "~"@ + path.skip(home->0.len() as int)
    } else {
        path
    }
}

fn is_under(path: &[char], root: &[char]) -> (r: bool)
    ensures
        r == under_root(path@, root@),
{
    root.len() > 0 && slice_starts_with(path, root) && (path.len() == root.len()
        || path[root.len()] == '/')
}

/// The view of an optional string.
pub open spec fn maybe_text(s: Option<&str>) -> Option<Seq<char>> {
    match s {
        Some(t) => Some(t@),
        None => None,
    }
}

/// Strip obvious leading path details (a root, the home directory), then truncate to
/// `max_chars`. The longest matching root is taken.
pub fn shorten_path_for_display(
    path: &str,
    strip_roots: &Vec<String>,
    home: Option<&str>,
    max_chars: usize,
) -> (r: String)
    requires
        max_chars > 0,
    ensures
        r@ == truncated(
            relative_display(path@, text::texts(strip_roots@), maybe_text(home)),
            max_chars as nat,
        ),
{
    let all = chars_of(path);
    let s = all.as_slice();
    let ghost roots = text::texts(strip_roots@);
    let mut best: usize = 0;
    let mut i: usize = 0;
    while i < strip_roots.len()
        invariant
            i <= strip_roots.len(),
            roots == text::texts(strip_roots@),
            s@ == path@,
            best == longest_root(path@, roots.take(i as int)),
            best <= s@.len(),
        decreases strip_roots.len() - i,
    {
        let root = chars_of(strip_roots[i].as_str());
        assert(roots.take(i as int + 1).drop_last() == roots.take(i as int));
        assert(roots.take(i as int + 1).last() == root@);
        if is_under(s, root.as_slice()) && root.len() > best {
            best = root.len();
        }
        i = i + 1;
    }
    assert(roots.take(roots.len() as int) == roots);
    if best > 0 {
        let below = slice_subrange(s, best, s.len());
        assert(below@ == path@.skip(best as int));
        let rest = slice_strip_left(below, CharClass::Only('/'));
        if rest.len() == 0 {
            return truncate_display(".", max_chars);
        }
        return truncate_display(string_of(rest).as_str(), max_chars);
    }
    if let Some(h) = home {
        let root = chars_of(h);
        if is_under(s, root.as_slice()) {
            let below = slice_subrange(s, root.len(), s.len());
            assert(below@ == path@.skip(h@.len() as int));
            return truncate_display(glue("~", string_of(below).as_str()).as_str(), max_chars);
        }
    }
    truncate_display(path, max_chars)
}

/// How many cells are filled: each stands for a tenth of the file; an empty file is
/// complete.
pub open spec fn filled_cells(done: nat, total: nat) -> nat {
    if total == 0 || 10 * done / total > 10 {
        10
    } else {
        10 * done / total
    }
}

/// The ten-cell bar: empty unless contents are being read.
pub open spec fn progress_bar(done: nat, total: nat, reading: bool) -> Seq<char> {
    let n = if reading {
        filled_cells(done, total)
    } else {
        0
    };
    text::repeated('■', n) + text::repeated('□', (PROGRESS_CELLS - n) as nat)
}

/// Ten-cell bar: empty for idle and attribute rows; one filled square per tenth read.
pub fn format_progress_bar(done: u64, total: u64, reading: bool) -> (r: String)
    ensures
        r@ == progress_bar(done as nat, total as nat, reading),
{
    let mut n: usize = 0;
    if reading {
        n = 10;
        if total > 0 {
            let tenths: u128 = 10 * (done as u128) / (total as u128);
            if tenths <= 10 {
                n = tenths as usize;
            }
        }
    }
    let mut r = String::new();
    push_repeated(&mut r, '■', n);
    assert(r@ == text::repeated('■', n as nat));
    push_repeated(&mut r, '□', PROGRESS_CELLS - n);
    r
}

/// The bar always has ten cells; it is empty unless contents are read, full once the
/// whole file has been streamed, and never shrinks while more is read.
pub proof fn law_progress_bar(done: nat, more: nat, total: nat)
    requires
        done <= more,
    ensures
        progress_bar(done, total, true).len() == PROGRESS_CELLS,
        progress_bar(done, total, false) == text::repeated('□', PROGRESS_CELLS as nat),
        progress_bar(total, total, true) == text::repeated('■', PROGRESS_CELLS as nat),
        filled_cells(done, total) <= filled_cells(more, total),
{
    assert(progress_bar(done, total, false) == text::repeated('□', PROGRESS_CELLS as nat));
    if total > 0 {
        assert(10 * total / total == 10) by (nonlinear_arith)
            requires
                total > 0,
        ;
        assert(10 * done / total <= 10 * more / total) by (nonlinear_arith)
            requires
                total > 0,
                done <= more,
        ;
    }
    assert(progress_bar(total, total, true) == text::repeated('■', PROGRESS_CELLS as nat));
}

/// The columns of one row of the table.
pub open spec fn table_row(
    count: Seq<char>,
    size: Seq<char>,
    action: Seq<char>,
    progress: Seq<char>,
    name: Seq<char>,
) -> Seq<char> {
    text::pad_right(count, 5) + "  "@ + text::pad_left(size, 8) + "  "@ + text::pad_right(
        action,
        6,
    ) + "  "@ + text::pad_right(progress, 10) + "  "@ + name
}

fn compose_row(count: &str, size: &str, action: &str, progress: &str, name: &str) -> (r: String)
    ensures
        r@ == table_row(count@, size@, action@, progress@, name@),
{
    let mut r = padded_right(count, 5);
    r.append("  ");
    r.append(padded_left(size, 8).as_str());
    r.append("  ");
    r.append(padded_right(action, 6).as_str());
    r.append("  ");
    r.append(padded_right(progress, 10).as_str());
    r.append("  ");
    r.append(name);
    r
}

/// The heading of the table.
pub open spec fn table_header() -> Seq<char> {
    table_row("Count"@, "Size"@, "Action"@, "Progress"@, "Source filename"@)
}

/// The heading of the table.
pub fn thread_table_header() -> (r: String)
    ensures
        r@ == table_header(),
{
    compose_row("Count", "Size", "Action", "Progress", "Source filename")
}

/// The row of a worker.
pub open spec fn slot_row(index: nat, slot: Slot, path_max: nat) -> Seq<char> {
    let bar = progress_bar(
        slot.bytes_done as nat,
        slot.size as nat,
        slot.mode == ThreadWorkMode::ByteRead,
    );
    let size = cache_ops::compact_text(slot.size as nat);
    match slot.mode {
        ThreadWorkMode::Idle => table_row(text::decimal(index), "—"@, "idle"@, bar, "—"@),
        ThreadWorkMode::ByteRead => table_row(
            text::decimal(index),
            size,
            "READ"@,
            bar,
            truncated(slot.path, path_max),
        ),
        ThreadWorkMode::AttrOnly => table_row(
            text::decimal(index),
            size,
            "ATTRIB"@,
            bar,
            truncated(slot.path, path_max),
        ),
    }
}

/// Format one numbered worker line for the live status table.
pub fn format_thread_slot_line(index_1based: usize, slot: &ThreadSlotView, path_max: usize) -> (r:
    String)
    requires
        slot.mode != ThreadWorkMode::Idle ==> path_max > 0 || slot.path@.len() == 0,
    ensures
        r@ == slot_row(index_1based as nat, slot@, path_max as nat),
{
    let bar = format_progress_bar(
        slot.bytes_done,
        slot.size,
        slot.mode == ThreadWorkMode::ByteRead,
    );
    let index = usize_text(index_1based);
    match slot.mode {
        ThreadWorkMode::Idle => compose_row(index.as_str(), "—", "idle", bar.as_str(), "—"),
        ThreadWorkMode::ByteRead => compose_row(
            index.as_str(),
            format_bytes_compact(slot.size).as_str(),
            "READ",
            bar.as_str(),
            truncate_display(slot.path.as_str(), path_max).as_str(),
        ),
        ThreadWorkMode::AttrOnly => compose_row(
            index.as_str(),
            format_bytes_compact(slot.size).as_str(),
            "ATTRIB",
            bar.as_str(),
            truncate_display(slot.path.as_str(), path_max).as_str(),
        ),
    }
}

/// A wider display lengthens the source filename and nothing else: the row of a file
/// whose name is longer than both fields grows by exactly the added columns.
pub proof fn law_only_filename_grows(index: nat, slot: Slot, narrow: nat, wide: nat)
    requires
        slot.mode != ThreadWorkMode::Idle,
        0 < narrow <= wide,
        slot.path.len() > wide,
    ensures
        slot_row(index, slot, wide).len() - slot_row(index, slot, narrow).len() == wide - narrow,
{
    law_truncated_fits(slot.path, narrow);
    law_truncated_fits(slot.path, wide);
}

/// The columns that can be written without an automatic wrap: all but the last.
pub open spec fn usable_columns(term_cols: nat) -> nat {
    if term_cols == 0 {
        0
    } else {
        (term_cols - 1) as nat
    }
}

/// Columns we may write without triggering an automatic wrap.
pub fn printable_columns(term_cols: usize) -> (r: usize)
    ensures
        r == usable_columns(term_cols as nat),
{
    if term_cols == 0 {
        0
    } else {
        term_cols - 1
    }
}

/// At most the first `max_cols` characters.
pub open spec fn clipped(s: Seq<char>, max_cols: nat) -> Seq<char> {
    if s.len() <= max_cols {
        s
    } else {
        s.take(max_cols as int)
    }
}

/// Truncate `s` to at most `max_cols` Unicode scalars.
pub fn clip_to_columns(s: &str, max_cols: usize) -> (r: String)
    ensures
        r@ == clipped(s@, max_cols as nat),
{
    let all = chars_of(s);
    if all.len() <= max_cols {
        return s.to_string();
    }
    let head = slice_subrange(all.as_slice(), 0, max_cols);
    assert(head@ == s@.take(max_cols as int));
    string_of(head)
}

/// A horizontal border of the box.
pub open spec fn border(left: Seq<char>, inner: nat, right: Seq<char>) -> Seq<char> {
    left + text::repeated('─', inner) + right
}

/// A row of the box: a space, the clipped text and padding between the side borders.
pub open spec fn boxed_row(line: Seq<char>, inner: nat) -> Seq<char> {
    if inner == 0 {
        "││"@
    } else {
        "│ "@ + text::pad_right(clipped(line, (inner - 1) as nat), (inner - 1) as nat) + "│"@
    }
}

/// Lines in a box of exactly `width` cells; a width that cannot hold a box leaves them
/// as they are.
pub open spec fn boxed(lines: Seq<Seq<char>>, width: nat) -> Seq<Seq<char>> {
    if width < 2 {
        lines
    } else {
        let inner = (width - 2) as nat;
        seq![border("┌"@, inner, "┐"@)] + lines.map_values(|l: Seq<char>| boxed_row(l, inner))
            + seq![border("└"@, inner, "┘"@)]
    }
}

fn compose_border(left: &str, inner: usize, right: &str) -> (r: String)
    ensures
        r@ == border(left@, inner as nat, right@),
{
    let mut r = left.to_string();
    push_repeated(&mut r, '─', inner);
    r.append(right);
    r
}

fn compose_boxed_row(line: &str, inner: usize) -> (r: String)
    ensures
        r@ == boxed_row(line@, inner as nat),
{
    if inner == 0 {
        return "││".to_string();
    }
    let cut = clip_to_columns(line, inner - 1);
    let mut r = "│ ".to_string();
    r.append(padded_right(cut.as_str(), inner - 1).as_str());
    r.append("│");
    r
}

/// Wrap header and worker rows in a box of exactly `width` cells.
pub fn box_table_lines(inner_lines: &Vec<String>, width: usize) -> (v: Vec<String>)
    ensures
        text::texts(v@) == boxed(text::texts(inner_lines@), width as nat),
{
    let ghost lines = text::texts(inner_lines@);
    let mut v = no_texts();
    if width < 2 {
        let mut i: usize = 0;
        while i < inner_lines.len()
            invariant
                i <= inner_lines.len(),
                lines == text::texts(inner_lines@),
                text::texts(v@) == lines.take(i as int),
            decreases inner_lines.len() - i,
        {
            say(&mut v, inner_lines[i].as_str());
            assert(lines.take(i as int + 1) == lines.take(i as int).push(lines[i as int]));
            i = i + 1;
        }
        assert(lines.take(lines.len() as int) == lines);
        return v;
    }
    let inner = width - 2;
    let ghost rows = lines.map_values(|l: Seq<char>| boxed_row(l, inner as nat));
    let ghost top = border("┌"@, inner as nat, "┐"@);
    say(&mut v, compose_border("┌", inner, "┐").as_str());
    let mut i: usize = 0;
    assert(text::texts(v@) == seq![top] + rows.take(0));
    while i < inner_lines.len()
        invariant
            i <= inner_lines.len(),
            lines == text::texts(inner_lines@),
            rows == lines.map_values(|l: Seq<char>| boxed_row(l, inner as nat)),
            text::texts(v@) == seq![top] + rows.take(i as int),
        decreases inner_lines.len() - i,
    {
        say(&mut v, compose_boxed_row(inner_lines[i].as_str(), inner).as_str());
        assert(rows[i as int] == boxed_row(lines[i as int], inner as nat));
        assert((seq![top] + rows.take(i as int)).push(rows[i as int]) == seq![top] + rows.take(
            i as int + 1,
        ));
        i = i + 1;
    }
    assert(rows.take(rows.len() as int) == rows);
    say(&mut v, compose_border("└", inner, "┘").as_str());
    assert(text::texts(v@) == boxed(lines, width as nat));
    v
}

/// Every row of a box is exactly as wide as asked for, and the box has two rows more
/// than it holds lines.
pub proof fn law_box_is_exactly_wide(lines: Seq<Seq<char>>, width: nat, i: int)
    requires
        width >= 2,
        0 <= i < boxed(lines, width).len(),
    ensures
        boxed(lines, width).len() == lines.len() + 2,
        boxed(lines, width)[i].len() == width,
{
    reveal_strlit("┌");
    reveal_strlit("┐");
    reveal_strlit("└");
    reveal_strlit("┘");
    reveal_strlit("│");
    reveal_strlit("│ ");
    reveal_strlit("││");
}

/// How many rows of a frame are emitted: one less than the terminal has, at least one.
pub open spec fn usable_rows(term_rows: nat) -> nat {
    if term_rows <= 2 {
        1
    } else {
        (term_rows - 1) as nat
    }
}

/// A count of columns or rows: the terminal's own where it is positive, else the one that
/// the environment names where that is positive, else the usual one.
pub open spec fn extent(window: nat, named: Option<Seq<char>>, usual: nat) -> nat {
    if window > 0 {
        window
    } else {
        match named {
            Some(t) => match text::usize_value(t) {
                Some(n) => if n > 0 {
                    n
                } else {
                    usual
                },
                None => usual,
            },
            None => usual,
        }
    }
}

fn choose_extent(window: u16, named: Option<&str>, usual: usize) -> (r: usize)
    ensures
        r == extent(window as nat, text::opt_text(named), usual as nat),
{
    if window > 0 {
        return window as usize;
    }
    if let Some(t) = named {
        let all = chars_of(t);
        if let Some(n) = slice_usize(all.as_slice()) {
            if n > 0 {
                return n;
            }
        }
    }
    usual
}

/// Visible `(columns, rows)` of the terminal, given its size where it has one and the
/// environment's `COLUMNS` and `LINES`; 80 by 24 where none of them says.
pub fn stdout_size(window: Option<(u16, u16)>, columns: Option<&str>, lines: Option<&str>) -> (r: (
    usize,
    usize,
))
    ensures
        r.0 == extent(
            match window {
                Some(w) => w.0 as nat,
                None => 0,
            },
            text::opt_text(columns),
            80,
        ),
        r.1 == extent(
            match window {
                Some(w) => w.1 as nat,
                None => 0,
            },
            text::opt_text(lines),
            24,
        ),
{
    let (cols, rows): (u16, u16) = match window {
        Some(w) => w,
        None => (0, 0),
    };
    (choose_extent(cols, columns, 80), choose_extent(rows, lines, 24))
}

/// The rows of a frame that are emitted, each clipped.
pub open spec fn frame_rows(lines: Seq<Seq<char>>, term_cols: nat, term_rows: nat) -> Seq<
    Seq<char>,
> {
    let n = if lines.len() < usable_rows(term_rows) {
        lines.len()
    } else {
        usable_rows(term_rows)
    };
    Seq::new(n, |i: int| clipped(lines[i], usable_columns(term_cols)))
}

/// The rows one after the other, each erasing what stood in its place.
pub open spec fn drawn(rows: Seq<Seq<char>>) -> Seq<char>
    decreases rows.len(),
{
    if rows.len() == 0 {
        Seq::empty()
    } else {
        drawn(rows.drop_last()) + CSI_ERASE_LINE@ + rows.last() + "\n"@
    }
}

/// The control sequence that moves the cursor to the start of the previous frame.
pub open spec fn rewind(prev_rows: nat) -> Seq<char> {
    if prev_rows > 0 {
        "\x1b["@ + text::decimal(prev_rows) + "F"@
    } else {
        Seq::empty()
    }
}

/// A whole frame drawn over the previous one.
pub open spec fn redrawn(
    prev_rows: nat,
    lines: Seq<Seq<char>>,
    term_cols: nat,
    term_rows: nat,
) -> Seq<char> {
    rewind(prev_rows) + drawn(frame_rows(lines, term_cols, term_rows)) + CSI_ERASE_DOWN@
}

/// In-place redraw of `lines`. `prev_rows` is how many physical rows the last frame
/// occupied (the cursor is on the line immediately below that block). Returns the
/// control text and the rows that the new frame occupies.
pub fn compose_status_redraw(
    prev_rows: usize,
    lines: &Vec<String>,
    term_cols: usize,
    term_rows: usize,
) -> (r: (String, usize))
    ensures
        r.0@ == redrawn(
            prev_rows as nat,
            text::texts(lines@),
            term_cols as nat,
            term_rows as nat,
        ),
        r.1 == frame_rows(text::texts(lines@), term_cols as nat, term_rows as nat).len(),
{
    let ghost all = text::texts(lines@);
    let max_cols = printable_columns(term_cols);
    let max_rows: usize = if term_rows <= 2 {
        1
    } else {
        term_rows - 1
    };
    let n: usize = if lines.len() < max_rows {
        lines.len()
    } else {
        max_rows
    };
    let ghost rows = frame_rows(all, term_cols as nat, term_rows as nat);
    let mut r = String::new();
    if prev_rows > 0 {
        r = "\x1b[".to_string();
        r.append(usize_text(prev_rows).as_str());
        r.append("F");
    }
    assert(r@ == rewind(prev_rows as nat));
    let ghost head = r@;
    let mut i: usize = 0;
    assert(rows.take(0) == Seq::<Seq<char>>::empty());
    assert(head + drawn(rows.take(0)) == head);
    while i < n
        invariant
            i <= n <= lines.len(),
            n == rows.len(),
            all == text::texts(lines@),
            rows == frame_rows(all, term_cols as nat, term_rows as nat),
            max_cols == usable_columns(term_cols as nat),
            r@ == head + drawn(rows.take(i as int)),
        decreases n - i,
    {
        let ghost done = drawn(rows.take(i as int));
        let row = clip_to_columns(lines[i].as_str(), max_cols);
        assert(row@ == rows[i as int]);
        r.append(CSI_ERASE_LINE);
        r.append(row.as_str());
        r.append("\n");
        assert(rows.take(i as int + 1).drop_last() == rows.take(i as int));
        assert(head + done + CSI_ERASE_LINE@ + row@ + "\n"@ == head + (done + CSI_ERASE_LINE@
            + row@ + "\n"@));
        i = i + 1;
    }
    assert(rows.take(rows.len() as int) == rows);
    r.append(CSI_ERASE_DOWN);
    (r, n)
}

/// The control text that erases a frame.
pub open spec fn cleared(prev_rows: nat) -> Seq<char> {
    if prev_rows > 0 {
        rewind(prev_rows) + CSI_ERASE_DOWN@
    } else {
        Seq::empty()
    }
}

/// Erases the frame that occupies `prev_rows` rows above the cursor.
pub fn compose_status_clear(prev_rows: usize) -> (r: String)
    ensures
        r@ == cleared(prev_rows as nat),
{
    let mut r = String::new();
    if prev_rows > 0 {
        r = "\x1b[".to_string();
        r.append(usize_text(prev_rows).as_str());
        r.append("F");
        r.append(CSI_ERASE_DOWN);
    }
    assert(r@ == cleared(prev_rows as nat));
    r
}

/// No emitted row can wrap, and the block with its trailing newline cannot scroll a
/// terminal of at least two rows; the first row is always shown.
pub proof fn law_frame_fits_terminal(
    lines: Seq<Seq<char>>,
    term_cols: nat,
    term_rows: nat,
    i: int,
)
    requires
        0 <= i < frame_rows(lines, term_cols, term_rows).len(),
    ensures
        frame_rows(lines, term_cols, term_rows)[i].len() <= usable_columns(term_cols),
        term_cols > 0 ==> frame_rows(lines, term_cols, term_rows)[i].len() < term_cols,
        term_rows >= 2 ==> frame_rows(lines, term_cols, term_rows).len() < term_rows,
        frame_rows(lines, term_cols, term_rows).len() <= lines.len(),
{
}

/// The glyphs of the spinner.
pub open spec fn spinner(frame: int) -> char {
    if frame == 0 {
        '⣾'
    } else if frame == 1 {
        '⣽'
    } else if frame == 2 {
        '⣻'
    } else if frame == 3 {
        '⢿'
    } else if frame == 4 {
        '⡿'
    } else if frame == 5 {
        '⣟'
    } else if frame == 6 {
        '⣯'
    } else {
        '⣷'
    }
}

/// How many glyphs the spinner has.
pub const SPINNER_FRAMES: usize = 8;

/// The glyph of a spinner frame.
pub fn spinner_glyph(frame: usize) -> (c: char)
    ensures
        c == spinner(frame as int),
{
    match frame {
        0 => '⣾',
        1 => '⣽',
        2 => '⣻',
        3 => '⢿',
        4 => '⡿',
        5 => '⣟',
        6 => '⣯',
        _ => '⣷',
    }
}

/// Multi-line live progress: summary header and per-worker table.
#[derive(Debug)]
pub struct WalkStatus {
    pub dirs: usize,
    pub files: usize,
    pub errors: usize,
    /// Workers currently inside warm work (in-flight).
    pub active_threads: usize,
    /// Configured pool size.
    pub max_threads: usize,
    pub byte_reads: usize,
    pub metadata_only: usize,
    /// A stop was requested; in-flight work still finishes.
    pub cancelled: bool,
    /// The sync mount root as displayed.
    pub local_target: String,
    /// One row per worker.
    pub slots: Vec<ThreadSlotView>,
    /// Warnings held back until the live block has been erased.
    pub warnings: Vec<String>,
    /// The position of the spinner.
    pub frame: usize,
    /// When the last frame was drawn, in milliseconds since the start.
    pub last_render_ms: Option<u64>,
    /// Physical rows that the last frame occupies.
    pub rendered_lines: usize,
    /// Characters for a source filename.
    pub path_max: usize,
}

/// The rows of the workers.
pub open spec fn slot_views(v: Seq<ThreadSlotView>) -> Seq<Slot> {
    v.map_values(|s: ThreadSlotView| s@)
}

/// The state of a display that the lines of a frame depend on.
pub struct Display {
    pub dirs: nat,
    pub files: nat,
    pub errors: nat,
    pub active_threads: nat,
    pub max_threads: nat,
    pub cancelled: bool,
    pub local_target: Seq<char>,
    pub slots: Seq<Slot>,
    pub path_max: nat,
}

/// The summary line.
pub open spec fn summary_line(d: Display, glyph: char, elapsed_secs: nat) -> Seq<char> {
    seq![glyph] + "  Directories: "@ + text::pad_left(text::decimal(d.dirs), 6) + "  Files: "@
        + text::pad_left(text::decimal(d.files), 6) + "  Threads: "@ + text::decimal(
        d.active_threads,
    ) + "/"@ + text::decimal(d.max_threads) + "  Errors: "@ + text::decimal(d.errors)
        + "  Elapsed: "@ + text::decimal(elapsed_secs) + "s"@
}

/// The header and the rows of the table.
pub open spec fn table_lines(d: Display) -> Seq<Seq<char>> {
    seq![table_header()] + Seq::new(
        d.slots.len(),
        |i: int| slot_row((i + 1) as nat, d.slots[i], d.path_max),
    )
}

/// The lines above the table.
pub open spec fn summary_lines(d: Display, glyph: char, elapsed_secs: nat) -> Seq<Seq<char>> {
    let top = seq![
        "Running:"@,
        summary_line(d, glyph, elapsed_secs),
        "    Local target: "@ + truncated(d.local_target, 48),
    ];
    let middle = if d.cancelled {
        top.push("STOPPING (finish in-flight, no new work)"@)
    } else {
        top
    };
    middle.push(""@).push("Running threads:"@).push(""@)
}

/// The width of the table on a terminal.
pub open spec fn table_width(term_cols: nat) -> nat {
    if usable_columns(term_cols) < 2 {
        2
    } else {
        usable_columns(term_cols)
    }
}

/// All lines of a frame.
pub open spec fn status_lines(d: Display, glyph: char, elapsed_secs: nat, term_cols: nat) -> Seq<
    Seq<char>,
> {
    summary_lines(d, glyph, elapsed_secs) + boxed(table_lines(d), table_width(term_cols))
}

fn append_all(v: &mut Vec<String>, more: Vec<String>)
    ensures
        text::texts(final(v)@) == text::texts(old(v)@) + text::texts(more@),
{
    let mut rest = more;
    v.append(&mut rest);
    assert(text::texts(v@) == text::texts(old(v)@) + text::texts(more@));
}

impl WalkStatus {
    /// The spinner position is one of its glyphs, and the filename field is not empty.
    pub open spec fn wf(self) -> bool {
        self.frame < SPINNER_FRAMES && self.path_max > 0
    }

    /// What the lines of the next frame show.
    pub open spec fn display(self) -> Display {
        Display {
            dirs: self.dirs as nat,
            files: self.files as nat,
            errors: self.errors as nat,
            active_threads: self.active_threads as nat,
            max_threads: self.max_threads as nat,
            cancelled: self.cancelled,
            local_target: self.local_target@,
            slots: slot_views(self.slots@),
            path_max: self.path_max as nat,
        }
    }

    /// The position of the spinner.
    pub open spec fn spin(self) -> int {
        self.frame as int
    }

    /// How many rows the last frame occupies.
    pub open spec fn occupied(self) -> nat {
        self.rendered_lines as nat
    }

    /// When the last frame was drawn, in milliseconds since the start.
    pub open spec fn drawn_at(self) -> Option<u64> {
        self.last_render_ms
    }

    /// A display with idle workers and nothing drawn.
    pub fn new(
        dirs: usize,
        files: usize,
        errors: usize,
        max_threads: usize,
        local_target: &str,
        width: usize,
    ) -> (r: Self)
        ensures
            r.wf(),
            r.display() == (Display {
                dirs: dirs as nat,
                files: files as nat,
                errors: errors as nat,
                active_threads: 0,
                max_threads: max_threads as nat,
                cancelled: false,
                local_target: local_target@,
                slots: Seq::new(max_threads as nat, |i: int| idle_slot()),
                path_max: (config::SOURCE_FILENAME_BASE_CHARS + (config::clamped_width(
                    width as int,
                ) - config::DISPLAY_WIDTH_DEFAULT)) as nat,
            }),
            r.byte_reads == 0,
            r.metadata_only == 0,
            r.warnings@.len() == 0,
            r.spin() == SPINNER_FRAMES - 1,
            r.occupied() == 0,
            r.drawn_at() is None,
            r.dirs == dirs,
            r.files == files,
            r.errors == errors,
            r.max_threads == max_threads,
            r.active_threads == 0,
            !r.cancelled,
            r.local_target@ == local_target@,
    {
        let mut slots: Vec<ThreadSlotView> = Vec::new();
        let mut i: usize = 0;
        while i < max_threads
            invariant
                i <= max_threads,
                slot_views(slots@) == Seq::new(i as nat, |j: int| idle_slot()),
            decreases max_threads - i,
        {
            let ghost before = slot_views(slots@);
            slots.push(ThreadSlotView::idle());
            assert(slot_views(slots@) == before.push(idle_slot()));
            assert(before.push(idle_slot()) == Seq::new((i + 1) as nat, |j: int| idle_slot()));
            i = i + 1;
        }
        let r = WalkStatus {
            dirs,
            files,
            errors,
            active_threads: 0,
            max_threads,
            byte_reads: 0,
            metadata_only: 0,
            cancelled: false,
            local_target: local_target.to_string(),
            slots,
            warnings: Vec::new(),
            frame: SPINNER_FRAMES - 1,
            last_render_ms: None,
            rendered_lines: 0,
            path_max: source_filename_max_chars(width),
        };
        assert(r.display().slots == Seq::new(max_threads as nat, |i: int| idle_slot()));
        r
    }

    /// Counts a directory.
    pub fn record_dir(&mut self)
        requires
            old(self).wf(),
            old(self).dirs < usize::MAX,
        ensures
            final(self).wf(),
            *final(self) == (WalkStatus { dirs: (old(self).dirs + 1) as usize, ..*old(self) }),
    {
        self.dirs = self.dirs + 1;
    }

    /// Counts an error.
    pub fn record_error(&mut self)
        requires
            old(self).wf(),
            old(self).errors < usize::MAX,
        ensures
            final(self).wf(),
            *final(self) == (WalkStatus { errors: (old(self).errors + 1) as usize, ..*old(self) }),
    {
        self.errors = self.errors + 1;
    }

    fn table(&self) -> (v: Vec<String>)
        requires
            self.wf(),
        ensures
            text::texts(v@) == table_lines(self.display()),
    {
        let ghost d = self.display();
        let ghost rows = Seq::new(
            d.slots.len(),
            |i: int| slot_row((i + 1) as nat, d.slots[i], d.path_max),
        );
        let mut v = no_texts();
        say(&mut v, thread_table_header().as_str());
        let mut i: usize = 0;
        assert(text::texts(v@) == seq![table_header()] + rows.take(0));
        while i < self.slots.len()
            invariant
                i <= self.slots.len(),
                self.wf(),
                d == self.display(),
                rows == Seq::new(
                    d.slots.len(),
                    |i: int| slot_row((i + 1) as nat, d.slots[i], d.path_max),
                ),
                text::texts(v@) == seq![table_header()] + rows.take(i as int),
            decreases self.slots.len() - i,
        {
            assert(d.slots[i as int] == self.slots@[i as int]@);
            let row = format_thread_slot_line(i + 1, &self.slots[i], self.path_max);
            say(&mut v, row.as_str());
            assert(row@ == rows[i as int]);
            assert((seq![table_header()] + rows.take(i as int)).push(rows[i as int]) == seq![
                table_header(),
            ] + rows.take(i as int + 1));
            i = i + 1;
        }
        assert(rows.take(rows.len() as int) == rows);
        v
    }

    fn summary(&self, glyph: char, elapsed_secs: u64) -> (v: Vec<String>)
        ensures
            text::texts(v@) == summary_lines(self.display(), glyph, elapsed_secs as nat),
    {
        let mut line = String::new();
        line.push(glyph);
        assert(line@ == seq![glyph]);
        line.append("  Directories: ");
        line.append(padded_left(usize_text(self.dirs).as_str(), 6).as_str());
        line.append("  Files: ");
        line.append(padded_left(usize_text(self.files).as_str(), 6).as_str());
        line.append("  Threads: ");
        line.append(usize_text(self.active_threads).as_str());
        line.append("/");
        line.append(usize_text(self.max_threads).as_str());
        line.append("  Errors: ");
        line.append(usize_text(self.errors).as_str());
        line.append("  Elapsed: ");
        line.append(u64_text(elapsed_secs).as_str());
        line.append("s");
        let mut v = no_texts();
        say(&mut v, "Running:");
        say(&mut v, line.as_str());
        say(
            &mut v,
            glue(
                "    Local target: ",
                truncate_display(self.local_target.as_str(), 48).as_str(),
            ).as_str(),
        );
        if self.cancelled {
            say(&mut v, "STOPPING (finish in-flight, no new work)");
        }
        say(&mut v, "");
        say(&mut v, "Running threads:");
        say(&mut v, "");
        v
    }

    /// Draws a frame over the last one: the control text to write, or nothing if the last
    /// frame is too recent and the new one is not forced. `now_ms` is the time since the
    /// display was made.
    pub fn render(&mut self, now_ms: u64, force: bool, cols: usize, rows: usize) -> (r: Option<
        String,
    >)
        requires
            old(self).wf(),
        ensures
            final(self).wf(),
            final(self).display() == old(self).display(),
            final(self).warnings@ == old(self).warnings@,
            final(self).byte_reads == old(self).byte_reads,
            final(self).metadata_only == old(self).metadata_only,
            ({
                let recent = old(self).drawn_at() matches Some(t) && now_ms - t
                    < STATUS_REFRESH_MS;
                let spin = (old(self).spin() + 1) % SPINNER_FRAMES as int;
                let lines = status_lines(
                    old(self).display(),
                    spinner(spin),
                    (now_ms / 1000) as nat,
                    cols as nat,
                );
                if !force && recent {
                    &&& r is None
                    &&& final(self).spin() == old(self).spin()
                    &&& final(self).occupied() == old(self).occupied()
                    &&& final(self).drawn_at() == old(self).drawn_at()
                } else {
                    &&& r is Some
                    &&& r->0@ == redrawn(old(self).occupied(), lines, cols as nat, rows as nat)
                    &&& final(self).spin() == spin
                    &&& final(self).occupied() == frame_rows(lines, cols as nat, rows as nat).len()
                    &&& final(self).drawn_at() == Some(now_ms)
                }
            }),
    {
        if !force {
            if let Some(t) = self.last_render_ms {
                if now_ms < t || now_ms - t < STATUS_REFRESH_MS {
                    return None;
                }
            }
        }
        self.frame = (self.frame + 1) % SPINNER_FRAMES;
        self.last_render_ms = Some(now_ms);
        let width = printable_columns(cols);
        let width: usize = if width < 2 {
            2
        } else {
            width
        };
        let table = self.table();
        let boxed_table = box_table_lines(&table, width);
        let mut lines = self.summary(spinner_glyph(self.frame), now_ms / 1000);
        append_all(&mut lines, boxed_table);
        let (frame, n) = compose_status_redraw(self.rendered_lines, &lines, cols, rows);
        self.rendered_lines = n;
        Some(frame)
    }

    /// Erases the live block, so that later lines print in its place: the control text to
    /// write.
    pub fn finish_line(&mut self) -> (r: String)
        requires
            old(self).wf(),
        ensures
            final(self).wf(),
            r@ == cleared(old(self).occupied()),
            final(self).occupied() == 0,
            final(self).display() == old(self).display(),
            final(self).spin() == old(self).spin(),
            final(self).drawn_at() == old(self).drawn_at(),
            final(self).warnings@ == old(self).warnings@,
            final(self).byte_reads == old(self).byte_reads,
            final(self).metadata_only == old(self).metadata_only,
    {
        let r = compose_status_clear(self.rendered_lines);
        self.rendered_lines = 0;
        r
    }
}

/// Of a text that is too long the end is shown, behind one ellipsis.
pub proof fn law_truncated_shows_the_end(s: Seq<char>, max_chars: nat, i: int)
    requires
        0 < max_chars < s.len(),
        0 <= i < max_chars - 1,
    ensures
        truncated(s, max_chars)[0] == '…',
        truncated(s, max_chars)[max_chars - 1 - i] == s[s.len() - 1 - i],
{
    reveal_strlit("…");
}

/// A path lies under a root that is not empty exactly when it is the root, or goes on behind
/// it with a separator.
pub proof fn law_under_root(path: Seq<char>, root: Seq<char>)
    ensures
        under_root(path, root) <==> root.len() > 0 && (path == root || exists|rest: Seq<char>|
            path == #[trigger] (root + seq!['/'] + rest)),
{
    text::law_occurrence(path, root, 0);
    if under_root(path, root) {
        if path.len() == root.len() {
            assert(path =~= root);
        } else {
            assert(path =~= root + seq!['/'] + path.skip(root.len() as int + 1));
        }
    }
    if exists|rest: Seq<char>| path == #[trigger] (root + seq!['/'] + rest) {
        let rest = choose|rest: Seq<char>| path == #[trigger] (root + seq!['/'] + rest);
        assert(path[root.len() as int] == '/');
    }
}

/// The root that is taken off a path is one that the path is under, and none of the others
/// that it is under is longer.
pub proof fn law_longest_root(path: Seq<char>, roots: Seq<Seq<char>>, i: int)
    ensures
        0 <= i < roots.len() && under_root(path, roots[i]) ==> longest_root(path, roots)
            >= roots[i].len(),
        longest_root(path, roots) > 0 ==> exists|j: int|
            0 <= j < roots.len() && under_root(path, #[trigger] roots[j]) && roots[j].len()
                == longest_root(path, roots),
    decreases roots.len(),
{
    if roots.len() > 0 {
        let rest = roots.drop_last();
        law_longest_root(path, rest, i);
        let before = longest_root(path, rest);
        if under_root(path, roots.last()) && roots.last().len() > before {
            assert(roots[roots.len() - 1] == roots.last());
        } else if before > 0 {
            let j = choose|j: int|
                0 <= j < rest.len() && under_root(path, #[trigger] rest[j]) && rest[j].len()
                    == before;
            assert(roots[j] == rest[j]);
        }
    }
}

/// A path under a root is shown from the root on, the root itself as a dot. A path under no
/// root has the home directory shown as a tilde, and is else shown as it is.
pub proof fn law_shown_path(
    path: Seq<char>,
    roots: Seq<Seq<char>>,
    home: Option<Seq<char>>,
    root: Seq<char>,
    rest: Seq<char>,
)
    requires
        path == root || path == root + seq!['/'] + rest,
        rest.len() > 0 ==> rest[0] != '/',
        root.len() > 0,
    ensures
        longest_root(path, roots) == root.len() && path == root ==> relative_display(
            path,
            roots,
            home,
        ) == seq!['.'],
        longest_root(path, roots) == root.len() && path == root + seq!['/'] + rest && rest.len()
            > 0 ==> relative_display(path, roots, home) == rest,
        longest_root(path, roots) == 0 && home == Some(root) && path == root ==> relative_display(
            path,
            roots,
            home,
        ) == seq!['~'],
        longest_root(path, roots) == 0 && home == Some(root) && path == root + seq!['/'] + rest
            ==> relative_display(path, roots, home) == seq!['~', '/'] + rest,
        longest_root(path, roots) == 0 && (home is None || !under_root(path, home->0))
            ==> relative_display(path, roots, home) == path,
{
    reveal_strlit(".");
    reveal_strlit("~");
    law_under_root(path, root);
    let below = path.skip(root.len() as int);
    if path == root {
        assert(below =~= Seq::<char>::empty());
        assert(relative_display(path, roots, Some(root)) =~= "~"@ || longest_root(path, roots) > 0);
    } else {
        assert(below =~= seq!['/'] + rest);
        assert(below.drop_first() =~= rest);
        assert(text::in_class(CharClass::Only('/'), below[0]));
        assert(text::strip_left(below, CharClass::Only('/')) == text::strip_left(
            rest,
            CharClass::Only('/'),
        ));
        assert("~"@ + below =~= seq!['~', '/'] + rest);
    }
}

/// A cell of the bar is filled exactly when at least its tenth of the file has been read;
/// every cell of an empty file is, and none where nothing is read.
pub proof fn law_cells_are_tenths(done: nat, total: nat, i: int)
    requires
        0 <= i < 10,
    ensures
        progress_bar(done, total, true).len() == 10,
        total > 0 ==> progress_bar(done, total, true)[i] == if (i + 1) * total <= 10 * done {
            '■'
        } else {
            '□'
        },
        total == 0 ==> progress_bar(done, total, true)[i] == '■',
        progress_bar(done, total, false)[i] == '□',
{
    if total > 0 {
        let q = (10 * done / total) as int;
        vstd::arithmetic::div_mod::lemma_fundamental_div_mod(10 * done as int, total as int);
        assert(q * total <= 10 * done < (q + 1) * total) by (nonlinear_arith)
            requires
                10 * done == total * q + (10 * done) % total,
                0 <= (10 * done) % total < total,
        ;
        if i < q {
            assert((i + 1) * total <= q * total) by (nonlinear_arith)
                requires
                    i + 1 <= q,
                    total > 0,
            ;
        } else {
            assert((i + 1) * total >= (q + 1) * total) by (nonlinear_arith)
                requires
                    i >= q,
                    total > 0,
            ;
        }
    }
}

/// The columns of the table stand at fixed places: the number at the left, the size at the
/// right of its column, what is done, the bar, and the name last.
pub proof fn law_table_columns(
    count: Seq<char>,
    size: Seq<char>,
    action: Seq<char>,
    progress: Seq<char>,
    name: Seq<char>,
)
    requires
        count.len() <= 5,
        size.len() <= 8,
        action.len() <= 6,
        progress.len() <= 10,
    ensures
        ({
            let row = table_row(count, size, action, progress, name);
            &&& row.len() == 37 + name.len()
            &&& row.take(count.len() as int) == count
            &&& row.subrange(15 - size.len(), 15) == size
            &&& row.subrange(17, 17 + action.len() as int) == action
            &&& row.subrange(25, 25 + progress.len() as int) == progress
            &&& row.skip(37) == name
        }),
{
    reveal_strlit("  ");
    let row = table_row(count, size, action, progress, name);
    text::law_padding(count, 5);
    text::law_padding(size, 8);
    text::law_padding(action, 6);
    text::law_padding(progress, 10);
    let c = text::pad_right(count, 5);
    let s = text::pad_left(size, 8);
    let a = text::pad_right(action, 6);
    let p = text::pad_right(progress, 10);
    assert(c.len() == 5 && s.len() == 8 && a.len() == 6 && p.len() == 10);
    assert(row.take(count.len() as int) =~= count);
    assert(row.subrange(15 - size.len(), 15) =~= size);
    assert(row.subrange(17, 17 + action.len() as int) =~= action);
    assert(row.subrange(25, 25 + progress.len() as int) =~= progress);
    assert(row.skip(37) =~= name);
}

/// The row of a worker shows its number, what it does and, unless it is idle, the size and
/// the name of its file. The bar is empty unless contents are read.
pub proof fn law_worker_rows(index: nat, slot: Slot, path_max: nat)
    ensures
        ({
            let row = slot_row(index, slot, path_max);
            let number = text::decimal(index);
            let size = cache_ops::compact_text(slot.size as nat);
            let name = truncated(slot.path, path_max);
            let empty = seq!['□', '□', '□', '□', '□', '□', '□', '□', '□', '□'];
            &&& slot.mode is Idle ==> row == table_row(
                number,
                seq!['—'],
                seq!['i', 'd', 'l', 'e'],
                empty,
                seq!['—'],
            )
            &&& slot.mode is AttrOnly ==> row == table_row(
                number,
                size,
                seq!['A', 'T', 'T', 'R', 'I', 'B'],
                empty,
                name,
            )
            &&& slot.mode is ByteRead ==> row == table_row(
                number,
                size,
                seq!['R', 'E', 'A', 'D'],
                progress_bar(slot.bytes_done as nat, slot.size as nat, true),
                name,
            )
        }),
{
    reveal_strlit("—");
    reveal_strlit("idle");
    reveal_strlit("ATTRIB");
    reveal_strlit("READ");
    assert("—"@ =~= seq!['—']);
    assert("idle"@ =~= seq!['i', 'd', 'l', 'e']);
    assert("ATTRIB"@ =~= seq!['A', 'T', 'T', 'R', 'I', 'B']);
    assert("READ"@ =~= seq!['R', 'E', 'A', 'D']);
    assert(progress_bar(slot.bytes_done as nat, slot.size as nat, false) =~= seq![
        '□',
        '□',
        '□',
        '□',
        '□',
        '□',
        '□',
        '□',
        '□',
        '□',
    ]);
}

/// What is clipped keeps its beginning, as much of it as there is room for.
pub proof fn law_clipped_keeps_the_beginning(s: Seq<char>, max_cols: nat, i: int)
    ensures
        clipped(s, max_cols).len() == if s.len() <= max_cols {
            s.len()
        } else {
            max_cols
        },
        0 <= i < clipped(s, max_cols).len() ==> clipped(s, max_cols)[i] == s[i],
{
}

/// A box holds its lines in order, each behind a border and a space and followed by spaces
/// up to the other border. Corners and rules close it above and below. Where there is no
/// room for a box the lines stay as they are.
pub proof fn law_box_holds_its_lines(lines: Seq<Seq<char>>, width: nat, i: int, k: int)
    requires
        0 <= i < lines.len(),
    ensures
        width < 2 ==> boxed(lines, width) == lines,
        width >= 2 ==> boxed(lines, width)[0][0] == '┌' && boxed(lines, width)[0][width - 1] == '┐',
        width >= 2 && 0 < k < width - 1 ==> boxed(lines, width)[0][k] == '─',
        width >= 2 ==> boxed(lines, width).last()[0] == '└' && boxed(lines, width).last()[width - 1]
            == '┘',
        width >= 2 && 0 < k < width - 1 ==> boxed(lines, width).last()[k] == '─',
        width >= 2 ==> boxed(lines, width)[i + 1][0] == '│' && boxed(lines, width)[i + 1][width - 1]
            == '│',
        width >= 3 ==> boxed(lines, width)[i + 1][1] == ' ',
        0 <= k < width - 3 ==> boxed(lines, width)[i + 1][k + 2] == if k < lines[i].len() {
            lines[i][k]
        } else {
            ' '
        },
{
    reveal_strlit("┌");
    reveal_strlit("┐");
    reveal_strlit("└");
    reveal_strlit("┘");
    reveal_strlit("│");
    reveal_strlit("│ ");
    reveal_strlit("││");
    if width >= 2 {
        let inner = (width - 2) as nat;
        assert(boxed(lines, width)[i + 1] == boxed_row(lines[i], inner));
        assert(boxed(lines, width).last() == border("└"@, inner, "┘"@));
        if inner > 0 {
            let c = clipped(lines[i], (inner - 1) as nat);
            text::law_padding(c, (inner - 1) as nat);
            law_clipped_keeps_the_beginning(lines[i], (inner - 1) as nat, k);
            let p = text::pad_right(c, (inner - 1) as nat);
            assert(p.len() == inner - 1);
            if 0 <= k < width - 3 {
                assert(boxed_row(lines[i], inner)[k + 2] == p[k]);
                if k < c.len() {
                    assert(p[k] == c[k]);
                } else {
                    assert(p[k] == ' ');
                }
            }
        }
    }
}

/// The last column and, on a terminal of more than two rows, the last row are left free; a
/// smaller terminal still shows one row.
pub proof fn law_free_margin(cols: nat, rows: nat)
    ensures
        cols > 0 ==> usable_columns(cols) == cols - 1,
        cols == 0 ==> usable_columns(cols) == 0,
        rows >= 2 ==> usable_rows(rows) == rows - 1,
        rows < 2 ==> usable_rows(rows) == 1,
        STATUS_REFRESH_MS == 80,
        DISPLAY_PATH_MAX_CHARS == 40,
{
}

/// A positive size of the terminal counts before all else, then a positive number that the
/// environment names, then the usual one.
pub proof fn law_terminal_size(window: nat, named: Seq<char>, n: nat, usual: nat)
    ensures
        window > 0 ==> extent(window, Some(named), usual) == window && extent(window, None, usual)
            == window,
        extent(0, None, usual) == usual,
        0 < n <= usize::MAX ==> extent(0, Some(text::decimal(n)), usual) == n,
        extent(0, Some(text::decimal(0)), usual) == usual,
        text::usize_value(named) is None ==> extent(0, Some(named), usual) == usual,
{
    text::law_numerals(n, usize::MAX as nat, Seq::empty(), '0');
    text::law_numerals(0, usize::MAX as nat, Seq::empty(), '0');
}

/// A frame is drawn from the line where the last one began: it goes up as many rows as that
/// one took, erases and writes each row, and erases what is left below. A frame that is
/// cleared leaves nothing, and nothing is written where there is none.
pub proof fn law_frame_is_drawn_in_place(
    prev_rows: nat,
    lines: Seq<Seq<char>>,
    cols: nat,
    rows: nat,
    above: Seq<Seq<char>>,
    row: Seq<char>,
)
    ensures
        drawn(above.push(row)) == drawn(above) + seq!['\x1b', '[', '2', 'K'] + row + seq!['\n'],
        drawn(Seq::empty()) == Seq::<char>::empty(),
        prev_rows > 0 ==> redrawn(prev_rows, lines, cols, rows) == seq!['\x1b', '[']
            + text::decimal(prev_rows) + seq!['F'] + drawn(frame_rows(lines, cols, rows)) + seq![
            '\x1b',
            '[',
            'J',
        ],
        redrawn(0, lines, cols, rows) == drawn(frame_rows(lines, cols, rows)) + seq![
            '\x1b',
            '[',
            'J',
        ],
        prev_rows > 0 ==> cleared(prev_rows) == seq!['\x1b', '['] + text::decimal(prev_rows)
            + seq!['F', '\x1b', '[', 'J'],
        cleared(0) == Seq::<char>::empty(),
{
    reveal_strlit("\x1b[2K");
    reveal_strlit("\x1b[J");
    reveal_strlit("\x1b[");
    reveal_strlit("F");
    reveal_strlit("\n");
    assert(above.push(row).drop_last() == above);
    assert(CSI_ERASE_LINE@ =~= seq!['\x1b', '[', '2', 'K']);
    assert(CSI_ERASE_DOWN@ =~= seq!['\x1b', '[', 'J']);
    assert("\x1b["@ =~= seq!['\x1b', '[']);
    assert("F"@ =~= seq!['F']);
    assert("\n"@ =~= seq!['\n']);
}

/// As many lines of a frame are shown as the terminal has room for, from the first one on,
/// each from its beginning.
pub proof fn law_frame_shows_the_first_lines(
    lines: Seq<Seq<char>>,
    cols: nat,
    rows: nat,
    i: int,
    k: int,
)
    ensures
        frame_rows(lines, cols, rows).len() == if lines.len() <= usable_rows(rows) {
            lines.len()
        } else {
            usable_rows(rows)
        },
        0 <= i < frame_rows(lines, cols, rows).len() && 0 <= k < frame_rows(
            lines,
            cols,
            rows,
        )[i].len() ==> frame_rows(lines, cols, rows)[i][k] == lines[i][k],
        0 <= i < frame_rows(lines, cols, rows).len() && lines[i].len() < cols ==> frame_rows(
            lines,
            cols,
            rows,
        )[i] == lines[i],
{
}

/// The glyphs of the spinner all differ, so that every frame is seen to move.
pub proof fn law_spinner_moves(a: int, b: int)
    requires
        0 <= a < 8,
        0 <= b < 8,
    ensures
        spinner(a) == spinner(b) <==> a == b,
        SPINNER_FRAMES == 8,
{
}

/// The summary shows each count behind its own label.
pub proof fn law_summary_counts(d: Display, glyph: char, elapsed: nat)
    ensures
        ({
            let line = summary_line(d, glyph, elapsed);
            &&& line[0] == glyph
            &&& text::contains_text(
                line,
                "  Directories: "@ + text::pad_left(text::decimal(d.dirs), 6),
            )
            &&& text::contains_text(line, "  Files: "@ + text::pad_left(text::decimal(d.files), 6))
            &&& text::contains_text(line, "  Threads: "@ + text::decimal(d.active_threads))
            &&& text::contains_text(line, "/"@ + text::decimal(d.max_threads))
            &&& text::contains_text(line, "  Errors: "@ + text::decimal(d.errors))
            &&& text::contains_text(line, "  Elapsed: "@ + text::decimal(elapsed))
        }),
{
    let line = summary_line(d, glyph, elapsed);
    let dirs = text::pad_left(text::decimal(d.dirs), 6);
    let files = text::pad_left(text::decimal(d.files), 6);
    let p0 = seq![glyph];
    let p1 = p0 + "  Directories: "@ + dirs;
    let p2 = p1 + "  Files: "@ + files;
    let p3 = p2 + "  Threads: "@ + text::decimal(d.active_threads);
    let p4 = p3 + "/"@ + text::decimal(d.max_threads);
    let p5 = p4 + "  Errors: "@ + text::decimal(d.errors);
    let p6 = p5 + "  Elapsed: "@ + text::decimal(elapsed);
    assert(line == p6 + "s"@);
    let tail6 = "s"@;
    let tail5 = "  Elapsed: "@ + text::decimal(elapsed) + tail6;
    let tail4 = "  Errors: "@ + text::decimal(d.errors) + tail5;
    let tail3 = "/"@ + text::decimal(d.max_threads) + tail4;
    let tail2 = "  Threads: "@ + text::decimal(d.active_threads) + tail3;
    let tail1 = "  Files: "@ + files + tail2;
    lemma_labelled(p0, "  Directories: "@, dirs, tail1);
    lemma_labelled(p1, "  Files: "@, files, tail2);
    lemma_labelled(p2, "  Threads: "@, text::decimal(d.active_threads), tail3);
    lemma_labelled(p3, "/"@, text::decimal(d.max_threads), tail4);
    lemma_labelled(p4, "  Errors: "@, text::decimal(d.errors), tail5);
    lemma_labelled(p5, "  Elapsed: "@, text::decimal(elapsed), tail6);
}

proof fn lemma_labelled(before: Seq<char>, label: Seq<char>, value: Seq<char>, after: Seq<char>)
    ensures
        text::contains_text(before + label + value + after, label + value),
        before + (label + value + after) == before + label + value + after,
{
    text::lemma_stands_in(before, label + value, after);
    assert(before + (label + value) + after =~= before + label + value + after);
    assert(before + (label + value + after) =~= before + label + value + after);
}

/// A frame begins with the summary and, once a stop was asked for, says so; then comes the
/// table with its heading and one row per worker, numbered from one, in a box that leaves
/// the last column free.
pub proof fn law_frame_layout(d: Display, glyph: char, elapsed: nat, cols: nat, i: int)
    requires
        0 <= i < d.slots.len(),
    ensures
        summary_lines(d, glyph, elapsed)[1] == summary_line(d, glyph, elapsed),
        summary_lines(d, glyph, elapsed)[2] == "    Local target: "@ + truncated(d.local_target, 48),
        summary_lines(d, glyph, elapsed).len() == if d.cancelled {
            7int
        } else {
            6
        },
        d.cancelled ==> summary_lines(d, glyph, elapsed)[3]
            == "STOPPING (finish in-flight, no new work)"@,
        table_lines(d).len() == d.slots.len() + 1,
        table_lines(d)[0] == table_header(),
        table_lines(d)[i + 1] == slot_row((i + 1) as nat, d.slots[i], d.path_max),
        cols >= 3 ==> status_lines(d, glyph, elapsed, cols) == summary_lines(d, glyph, elapsed)
            + boxed(table_lines(d), (cols - 1) as nat),
        cols < 3 ==> status_lines(d, glyph, elapsed, cols) == summary_lines(d, glyph, elapsed)
            + boxed(table_lines(d), 2),
{
}

} // verus!
