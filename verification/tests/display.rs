use warm_drive_cache::config::source_filename_max_chars;
use warm_drive_cache::status::{
    box_table_lines, clip_to_columns, compose_status_clear, compose_status_redraw,
    format_progress_bar, format_thread_slot_line, printable_columns, shorten_path_for_display,
    spinner_glyph, stdout_size, thread_table_header, truncate_display, ThreadSlotView,
    ThreadWorkMode, WalkStatus, CSI_ERASE_DOWN, CSI_ERASE_LINE, DISPLAY_PATH_MAX_CHARS,
};

#[test]
fn truncate_display_no_truncation() {
    assert_eq!(truncate_display("short/path", 20), "short/path");
    assert_eq!(truncate_display("", 5), "");
    assert_eq!(truncate_display("exact", 5), "exact");
    assert_eq!(truncate_display("a", 1), "a");
}

#[test]
fn truncate_display_ascii_truncation_with_ellipsis() {
    let long = "0123456789ABCDEF0123456789ABCDEF";
    let out = truncate_display(long, 10);
    assert!(out.starts_with('…'));
    assert_eq!(out.chars().count(), 10);
    assert_eq!(out, "…789ABCDEF");
}

#[test]
fn truncate_display_unicode_truncation() {
    let s = "a日本語b🚀c";
    let out = truncate_display(s, 4);
    assert!(out.starts_with('…'));
    assert_eq!(out.chars().count(), 4);
    assert_eq!(out, "…b🚀c");
}

#[test]
fn truncate_display_max_one_boundary() {
    assert_eq!(truncate_display("anything", 1), "…");
    assert_eq!(truncate_display("x", 1), "x");
    assert_eq!(truncate_display("", 1), "");
}

#[test]
fn clip_to_columns_ascii_and_unicode() {
    assert_eq!(clip_to_columns("abcd", 10), "abcd");
    assert_eq!(clip_to_columns("abcd", 4), "abcd");
    assert_eq!(clip_to_columns("abcd", 3), "abc");
    assert_eq!(clip_to_columns("", 5), "");
    assert_eq!(clip_to_columns("⣾  Directories", 1), "⣾");
    assert_eq!(
        clip_to_columns("x".repeat(200).as_str(), 79).chars().count(),
        79
    );
}

#[test]
fn printable_columns_leaves_last_cell_empty() {
    assert_eq!(printable_columns(80), 79);
    assert_eq!(printable_columns(1), 0);
    assert_eq!(printable_columns(0), 0);
}

#[test]
fn compose_status_redraw_first_frame_does_not_move_cursor() {
    let lines = vec!["Running:".into(), "summary".into(), "row".into()];
    let (out, n) = compose_status_redraw(0, &lines, 80, 24);
    assert_eq!(n, 3);
    assert!(
        !out.contains("F") && !out.contains("A"),
        "first frame must not emit CUU/CPL: {out:?}"
    );
    assert!(out.contains(CSI_ERASE_LINE));
    assert!(out.ends_with(CSI_ERASE_DOWN));
}

#[test]
fn compose_status_redraw_repositions_by_previous_physical_rows() {
    let lines = vec!["Running:".into(), "summary".into(), "row".into()];
    let (_, n1) = compose_status_redraw(0, &lines, 80, 24);
    let (out, n2) = compose_status_redraw(n1, &lines, 80, 24);
    assert_eq!(n1, 3);
    assert_eq!(n2, 3);
    assert!(
        out.starts_with("\x1b[3F"),
        "must CPL by the previous physical row count, got {out:?}"
    );
}

#[test]
fn compose_status_redraw_clips_so_no_row_can_wrap() {
    let long = "x".repeat(200);
    let thread = format_thread_slot_line(
        1,
        &ThreadSlotView {
            mode: ThreadWorkMode::ByteRead,
            size: 8300,
            bytes_done: 8300,
            path: "a".repeat(DISPLAY_PATH_MAX_CHARS),
        },
        DISPLAY_PATH_MAX_CHARS,
    );
    let lines = vec![long, thread];
    let (out, n) = compose_status_redraw(0, &lines, 80, 24);
    assert_eq!(n, 2);
    let max_cols = printable_columns(80);
    let visible_rows = visible_rows_from_frame(&out);
    assert_eq!(visible_rows.len(), 2);
    for row in &visible_rows {
        assert!(
            row.chars().count() <= max_cols,
            "row would wrap on 80-col terminal ({} cells): {row:?}",
            row.chars().count()
        );
        assert!(
            !row.contains(&" ".repeat(20)),
            "must not space-pad rows (that was wrapping at 200 columns): {row:?}"
        );
    }
    assert!(!out.contains(&"x".repeat(80)));
    assert!(visible_rows[0].chars().all(|c| c == 'x'));
    assert_eq!(visible_rows[0].chars().count(), max_cols);
}

#[test]
fn compose_status_redraw_caps_block_to_terminal_height() {
    let lines: Vec<String> = (0..30).map(|i| format!("line-{i}")).collect();
    let (out, n) = compose_status_redraw(0, &lines, 80, 10);
    assert_eq!(n, 9, "must leave one row free so the last newline does not scroll");
    let visible = visible_rows_from_frame(&out);
    assert_eq!(visible.len(), 9);
    assert_eq!(visible[0], "line-0");
    assert_eq!(visible[8], "line-8");
}

#[test]
fn compose_status_redraw_realistic_table_stays_one_row_per_line() {
    let summary = format!(
        "{}  Directories: {:>6}  Files: {:>6}  Threads: 8/8  Errors: 0  Elapsed: 12s",
        spinner_glyph(0),
        1234,
        5678
    );
    let slot = format_thread_slot_line(
        1,
        &ThreadSlotView {
            mode: ThreadWorkMode::ByteRead,
            size: 8300,
            bytes_done: 4150,
            path: "subdir/file.txt".into(),
        },
        DISPLAY_PATH_MAX_CHARS,
    );
    let mut table = vec![thread_table_header()];
    table.extend((0..8).map(|i| {
        if i == 0 {
            slot.clone()
        } else {
            format_thread_slot_line(i + 1, &ThreadSlotView::idle(), DISPLAY_PATH_MAX_CHARS)
        }
    }));
    let boxed = box_table_lines(&table, printable_columns(80));
    let mut lines = vec![
        "Running:".into(),
        summary,
        "    Local target: ~/mounts/project".into(),
        String::new(),
        "Running threads:".into(),
        String::new(),
    ];
    lines.extend(boxed);
    assert!(
        lines[1].chars().count() <= 79,
        "counter line must fit an 80-col terminal: {} cells",
        lines[1].chars().count()
    );
    assert!(
        lines[2].chars().count() <= 79,
        "target line must fit an 80-col terminal: {} cells",
        lines[2].chars().count()
    );
    assert_eq!(lines.len(), 17);
    let (first, n1) = compose_status_redraw(0, &lines, 80, 24);
    let (second, n2) = compose_status_redraw(n1, &lines, 80, 24);
    assert_eq!(n1, 17);
    assert_eq!(n2, 17);
    assert!(second.starts_with("\x1b[17F"));
    let framed = visible_rows_from_frame(&first);
    assert!(framed[6].starts_with('┌') && framed[6].ends_with('┐'));
    assert!(framed[16].starts_with('└') && framed[16].ends_with('┘'));
    assert_eq!(framed[6].chars().count(), printable_columns(80));
    let max_cols = printable_columns(80);
    for row in visible_rows_from_frame(&first) {
        assert!(row.chars().count() <= max_cols);
    }
}

#[test]
fn compose_status_clear_returns_to_block_origin() {
    assert_eq!(compose_status_clear(0), "");
    assert_eq!(compose_status_clear(15), format!("\x1b[15F{CSI_ERASE_DOWN}"));
}

fn visible_rows_from_frame(frame: &str) -> Vec<String> {
    let mut rows = Vec::new();
    let mut current = String::new();
    let mut chars = frame.chars().peekable();
    while let Some(c) = chars.next() {
        if c == '\u{1b}' {
            if chars.peek() == Some(&'[') {
                chars.next();
                for next in chars.by_ref() {
                    if next.is_ascii_alphabetic() {
                        break;
                    }
                }
            }
            continue;
        }
        if c == '\n' {
            rows.push(std::mem::take(&mut current));
            continue;
        }
        current.push(c);
    }
    // Trailing ED 0 leaves no extra row.
    rows
}

#[test]
fn walkstatus_new_initializes_counters() {
    let mut s = WalkStatus::new(3, 7, 1, 8, "~/Documents/Gdrive/AccessIT", 80);
    assert!(s.render(0, true, 80, 24).is_some());
    assert_eq!(s.max_threads, 8);
    assert_eq!(s.active_threads, 0);
    assert!(s.local_target.contains("AccessIT") || s.local_target.contains("Gdrive"));
    assert_eq!((s.dirs, s.files, s.errors), (3, 7, 1));
}

#[test]
fn walkstatus_record_methods_increment_correctly() {
    let mut s = WalkStatus::new(10, 20, 2, 4, "/tmp/mount", 80);
    s.record_dir();
    s.record_error();
    assert!(s.render(0, true, 80, 24).is_some());
    assert_eq!((s.dirs, s.files, s.errors), (11, 20, 3));
}

#[test]
fn walkstatus_render_rate_and_frame_advances() {
    let mut s = WalkStatus::new(0, 0, 0, 8, "~/mounts/project", 80);
    assert!(s.render(1000, true, 80, 24).is_some());
    let spun = s.frame;
    assert!(s.render(1079, false, 80, 24).is_none());
    assert_eq!(s.frame, spun);
    assert!(s.render(1080, false, 80, 24).is_some());
    assert_ne!(s.frame, spun);
}

#[test]
fn a_finished_block_is_erased_once() {
    let mut s = WalkStatus::new(0, 0, 0, 2, "/t", 80);
    let frame = s.render(0, true, 80, 24).unwrap();
    let rows = visible_rows_from_frame(&frame).len();
    assert_eq!(s.finish_line(), format!("\x1b[{rows}F\x1b[J"));
    assert_eq!(s.finish_line(), "");
}

#[test]
fn format_progress_bar_tenths() {
    assert_eq!(format_progress_bar(0, 100, false), "□□□□□□□□□□");
    assert_eq!(format_progress_bar(0, 100, true), "□□□□□□□□□□");
    assert_eq!(format_progress_bar(9, 100, true), "□□□□□□□□□□");
    assert_eq!(format_progress_bar(10, 100, true), "■□□□□□□□□□");
    assert_eq!(format_progress_bar(50, 100, true), "■■■■■□□□□□");
    assert_eq!(format_progress_bar(100, 100, true), "■■■■■■■■■■");
    assert_eq!(format_progress_bar(0, 0, true), "■■■■■■■■■■");
    assert_eq!(format_progress_bar(0, 1, false), "□□□□□□□□□□");
}

#[test]
fn box_table_lines_is_continuous_and_fixed_width() {
    let inner = vec!["Count  Size".into(), "1      8B".into()];
    let boxed = box_table_lines(&inner, 40);
    assert_eq!(boxed.len(), 4);
    assert!(boxed[0].starts_with('┌') && boxed[0].ends_with('┐'));
    assert!(boxed[1].starts_with('│') && boxed[1].ends_with('│'));
    assert!(boxed[3].starts_with('└') && boxed[3].ends_with('┘'));
    for row in &boxed {
        assert_eq!(row.chars().count(), 40);
    }
}

#[test]
fn format_thread_slot_line_modes() {
    let idle = ThreadSlotView::idle();
    let idle_line = format_thread_slot_line(1, &idle, DISPLAY_PATH_MAX_CHARS);
    assert!(idle_line.contains("idle"));
    assert!(idle_line.starts_with('1'));

    let read = ThreadSlotView {
        mode: ThreadWorkMode::ByteRead,
        size: 100,
        bytes_done: 50,
        path: "subdir/small.txt".into(),
    };
    let read_line = format_thread_slot_line(2, &read, DISPLAY_PATH_MAX_CHARS);
    assert!(read_line.starts_with('2'));
    assert!(read_line.contains("READ"));
    assert!(read_line.contains("subdir/small.txt"));
    assert!(read_line.contains(&format_progress_bar(50, 100, true)));

    let attr = ThreadSlotView {
        mode: ThreadWorkMode::AttrOnly,
        size: 5 * 1024 * 1024,
        bytes_done: 0,
        path: "big.bin".into(),
    };
    let attr_line = format_thread_slot_line(3, &attr, DISPLAY_PATH_MAX_CHARS);
    assert!(attr_line.starts_with('3'));
    assert!(attr_line.contains("ATTRIB"));
    assert!(attr_line.contains(&format_progress_bar(0, 0, false)));
}

#[test]
fn shorten_path_strips_root_and_respects_max_chars() {
    let root = vec!["/mnt/sync".to_string()];
    let full = "/mnt/sync/dir/file.txt";
    assert_eq!(
        shorten_path_for_display(full, &root, None, DISPLAY_PATH_MAX_CHARS),
        "dir/file.txt"
    );

    let long_path = format!("/mnt/sync/{}", "a".repeat(DISPLAY_PATH_MAX_CHARS + 20));
    let truncated = shorten_path_for_display(&long_path, &root, None, DISPLAY_PATH_MAX_CHARS);
    assert!(truncated.chars().count() <= DISPLAY_PATH_MAX_CHARS);

    let wide = source_filename_max_chars(120);
    let wide_trunc = shorten_path_for_display(&long_path, &root, None, wide);
    assert_eq!(wide, 80);
    assert!(wide_trunc.chars().count() <= wide);
    assert!(wide_trunc.chars().count() > DISPLAY_PATH_MAX_CHARS);
}

#[test]
fn shorten_path_uses_the_home_directory() {
    let none: Vec<String> = vec![];
    assert_eq!(
        shorten_path_for_display("/home/user/mounts/a", &none, Some("/home/user"), 40),
        "~/mounts/a"
    );
    assert_eq!(shorten_path_for_display("/srv/a", &none, Some("/home/user"), 40), "/srv/a");
}

#[test]
fn source_filename_grows_only_with_extra_width() {
    let path = "x".repeat(200);
    let slot = ThreadSlotView {
        mode: ThreadWorkMode::ByteRead,
        size: 1,
        bytes_done: 1,
        path: path.clone(),
    };
    let at_80 = format_thread_slot_line(1, &slot, source_filename_max_chars(80));
    let at_120 = format_thread_slot_line(1, &slot, source_filename_max_chars(120));
    let name_80 = at_80.rsplit("  ").next().unwrap();
    let name_120 = at_120.rsplit("  ").next().unwrap();
    assert_eq!(name_80.chars().count(), DISPLAY_PATH_MAX_CHARS);
    assert_eq!(name_120.chars().count(), 80);
    assert_eq!(
        at_120.chars().count() - at_80.chars().count(),
        40,
        "only Source filename should grow with extra width"
    );
}

#[test]
fn terminal_size_falls_back() {
    assert_eq!(stdout_size(Some((132, 50)), Some("90"), Some("30")), (132, 50));
    assert_eq!(stdout_size(Some((0, 50)), Some("90"), Some("30")), (90, 50));
    assert_eq!(stdout_size(None, Some("90"), Some("+30")), (90, 30));
    assert_eq!(stdout_size(None, Some("0"), Some("x")), (80, 24));
    assert_eq!(stdout_size(None, None, None), (80, 24));
}

#[test]
fn an_idle_row_needs_no_filename_field() {
    let idle = ThreadSlotView::idle();
    assert_eq!(format_thread_slot_line(1, &idle, 0), format_thread_slot_line(1, &idle, 40));
}
