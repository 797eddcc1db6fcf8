use krystallos::cli::format::{
    align_left, align_right, entry_line, entry_line_with, human_bytes, is_renderable, kind_char,
    metadata_block, metadata_block_with, scheme_line, time_cell, transfer_summary, YEAR_10000,
};
use krystallos::entry::{Entry, EntryKind, Metadata, Timestamp};

#[test]
fn entry_lines_align_on_stable_columns() {
    let e = Entry::new("movie.mkv", {
        let mut m = Metadata::file(1_073_741_824);
        m.modified = Some(Timestamp { secs: 1_700_000_000, nanos: 0 });
        m
    });
    let line = entry_line(&e);
    assert!(line.starts_with("f   1073741824 "), "got: {line}");
    assert!(line.ends_with("  movie.mkv"), "got: {line}");
}

#[test]
fn a_missing_timestamp_renders_as_a_dash_not_as_the_epoch() {
    let e = Entry::new("x", Metadata::file(0));
    assert!(entry_line(&e).contains(" -  "), "got: {}", entry_line(&e));
}

#[test]
fn kind_char_covers_every_kind() {
    assert_eq!(kind_char(EntryKind::Directory), 'd');
    assert_eq!(kind_char(EntryKind::File), 'f');
    assert_eq!(kind_char(EntryKind::Symlink), 'l');
    assert_eq!(kind_char(EntryKind::Other), '?');
}

#[test]
fn human_bytes_switches_units_at_the_right_points() {
    assert_eq!(human_bytes(0), "0 B");
    assert_eq!(human_bytes(1023), "1023 B");
    assert_eq!(human_bytes(1024), "1.0 KiB");
    assert_eq!(human_bytes(1024 * 1024), "1.0 MiB");
    assert_eq!(human_bytes(3 * 1024 * 1024 * 1024), "3.0 GiB");
}

#[test]
fn metadata_block_labels_every_field() {
    let block = metadata_block("/a/b", &Metadata::file(42));
    for label in [
        "path:", "kind:", "size:", "modified:", "created:", "accessed:", "readonly:",
    ] {
        assert!(block.contains(label), "missing {label} in:\n{block}");
    }
    assert!(block.contains("size:     42"));
}

/// What floating point makes of a byte count.
fn floating(n: u64) -> String {
    const UNITS: [&str; 5] = ["B", "KiB", "MiB", "GiB", "TiB"];
    let mut value = n as f64;
    let mut unit = 0;
    while value >= 1024.0 && unit < UNITS.len() - 1 {
        value /= 1024.0;
        unit += 1;
    }
    if unit == 0 {
        format!("{n} B")
    } else {
        format!("{value:.1} {}", UNITS[unit])
    }
}

#[test]
fn human_bytes_agrees_with_floating_point() {
    for shift in 0..64u32 {
        let base = 1u64 << shift;
        for delta in 0..200u64 {
            assert_eq!(human_bytes(base.wrapping_add(delta)), floating(base.wrapping_add(delta)));
            assert_eq!(human_bytes(base.wrapping_sub(delta)), floating(base.wrapping_sub(delta)));
        }
        for k in 0..60u64 {
            let n = base / 20 * k;
            assert_eq!(human_bytes(n), floating(n), "{n}");
        }
    }
    let mut n: u64 = 0x9E37_79B9_7F4A_7C15;
    for i in 0..20_000u32 {
        n = n.wrapping_mul(6_364_136_223_846_793_005).wrapping_add(1_442_695_040_888_963_407);
        let m = n >> (i % 60);
        assert_eq!(human_bytes(m), floating(m), "{m}");
    }
    assert_eq!(human_bytes(1536), "1.5 KiB");
    assert_eq!(human_bytes(1280), "1.2 KiB", "ties go to the even digit");
    assert_eq!(human_bytes(u64::MAX), "16777216.0 TiB");
}

#[test]
fn times_are_rendered_in_utc_to_the_second() {
    let at = |secs, nanos| time_cell(Some(Timestamp { secs, nanos }));
    assert_eq!(at(0, 0), "1970-01-01T00:00:00Z");
    assert_eq!(at(1_700_000_000, 999_999_999), "2023-11-14T22:13:20Z");
    assert_eq!(at(YEAR_10000 - 1, 0), "9999-12-31T23:59:59Z");
    assert_eq!(time_cell(None), "-");
    assert!(is_renderable(None));
    assert!(is_renderable(Some(Timestamp { secs: 0, nanos: 0 })));
    assert!(!is_renderable(Some(Timestamp { secs: -1, nanos: 0 })));
    assert!(!is_renderable(Some(Timestamp { secs: YEAR_10000, nanos: 0 })));
}

#[test]
fn lines_and_blocks_are_laid_out_exactly() {
    let mut m = Metadata::directory();
    m.modified = Some(Timestamp { secs: 1_700_000_000, nanos: 5 });
    m.read_only = true;
    let e = Entry::new("影", m);
    assert_eq!(entry_line(&e), "d            0 2023-11-14T22:13:20Z  影");
    assert_eq!(entry_line_with(&e, "now"), "d            0 now  影");
    assert_eq!(
        metadata_block("/a", &m),
        "path:     /a\nkind:     Directory\nsize:     0\nmodified: 2023-11-14T22:13:20Z\n\
         created:  -\naccessed: -\nreadonly: true\n"
    );
    let mut link = Metadata::file(7);
    link.kind = EntryKind::Symlink;
    assert_eq!(
        metadata_block_with("/b", &link, "x", "y", "z"),
        "path:     /b\nkind:     Symlink\nsize:     7\nmodified: x\ncreated:  y\naccessed: z\n\
         readonly: false\n"
    );
    assert!(metadata_block("/c", &Metadata::file(1)).contains("kind:     File\n"));
    link.kind = EntryKind::Other;
    assert!(metadata_block("/d", &link).contains("kind:     Other\n"));
}

#[test]
fn names_start_in_the_same_column_whatever_the_size() {
    let at = |len: u64| {
        let mut m = Metadata::file(len);
        m.modified = Some(Timestamp { secs: 1, nanos: 0 });
        entry_line(&Entry::new("NAME", m)).find("NAME").unwrap()
    };
    assert_eq!(at(0), at(999_999_999_999));
    assert_eq!(at(0), 37);
    assert!(at(u64::MAX) > 37, "a longer count pushes the name aside");
}

#[test]
fn padding_never_cuts_anything_off() {
    assert_eq!(align_right("ab", 4), "  ab");
    assert_eq!(align_right("abcde", 4), "abcde");
    assert_eq!(align_left("ab", 4), "ab  ");
    assert_eq!(align_left("abcde", 4), "abcde");
    assert_eq!(scheme_line("smb", "SMB shares"), "smb      SMB shares");
}

#[test]
fn a_transfer_is_summed_up() {
    assert_eq!(transfer_summary(0, 0), "\r  0 B transferred   ");
    assert_eq!(transfer_summary(2048, 2048), "\r  2.0 KiB transferred   ");
    assert_eq!(
        transfer_summary(1024, 2048),
        "\r  1.0 KiB transferred (expected 2.0 KiB)   "
    );
    assert_eq!(transfer_summary(1024, 0), "\r  1.0 KiB transferred   ");
}
