//! Rendering for people.

use std::time::{Duration, UNIX_EPOCH};
use vstd::prelude::*;
use crate::entry::{Entry, EntryKind, EntryView, Metadata, Timestamp};
use crate::text;

verus! {

// ---------------------------------------------------------------------------
// Times
// ---------------------------------------------------------------------------

/// The first second that no longer has a four-digit year.
pub const YEAR_10000: i64 = 253_402_300_800;

/// What `humantime` makes of a number of whole seconds since the Unix epoch: an
/// RFC 3339 timestamp in UTC.
pub uninterp spec fn rfc3339_text(secs: int) -> Seq<char>;

/// Calls `humantime::format_rfc3339_seconds` on the instant `secs` seconds after
/// the Unix epoch and renders the result through its `Display`.
///
/// The calendar computation behind it is named rather than stated; what is
/// stated is that the text has the fixed width of `2018-02-14T00:28:07Z`. The
/// function renders no instant from the year 10000 on, which `requires` leaves
/// out, and drops fractions of a second, so whole seconds are all it is given.
#[verifier::external_body]
fn rfc3339(secs: u64) -> (r: String)
    requires
        secs < YEAR_10000,
    ensures
        r@ == rfc3339_text(secs as int),
        r@.len() == 20,
{
    humantime::format_rfc3339_seconds(UNIX_EPOCH + Duration::from_secs(secs)).to_string()
}

/// Whether a time can be rendered: not before the epoch, and before the year
/// 10000. An absent time always can.
pub open spec fn renderable(t: Option<Timestamp>) -> bool {
    t matches Some(t) ==> 0 <= t.secs < YEAR_10000
}

/// How a time reads. A missing value is a dash rather than the Unix epoch, so
/// that "no information" stays distinguishable from "1970".
pub open spec fn time_text(t: Option<Timestamp>) -> Seq<char> {
    match t {
        Some(t) => rfc3339_text(t.secs as int),
        None => "-"@,
    }
}

/// Whether a time can be rendered.
pub fn is_renderable(t: Option<Timestamp>) -> (r: bool)
    ensures
        r == renderable(t),
{
    match t {
        Some(t) => 0 <= t.secs && t.secs < YEAR_10000,
        None => true,
    }
}

/// Renders a time as RFC 3339 in UTC, and a missing one as a dash.
pub fn time_cell(t: Option<Timestamp>) -> (r: String)
    requires
        renderable(t),
    ensures
        r@ == time_text(t),
        t is Some ==> r@.len() == 20,
{
    match t {
        Some(t) => rfc3339(t.secs as u64),
        None => "-".to_owned(),
    }
}

// ---------------------------------------------------------------------------
// Entries
// ---------------------------------------------------------------------------

/// `n` spaces.
pub open spec fn spaces(n: nat) -> Seq<char> {
    Seq::new(n, |i: int| ' ')
}

/// A text pushed to the right end of `width` columns; a longer one as it is.
pub open spec fn right_aligned(s: Seq<char>, width: nat) -> Seq<char> {
    if s.len() < width {
        spaces((width - s.len()) as nat) + s
    } else {
        s
    }
}

/// A text at the left end of `width` columns; a longer one as it is.
pub open spec fn left_aligned(s: Seq<char>, width: nat) -> Seq<char> {
    if s.len() < width {
        s + spaces((width - s.len()) as nat)
    } else {
        s
    }
}

fn push_spaces(out: &mut String, n: usize)
    ensures
        final(out)@ == old(out)@ + spaces(n as nat),
{
    let mut i: usize = 0;
    assert(out@ =~= old(out)@ + spaces(0));
    while i < n
        invariant
            i <= n,
            out@ == old(out)@ + spaces(i as nat),
        decreases n - i,
    {
        out.push(' ');
        assert(out@ =~= old(out)@ + spaces((i + 1) as nat));
        i = i + 1;
    }
}

/// Pushes a text to the right end of `width` columns.
pub fn align_right(s: &str, width: usize) -> (r: String)
    ensures
        r@ == right_aligned(s@, width as nat),
{
    let len: usize = s.unicode_len();
    let mut out = String::new();
    if len < width {
        push_spaces(&mut out, width - len);
        out.append(s);
        assert(out@ =~= right_aligned(s@, width as nat));
        out
    } else {
        s.to_owned()
    }
}

/// Puts a text at the left end of `width` columns.
pub fn align_left(s: &str, width: usize) -> (r: String)
    ensures
        r@ == left_aligned(s@, width as nat),
{
    let len: usize = s.unicode_len();
    let mut out = s.to_owned();
    if len < width {
        push_spaces(&mut out, width - len);
    }
    out
}

/// The letter for a kind.
pub open spec fn letter_of(kind: EntryKind) -> char {
    match kind {
        EntryKind::Directory => 'd',
        EntryKind::File => 'f',
        EntryKind::Symlink => 'l',
        EntryKind::Other => '?',
    }
}

pub fn kind_char(kind: EntryKind) -> (r: char)
    ensures
        r == letter_of(kind),
{
    match kind {
        EntryKind::Directory => 'd',
        EntryKind::File => 'f',
        EntryKind::Symlink => 'l',
        EntryKind::Other => '?',
    }
}

/// The line for an entry, given how its modification time reads.
pub open spec fn line_text(e: EntryView, modified: Seq<char>) -> Seq<char> {
    seq![letter_of(e.metadata.kind), ' '] + right_aligned(text::decimal(e.metadata.len as nat), 12)
        + seq![' '] + modified + seq![' ', ' '] + e.name
}

/// Renders an entry as a line, given its rendered modification time.
pub fn entry_line_with(entry: &Entry, modified: &str) -> (r: String)
    ensures
        r@ == line_text(entry@, modified@),
{
    let mut out = String::new();
    out.push(kind_char(entry.metadata.kind));
    out.push(' ');
    assert(out@ =~= seq![letter_of(entry@.metadata.kind), ' ']);
    out.append(&align_right(&text::decimal_of(entry.metadata.len), 12));
    let ghost before = out@;
    out.push(' ');
    assert(out@ =~= before + seq![' ']);
    out.append(modified);
    let ghost before = out@;
    out.push(' ');
    out.push(' ');
    assert(out@ =~= before + seq![' ', ' ']);
    out.append(&entry.name);
    out
}

/// Render one directory entry as a fixed-width line.
///
/// Fixed columns on purpose: the output is meant to be eyeballed side by side
/// with another file browser, and a stable layout makes a mismatch obvious.
pub fn entry_line(entry: &Entry) -> (r: String)
    requires
        renderable(entry@.metadata.modified),
    ensures
        r@ == line_text(entry@, time_text(entry@.metadata.modified)),
{
    entry_line_with(entry, &time_cell(entry.metadata.modified))
}

/// The name of a kind.
pub open spec fn kind_name(kind: EntryKind) -> Seq<char> {
    match kind {
        EntryKind::Directory => "Directory"@,
        EntryKind::File => "File"@,
        EntryKind::Symlink => "Symlink"@,
        EntryKind::Other => "Other"@,
    }
}

/// The block for an entry's metadata, given how its times read.
pub open spec fn block_text(
    path: Seq<char>,
    meta: Metadata,
    modified: Seq<char>,
    created: Seq<char>,
    accessed: Seq<char>,
) -> Seq<char> {
    "path:     "@ + path + "\nkind:     "@ + kind_name(meta.kind) + "\nsize:     "@
        + text::decimal(meta.len as nat) + "\nmodified: "@ + modified + "\ncreated:  "@ + created
        + "\naccessed: "@ + accessed + "\nreadonly: "@ + (if meta.read_only {
        "true"@
    } else {
        "false"@
    }) + "\n"@
}

/// Renders an entry's metadata, given its rendered times.
pub fn metadata_block_with(
    path: &str,
    meta: &Metadata,
    modified: &str,
    created: &str,
    accessed: &str,
) -> (r: String)
    ensures
        r@ == block_text(path@, *meta, modified@, created@, accessed@),
{
    let mut out = text::joined("path:     ", path);
    out.append("\nkind:     ");
    out.append(
        match meta.kind {
            EntryKind::Directory => "Directory",
            EntryKind::File => "File",
            EntryKind::Symlink => "Symlink",
            EntryKind::Other => "Other",
        },
    );
    out.append("\nsize:     ");
    out.append(&text::decimal_of(meta.len));
    out.append("\nmodified: ");
    out.append(modified);
    out.append("\ncreated:  ");
    out.append(created);
    out.append("\naccessed: ");
    out.append(accessed);
    out.append("\nreadonly: ");
    out.append(
        if meta.read_only {
            "true"
        } else {
            "false"
        },
    );
    out.append("\n");
    out
}

pub fn metadata_block(path: &str, meta: &Metadata) -> (r: String)
    requires
        renderable(meta.modified),
        renderable(meta.created),
        renderable(meta.accessed),
    ensures
        r@ == block_text(
            path@,
            *meta,
            time_text(meta.modified),
            time_text(meta.created),
            time_text(meta.accessed),
        ),
{
    metadata_block_with(
        path,
        meta,
        &time_cell(meta.modified),
        &time_cell(meta.created),
        &time_cell(meta.accessed),
    )
}

/// The line for a scheme and what its driver says of itself.
pub fn scheme_line(scheme: &str, description: &str) -> (r: String)
    ensures
        r@ == left_aligned(scheme@, 8) + " "@ + description@,
{
    let mut out = align_left(scheme, 8);
    out.append(" ");
    out.append(description);
    out
}

/// Lines align: with a time that is there and a size of up to twelve digits,
/// every name starts in the same column.
pub proof fn names_start_in_the_same_column(e: EntryView, modified: Seq<char>)
    requires
        modified.len() == 20,
        text::decimal(e.metadata.len as nat).len() <= 12,
    ensures
        line_text(e, modified).skip(37) == e.name,
{
    assert(line_text(e, modified).skip(37) =~= e.name);
}

// ---------------------------------------------------------------------------
// Byte counts
// ---------------------------------------------------------------------------

/// `n / d`, rounded to the nearest whole number, and to the even one of two that
/// are equally near.
pub open spec fn half_even(n: nat, d: nat) -> nat {
    let q = n / d;
    let r = n % d;
    if 2 * r < d || (2 * r == d && q % 2 == 0) {
        q
    } else {
        q + 1
    }
}

/// The distance between neighbouring double-precision numbers at `n`: a double
/// holds 53 binary digits.
pub open spec fn double_step(n: nat) -> nat
    decreases n,
{
    if n < 0x20_0000_0000_0000 {
        1
    } else {
        2 * double_step(n / 2)
    }
}

/// The double-precision number nearest to `n`.
pub open spec fn as_double(n: nat) -> nat {
    half_even(n, double_step(n)) * double_step(n)
}

/// The unit a byte count is shown in, as a power of 1024.
pub open spec fn unit_of(n: nat) -> nat {
    if n < 0x400 {
        0
    } else if n < 0x10_0000 {
        1
    } else if n < 0x4000_0000 {
        2
    } else if n < 0x100_0000_0000 {
        3
    } else {
        4
    }
}

/// The bytes in a unit.
pub open spec fn unit_size(unit: nat) -> nat {
    if unit == 0 {
        1
    } else if unit == 1 {
        0x400
    } else if unit == 2 {
        0x10_0000
    } else if unit == 3 {
        0x4000_0000
    } else {
        0x100_0000_0000
    }
}

/// The name of a unit.
pub open spec fn unit_name(unit: nat) -> Seq<char> {
    if unit == 0 {
        "B"@
    } else if unit == 1 {
        "KiB"@
    } else if unit == 2 {
        "MiB"@
    } else if unit == 3 {
        "GiB"@
    } else {
        "TiB"@
    }
}

/// How a byte count reads: plain below 1024, with one decimal in the largest
/// unit that fits above. Counts are taken in double precision, as divisions by
/// 1024 are exact in it.
pub open spec fn bytes_text(n: nat) -> Seq<char> {
    let value = as_double(n);
    let unit = unit_of(value);
    if unit == 0 {
        text::decimal(n) + " B"@
    } else {
        let tenths = half_even(value * 10, unit_size(unit));
        text::decimal(tenths / 10) + "."@ + text::decimal(tenths % 10) + " "@ + unit_name(unit)
    }
}

/// Below 2^53 a byte count is a double-precision number itself.
pub proof fn small_counts_are_exact(n: nat)
    requires
        n < 0x20_0000_0000_0000,
    ensures
        as_double(n) == n,
{
    assert(double_step(n) == 1);
    assert(n % 1 == 0 && n / 1 == n);
}

fn round_half_even(n: u128, d: u128) -> (r: u128)
    requires
        0 < d <= 0x1_0000_0000_0000_0000,
        n <= 0x20_0000_0000_0000_0000,
    ensures
        r == half_even(n as nat, d as nat),
{
    let q: u128 = n / d;
    let rest: u128 = n % d;
    assert(q <= n) by (nonlinear_arith)
        requires
            q == n / d,
            d > 0,
    ;
    if 2 * rest < d || (2 * rest == d && q % 2 == 0) {
        q
    } else {
        q + 1
    }
}

/// A rounded quotient times its divisor is at most a divisor away.
proof fn half_even_bound(n: nat, d: nat)
    requires
        d > 0,
    ensures
        half_even(n, d) * d <= n + d,
{
    vstd::arithmetic::div_mod::lemma_fundamental_div_mod(n as int, d as int);
    let q = n / d;
    assert(q * d <= n) by (nonlinear_arith)
        requires
            n == d * q + n % d,
            n % d >= 0,
    ;
    assert((q + 1) * d == q * d + d) by (nonlinear_arith);
}

fn nearest_double(n: u64) -> (r: u128)
    ensures
        r == as_double(n as nat),
        r <= 0x2_0000_0000_0000_0000,
{
    let mut step: u128 = 1;
    let mut rest: u64 = n;
    let mut halvings: u32 = 0;
    while rest >= 0x20_0000_0000_0000
        invariant
            halvings <= 11,
            rest <= u64::MAX,
            halvings == 0 ==> step == 1 && rest <= 0xFFFF_FFFF_FFFF_FFFF,
            halvings == 1 ==> step == 2 && rest <= 0x7FFF_FFFF_FFFF_FFFF,
            halvings == 2 ==> step == 4 && rest <= 0x3FFF_FFFF_FFFF_FFFF,
            halvings == 3 ==> step == 8 && rest <= 0x1FFF_FFFF_FFFF_FFFF,
            halvings == 4 ==> step == 0x10 && rest <= 0xFFF_FFFF_FFFF_FFFF,
            halvings == 5 ==> step == 0x20 && rest <= 0x7FF_FFFF_FFFF_FFFF,
            halvings == 6 ==> step == 0x40 && rest <= 0x3FF_FFFF_FFFF_FFFF,
            halvings == 7 ==> step == 0x80 && rest <= 0x1FF_FFFF_FFFF_FFFF,
            halvings == 8 ==> step == 0x100 && rest <= 0xFF_FFFF_FFFF_FFFF,
            halvings == 9 ==> step == 0x200 && rest <= 0x7F_FFFF_FFFF_FFFF,
            halvings == 10 ==> step == 0x400 && rest <= 0x3F_FFFF_FFFF_FFFF,
            halvings == 11 ==> step == 0x800 && rest <= 0x1F_FFFF_FFFF_FFFF,
            double_step(n as nat) == step * double_step(rest as nat),
        decreases rest,
    {
        assert(double_step(rest as nat) == 2 * double_step((rest / 2) as nat));
        assert(step * (2 * double_step((rest / 2) as nat)) == (2 * step) * double_step(
            (rest / 2) as nat,
        )) by (nonlinear_arith);
        step = 2 * step;
        rest = rest / 2;
        halvings = halvings + 1;
    }
    assert(step <= 0x800 && step > 0);
    let rounded = round_half_even(n as u128, step);
    proof {
        half_even_bound(n as nat, step as nat);
        assert(rounded * step <= n + step);
    }
    rounded * step
}

/// Human-readable byte count for progress output.
pub fn human_bytes(n: u64) -> (r: String)
    ensures
        r@ == bytes_text(n as nat),
{
    let value: u128 = nearest_double(n);
    if value < 0x400 {
        return text::joined(&text::decimal_of(n), " B");
    }
    let (size, name): (u128, &str) = if value < 0x10_0000 {
        (0x400, "KiB")
    } else if value < 0x4000_0000 {
        (0x10_0000, "MiB")
    } else if value < 0x100_0000_0000 {
        (0x4000_0000, "GiB")
    } else {
        (0x100_0000_0000, "TiB")
    };
    let tenths: u128 = round_half_even(value * 10, size);
    assert(tenths <= u64::MAX);
    let mut out = text::decimal_of((tenths / 10) as u64);
    out.append(".");
    out.append(&text::decimal_of((tenths % 10) as u64));
    out.append(" ");
    out.append(name);
    out
}

/// A count below 1024 is shown as it is, and any other with a unit.
pub proof fn only_small_counts_are_shown_in_bytes(n: nat)
    requires
        n < 0x20_0000_0000_0000,
    ensures
        n < 1024 ==> bytes_text(n) == text::decimal(n) + " B"@,
        n >= 1024 ==> unit_of(as_double(n)) >= 1,
{
    small_counts_are_exact(n);
}

/// The line that ends a transfer: what was moved, and what was expected where
/// that differs.
pub open spec fn summary_text(done: nat, total: nat) -> Seq<char> {
    "\r  "@ + bytes_text(done) + " transferred"@ + (if total != 0 && done != total {
        " (expected "@ + bytes_text(total) + ")"@
    } else {
        Seq::empty()
    }) + "   "@
}

/// Renders the line that ends a transfer.
pub fn transfer_summary(done: u64, total: u64) -> (r: String)
    ensures
        r@ == summary_text(done as nat, total as nat),
{
    let mut out = text::joined("\r  ", &human_bytes(done));
    out.append(" transferred");
    if total != 0 && done != total {
        let mut note = text::joined(" (expected ", &human_bytes(total));
        note.append(")");
        out.append(&note);
    } else {
        assert(out@ + Seq::<char>::empty() =~= out@);
    }
    out.append("   ");
    out
}

// ---------------------------------------------------------------------------
// Laws
// ---------------------------------------------------------------------------

/// A time is rendered where it lies between the epoch and the year 10000; none is
/// a dash, which is no time.
pub proof fn a_missing_time_is_a_dash(t: Option<Timestamp>, can: bool, r: String)
    requires
        call_ensures(is_renderable, (t,), can),
        can ==> call_ensures(time_cell, (t,), r),
    ensures
        t is None ==> can && r@ == "-"@,
        t matches Some(t) ==> (can <==> 0 <= t.secs < 253_402_300_800),
        can && t is Some ==> r@ == rfc3339_text(t->0.secs as int) && r@.len() == 20,
{
}

/// Aligning fills up with blanks, on the side away from the text, and never cuts
/// anything off.
pub proof fn aligning_only_adds_blanks(s: &str, width: usize, right: String, left: String)
    requires
        call_ensures(align_right, (s, width), right),
        call_ensures(align_left, (s, width), left),
    ensures
        right@.len() == left@.len(),
        s@.len() >= width ==> right@ == s@ && left@ == s@,
        s@.len() < width ==> {
            &&& right@.len() == width
            &&& right@.skip(width - s@.len()) == s@
            &&& forall|i: int| 0 <= i < width - s@.len() ==> #[trigger] right@[i] == ' '
            &&& left@.take(s@.len() as int) == s@
            &&& forall|i: int| s@.len() <= i < width ==> #[trigger] left@[i] == ' '
        },
{
    if s@.len() < width {
        assert(right@.skip(width - s@.len()) =~= s@);
        assert(left@.take(s@.len() as int) =~= s@);
    }
}

/// Each kind has a letter and a name of its own.
pub proof fn kinds_are_told_apart(kind: EntryKind, r: char)
    requires
        call_ensures(kind_char, (kind,), r),
    ensures
        r == 'd' <==> kind is Directory,
        r == 'f' <==> kind is File,
        r == 'l' <==> kind is Symlink,
        r == '?' <==> kind is Other,
{
}

/// The line for an entry has fixed columns: the letter of its kind, its size at
/// the right end of twelve, its time, and its name at the end, whole.
pub proof fn a_line_has_fixed_columns(
    entry: Entry,
    modified: &str,
    letter: char,
    size: String,
    r: String,
)
    requires
        call_ensures(kind_char, (entry.metadata.kind,), letter),
        call_ensures(text::decimal_of, (entry.metadata.len,), size),
        call_ensures(entry_line_with, (&entry, modified), r),
        size@.len() <= 12,
    ensures
        r@[0] == letter,
        r@[1] == ' ',
        forall|i: int| 2 <= i < 14 - size@.len() ==> #[trigger] r@[i] == ' ',
        r@.subrange(14 - size@.len(), 14) == size@,
        r@[14] == ' ',
        r@.subrange(15, 15int + modified@.len()) == modified@,
        r@.skip(17int + modified@.len()) == entry.name@,
        r@.len() == 17 + modified@.len() + entry.name@.len(),
{
    let padded = right_aligned(size@, 12);
    let line = r@;
    assert(padded.len() == 12);
    assert forall|i: int| 2 <= i < 14 - size@.len() implies #[trigger] line[i] == ' ' by {
        assert(line[i] == padded[i - 2]);
    }
    assert(line.subrange(14 - size@.len(), 14) =~= size@);
    assert(line.subrange(15, 15int + modified@.len()) =~= modified@);
    assert(line.skip(17int + modified@.len()) =~= entry.name@);
}

/// The line for an entry shows its own modification time.
pub proof fn a_line_shows_the_modification_time(
    entry: Entry,
    modified: String,
    text: &str,
    with: String,
    r: String,
)
    requires
        renderable(entry.metadata.modified),
        call_ensures(time_cell, (entry.metadata.modified,), modified),
        text@ == modified@,
        call_ensures(entry_line_with, (&entry, text), with),
        call_ensures(entry_line, (&entry,), r),
    ensures
        r@ == with@,
{
}

/// A block of metadata is seven lines: the path, the kind, the size, the three
/// times, each under its own name, and whether the entry is protected.
pub proof fn a_block_has_a_line_for_each_field(
    path: &str,
    meta: Metadata,
    modified: &str,
    created: &str,
    accessed: &str,
    size: String,
    r: String,
)
    requires
        call_ensures(text::decimal_of, (meta.len,), size),
        call_ensures(
            metadata_block_with,
            (path, &meta, modified, created, accessed),
            r,
        ),
        !path@.contains('\n') && !modified@.contains('\n') && !created@.contains('\n')
            && !accessed@.contains('\n'),
    ensures
        text::pieces(r@, set!['\n']) == seq![
            "path:     "@ + path@,
            "kind:     "@ + (match meta.kind {
                EntryKind::Directory => "Directory"@,
                EntryKind::File => "File"@,
                EntryKind::Symlink => "Symlink"@,
                EntryKind::Other => "Other"@,
            }),
            "size:     "@ + size@,
            "modified: "@ + modified@,
            "created:  "@ + created@,
            "accessed: "@ + accessed@,
            "readonly: "@ + (if meta.read_only {
                "true"@
            } else {
                "false"@
            }),
            Seq::<char>::empty(),
        ],
{
    reveal_strlit("path:     ");
    reveal_strlit("\nkind:     ");
    reveal_strlit("kind:     ");
    reveal_strlit("\nsize:     ");
    reveal_strlit("size:     ");
    reveal_strlit("\nmodified: ");
    reveal_strlit("modified: ");
    reveal_strlit("\ncreated:  ");
    reveal_strlit("created:  ");
    reveal_strlit("\naccessed: ");
    reveal_strlit("accessed: ");
    reveal_strlit("\nreadonly: ");
    reveal_strlit("readonly: ");
    reveal_strlit("\n");
    reveal_strlit("Directory");
    reveal_strlit("File");
    reveal_strlit("Symlink");
    reveal_strlit("Other");
    reveal_strlit("true");
    reveal_strlit("false");
    text::decimals_stand_for_their_number(meta.len as nat);
    let kind = kind_name(meta.kind);
    let flag = if meta.read_only {
        "true"@
    } else {
        "false"@
    };
    let a = "path:     "@ + path@;
    let b = "kind:     "@ + kind;
    let c = "size:     "@ + size@;
    let d = "modified: "@ + modified@;
    let e = "created:  "@ + created@;
    let f = "accessed: "@ + accessed@;
    let g = "readonly: "@ + flag;
    let none = Seq::<char>::empty();
    let nl = set!['\n'];
    a_line_is_one_piece("path:     "@, path@);
    a_line_is_one_piece("kind:     "@, kind);
    a_line_is_one_piece("size:     "@, size@);
    a_line_is_one_piece("modified: "@, modified@);
    a_line_is_one_piece("created:  "@, created@);
    a_line_is_one_piece("accessed: "@, accessed@);
    a_line_is_one_piece("readonly: "@, flag);
    a_line_is_one_piece(none, none);
    let ab = a.push('\n') + b;
    let abc = ab.push('\n') + c;
    let abcd = abc.push('\n') + d;
    let abcde = abcd.push('\n') + e;
    let abcdef = abcde.push('\n') + f;
    let abcdefg = abcdef.push('\n') + g;
    text::pieces_across_separator(a, '\n', b, nl);
    text::pieces_across_separator(ab, '\n', c, nl);
    text::pieces_across_separator(abc, '\n', d, nl);
    text::pieces_across_separator(abcd, '\n', e, nl);
    text::pieces_across_separator(abcde, '\n', f, nl);
    text::pieces_across_separator(abcdef, '\n', g, nl);
    text::pieces_across_separator(abcdefg, '\n', none, nl);
    the_block_is_its_lines(path@, kind, size@, modified@, created@, accessed@, flag);
    assert(none + none =~= none);
    assert(r@ =~= abcdefg.push('\n') + none);
    assert(text::pieces(r@, nl) =~= seq![a, b, c, d, e, f, g, none]);
}

/// The lines put together are the block.
proof fn the_block_is_its_lines(
    path: Seq<char>,
    kind: Seq<char>,
    size: Seq<char>,
    modified: Seq<char>,
    created: Seq<char>,
    accessed: Seq<char>,
    flag: Seq<char>,
)
    ensures
        ({
            let a = "path:     "@ + path;
            let ab = a.push('\n') + ("kind:     "@ + kind);
            let abc = ab.push('\n') + ("size:     "@ + size);
            let abcd = abc.push('\n') + ("modified: "@ + modified);
            let abcde = abcd.push('\n') + ("created:  "@ + created);
            let abcdef = abcde.push('\n') + ("accessed: "@ + accessed);
            let abcdefg = abcdef.push('\n') + ("readonly: "@ + flag);
            "path:     "@ + path + "\nkind:     "@ + kind + "\nsize:     "@ + size
                + "\nmodified: "@ + modified + "\ncreated:  "@ + created + "\naccessed: "@
                + accessed + "\nreadonly: "@ + flag + "\n"@ == abcdefg.push('\n')
        }),
{
    reveal_strlit("\nkind:     ");
    reveal_strlit("kind:     ");
    reveal_strlit("\nsize:     ");
    reveal_strlit("size:     ");
    reveal_strlit("\nmodified: ");
    reveal_strlit("modified: ");
    reveal_strlit("\ncreated:  ");
    reveal_strlit("created:  ");
    reveal_strlit("\naccessed: ");
    reveal_strlit("accessed: ");
    reveal_strlit("\nreadonly: ");
    reveal_strlit("readonly: ");
    reveal_strlit("\n");
    let a = "path:     "@ + path;
    let ab = a.push('\n') + ("kind:     "@ + kind);
    assert(a + "\nkind:     "@ + kind =~= ab);
    let abc = ab.push('\n') + ("size:     "@ + size);
    assert(ab + "\nsize:     "@ + size =~= abc);
    let abcd = abc.push('\n') + ("modified: "@ + modified);
    assert(abc + "\nmodified: "@ + modified =~= abcd);
    let abcde = abcd.push('\n') + ("created:  "@ + created);
    assert(abcd + "\ncreated:  "@ + created =~= abcde);
    let abcdef = abcde.push('\n') + ("accessed: "@ + accessed);
    assert(abcde + "\naccessed: "@ + accessed =~= abcdef);
    let abcdefg = abcdef.push('\n') + ("readonly: "@ + flag);
    assert(abcdef + "\nreadonly: "@ + flag =~= abcdefg);
    assert(abcdefg + "\n"@ =~= abcdefg.push('\n'));
}

proof fn a_line_is_one_piece(label: Seq<char>, value: Seq<char>)
    requires
        forall|i: int| 0 <= i < label.len() ==> #[trigger] label[i] != '\n',
        !value.contains('\n'),
    ensures
        text::pieces(label + value, set!['\n']) == seq![label + value],
{
    let s = label + value;
    assert forall|i: int| 0 <= i < s.len() implies !set!['\n'].contains(#[trigger] s[i]) by {
        if i >= label.len() {
            assert(value.contains(value[i - label.len()]));
        }
    }
    text::pieces_of_plain(s, set!['\n']);
}

/// A block of metadata shows the entry's own times, each in its place.
pub proof fn a_block_shows_each_time_in_its_place(
    path: &str,
    meta: Metadata,
    modified: &str,
    created: &str,
    accessed: &str,
    m: String,
    c: String,
    a: String,
    with: String,
    r: String,
)
    requires
        renderable(meta.modified) && renderable(meta.created) && renderable(meta.accessed),
        call_ensures(time_cell, (meta.modified,), m) && modified@ == m@,
        call_ensures(time_cell, (meta.created,), c) && created@ == c@,
        call_ensures(time_cell, (meta.accessed,), a) && accessed@ == a@,
        call_ensures(metadata_block_with, (path, &meta, modified, created, accessed), with),
        call_ensures(metadata_block, (path, &meta), r),
    ensures
        r@ == with@,
{
}

/// A byte count below 2^53 is shown in the largest unit that does not exceed it,
/// each unit being 1024 of the one before it. Whole bytes are shown as they are;
/// anything else to the nearest tenth of its unit.
pub proof fn counts_are_shown_to_the_nearest_tenth(n: u64, r: String)
    requires
        n < 0x20_0000_0000_0000,
        call_ensures(human_bytes, (n,), r),
    ensures
        n < 1024 ==> r@ == text::decimal(n as nat) + " B"@,
        1024 <= n < 1_048_576 ==> is_to_the_nearest_tenth(n as int, 1024, "KiB"@, r@),
        1_048_576 <= n < 1_073_741_824 ==> is_to_the_nearest_tenth(
            n as int,
            1_048_576,
            "MiB"@,
            r@,
        ),
        1_073_741_824 <= n < 1_099_511_627_776 ==> is_to_the_nearest_tenth(
            n as int,
            1_073_741_824,
            "GiB"@,
            r@,
        ),
        1_099_511_627_776 <= n ==> is_to_the_nearest_tenth(
            n as int,
            1_099_511_627_776,
            "TiB"@,
            r@,
        ),
{
    small_counts_are_exact(n as nat);
    if n >= 1024 {
        let size = unit_size(unit_of(n as nat));
        let tenths = half_even(n as nat * 10, size);
        rounding_goes_to_the_nearest(n as nat * 10, size);
        assert(r@ == text::decimal((tenths / 10) as nat) + "."@ + text::decimal(
            (tenths % 10) as nat,
        ) + " "@ + unit_name(unit_of(n as nat)));
        assert(shows_tenths(tenths as int, n as int, size as int, unit_name(unit_of(n as nat)), r@));
    }
}

/// Whether a text shows so many tenths of a unit, and no other number of tenths
/// is nearer to the count.
pub open spec fn shows_tenths(
    tenths: int,
    n: int,
    size: int,
    name: Seq<char>,
    r: Seq<char>,
) -> bool {
    &&& tenths >= 0
    &&& -size <= 2 * (tenths * size - 10 * n) <= size
    &&& r == text::decimal((tenths / 10) as nat) + "."@ + text::decimal((tenths % 10) as nat) + " "@
        + name
}

/// Whether a text shows a count to the nearest tenth of a unit.
pub open spec fn is_to_the_nearest_tenth(
    n: int,
    size: int,
    name: Seq<char>,
    r: Seq<char>,
) -> bool {
    exists|tenths: int| #[trigger] shows_tenths(tenths, n, size, name, r)
}

/// Rounding goes to the nearest whole number, and to the even one of two that are
/// equally near.
pub proof fn rounding_goes_to_the_nearest(n: nat, d: nat)
    requires
        d > 0,
    ensures
        -(d as int) <= 2 * (half_even(n, d) * d - n) <= d,
        2 * (half_even(n, d) * d - n) == d || 2 * (half_even(n, d) * d - n) == -(d as int)
            ==> half_even(n, d) % 2 == 0,
{
    vstd::arithmetic::div_mod::lemma_fundamental_div_mod(n as int, d as int);
    let q = (n / d) as int;
    let r = (n % d) as int;
    assert(q * d == n - r) by (nonlinear_arith)
        requires
            n == d * q + r,
    ;
    assert((q + 1) * d == q * d + d) by (nonlinear_arith);
    assert(0 <= r < d);
}

/// The line that ends a transfer says how much was moved, and how much was
/// expected only where that is known and differs.
pub proof fn a_summary_compares_with_what_was_expected(
    done: u64,
    total: u64,
    moved: String,
    expected: String,
    r: String,
)
    requires
        call_ensures(human_bytes, (done,), moved),
        call_ensures(human_bytes, (total,), expected),
        call_ensures(transfer_summary, (done, total), r),
    ensures
        total == 0 || done == total ==> r@ == "\r  "@ + moved@ + " transferred"@ + "   "@,
        total != 0 && done != total ==> r@ == "\r  "@ + moved@ + " transferred"@ + (
        " (expected "@ + expected@ + ")"@) + "   "@,
{
    let start = "\r  "@ + moved@ + " transferred"@;
    assert(start + Seq::<char>::empty() =~= start);
}

/// The line for a scheme is the scheme in a column of eight, and what its driver
/// says of itself.
pub proof fn a_scheme_is_shown_with_its_driver(
    scheme: &str,
    description: &str,
    column: String,
    r: String,
)
    requires
        call_ensures(align_left, (scheme, 8), column),
        call_ensures(scheme_line, (scheme, description), r),
    ensures
        r@ == column@ + " "@ + description@,
{
}

/// A count is taken to the nearest number that has 53 binary digits and then zeros
/// only: no further away than half of the last of those digits.
pub proof fn counts_are_taken_to_53_binary_digits(n: nat)
    ensures
        double_step(n) >= 1,
        n < 0x20_0000_0000_0000 * double_step(n),
        n >= 0x20_0000_0000_0000 ==> n >= 0x10_0000_0000_0000 * double_step(n),
        -(double_step(n) as int) <= 2 * (as_double(n) - n) <= double_step(n),
        as_double(n) % double_step(n) == 0,
{
    steps_fit(n);
    rounding_goes_to_the_nearest(n, double_step(n));
    vstd::arithmetic::div_mod::lemma_mod_multiples_basic(
        half_even(n, double_step(n)) as int,
        double_step(n) as int,
    );
}

proof fn steps_fit(n: nat)
    ensures
        double_step(n) >= 1,
        n < 0x20_0000_0000_0000 * double_step(n),
        n >= 0x20_0000_0000_0000 ==> n >= 0x10_0000_0000_0000 * double_step(n),
    decreases n,
{
    if n >= 0x20_0000_0000_0000 {
        steps_fit(n / 2);
    }
}

/// A count from 2^53 on is shown in the largest unit, to the nearest tenth of what
/// it is taken for.
pub proof fn the_largest_counts_are_shown_in_the_largest_unit(n: u64, r: String)
    requires
        n >= 0x20_0000_0000_0000,
        call_ensures(human_bytes, (n,), r),
    ensures
        is_to_the_nearest_tenth(as_double(n as nat) as int, 1_099_511_627_776, "TiB"@, r@),
{
    counts_are_taken_to_53_binary_digits(n as nat);
    let value = as_double(n as nat);
    let step = double_step(n as nat);
    assert(value >= 0x100_0000_0000) by {
        assert(2 * value >= 2 * n - step);
        assert(n >= 0x10_0000_0000_0000 * step);
    }
    let tenths = half_even(value * 10, 0x100_0000_0000);
    rounding_goes_to_the_nearest(value * 10, 0x100_0000_0000);
    assert(shows_tenths(tenths as int, value as int, 0x100_0000_0000, "TiB"@, r@));
}

} // verus!
