//! Text as a sequence of characters.
//!
//! Everything the kernel does with names, paths, URIs and messages is stated
//! over `Seq<char>`. This module holds the vocabulary those statements share
//! and the executable counterparts.

use vstd::prelude::*;
use vstd::std_specs::iter::IteratorSpec;

verus! {

/// `String::push`: appends one character.
///
/// The standard library documents it as "appends the given `char` to the end of
/// this `String`"; the view grows by exactly that character.
pub assume_specification[ String::push ](s: &mut String, c: char)
    ensures
        final(s)@ == old(s)@.push(c),
;

// ---------------------------------------------------------------------------
// Comparison
// ---------------------------------------------------------------------------

/// Whether `a` sorts strictly before `b`, character by character.
pub open spec fn text_before(a: Seq<char>, b: Seq<char>) -> bool
    decreases a.len(),
{
    if b.len() == 0 {
        false
    } else if a.len() == 0 {
        true
    } else if a[0] != b[0] {
        (a[0] as int) < (b[0] as int)
    } else {
        text_before(a.drop_first(), b.drop_first())
    }
}

/// No text sorts before itself.
pub proof fn order_is_irreflexive(a: Seq<char>)
    ensures
        !text_before(a, a),
    decreases a.len(),
{
    if a.len() > 0 {
        order_is_irreflexive(a.drop_first());
    }
}

/// The order is transitive.
pub proof fn order_is_transitive(a: Seq<char>, b: Seq<char>, c: Seq<char>)
    requires
        text_before(a, b),
        text_before(b, c),
    ensures
        text_before(a, c),
    decreases a.len(),
{
    if a.len() > 0 && b.len() > 0 && c.len() > 0 && a[0] == b[0] && b[0] == c[0] {
        order_is_transitive(a.drop_first(), b.drop_first(), c.drop_first());
    }
}

/// Of two different texts one sorts before the other.
pub proof fn order_is_total(a: Seq<char>, b: Seq<char>)
    ensures
        a == b || text_before(a, b) || text_before(b, a),
    decreases a.len(),
{
    if a.len() > 0 && b.len() > 0 && a[0] == b[0] {
        order_is_total(a.drop_first(), b.drop_first());
        if a.drop_first() == b.drop_first() {
            assert(a =~= seq![a[0]] + a.drop_first());
            assert(b =~= seq![b[0]] + b.drop_first());
        }
    } else if a.len() > 0 && b.len() > 0 {
        let p = a[0];
        let q = b[0];
        assert(p as int != q as int);
    } else if a.len() == 0 && b.len() == 0 {
        assert(a =~= b);
    }
}

/// Whether `a` sorts strictly before `b`.
pub fn sorts_before(a: &str, b: &str) -> (r: bool)
    ensures
        r == text_before(a@, b@),
{
    let mut left = a.chars();
    let mut right = b.chars();
    let ghost mut seen: int = 0;
    assert(a@.skip(0) =~= a@);
    assert(b@.skip(0) =~= b@);
    loop
        invariant
            0 <= seen <= a@.len(),
            seen <= b@.len(),
            left.remaining() == a@.skip(seen),
            right.remaining() == b@.skip(seen),
            text_before(a@, b@) == text_before(a@.skip(seen), b@.skip(seen)),
            left.decrease() is Some,
        decreases a@.len() - seen,
    {
        let x = left.next();
        let y = right.next();
        match (x, y) {
            (_, None) => {
                return false;
            },
            (None, Some(_)) => {
                return true;
            },
            (Some(p), Some(q)) => {
                assert(a@.skip(seen)[0] == p && b@.skip(seen)[0] == q);
                if p != q {
                    return p < q;
                }
                assert(a@.skip(seen).drop_first() =~= a@.skip(seen + 1));
                assert(b@.skip(seen).drop_first() =~= b@.skip(seen + 1));
                proof {
                    seen = seen + 1;
                }
            },
        }
    }
}

/// Whether two strings hold the same characters.
pub fn same_text(a: &str, b: &str) -> (r: bool)
    ensures
        r == (a@ == b@),
{
    let mut left = a.chars();
    let mut right = b.chars();
    let ghost mut seen: int = 0;
    loop
        invariant
            0 <= seen <= a@.len(),
            seen <= b@.len(),
            left.remaining() == a@.skip(seen),
            right.remaining() == b@.skip(seen),
            a@.take(seen) == b@.take(seen),
            left.decrease() is Some,
        decreases a@.len() - seen,
    {
        let x = left.next();
        let y = right.next();
        match (x, y) {
            (None, None) => {
                assert(a@.take(seen) == a@);
                assert(b@.take(seen) == b@);
                return true;
            },
            (Some(p), Some(q)) => {
                assert(a@[seen] == p && b@[seen] == q);
                if p != q {
                    return false;
                }
                assert(a@.take(seen + 1) == a@.take(seen).push(p));
                assert(b@.take(seen + 1) == b@.take(seen).push(q));
                assert(a@.skip(seen).drop_first() == a@.skip(seen + 1));
                assert(b@.skip(seen).drop_first() == b@.skip(seen + 1));
                proof {
                    seen = seen + 1;
                }
            },
            _ => {
                return false;
            },
        }
    }
}

/// Whether a string holds no character.
pub fn is_empty(s: &str) -> (r: bool)
    ensures
        r == (s@.len() == 0),
{
    match s.chars().next() {
        None => true,
        Some(_) => false,
    }
}

/// Copies a string's characters into a vector.
pub fn chars_of(s: &str) -> (r: Vec<char>)
    ensures
        r@ == s@,
{
    let mut out: Vec<char> = Vec::new();
    for c in it: s.chars()
        invariant
            out@ == s@.take(it.index()),
            it.seq() == s@,
    {
        assert(s@.take(it.index() + 1) == s@.take(it.index()).push(c));
        out.push(c);
    }
    assert(s@.take(s@.len() as int) == s@);
    out
}

/// Builds a string from the characters `from..to` of a vector.
pub fn string_of(v: &Vec<char>, from: usize, to: usize) -> (r: String)
    requires
        from <= to <= v@.len(),
    ensures
        r@ == v@.subrange(from as int, to as int),
{
    let mut out = String::new();
    let mut i: usize = from;
    while i < to
        invariant
            from <= i <= to <= v@.len(),
            out@ == v@.subrange(from as int, i as int),
        decreases to - i,
    {
        out.push(v[i]);
        assert(v@.subrange(from as int, i + 1) == v@.subrange(from as int, i as int).push(v@[i as int]));
        i = i + 1;
    }
    out
}

/// One string after another.
pub fn joined(a: &str, b: &str) -> (r: String)
    ensures
        r@ == a@ + b@,
{
    let mut out = a.to_owned();
    out.append(b);
    out
}

// ---------------------------------------------------------------------------
// Splitting
// ---------------------------------------------------------------------------

/// The pieces of `s` between the characters of `seps`, in order. There is one
/// piece more than there are separators; a piece may be empty.
pub open spec fn pieces(s: Seq<char>, seps: Set<char>) -> Seq<Seq<char>>
    decreases s.len(),
{
    if s.len() == 0 {
        seq![Seq::empty()]
    } else {
        let before = pieces(s.drop_last(), seps);
        if seps.contains(s.last()) {
            before.push(Seq::empty())
        } else {
            before.drop_last().push(before.last().push(s.last()))
        }
    }
}

/// There is always at least one piece.
pub proof fn pieces_not_empty(s: Seq<char>, seps: Set<char>)
    ensures
        pieces(s, seps).len() >= 1,
    decreases s.len(),
{
    if s.len() > 0 {
        pieces_not_empty(s.drop_last(), seps);
    }
}

/// A text without separators is its own single piece.
pub proof fn pieces_of_plain(s: Seq<char>, seps: Set<char>)
    requires
        forall|i: int| 0 <= i < s.len() ==> !seps.contains(#[trigger] s[i]),
    ensures
        pieces(s, seps) == seq![s],
    decreases s.len(),
{
    if s.len() > 0 {
        let init = s.drop_last();
        assert forall|i: int| 0 <= i < init.len() implies !seps.contains(#[trigger] init[i]) by {
            assert(init[i] == s[i]);
        }
        pieces_of_plain(init, seps);
        assert(seq![init].drop_last() =~= Seq::<Seq<char>>::empty());
        assert(init.push(s.last()) =~= s);
        assert(pieces(s, seps) =~= seq![s]);
    } else {
        assert(s =~= Seq::<char>::empty());
    }
}

/// Splitting on both sides of a separator separately gives the same pieces.
pub proof fn pieces_across_separator(a: Seq<char>, c: char, b: Seq<char>, seps: Set<char>)
    requires
        seps.contains(c),
    ensures
        pieces(a.push(c) + b, seps) == pieces(a, seps) + pieces(b, seps),
    decreases b.len(),
{
    let whole = a.push(c) + b;
    if b.len() == 0 {
        assert(whole =~= a.push(c));
        assert(whole.drop_last() =~= a);
        assert(pieces(whole, seps) =~= pieces(a, seps) + pieces(b, seps));
    } else {
        pieces_across_separator(a, c, b.drop_last(), seps);
        pieces_not_empty(b.drop_last(), seps);
        assert(whole.drop_last() =~= a.push(c) + b.drop_last());
        assert(whole.last() == b.last());
        let left = pieces(a, seps);
        let right = pieces(b.drop_last(), seps);
        assert((left + right).last() == right.last());
        assert(pieces(whole, seps) =~= left + pieces(b, seps));
    }
}

/// The pieces hold no separator, and no character that `s` does not hold.
pub proof fn pieces_hold_no_separator(s: Seq<char>, seps: Set<char>)
    ensures
        forall|i: int, j: int|
            0 <= i < pieces(s, seps).len() && 0 <= j < pieces(s, seps)[i].len() ==> {
                &&& !seps.contains(#[trigger] pieces(s, seps)[i][j])
                &&& s.contains(pieces(s, seps)[i][j])
            },
    decreases s.len(),
{
    if s.len() > 0 {
        let init = s.drop_last();
        pieces_hold_no_separator(init, seps);
        pieces_not_empty(init, seps);
        let before = pieces(init, seps);
        let p = pieces(s, seps);
        assert forall|i: int, j: int| 0 <= i < p.len() && 0 <= j < p[i].len() implies {
            &&& !seps.contains(#[trigger] p[i][j])
            &&& s.contains(p[i][j])
        } by {
            if i < before.len() && j < before[i].len() {
                assert(p[i][j] == before[i][j]);
                let k = choose|k: int| 0 <= k < init.len() && init[k] == before[i][j];
                assert(s[k] == before[i][j]);
            } else {
                assert(p[i][j] == s.last());
                assert(s[s.len() - 1] == s.last());
            }
        }
    }
}

/// Splits a string at every occurrence of either of two characters.
pub fn split_at_either(s: &str, a: char, b: char) -> (r: Vec<String>)
    ensures
        texts(r@) == pieces(s@, set![a, b]),
{
    let ghost seps = set![a, b];
    let mut out: Vec<String> = Vec::new();
    let mut piece = String::new();
    let mut rest = s.chars();
    let ghost mut seen: int = 0;
    assert(s@.take(0) =~= Seq::<char>::empty());
    assert(s@.skip(0) =~= s@);
    assert(texts(out@).push(piece@) =~= seq![Seq::<char>::empty()]);
    loop
        invariant
            0 <= seen <= s@.len(),
            rest.remaining() == s@.skip(seen),
            rest.decrease() is Some,
            seps == set![a, b],
            pieces(s@.take(seen), seps) == texts(out@).push(piece@),
        ensures
            pieces(s@, seps) == texts(out@).push(piece@),
        decreases s@.len() - seen,
    {
        match rest.next() {
            None => {
                assert(s@.take(seen) =~= s@);
                break;
            },
            Some(c) => {
                proof {
                    assert(s@[seen] == c);
                    assert(s@.take(seen + 1).drop_last() =~= s@.take(seen));
                    assert(s@.skip(seen).drop_first() =~= s@.skip(seen + 1));
                }
                let ghost before = texts(out@).push(piece@);
                if c == a || c == b {
                    out.push(piece);
                    piece = String::new();
                    assert(texts(out@) =~= before);
                } else {
                    piece.push(c);
                    assert(before.drop_last() =~= texts(out@));
                }
                proof {
                    seen = seen + 1;
                }
            },
        }
    }
    let ghost before = texts(out@).push(piece@);
    out.push(piece);
    assert(texts(out@) =~= before);
    out
}

/// The texts that a sequence of strings holds.
pub open spec fn texts(v: Seq<String>) -> Seq<Seq<char>> {
    v.map_values(|s: String| s@)
}

/// A string that may be absent, as a text.
pub open spec fn optional(s: Option<String>) -> Option<Seq<char>> {
    match s {
        Some(v) => Some(v@),
        None => None,
    }
}

/// Copies a string that may be absent.
pub fn cloned_optional(s: &Option<String>) -> (r: Option<String>)
    ensures
        optional(r) == optional(*s),
{
    match s {
        Some(v) => Some(v.clone()),
        None => None,
    }
}

// ---------------------------------------------------------------------------
// Numbers
// ---------------------------------------------------------------------------

/// The character for a digit below ten.
pub open spec fn digit(d: nat) -> char {
    (48 + d) as char
}

/// A number in decimal, without leading zeros.
pub open spec fn decimal(n: nat) -> Seq<char>
    decreases n,
{
    if n < 10 {
        seq![digit(n)]
    } else {
        decimal(n / 10).push(digit(n % 10))
    }
}

/// Writes a number in decimal.
pub fn decimal_of(n: u64) -> (r: String)
    ensures
        r@ == decimal(n as nat),
{
    let mut digits: Vec<char> = Vec::new();
    let mut rest: u64 = n;
    let ghost mut tail = Seq::<char>::empty();
    while rest >= 10
        invariant
            decimal(n as nat) == decimal(rest as nat) + tail,
            digits@ == tail.reverse(),
        decreases rest,
    {
        let d: u8 = (rest % 10) as u8;
        let c: char = (48 + d) as char;
        digits.push(c);
        proof {
            let longer = seq![digit((rest % 10) as nat)] + tail;
            assert(decimal((rest / 10) as nat).push(digit((rest % 10) as nat)) + tail =~= decimal(
                (rest / 10) as nat,
            ) + longer);
            assert(tail.reverse().push(c) =~= longer.reverse());
            tail = longer;
        }
        rest = rest / 10;
    }
    let d: u8 = rest as u8;
    let c: char = (48 + d) as char;
    digits.push(c);
    let ghost whole = seq![digit(rest as nat)] + tail;
    assert(tail.reverse().push(c) =~= whole.reverse());
    let mut out = String::new();
    let mut i: usize = digits.len();
    assert(whole.take(0) =~= Seq::<char>::empty());
    while i > 0
        invariant
            i <= digits@.len(),
            digits@ == whole.reverse(),
            out@ == whole.take(digits@.len() - i),
        decreases i,
    {
        i = i - 1;
        out.push(digits[i]);
        assert(whole.take(digits@.len() - i) =~= whole.take(digits@.len() - i - 1).push(
            whole[digits@.len() - i - 1],
        ));
    }
    assert(whole.take(whole.len() as int) =~= whole);
    out
}

/// A number in decimal, with a minus sign where it is negative.
pub open spec fn signed_decimal(n: int) -> Seq<char> {
    if n < 0 {
        seq!['-'] + decimal((-n) as nat)
    } else {
        decimal(n as nat)
    }
}

/// Writes a signed number in decimal.
pub fn signed_decimal_of(n: i32) -> (r: String)
    ensures
        r@ == signed_decimal(n as int),
{
    if n < 0 {
        let magnitude: i64 = -(n as i64);
        let mut out = String::new();
        out.push('-');
        out.append(&decimal_of(magnitude as u64));
        assert(out@ =~= signed_decimal(n as int));
        out
    } else {
        decimal_of(n as u64)
    }
}

/// The character for a hexadecimal digit, in upper case.
pub open spec fn hex_digit(d: nat) -> char {
    if d < 10 {
        (48 + d) as char
    } else {
        (55 + d) as char
    }
}

/// The last `width` hexadecimal digits of a number, leading zeros kept.
pub open spec fn hex(n: nat, width: nat) -> Seq<char>
    decreases width,
{
    if width == 0 {
        Seq::empty()
    } else {
        hex(n / 16, (width - 1) as nat).push(hex_digit(n % 16))
    }
}

/// Writes a number as `0x` and eight upper-case hexadecimal digits.
pub fn hex_of(n: u32) -> (r: String)
    ensures
        r@ == "0x"@ + hex(n as nat, 8),
{
    let mut digits: Vec<char> = Vec::new();
    let mut rest: u32 = n;
    let mut width: u32 = 8;
    let ghost mut tail = Seq::<char>::empty();
    assert(hex(n as nat, 8) + tail =~= hex(n as nat, 8));
    while width > 0
        invariant
            width <= 8,
            hex(n as nat, 8) == hex(rest as nat, width as nat) + tail,
            digits@ == tail.reverse(),
            tail.len() == 8 - width,
        decreases width,
    {
        let d: u8 = (rest % 16) as u8;
        let c: char = if d < 10 {
            (48 + d) as char
        } else {
            (55 + d) as char
        };
        digits.push(c);
        proof {
            let longer = seq![c] + tail;
            assert(hex((rest / 16) as nat, (width - 1) as nat).push(c) + tail =~= hex(
                (rest / 16) as nat,
                (width - 1) as nat,
            ) + longer);
            assert(tail.reverse().push(c) =~= longer.reverse());
            tail = longer;
        }
        rest = rest / 16;
        width = width - 1;
    }
    assert(hex(rest as nat, 0) + tail =~= tail);
    let mut out = "0x".to_owned();
    let mut i: usize = digits.len();
    assert("0x"@ + tail.take(0) =~= "0x"@);
    while i > 0
        invariant
            i <= digits@.len(),
            digits@ == tail.reverse(),
            out@ == "0x"@ + tail.take(digits@.len() - i),
        decreases i,
    {
        i = i - 1;
        out.push(digits[i]);
        assert("0x"@ + tail.take(digits@.len() - i) =~= ("0x"@ + tail.take(
            digits@.len() - i - 1,
        )).push(tail[digits@.len() - i - 1]));
    }
    assert(tail.take(tail.len() as int) =~= tail);
    out
}

// ---------------------------------------------------------------------------
// Searching
// ---------------------------------------------------------------------------

/// Whether `pat` stands in `s` at `i`.
pub open spec fn occurs_at(s: Seq<char>, pat: Seq<char>, i: int) -> bool {
    &&& 0 <= i
    &&& i + pat.len() <= s.len()
    &&& s.subrange(i, i + pat.len()) == pat
}

/// Where `pat` first stands in `s`, from `from` on.
pub open spec fn first_from(s: Seq<char>, pat: Seq<char>, from: int) -> Option<int>
    decreases s.len() + 1 - from,
{
    if from + pat.len() > s.len() {
        None
    } else if occurs_at(s, pat, from) {
        Some(from)
    } else {
        first_from(s, pat, from + 1)
    }
}

/// Where `pat` first stands in `s`.
pub open spec fn first_at(s: Seq<char>, pat: Seq<char>) -> Option<int> {
    first_from(s, pat, 0)
}

/// What the search finds is an occurrence, and the first one.
pub proof fn first_from_is_first(s: Seq<char>, pat: Seq<char>, from: int)
    requires
        0 <= from,
    ensures
        match first_from(s, pat, from) {
            Some(i) => from <= i && occurs_at(s, pat, i) && forall|j: int|
                from <= j < i ==> !occurs_at(s, pat, j),
            None => forall|j: int| from <= j ==> !occurs_at(s, pat, j),
        },
    decreases s.len() + 1 - from,
{
    if from + pat.len() <= s.len() && !occurs_at(s, pat, from) {
        first_from_is_first(s, pat, from + 1);
    }
}

/// Finds the first occurrence of `pat` in `s`.
pub fn find(s: &Vec<char>, pat: &str) -> (r: Option<usize>)
    ensures
        match r {
            Some(i) => first_at(s@, pat@) == Some(i as int) && occurs_at(s@, pat@, i as int),
            None => first_at(s@, pat@) is None,
        },
{
    let want = chars_of(pat);
    let mut i: usize = 0;
    loop
        invariant
            i <= s@.len(),
            want@ == pat@,
            first_at(s@, pat@) == first_from(s@, pat@, i as int),
        decreases s@.len() - i,
    {
        if want.len() > s.len() - i {
            return None;
        }
        let mut k: usize = 0;
        while k < want.len() && s[i + k] == want[k]
            invariant
                i + want@.len() <= s@.len() <= usize::MAX,
                k <= want@.len(),
                forall|j: int| 0 <= j < k ==> s@[i + j] == want@[j],
            decreases want@.len() - k,
        {
            k = k + 1;
        }
        if k == want.len() {
            assert(s@.subrange(i as int, i + want@.len()) =~= want@);
            return Some(i);
        }
        assert(!occurs_at(s@, pat@, i as int)) by {
            if occurs_at(s@, pat@, i as int) {
                assert(s@.subrange(i as int, i + want@.len())[k as int] == want@[k as int]);
            }
        }
        if i == s.len() {
            return None;
        }
        i = i + 1;
    }
}

/// What stands before and after the first `pat` in `s`.
pub open spec fn cut(s: Seq<char>, pat: Seq<char>) -> Option<(Seq<char>, Seq<char>)> {
    match first_at(s, pat) {
        Some(i) => Some((s.take(i), s.skip(i + pat.len()))),
        None => None,
    }
}

/// Splits a string around the first occurrence of `pat`.
pub fn split_once(s: &str, pat: &str) -> (r: Option<(String, String)>)
    ensures
        match r {
            Some((a, b)) => cut(s@, pat@) == Some((a@, b@)),
            None => cut(s@, pat@) is None,
        },
{
    let chars = chars_of(s);
    match find(&chars, pat) {
        None => None,
        Some(i) => {
            let width: usize = pat.unicode_len();
            let len: usize = chars.len();
            let before = string_of(&chars, 0, i);
            let after = string_of(&chars, i + width, len);
            assert(before@ =~= s@.take(i as int));
            assert(after@ =~= s@.skip(i + width));
            Some((before, after))
        },
    }
}

// ---------------------------------------------------------------------------
// Case and white space
// ---------------------------------------------------------------------------

/// Whether a character is white space, as Unicode defines it.
pub open spec fn is_space(c: char) -> bool {
    let n = c as int;
    ||| 0x09 <= n <= 0x0D
    ||| n == 0x20
    ||| n == 0x85
    ||| n == 0xA0
    ||| n == 0x1680
    ||| 0x2000 <= n <= 0x200A
    ||| n == 0x2028
    ||| n == 0x2029
    ||| n == 0x202F
    ||| n == 0x205F
    ||| n == 0x3000
}

/// Whether a character is white space.
pub fn is_white_space(c: char) -> (r: bool)
    ensures
        r == is_space(c),
{
    let n: u32 = c as u32;
    (0x09 <= n && n <= 0x0D) || n == 0x20 || n == 0x85 || n == 0xA0 || n == 0x1680 || (0x2000 <= n
        && n <= 0x200A) || n == 0x2028 || n == 0x2029 || n == 0x202F || n == 0x205F || n == 0x3000
}

/// `s` without the white space at its end.
pub open spec fn trimmed_end(s: Seq<char>) -> Seq<char>
    decreases s.len(),
{
    if s.len() > 0 && is_space(s.last()) {
        trimmed_end(s.drop_last())
    } else {
        s
    }
}

/// `s` without the white space at its start.
pub open spec fn trimmed_start(s: Seq<char>) -> Seq<char>
    decreases s.len(),
{
    if s.len() > 0 && is_space(s[0]) {
        trimmed_start(s.drop_first())
    } else {
        s
    }
}

/// `s` without the white space around it.
pub open spec fn trimmed(s: Seq<char>) -> Seq<char> {
    trimmed_start(trimmed_end(s))
}

/// Drops the white space around a string.
pub fn trim(s: &str) -> (r: String)
    ensures
        r@ == trimmed(s@),
{
    let chars = chars_of(s);
    let mut to: usize = chars.len();
    assert(chars@.take(to as int) =~= s@);
    while to > 0 && is_white_space(chars[to - 1])
        invariant
            to <= chars@.len(),
            trimmed_end(chars@.take(to as int)) == trimmed_end(s@),
        decreases to,
    {
        assert(chars@.take(to as int).drop_last() =~= chars@.take(to - 1));
        to = to - 1;
    }
    let ghost kept = chars@.take(to as int);
    let mut from: usize = 0;
    assert(kept.skip(0) =~= kept);
    while from < to && is_white_space(chars[from])
        invariant
            from <= to <= chars@.len(),
            kept == chars@.take(to as int),
            trimmed_start(kept.skip(from as int)) == trimmed_start(kept),
        decreases to - from,
    {
        assert(kept.skip(from as int).drop_first() =~= kept.skip(from + 1));
        from = from + 1;
    }
    assert(chars@.subrange(from as int, to as int) =~= kept.skip(from as int));
    string_of(&chars, from, to)
}

/// An ASCII capital as its small letter; any other character as it is.
pub open spec fn small(c: char) -> char {
    if 'A' <= c <= 'Z' {
        (c as int + 32) as char
    } else {
        c
    }
}

/// A text with its ASCII capitals as small letters.
pub open spec fn lowered(s: Seq<char>) -> Seq<char> {
    s.map_values(|c: char| small(c))
}

/// An ASCII capital as its small letter; any other character as it is.
pub fn small_letter(c: char) -> (r: char)
    ensures
        r == small(c),
{
    let n: u32 = c as u32;
    if 65 <= n && n <= 90 {
        let b: u8 = (n + 32) as u8;
        b as char
    } else {
        c
    }
}

/// Turns ASCII capitals into small letters.
pub fn lower(s: &str) -> (r: String)
    ensures
        r@ == lowered(s@),
{
    let mut out = String::new();
    for c in it: s.chars()
        invariant
            out@ == lowered(s@.take(it.index())),
            it.seq() == s@,
    {
        out.push(small_letter(c));
        assert(lowered(s@.take(it.index() + 1)) =~= lowered(s@.take(it.index())).push(small(c)));
    }
    assert(s@.take(s@.len() as int) =~= s@);
    out
}

/// Lowering twice is lowering once.
pub proof fn lowering_is_idempotent(s: Seq<char>)
    ensures
        lowered(lowered(s)) == lowered(s),
{
    assert(lowered(lowered(s)) =~= lowered(s));
}

// ---------------------------------------------------------------------------
// Laws
// ---------------------------------------------------------------------------

/// A text is cut where a pattern first stands: the two parts with the pattern
/// between them are the text, the pattern stands nowhere earlier, and it is not
/// cut only where the pattern does not stand at all.
pub proof fn a_cut_is_at_the_first_place(s: &str, pat: &str, r: Option<(String, String)>)
    requires
        call_ensures(split_once, (s, pat), r),
    ensures
        r matches Some((a, b)) ==> a@ + pat@ + b@ == s@,
        r matches Some((a, b)) ==> forall|i: int|
            0 <= i < a@.len() ==> #[trigger] s@.subrange(i, i + pat@.len()) != pat@,
        r is None ==> forall|i: int|
            0 <= i && i + pat@.len() <= s@.len() ==> #[trigger] s@.subrange(i, i + pat@.len())
                != pat@,
{
    first_from_is_first(s@, pat@, 0);
    match first_at(s@, pat@) {
        Some(k) => {
            assert(s@.take(k) + pat@ + s@.skip(k + pat@.len()) =~= s@);
            assert forall|i: int| 0 <= i < k implies #[trigger] s@.subrange(i, i + pat@.len())
                != pat@ by {
                assert(!occurs_at(s@, pat@, i));
            }
        },
        None => {
            assert forall|i: int| 0 <= i && i + pat@.len() <= s@.len() implies #[trigger] s@.subrange(
                i,
                i + pat@.len(),
            ) != pat@ by {
                assert(!occurs_at(s@, pat@, i));
            }
        },
    }
}

/// Cutting at a character that the first part does not hold undoes putting the
/// two parts together.
pub proof fn cutting_undoes_joining(a: Seq<char>, c: char, b: Seq<char>)
    requires
        !a.contains(c),
    ensures
        cut(a + seq![c] + b, seq![c]) == Some((a, b)),
{
    let s = a + seq![c] + b;
    let pat = seq![c];
    first_from_is_first(s, pat, 0);
    assert(s.subrange(a.len() as int, a.len() as int + 1) =~= pat);
    assert(occurs_at(s, pat, a.len() as int));
    let k = first_at(s, pat)->0;
    if k < a.len() {
        assert(s.subrange(k, k + 1)[0] == c);
        assert(a[k] == c);
    }
    assert(s.take(k) =~= a);
    assert(s.skip(k + 1) =~= b);
}

/// A text without a character is not cut at it.
pub proof fn nothing_to_cut_at(s: Seq<char>, c: char)
    requires
        !s.contains(c),
    ensures
        cut(s, seq![c]) is None,
{
    first_from_is_first(s, seq![c], 0);
    if let Some(k) = first_at(s, seq![c]) {
        assert(s.subrange(k, k + 1)[0] == c);
        assert(s[k] == c);
    }
}

/// Texts are in the order of the first character in which they differ, and a text
/// comes before every longer one that starts with it.
pub proof fn texts_are_in_the_order_of_their_first_difference(
    common: Seq<char>,
    x: char,
    a: Seq<char>,
    y: char,
    b: Seq<char>,
)
    ensures
        x != y ==> (text_before(common + seq![x] + a, common + seq![y] + b) <==> (x as int) < (
        y as int)),
        text_before(common, common + seq![x] + a),
        !text_before(common + seq![x] + a, common),
    decreases common.len(),
{
    let (p, q) = (common + seq![x] + a, common + seq![y] + b);
    if common.len() > 0 {
        let rest = common.drop_first();
        texts_are_in_the_order_of_their_first_difference(rest, x, a, y, b);
        assert(p.drop_first() =~= rest + seq![x] + a);
        assert(q.drop_first() =~= rest + seq![y] + b);
    }
}

/// The number that decimal digits stand for.
pub open spec fn decimal_value(s: Seq<char>) -> int
    decreases s.len(),
{
    if s.len() == 0 {
        0
    } else {
        10 * decimal_value(s.drop_last()) + (s.last() as int - '0' as int)
    }
}

/// A number in decimal stands for that number: it is made of digits, and starts
/// with a zero only where it is zero.
pub proof fn decimals_stand_for_their_number(n: nat)
    ensures
        decimal_value(decimal(n)) == n,
        decimal(n).len() > 0,
        forall|i: int| 0 <= i < decimal(n).len() ==> '0' <= #[trigger] decimal(n)[i] <= '9',
        decimal(n)[0] == '0' ==> n == 0,
    decreases n,
{
    let s = decimal(n);
    if n < 10 {
        assert(s.drop_last() =~= Seq::<char>::empty());
        assert(decimal_value(s.drop_last()) == 0);
    } else {
        decimals_stand_for_their_number(n / 10);
        assert(s.drop_last() =~= decimal(n / 10));
        assert(s[0] == decimal(n / 10)[0]);
    }
}

/// A number that is written down is the decimal that stands for it.
pub proof fn written_numbers_stand_for_themselves(n: u64, r: String, m: i32, q: String)
    requires
        call_ensures(decimal_of, (n,), r),
        call_ensures(signed_decimal_of, (m,), q),
    ensures
        decimal_value(r@) == n,
        m >= 0 ==> decimal_value(q@) == m,
        m < 0 ==> q@[0] == '-' && decimal_value(q@.skip(1)) == -m,
{
    decimals_stand_for_their_number(n as nat);
    if m >= 0 {
        decimals_stand_for_their_number(m as nat);
    } else {
        decimals_stand_for_their_number((-m) as nat);
        assert(q@.skip(1) =~= decimal((-m) as nat));
    }
}

/// The number that hexadecimal digits in upper case stand for.
pub open spec fn hex_value(s: Seq<char>) -> int
    decreases s.len(),
{
    if s.len() == 0 {
        0
    } else {
        16 * hex_value(s.drop_last()) + if s.last() <= '9' {
            s.last() as int - '0' as int
        } else {
            s.last() as int - 'A' as int + 10
        }
    }
}

/// A number of up to `4 * width` bits in hexadecimal stands for that number, in
/// `width` digits.
proof fn hexadecimals_stand_for_their_number(n: nat, width: nat)
    requires
        n < vstd::arithmetic::power::pow(16, width),
    ensures
        hex_value(hex(n, width)) == n,
        hex(n, width).len() == width,
    decreases width,
{
    let s = hex(n, width);
    if width == 0 {
        vstd::arithmetic::power::lemma_pow0(16);
    } else {
        vstd::arithmetic::power::lemma_pow_adds(16, (width - 1) as nat, 1);
        vstd::arithmetic::power::lemma_pow1(16);
        let p = vstd::arithmetic::power::pow(16, (width - 1) as nat);
        assert(n < p * 16);
        assert(n / 16 < p) by (nonlinear_arith)
            requires
                n < p * 16,
        ;
        hexadecimals_stand_for_their_number(n / 16, (width - 1) as nat);
        assert(s.drop_last() =~= hex(n / 16, (width - 1) as nat));
    }
}

/// A code that is written down is `0x` and the eight digits that stand for it.
pub proof fn written_codes_stand_for_themselves(n: u32, r: String)
    requires
        call_ensures(hex_of, (n,), r),
    ensures
        r@.len() == 10,
        r@.take(2) == "0x"@,
        hex_value(r@.skip(2)) == n,
{
    reveal_strlit("0x");
    vstd::arithmetic::power::lemma_pow1(16);
    vstd::arithmetic::power::lemma_pow_adds(16, 1, 1);
    vstd::arithmetic::power::lemma_pow_adds(16, 2, 2);
    vstd::arithmetic::power::lemma_pow_adds(16, 4, 4);
    let (p2, p4, p8) = (
        vstd::arithmetic::power::pow(16, 2),
        vstd::arithmetic::power::pow(16, 4),
        vstd::arithmetic::power::pow(16, 8),
    );
    assert(p2 == 256);
    assert(p4 == 0x1_0000 && p8 == 0x1_0000_0000) by (nonlinear_arith)
        requires
            p2 == 256,
            p4 == p2 * p2,
            p8 == p4 * p4,
    ;
    hexadecimals_stand_for_their_number(n as nat, 8);
    assert(r@.take(2) =~= "0x"@);
    assert(r@.skip(2) =~= hex(n as nat, 8));
}

/// Only white space is trimmed, and all of it: the text is what was trimmed with
/// white space around it, and what is left neither starts nor ends with any.
pub proof fn trimming_takes_the_white_space_around(s: &str, r: String)
    requires
        call_ensures(trim, (s,), r),
    ensures
        exists|before: Seq<char>, after: Seq<char>|
            {
                &&& s@ == #[trigger] (before + r@ + after)
                &&& forall|i: int| 0 <= i < before.len() ==> is_space(#[trigger] before[i])
                &&& forall|i: int| 0 <= i < after.len() ==> is_space(#[trigger] after[i])
            },
        r@.len() > 0 ==> !is_space(r@[0]) && !is_space(r@.last()),
{
    let t = trimmed_end(s@);
    trimming_the_end(s@);
    trimming_the_start(t);
    let before = t.take(t.len() - trimmed_start(t).len());
    let after = s@.skip(t.len() as int);
    assert(s@ =~= before + r@ + after);
}

proof fn trimming_the_end(s: Seq<char>)
    ensures
        trimmed_end(s).is_prefix_of(s),
        forall|i: int| trimmed_end(s).len() <= i < s.len() ==> is_space(#[trigger] s[i]),
        trimmed_end(s).len() > 0 ==> !is_space(trimmed_end(s).last()),
    decreases s.len(),
{
    if s.len() > 0 && is_space(s.last()) {
        let init = s.drop_last();
        trimming_the_end(init);
        assert forall|i: int| trimmed_end(s).len() <= i < s.len() implies is_space(
            #[trigger] s[i],
        ) by {
            if i < init.len() {
                assert(init[i] == s[i]);
            }
        }
    }
}

proof fn trimming_the_start(s: Seq<char>)
    ensures
        trimmed_start(s).len() <= s.len(),
        trimmed_start(s) == s.skip(s.len() - trimmed_start(s).len()),
        forall|i: int| 0 <= i < s.len() - trimmed_start(s).len() ==> is_space(#[trigger] s[i]),
        trimmed_start(s).len() > 0 ==> !is_space(trimmed_start(s)[0]),
    decreases s.len(),
{
    if s.len() > 0 && is_space(s[0]) {
        let rest = s.drop_first();
        trimming_the_start(rest);
        let n = s.len() - trimmed_start(s).len();
        assert forall|i: int| 0 <= i < n implies is_space(#[trigger] s[i]) by {
            if i > 0 {
                assert(rest[i - 1] == s[i]);
            }
        }
        assert(rest.skip(n - 1) =~= s.skip(n));
    } else {
        assert(s.skip(0) =~= s);
    }
}

/// Blanks, tabs and line ends are white space, and no visible ASCII character
/// is.
pub proof fn visible_characters_are_not_white_space(c: char, r: bool)
    requires
        call_ensures(is_white_space, (c,), r),
    ensures
        c == ' ' || c == '\t' || c == '\n' || c == '\r' ==> r,
        '!' <= c <= '~' ==> !r,
        'A' <= c <= 'Z' || 'a' <= c <= 'z' || '0' <= c <= '9' ==> !r,
{
}

/// Lowering replaces each ASCII capital by the small letter in the same place of
/// the alphabet, and changes nothing else.
pub proof fn lowering_replaces_capitals_only(s: &str, r: String)
    requires
        call_ensures(lower, (s,), r),
    ensures
        r@.len() == s@.len(),
        forall|i: int|
            #![trigger r@[i]]
            0 <= i < s@.len() ==> {
                &&& 'A' <= s@[i] <= 'Z' ==> 'a' <= r@[i] <= 'z' && r@[i] as int - 'a' as int
                    == s@[i] as int - 'A' as int
                &&& !('A' <= s@[i] <= 'Z') ==> r@[i] == s@[i]
            },
{
}

} // verus!
