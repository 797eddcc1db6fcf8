//! Normalized, absolute paths inside a single backend.
//!
//! A path is, mathematically, the sequence of its segments from the root down.
//! Its text is that sequence written with a `/` before each segment, or a lone
//! `/` for the root.

use vstd::prelude::*;
use crate::error::{Error, ErrorView};
use crate::text;

verus! {

// ---------------------------------------------------------------------------
// Model
// ---------------------------------------------------------------------------

/// The characters that separate segments on input.
pub open spec fn separators() -> Set<char> {
    set!['/', '\\']
}

/// `.`: stays where it is.
pub open spec fn dot() -> Seq<char> {
    seq!['.']
}

/// `..`: goes one level up.
pub open spec fn dotdot() -> Seq<char> {
    seq!['.', '.']
}

/// A piece that names nothing: empty, or `.`.
pub open spec fn is_filler(piece: Seq<char>) -> bool {
    piece.len() == 0 || piece == dot()
}

/// What a path may hold as a segment.
pub open spec fn is_segment(s: Seq<char>) -> bool {
    &&& s.len() > 0
    &&& s != dot()
    &&& s != dotdot()
    &&& forall|i: int| 0 <= i < s.len() ==> !separators().contains(#[trigger] s[i])
}

/// The invariant of a path.
pub open spec fn are_segments(segs: Seq<Seq<char>>) -> bool {
    forall|i: int| 0 <= i < segs.len() ==> is_segment(#[trigger] segs[i])
}

/// Follows `pieces` down from the root; `None` where a `..` would leave it.
pub open spec fn resolved(pieces: Seq<Seq<char>>) -> Option<Seq<Seq<char>>>
    decreases pieces.len(),
{
    if pieces.len() == 0 {
        Some(Seq::empty())
    } else {
        match resolved(pieces.drop_last()) {
            None => None,
            Some(segs) => if is_filler(pieces.last()) {
                Some(segs)
            } else if pieces.last() == dotdot() {
                if segs.len() == 0 {
                    None
                } else {
                    Some(segs.drop_last())
                }
            } else {
                Some(segs.push(pieces.last()))
            },
        }
    }
}

/// What raw input means as a path: its pieces, followed down from the root.
pub open spec fn normalized(raw: Seq<char>) -> Option<Seq<Seq<char>>> {
    resolved(text::pieces(raw, separators()))
}

/// The pieces that name something, in order.
pub open spec fn named(pieces: Seq<Seq<char>>) -> Seq<Seq<char>>
    decreases pieces.len(),
{
    if pieces.len() == 0 {
        Seq::empty()
    } else if is_filler(pieces.last()) {
        named(pieces.drop_last())
    } else {
        named(pieces.drop_last()).push(pieces.last())
    }
}

/// Whether some piece of `raw` is `..`.
pub open spec fn climbs(raw: Seq<char>) -> bool {
    text::pieces(raw, separators()).contains(dotdot())
}

/// What `name` adds to a path it is joined to.
pub open spec fn added(name: Seq<char>) -> Seq<Seq<char>> {
    named(text::pieces(name, separators()))
}

/// A `/` before each segment.
pub open spec fn slashed(segs: Seq<Seq<char>>) -> Seq<char>
    decreases segs.len(),
{
    if segs.len() == 0 {
        Seq::empty()
    } else {
        slashed(segs.drop_last()).push('/') + segs.last()
    }
}

/// The text of a path.
pub open spec fn rendered(segs: Seq<Seq<char>>) -> Seq<char> {
    if segs.len() == 0 {
        seq!['/']
    } else {
        slashed(segs)
    }
}

/// `s` without the slashes at its end.
pub open spec fn without_trailing_slashes(s: Seq<char>) -> Seq<char>
    decreases s.len(),
{
    if s.len() > 0 && s.last() == '/' {
        without_trailing_slashes(s.drop_last())
    } else {
        s
    }
}

// ---------------------------------------------------------------------------
// Lemmas
// ---------------------------------------------------------------------------

/// A path that has left the root stays out, whatever follows.
proof fn escaped_stays_escaped(pieces: Seq<Seq<char>>, n: int)
    requires
        0 <= n <= pieces.len(),
        resolved(pieces.take(n)) is None,
    ensures
        resolved(pieces) is None,
    decreases pieces.len() - n,
{
    if n < pieces.len() {
        assert(pieces.take(n + 1).drop_last() =~= pieces.take(n));
        escaped_stays_escaped(pieces, n + 1);
    } else {
        assert(pieces.take(n) =~= pieces);
    }
}

/// Pieces without separators resolve to segments.
proof fn resolved_gives_segments(pieces: Seq<Seq<char>>)
    requires
        forall|i: int, j: int|
            0 <= i < pieces.len() && 0 <= j < pieces[i].len() ==> !separators().contains(
                #[trigger] pieces[i][j],
            ),
    ensures
        resolved(pieces) matches Some(segs) ==> are_segments(segs),
    decreases pieces.len(),
{
    if pieces.len() > 0 {
        let init = pieces.drop_last();
        assert forall|i: int, j: int| 0 <= i < init.len() && 0 <= j < init[i].len() implies
            !separators().contains(#[trigger] init[i][j]) by {
            assert(init[i][j] == pieces[i][j]);
        }
        resolved_gives_segments(init);
        assert forall|j: int| 0 <= j < pieces.last().len() implies !separators().contains(
            #[trigger] pieces.last()[j],
        ) by {
            assert(pieces.last()[j] == pieces[pieces.len() - 1][j]);
        }
    }
}

/// Following pieces that never climb only ever adds names.
proof fn resolved_without_climbing(base: Seq<Seq<char>>, more: Seq<Seq<char>>)
    requires
        resolved(base) is Some,
        !more.contains(dotdot()),
    ensures
        resolved(base + more) == Some(resolved(base)->0 + named(more)),
    decreases more.len(),
{
    if more.len() == 0 {
        assert(base + more =~= base);
        assert(resolved(base)->0 + named(more) =~= resolved(base)->0);
    } else {
        let init = more.drop_last();
        assert(!init.contains(dotdot())) by {
            if init.contains(dotdot()) {
                let k = choose|k: int| 0 <= k < init.len() && init[k] == dotdot();
                assert(more[k] == dotdot());
            }
        }
        resolved_without_climbing(base, init);
        assert((base + more).drop_last() =~= base + init);
        assert((base + more).last() == more.last());
        assert(more[more.len() - 1] == more.last());
        if !is_filler(more.last()) {
            assert((resolved(base)->0 + named(init)).push(more.last()) =~= resolved(base)->0
                + named(more));
        }
    }
}

/// The pieces of a path's text: an empty one before the first `/`, then the
/// segments.
proof fn pieces_of_slashed(segs: Seq<Seq<char>>)
    requires
        are_segments(segs),
    ensures
        text::pieces(slashed(segs), separators()) == seq![Seq::<char>::empty()] + segs,
    decreases segs.len(),
{
    let seps = separators();
    if segs.len() == 0 {
        assert(seq![Seq::<char>::empty()] + segs =~= seq![Seq::<char>::empty()]);
    } else {
        let init = segs.drop_last();
        assert(are_segments(init)) by {
            assert forall|i: int| 0 <= i < init.len() implies is_segment(#[trigger] init[i]) by {
                assert(init[i] == segs[i]);
            }
        }
        pieces_of_slashed(init);
        assert(is_segment(segs[segs.len() - 1]));
        text::pieces_of_plain(segs.last(), seps);
        text::pieces_across_separator(slashed(init), '/', segs.last(), seps);
        assert(seq![Seq::<char>::empty()] + init + seq![segs.last()] =~= seq![
            Seq::<char>::empty(),
        ] + segs);
    }
}

/// Segments name themselves.
proof fn named_segments(segs: Seq<Seq<char>>)
    requires
        are_segments(segs),
    ensures
        named(segs) == segs,
        !segs.contains(dotdot()),
    decreases segs.len(),
{
    if segs.len() > 0 {
        let init = segs.drop_last();
        assert(are_segments(init)) by {
            assert forall|i: int| 0 <= i < init.len() implies is_segment(#[trigger] init[i]) by {
                assert(init[i] == segs[i]);
            }
        }
        named_segments(init);
        assert(is_segment(segs[segs.len() - 1]));
        assert(named(segs) =~= segs);
    }
}

// ---------------------------------------------------------------------------
// Laws
// ---------------------------------------------------------------------------

/// Normalizing the text of a path gives the path back.
pub proof fn normalizing_a_rendered_path(segs: Seq<Seq<char>>)
    requires
        are_segments(segs),
    ensures
        normalized(rendered(segs)) == Some(segs),
{
    let seps = separators();
    let empty = Seq::<char>::empty();
    if segs.len() == 0 {
        assert(rendered(segs) =~= Seq::<char>::empty().push('/') + Seq::<char>::empty());
        text::pieces_across_separator(empty, '/', empty, seps);
        assert(text::pieces(rendered(segs), seps) =~= seq![empty] + seq![empty]);
        reveal_with_fuel(resolved, 3);
        assert((seq![empty] + seq![empty]).drop_last() =~= seq![empty]);
        assert(seq![empty].drop_last() =~= Seq::<Seq<char>>::empty());
        assert(segs =~= Seq::<Seq<char>>::empty());
    } else {
        pieces_of_slashed(segs);
        named_segments(segs);
        assert(resolved(seq![empty]) == Some(Seq::<Seq<char>>::empty())) by {
            reveal_with_fuel(resolved, 2);
            assert(seq![empty].drop_last() =~= Seq::<Seq<char>>::empty());
        }
        resolved_without_climbing(seq![empty], segs);
        assert(Seq::<Seq<char>>::empty() + segs =~= segs);
    }
}

/// Whatever is accepted is accepted in normal form: normalizing twice is
/// normalizing once.
pub proof fn normalization_is_idempotent(raw: Seq<char>)
    requires
        normalized(raw) is Some,
    ensures
        are_segments(normalized(raw)->0),
        normalized(rendered(normalized(raw)->0)) == normalized(raw),
{
    text::pieces_hold_no_separator(raw, separators());
    resolved_gives_segments(text::pieces(raw, separators()));
    normalizing_a_rendered_path(normalized(raw)->0);
}

/// The text of a path splits at its slashes into an empty piece before the first
/// one and then the segments, in order.
pub proof fn a_text_splits_into_its_segments(segs: Seq<Seq<char>>)
    requires
        are_segments(segs),
        segs.len() > 0,
    ensures
        text::pieces(rendered(segs), set!['/', '\\']) == seq![Seq::<char>::empty()] + segs,
{
    pieces_of_slashed(segs);
}

/// Two different paths never have the same text.
pub proof fn rendering_is_injective(a: Seq<Seq<char>>, b: Seq<Seq<char>>)
    requires
        are_segments(a),
        are_segments(b),
        rendered(a) == rendered(b),
    ensures
        a == b,
{
    normalizing_a_rendered_path(a);
    normalizing_a_rendered_path(b);
}

/// Joining a name keeps the whole of the path it is joined to and goes at least
/// one level below it; it never climbs.
pub proof fn joining_descends(base: Seq<Seq<char>>, name: Seq<char>)
    requires
        are_segments(base),
        !climbs(name),
        added(name).len() > 0,
    ensures
        are_segments(base + added(name)),
        base.is_prefix_of(base + added(name)),
        (base + added(name)).len() > base.len(),
{
    named_gives_segments(name);
    let whole = base + added(name);
    assert forall|i: int| 0 <= i < whole.len() implies is_segment(#[trigger] whole[i]) by {
        if i < base.len() {
            assert(whole[i] == base[i]);
        } else {
            assert(whole[i] == added(name)[i - base.len()]);
        }
    }
}

/// Joining a name is normalizing the two texts with a `/` between them, for
/// every name that does not climb.
pub proof fn joining_is_normalizing_the_concatenation(base: Seq<Seq<char>>, name: Seq<char>)
    requires
        are_segments(base),
        !climbs(name),
    ensures
        normalized(rendered(base).push('/') + name) == Some(base + added(name)),
{
    normalizing_a_rendered_path(base);
    text::pieces_across_separator(rendered(base), '/', name, separators());
    resolved_without_climbing(
        text::pieces(rendered(base), separators()),
        text::pieces(name, separators()),
    );
}

/// A path is its parent joined with its last segment.
pub proof fn parent_joined_with_file_name(segs: Seq<Seq<char>>)
    requires
        are_segments(segs),
        segs.len() > 0,
    ensures
        are_segments(segs.drop_last()),
        !climbs(segs.last()),
        added(segs.last()) == seq![segs.last()],
        segs.drop_last() + added(segs.last()) == segs,
{
    let name = segs.last();
    assert(is_segment(segs[segs.len() - 1]));
    text::pieces_of_plain(name, separators());
    assert forall|i: int| 0 <= i < segs.drop_last().len() implies is_segment(
        #[trigger] segs.drop_last()[i],
    ) by {
        assert(segs.drop_last()[i] == segs[i]);
    }
    reveal_with_fuel(named, 2);
    assert(seq![name].drop_last() =~= Seq::<Seq<char>>::empty());
    assert(added(name) =~= seq![name]);
    assert(!seq![name].contains(dotdot())) by {
        if seq![name].contains(dotdot()) {
            let k = choose|k: int| 0 <= k < 1 && seq![name][k] == dotdot();
            assert(name == dotdot());
        }
    }
    assert(segs.drop_last() + seq![name] =~= segs);
}

/// Joining one plain name and taking the parent comes back to where it started.
pub proof fn parent_undoes_join(base: Seq<Seq<char>>, name: Seq<char>)
    requires
        are_segments(base),
        is_segment(name),
    ensures
        !climbs(name),
        (base + added(name)).drop_last() == base,
        (base + added(name)).last() == name,
{
    let whole = base.push(name);
    assert forall|i: int| 0 <= i < whole.len() implies is_segment(#[trigger] whole[i]) by {
        if i < base.len() {
            assert(whole[i] == base[i]);
        }
    }
    parent_joined_with_file_name(whole);
    assert(whole.drop_last() =~= base);
    assert(base + seq![name] =~= whole);
}

/// The pieces that name something are segments, where nothing climbs.
proof fn named_gives_segments(name: Seq<char>)
    requires
        !climbs(name),
    ensures
        are_segments(added(name)),
{
    let p = text::pieces(name, separators());
    text::pieces_hold_no_separator(name, separators());
    resolved_gives_segments(p);
    resolved_without_climbing(Seq::empty(), p);
    assert(Seq::empty() + p =~= p);
    assert(Seq::<Seq<char>>::empty() + named(p) =~= named(p));
}

// ---------------------------------------------------------------------------
// The path type
// ---------------------------------------------------------------------------

/// A normalized, absolute path inside a single backend.
///
/// `VfsPath` is intentionally *not* a general filesystem path. It has no notion
/// of a volume, a drive, or a share: those are backend-specific concepts that
/// the backend consumes when it parses its own endpoint URI. Everything above
/// the backend sees only paths of this shape.
///
/// A path always begins with `/`, has no empty, `.` or `..` segments, and no
/// trailing `/` except for the root itself. A `..` that would escape the root is
/// rejected rather than clamped: a path that tries to escape the root is a
/// caller bug or an injection attempt, and silently rewriting it to `/` would
/// hide that.
#[derive(Debug, PartialEq, Eq, Hash, PartialOrd, Ord)]
pub struct VfsPath(String);

impl View for VfsPath {
    type V = Seq<Seq<char>>;

    /// The segments, from the root down.
    closed spec fn view(&self) -> Seq<Seq<char>> {
        normalized(self.0@)->0
    }
}

impl Clone for VfsPath {
    fn clone(&self) -> (r: Self)
        ensures
            r@ == self@,
    {
        proof {
            use_type_invariant(self);
        }
        VfsPath(self.0.clone())
    }
}

/// Takes one piece into account. Returns `false`, changing nothing, where the
/// piece would leave the root.
fn follow(segments: &mut Vec<String>, piece: &String) -> (inside: bool)
    ensures
        inside == (piece@ != dotdot() || old(segments)@.len() > 0),
        !inside ==> final(segments)@ == old(segments)@,
        inside ==> text::texts(final(segments)@) == (if is_filler(piece@) {
            text::texts(old(segments)@)
        } else if piece@ == dotdot() {
            text::texts(old(segments)@).drop_last()
        } else {
            text::texts(old(segments)@).push(piece@)
        }),
{
    proof {
        reveal_strlit(".");
        reveal_strlit("..");
        assert("."@ =~= dot());
        assert(".."@ =~= dotdot());
    }
    if text::is_empty(piece) || text::same_text(piece, ".") {
        return true;
    }
    if text::same_text(piece, "..") {
        if segments.len() == 0 {
            return false;
        }
        let _ = segments.pop();
        assert(text::texts(segments@) =~= text::texts(old(segments)@).drop_last());
        return true;
    }
    segments.push(piece.clone());
    assert(text::texts(segments@) =~= text::texts(old(segments)@).push(piece@));
    true
}

impl VfsPath {
    #[verifier::type_invariant]
    closed spec fn inv(self) -> bool {
        &&& normalized(self.0@) is Some
        &&& are_segments(normalized(self.0@)->0)
        &&& rendered(normalized(self.0@)->0) == self.0@
    }

    /// Writes out `segments`.
    fn from_segments(segments: &Vec<String>) -> (r: Self)
        requires
            are_segments(text::texts(segments@)),
        ensures
            r@ == text::texts(segments@),
    {
        let ghost segs = text::texts(segments@);
        proof {
            normalizing_a_rendered_path(segs);
        }
        if segments.len() == 0 {
            return VfsPath::root();
        }
        let mut out = String::new();
        let mut i: usize = 0;
        while i < segments.len()
            invariant
                i <= segments@.len(),
                segs == text::texts(segments@),
                out@ == slashed(segs.take(i as int)),
            decreases segments@.len() - i,
        {
            out.push('/');
            out.append(&segments[i]);
            proof {
                assert(segs.take(i + 1).drop_last() =~= segs.take(i as int));
                assert(segs.take(i + 1).last() == segments@[i as int]@);
            }
            i = i + 1;
        }
        assert(segs.take(segs.len() as int) =~= segs);
        VfsPath(out)
    }

    /// The root of the backend's namespace.
    pub fn root() -> (r: Self)
        ensures
            r@ == Seq::<Seq<char>>::empty(),
    {
        proof {
            reveal_strlit("/");
            normalizing_a_rendered_path(Seq::empty());
            assert("/"@ =~= rendered(Seq::empty()));
        }
        VfsPath("/".to_owned())
    }

    /// Normalize `raw` into a `VfsPath`.
    ///
    /// `raw` may be relative or absolute; a leading `/` is optional. Both `\`
    /// and `/` are accepted as separators on input, because Windows-flavoured
    /// paths show up in user input constantly. The output always uses `/`.
    pub fn new(raw: &str) -> (r: Result<Self, Error>)
        ensures
            match normalized(raw@) {
                Some(segs) => r matches Ok(path) && path@ == segs && are_segments(segs),
                None => r matches Err(e) && e@ == (ErrorView::InvalidPath {
                    path: raw@,
                    reason: "path escapes the backend root"@,
                }),
            },
    {
        match resolve(raw) {
            Some(segments) => Ok(VfsPath::from_segments(&segments)),
            None => Err(Error::invalid_path(raw, "path escapes the backend root")),
        }
    }

    pub fn as_str(&self) -> (r: &str)
        ensures
            r@ == rendered(self@),
            are_segments(self@),
    {
        proof {
            use_type_invariant(self);
        }
        self.0.as_str()
    }

    /// The text of the path.
    pub fn to_string(&self) -> (r: String)
        ensures
            r@ == rendered(self@),
    {
        proof {
            use_type_invariant(self);
        }
        self.0.clone()
    }

    pub fn is_root(&self) -> (r: bool)
        ensures
            r == (self@.len() == 0),
    {
        proof {
            use_type_invariant(self);
            slashed_length(self@);
        }
        self.0.as_str().unicode_len() == 1
    }

    /// The path's segments, from the root down.
    pub fn segments(&self) -> (r: Vec<String>)
        ensures
            text::texts(r@) == self@,
    {
        proof {
            use_type_invariant(self);
        }
        match resolve(&self.0) {
            Some(segments) => segments,
            None => Vec::new(),
        }
    }

    /// The final segment, or `None` for the root.
    pub fn file_name(&self) -> (r: Option<&str>)
        ensures
            match r {
                Some(name) => self@.len() > 0 && name@ == self@.last(),
                None => self@.len() == 0,
            },
    {
        proof {
            use_type_invariant(self);
        }
        if self.is_root() {
            return None;
        }
        let slash = self.last_slash();
        let len: usize = self.0.as_str().unicode_len();
        let name = self.0.as_str().substring_char(slash + 1, len);
        assert(name@ =~= self@.last());
        Some(name)
    }

    /// The containing path. The root's parent is the root.
    pub fn parent(&self) -> (r: VfsPath)
        ensures
            r@ == if self@.len() == 0 {
                self@
            } else {
                self@.drop_last()
            },
    {
        proof {
            use_type_invariant(self);
        }
        if self.is_root() {
            assert(self@ =~= Seq::<Seq<char>>::empty());
            return VfsPath::root();
        }
        let slash = self.last_slash();
        let ghost above = self@.drop_last();
        proof {
            parent_joined_with_file_name(self@);
            slashed_length(above);
        }
        if slash == 0 {
            assert(above =~= Seq::<Seq<char>>::empty());
            return VfsPath::root();
        }
        let out = self.0.as_str().substring_char(0, slash).to_owned();
        proof {
            assert(out@ =~= slashed(above));
            normalizing_a_rendered_path(above);
        }
        VfsPath(out)
    }

    /// Where the last segment's `/` stands.
    fn last_slash(&self) -> (r: usize)
        requires
            self@.len() > 0,
        ensures
            r == slashed(self@.drop_last()).len(),
            rendered(self@) == slashed(self@.drop_last()).push('/') + self@.last(),
            r < rendered(self@).len(),
    {
        proof {
            use_type_invariant(self);
        }
        let chars = text::chars_of(&self.0);
        let ghost head = slashed(self@.drop_last());
        let mut i: usize = chars.len();
        assert(is_segment(self@[self@.len() - 1]));
        assert(chars@[head.len() as int] == '/');
        while chars[i - 1] != '/'
            invariant
                head.len() < i <= chars@.len(),
                chars@ == head.push('/') + self@.last(),
                chars@[head.len() as int] == '/',
                is_segment(self@.last()),
            decreases i,
        {
            i = i - 1;
        }
        proof {
            if i - 1 > head.len() {
                assert(chars@[i - 1] == self@.last()[i - 2 - head.len()]);
                assert(separators().contains('/'));
            }
        }
        i - 1
    }

    /// Append a name, or a relative subpath, to this path.
    ///
    /// `name` may contain separators, so `join("a/b")` works, and it is
    /// normalized like any other input.
    ///
    /// `..` is **rejected rather than resolved**, which is the one place this
    /// differs from [`VfsPath::new`]. `join` is the call to reach for when
    /// building a path out of a name that came from the server (a directory
    /// entry) or from the user (a search box). A name must not be able to
    /// redirect the operation upward. When upward traversal is genuinely
    /// intended, say so by constructing the whole path with [`VfsPath::new`],
    /// where the `..` is visible at the call site.
    ///
    /// A `name` that is empty, `.`, or otherwise leaves the path unchanged is
    /// also rejected: a caller asking to join nothing is almost certainly a bug.
    pub fn join(&self, name: &str) -> (r: Result<VfsPath, Error>)
        ensures
            if climbs(name@) {
                r matches Err(e) && e@ == (ErrorView::InvalidPath {
                    path: name@,
                    reason: "`..` is not allowed in a joined name; build the full path with VfsPath::new if you mean to traverse upward"@,
                })
            } else if added(name@).len() == 0 {
                r matches Err(e) && e@ == (ErrorView::InvalidPath {
                    path: name@,
                    reason: "joining this name does not change the path"@,
                })
            } else {
                r matches Ok(path) && path@ == self@ + added(name@)
            },
    {
        proof {
            use_type_invariant(self);
        }
        let more = match name_pieces(name) {
            Some(more) => more,
            None => {
                return Err(
                    Error::invalid_path(
                        name,
                        "`..` is not allowed in a joined name; build the full path with VfsPath::new if you mean to traverse upward",
                    ),
                );
            },
        };
        if more.len() == 0 {
            return Err(Error::invalid_path(name, "joining this name does not change the path"));
        }
        let mut segments = self.segments();
        let ghost base = segments@;
        let mut more = more;
        let ghost tail = more@;
        segments.append(&mut more);
        proof {
            joining_descends(self@, name@);
            assert(text::texts(base + tail) =~= text::texts(base) + text::texts(tail));
        }
        Ok(VfsPath::from_segments(&segments))
    }

    /// Attach the backend this path belongs to, producing a URI.
    ///
    /// Used for display and for round-tripping through the registry. The result
    /// is `<endpoint><path>`, where slashes at the end of `endpoint` are
    /// dropped, e.g. `smb://host/share` + `/movies/a.mkv`.
    pub fn to_uri(&self, endpoint: &str) -> (r: String)
        ensures
            r@ == without_trailing_slashes(endpoint@) + rendered(self@),
    {
        proof {
            use_type_invariant(self);
        }
        let mut out = trim_trailing_slashes(endpoint);
        out.append(&self.0);
        out
    }
}

/// Drops the slashes at the end of a string.
pub fn trim_trailing_slashes(s: &str) -> (r: String)
    ensures
        r@ == without_trailing_slashes(s@),
{
    let chars = text::chars_of(s);
    let mut n: usize = chars.len();
    assert(chars@.take(n as int) =~= s@);
    while n > 0 && chars[n - 1] == '/'
        invariant
            n <= chars@.len(),
            without_trailing_slashes(chars@.take(n as int)) == without_trailing_slashes(s@),
        decreases n,
    {
        assert(chars@.take(n as int).drop_last() =~= chars@.take(n - 1));
        n = n - 1;
    }
    assert(chars@.subrange(0, n as int) =~= chars@.take(n as int));
    text::string_of(&chars, 0, n)
}

/// Follows raw input down from the root; `None` where it would leave it.
fn resolve(raw: &str) -> (r: Option<Vec<String>>)
    ensures
        match r {
            Some(segments) => normalized(raw@) == Some(text::texts(segments@)) && are_segments(
                text::texts(segments@),
            ),
            None => normalized(raw@) is None,
        },
{
    let pieces = text::split_at_either(raw, '/', '\\');
    let ghost all = text::pieces(raw@, separators());
    let mut segments: Vec<String> = Vec::new();
    let mut i: usize = 0;
    assert(text::texts(segments@) =~= Seq::<Seq<char>>::empty());
    assert(all.take(0) =~= Seq::<Seq<char>>::empty());
    while i < pieces.len()
        invariant
            i <= pieces@.len(),
            text::texts(pieces@) == all,
            resolved(all.take(i as int)) == Some(text::texts(segments@)),
            normalized(raw@) == resolved(all),
        decreases pieces@.len() - i,
    {
        proof {
            assert(all.take(i + 1).drop_last() =~= all.take(i as int));
            assert(all.take(i + 1).last() == pieces@[i as int]@);
        }
        if !follow(&mut segments, &pieces[i]) {
            proof {
                assert(dotdot().len() != dot().len());
                escaped_stays_escaped(all, i + 1);
            }
            return None;
        }
        i = i + 1;
    }
    proof {
        assert(all.take(all.len() as int) =~= all);
        text::pieces_hold_no_separator(raw@, separators());
        resolved_gives_segments(all);
    }
    Some(segments)
}

/// The names that `name` adds to a path; `None` where it climbs.
fn name_pieces(name: &str) -> (r: Option<Vec<String>>)
    ensures
        match r {
            Some(names) => !climbs(name@) && text::texts(names@) == added(name@),
            None => climbs(name@),
        },
{
    let pieces = text::split_at_either(name, '/', '\\');
    let ghost all = text::pieces(name@, separators());
    let mut names: Vec<String> = Vec::new();
    let mut i: usize = 0;
    assert(text::texts(names@) =~= Seq::<Seq<char>>::empty());
    proof {
        reveal_strlit("..");
        assert(".."@ =~= dotdot());
    }
    while i < pieces.len()
        invariant
            i <= pieces@.len(),
            text::texts(pieces@) == all,
            all == text::pieces(name@, separators()),
            named(all.take(i as int)) == text::texts(names@),
            !all.take(i as int).contains(dotdot()),
            ".."@ == dotdot(),
        decreases pieces@.len() - i,
    {
        proof {
            assert(all.take(i + 1).drop_last() =~= all.take(i as int));
            assert(all.take(i + 1).last() == pieces@[i as int]@);
            assert(all[i as int] == pieces@[i as int]@);
        }
        if text::same_text(&pieces[i], "..") {
            return None;
        }
        proof {
            let longer = all.take(i + 1);
            assert forall|k: int| 0 <= k < longer.len() implies #[trigger] longer[k] != dotdot() by {
                if k < i {
                    assert(longer[k] == all.take(i as int)[k]);
                }
            }
        }
        let _ = follow(&mut names, &pieces[i]);
        i = i + 1;
    }
    assert(all.take(all.len() as int) =~= all);
    Some(names)
}

/// A path's text is a lone slash only for the root.
proof fn slashed_length(segs: Seq<Seq<char>>)
    requires
        are_segments(segs),
    ensures
        segs.len() > 0 ==> slashed(segs).len() > 1,
        segs.len() == 0 ==> slashed(segs).len() == 0,
{
    if segs.len() > 0 {
        assert(is_segment(segs[segs.len() - 1]));
    }
}

// ---------------------------------------------------------------------------
// Laws of the path type
// ---------------------------------------------------------------------------

/// What one more piece of input does, behind either separator: a name goes one
/// level down, `..` one level up, nothing and `.` nowhere, and what has left the
/// root once is lost.
pub proof fn one_more_piece(raw: Seq<char>, separator: char, piece: Seq<char>)
    requires
        separator == '/' || separator == '\\',
        !piece.contains('/'),
        !piece.contains('\\'),
    ensures
        normalized(raw) is None ==> normalized(raw.push(separator) + piece) is None,
        normalized(raw) matches Some(segs) ==> {
            let after = normalized(raw.push(separator) + piece);
            &&& piece.len() == 0 ==> after == Some(segs)
            &&& piece == seq!['.'] ==> after == Some(segs)
            &&& piece == seq!['.', '.'] && segs.len() > 0 ==> after == Some(segs.drop_last())
            &&& piece == seq!['.', '.'] && segs.len() == 0 ==> after is None
            &&& piece.len() > 0 && piece != seq!['.'] && piece != seq!['.', '.'] ==> after == Some(
                segs.push(piece),
            )
        },
{
    let seps = separators();
    let before = text::pieces(raw, seps);
    assert forall|i: int| 0 <= i < piece.len() implies !seps.contains(#[trigger] piece[i]) by {
        assert(piece.contains(piece[i]));
    }
    text::pieces_of_plain(piece, seps);
    text::pieces_across_separator(raw, separator, piece, seps);
    assert((before + seq![piece]).drop_last() =~= before);
    assert((before + seq![piece]).last() == piece);
}

/// Input of one piece: a name lies directly below the root, nothing and `.` are
/// the root, and `..` leaves it.
pub proof fn a_single_piece(piece: Seq<char>)
    requires
        !piece.contains('/'),
        !piece.contains('\\'),
    ensures
        piece.len() == 0 || piece == seq!['.'] ==> normalized(piece) == Some(
            Seq::<Seq<char>>::empty(),
        ),
        piece == seq!['.', '.'] ==> normalized(piece) is None,
        piece.len() > 0 && piece != seq!['.'] && piece != seq!['.', '.'] ==> normalized(piece)
            == Some(seq![piece]),
{
    assert forall|i: int| 0 <= i < piece.len() implies !separators().contains(
        #[trigger] piece[i],
    ) by {
        assert(piece.contains(piece[i]));
    }
    text::pieces_of_plain(piece, separators());
    reveal_with_fuel(resolved, 2);
    assert(seq![piece].drop_last() =~= Seq::<Seq<char>>::empty());
    assert(Seq::<Seq<char>>::empty().push(piece) =~= seq![piece]);
}

/// The text of a path is a slash before each segment; that of the root is a lone
/// slash.
pub proof fn a_slash_stands_before_each_segment(segs: Seq<Seq<char>>, name: Seq<char>)
    ensures
        rendered(Seq::empty()) == seq!['/'],
        rendered(seq![name]) == seq!['/'] + name,
        segs.len() > 0 ==> rendered(segs.push(name)) == rendered(segs) + seq!['/'] + name,
{
    assert(segs.push(name).drop_last() =~= segs);
    assert(seq![name].drop_last() =~= Seq::<Seq<char>>::empty());
    assert(slashed(Seq::<Seq<char>>::empty()) =~= Seq::<char>::empty());
    assert(slashed(seq![name]) =~= seq!['/'] + name);
    assert(slashed(segs).push('/') + name =~= slashed(segs) + seq!['/'] + name);
}

/// Joining a plain name goes one level down to it, and the parent of that is
/// where it started. Neither an upward step nor a name that changes nothing is
/// joined.
pub proof fn join_and_parent_undo_each_other(
    base: VfsPath,
    name: &str,
    joined: Result<VfsPath, Error>,
    path: VfsPath,
    parent: VfsPath,
    last: Option<&str>,
)
    requires
        call_ensures(VfsPath::join, (&base, name), joined),
        joined == Ok::<VfsPath, Error>(path),
        call_ensures(VfsPath::parent, (&path,), parent),
        call_ensures(VfsPath::file_name, (&path,), last),
        are_segments(base@),
        !name@.contains('/'),
        !name@.contains('\\'),
    ensures
        path@ == base@.push(name@),
        parent@ == base@,
        last matches Some(l) && l@ == name@,
{
    let n = name@;
    assert forall|i: int| 0 <= i < n.len() implies !separators().contains(#[trigger] n[i]) by {
        assert(n.contains(n[i]));
    }
    text::pieces_of_plain(n, separators());
    reveal_with_fuel(named, 2);
    assert(seq![n].drop_last() =~= Seq::<Seq<char>>::empty());
    if n == dotdot() {
        assert(seq![n][0] == dotdot());
        assert(climbs(n));
    }
    assert(!is_filler(n));
    assert(added(n) =~= seq![n]);
    assert(base@ + seq![n] =~= base@.push(n));
    assert(base@.push(n).drop_last() =~= base@);
}

/// A joined name never climbs: one with a `..` anywhere in it is refused, and so
/// is one that names nothing.
pub proof fn a_joined_name_stays_below(base: VfsPath, name: &str, joined: Result<VfsPath, Error>)
    requires
        call_ensures(VfsPath::join, (&base, name), joined),
        are_segments(base@),
    ensures
        text::pieces(name@, set!['/', '\\']).contains(seq!['.', '.']) ==> joined is Err,
        name@.len() == 0 ==> joined is Err,
        joined matches Ok(path) ==> base@.is_prefix_of(path@) && path@.len() > base@.len(),
        joined matches Err(e) ==> (e@ matches ErrorView::InvalidPath { path, .. } && path == name@),
{
    if name@.len() == 0 {
        text::pieces_of_plain(name@, separators());
        reveal_with_fuel(named, 2);
        assert(seq![name@].drop_last() =~= Seq::<Seq<char>>::empty());
    }
    if !climbs(name@) && added(name@).len() > 0 {
        joining_descends(base@, name@);
    }
}

/// The text of a path leads back to it, and a path is the root exactly where it
/// has no name and is its own parent.
pub proof fn a_path_is_read_back_from_its_text(
    path: VfsPath,
    text: &str,
    again: Result<VfsPath, Error>,
    root: bool,
    last: Option<&str>,
    parent: VfsPath,
)
    requires
        call_ensures(VfsPath::as_str, (&path,), text),
        call_ensures(VfsPath::new, (text,), again),
        call_ensures(VfsPath::is_root, (&path,), root),
        call_ensures(VfsPath::file_name, (&path,), last),
        call_ensures(VfsPath::parent, (&path,), parent),
    ensures
        again matches Ok(p) && p@ == path@,
        root <==> text@ == seq!['/'],
        root <==> last is None,
        root <==> parent@ == path@,
{
    normalizing_a_rendered_path(path@);
    if path@.len() > 0 {
        let segs = path@;
        assert(is_segment(segs[segs.len() - 1]));
        assert(slashed(segs).len() >= 2);
    }
}

/// A URI is the endpoint, without the slashes at its end, followed by the text of
/// the path.
pub proof fn a_uri_is_endpoint_and_path(path: VfsPath, endpoint: &str, r: String)
    requires
        call_ensures(VfsPath::to_uri, (&path, endpoint), r),
    ensures
        exists|stem: Seq<char>|
            {
                &&& r@ == #[trigger] (stem + rendered(path@))
                &&& stem.is_prefix_of(endpoint@)
                &&& stem.len() > 0 ==> stem.last() != '/'
                &&& forall|i: int| stem.len() <= i < endpoint@.len() ==> endpoint@[i] == '/'
            },
{
    only_slashes_go(endpoint@);
    let stem = without_trailing_slashes(endpoint@);
    assert(r@ == stem + rendered(path@));
}

proof fn only_slashes_go(s: Seq<char>)
    ensures
        without_trailing_slashes(s).is_prefix_of(s),
        without_trailing_slashes(s).len() > 0 ==> without_trailing_slashes(s).last() != '/',
        forall|i: int| without_trailing_slashes(s).len() <= i < s.len() ==> s[i] == '/',
    decreases s.len(),
{
    if s.len() > 0 && s.last() == '/' {
        let init = s.drop_last();
        only_slashes_go(init);
        assert forall|i: int| without_trailing_slashes(s).len() <= i < s.len() implies s[i]
            == '/' by {
            if i < init.len() {
                assert(init[i] == s[i]);
            }
        }
    }
}

} // verus!
