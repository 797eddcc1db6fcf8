//! Paths in the form the SMB client library expects.

use vstd::prelude::*;
use crate::error::{Error, ErrorView};
use crate::path::{self, VfsPath};
use crate::text;

verus! {

/// The segments with a `/` between them: relative to the share root, without a
/// leading separator. The share root is the empty text.
pub open spec fn share_relative(segs: Seq<Seq<char>>) -> Seq<char> {
    path::rendered(segs).skip(1)
}

/// Convert a [`VfsPath`] into the form the client library expects.
///
/// Paths are relative to the share root and carry no leading separator, and the
/// share root is the empty string. The `/` separator is kept as it is.
pub fn to_smb_path(path: &VfsPath) -> (r: String)
    ensures
        r@ == share_relative(path@),
{
    let chars = text::chars_of(path.as_str());
    proof {
        rendered_is_not_empty(path@);
    }
    let r = text::string_of(&chars, 1, chars.len());
    assert(r@ =~= path::rendered(path@).skip(1));
    r
}

proof fn rendered_is_not_empty(segs: Seq<Seq<char>>)
    ensures
        path::rendered(segs).len() >= 1,
        path::rendered(segs)[0] == '/',
    decreases segs.len(),
{
    if segs.len() == 1 {
        assert(path::slashed(segs.drop_last()).len() == 0);
        assert(path::slashed(segs)[0] == '/');
    } else if segs.len() > 1 {
        rendered_is_not_empty(segs.drop_last());
    }
}

/// Two different paths never become the same share-relative path.
pub proof fn share_relative_paths_are_distinct(a: Seq<Seq<char>>, b: Seq<Seq<char>>)
    requires
        path::are_segments(a),
        path::are_segments(b),
        share_relative(a) == share_relative(b),
    ensures
        a == b,
{
    rendered_is_not_empty(a);
    rendered_is_not_empty(b);
    assert(path::rendered(a) =~= seq!['/'] + share_relative(a));
    assert(path::rendered(b) =~= seq!['/'] + share_relative(b));
    path::rendering_is_injective(a, b);
}

/// `s` with every NUL character written out as a backslash and a zero.
pub open spec fn nul_shown(s: Seq<char>) -> Seq<char>
    decreases s.len(),
{
    if s.len() == 0 {
        Seq::empty()
    } else if s.last() == '\0' {
        nul_shown(s.drop_last()).push('\\').push('0')
    } else {
        nul_shown(s.drop_last()).push(s.last())
    }
}

/// A text that can be handed over as a NUL-terminated string.
///
/// Fails only on an interior NUL, which cannot occur in a path the client
/// library could send anyway. Silently truncating there would address a
/// different file, so it is an error rather than something to paper over.
pub fn cstring(s: &str) -> (r: Result<String, Error>)
    ensures
        if s@.contains('\0') {
            r matches Err(e) && e@ == (ErrorView::InvalidPath {
                path: nul_shown(s@),
                reason: "contains an interior NUL byte"@,
            })
        } else {
            r matches Ok(t) && t@ == s@
        },
{
    let mut shown = String::new();
    let mut found = false;
    for c in it: s.chars()
        invariant
            it.seq() == s@,
            shown@ == nul_shown(s@.take(it.index())),
            found == s@.take(it.index()).contains('\0'),
    {
        let ghost i = it.index();
        proof {
            assert(s@.take(i + 1).drop_last() =~= s@.take(i));
            assert(s@.take(i + 1) =~= s@.take(i).push(c));
            if found {
                let k = choose|k: int| 0 <= k < i && s@.take(i)[k] == '\0';
                assert(s@.take(i + 1)[k] == '\0');
            }
            assert(s@.take(i + 1)[i] == c);
            if s@.take(i + 1).contains('\0') && c != '\0' {
                let longer = s@.take(i + 1);
                let k = choose|k: int| 0 <= k < longer.len() && longer[k] == '\0';
                assert(s@.take(i)[k] == '\0');
            }
        }
        if c == '\0' {
            found = true;
            shown.push('\\');
            shown.push('0');
        } else {
            shown.push(c);
        }
    }
    assert(s@.take(s@.len() as int) =~= s@);
    if found {
        Err(Error::invalid_path(&shown, "contains an interior NUL byte"))
    } else {
        Ok(s.to_owned())
    }
}

/// What a path becomes before it is handed over, or why it cannot be.
pub open spec fn handed_over(segs: Seq<Seq<char>>) -> Result<Seq<char>, ErrorView> {
    handed_over_text(share_relative(segs))
}

/// What a text becomes before it is handed over, or why it cannot be.
pub open spec fn handed_over_text(s: Seq<char>) -> Result<Seq<char>, ErrorView> {
    if s.contains('\0') {
        Err(
            ErrorView::InvalidPath {
                path: nul_shown(s),
                reason: "contains an interior NUL byte"@,
            },
        )
    } else {
        Ok(s)
    }
}

/// A path ready to be handed over.
pub fn smb_path(path: &VfsPath) -> (r: Result<String, Error>)
    ensures
        match handed_over(path@) {
            Ok(t) => r matches Ok(s) && s@ == t,
            Err(v) => r matches Err(e) && e@ == v,
        },
{
    cstring(&to_smb_path(path))
}

/// A path is handed over as its text without the leading slash: nothing else is
/// left out, nothing is added, and the root becomes the empty text.
pub proof fn only_the_leading_slash_goes(segs: Seq<Seq<char>>)
    ensures
        seq!['/'] + share_relative(segs) == path::rendered(segs),
        share_relative(segs).contains('\0') <==> path::rendered(segs).contains('\0'),
        segs.len() == 0 ==> share_relative(segs).len() == 0,
{
    rendered_is_not_empty(segs);
    let whole = path::rendered(segs);
    let rest = share_relative(segs);
    assert(seq!['/'] + rest =~= whole);
    if rest.contains('\0') {
        let k = rest.index_of('\0');
        assert(whole[k + 1] == '\0');
    }
    if whole.contains('\0') {
        let k = whole.index_of('\0');
        assert(k > 0);
        assert(rest[k - 1] == '\0');
    }
}

/// A share-relative path splits at its slashes into the segments of the path, in
/// order.
pub proof fn share_relative_paths_split_into_segments(segs: Seq<Seq<char>>)
    requires
        path::are_segments(segs),
        segs.len() > 0,
    ensures
        text::pieces(share_relative(segs), set!['/', '\\']) == segs,
{
    only_the_leading_slash_goes(segs);
    path::a_text_splits_into_its_segments(segs);
    let rest = share_relative(segs);
    let empty = Seq::<char>::empty();
    text::pieces_across_separator(empty, '/', rest, path::separators());
    assert(empty.push('/') + rest =~= path::rendered(segs));
    let (a, b) = (text::pieces(rest, path::separators()), segs);
    text::pieces_of_plain(empty, path::separators());
    assert((seq![empty] + a).skip(1) =~= a);
    assert((seq![empty] + b).skip(1) =~= b);
}

/// A text reaches the client library as it is, or not at all: it is refused
/// where it holds a NUL, and only there, and what is said of it then holds none.
pub proof fn a_text_is_handed_over_as_it_is(s: &str, r: Result<String, Error>)
    requires
        call_ensures(cstring, (s,), r),
    ensures
        r is Ok <==> !s@.contains('\0'),
        r matches Ok(t) ==> t@ == s@,
        r matches Err(e) ==> (e@ matches ErrorView::InvalidPath { path, .. } && !path.contains(
            '\0',
        ) && path.len() > s@.len()),
{
    shown_nuls_are_gone(s@);
}

proof fn shown_nuls_are_gone(s: Seq<char>)
    ensures
        !nul_shown(s).contains('\0'),
        nul_shown(s).len() >= s.len(),
        s.contains('\0') ==> nul_shown(s).len() > s.len(),
        !s.contains('\0') ==> nul_shown(s) == s,
    decreases s.len(),
{
    if s.len() > 0 {
        let init = s.drop_last();
        shown_nuls_are_gone(init);
        let before = nul_shown(init);
        let after = nul_shown(s);
        if after.contains('\0') {
            let k = after.index_of('\0');
            if k < before.len() {
                assert(before[k] == '\0');
            }
        }
        if s.contains('\0') && s.last() != '\0' {
            let k = s.index_of('\0');
            assert(init[k] == '\0');
        }
        if init.contains('\0') {
            let k = init.index_of('\0');
            assert(s[k] == '\0');
        }
        if s.last() == '\0' {
            assert(s[s.len() - 1] == '\0');
        }
        if !s.contains('\0') {
            assert(after =~= s);
        }
    } else {
        assert(nul_shown(s) =~= s);
    }
}

} // verus!
