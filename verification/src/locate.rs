//! From the path behind the assets prefix to a file below the asset root.
//!
//! A request may name a file only by plain names, one per directory level.
//! Whatever would lead out of the asset root is denied before any file is
//! touched.

use vstd::prelude::*;
use vstd::slice::*;
use vstd::string::*;
use vstd::utf8::*;
use crate::escape::{decode_utf8, percent_decoded};

verus! {

/// The byte `/`, which separates the segments of a path.
pub const SLASH: u8 = 0x2f;

/// The byte `.`.
pub const DOT: u8 = 0x2e;

/// The segment `.`, which names the directory that it stands in.
pub open spec fn current_dir() -> Seq<u8> {
    seq![DOT]
}

/// The segment `..`, which names the directory above.
pub open spec fn parent_dir() -> Seq<u8> {
    seq![DOT, DOT]
}

/// `s` without the slashes that it begins with.
pub open spec fn trim_leading(s: Seq<u8>) -> Seq<u8>
    decreases s.len(),
{
    if s.len() > 0 && s[0] == SLASH {
        trim_leading(s.skip(1))
    } else {
        s
    }
}

/// The segments of `s`: what stands before, between and behind its slashes.
pub open spec fn split(s: Seq<u8>) -> Seq<Seq<u8>>
    decreases s.len(),
{
    if s.len() == 0 {
        seq![Seq::empty()]
    } else {
        let before = split(s.drop_last());
        if s.last() == SLASH {
            before.push(Seq::empty())
        } else {
            before.drop_last().push(before.last().push(s.last()))
        }
    }
}

/// Whether a segment adds nothing to a path: it is empty or `.`.
pub open spec fn is_skipped(segment: Seq<u8>) -> bool {
    segment.len() == 0 || segment == current_dir()
}

/// Whether `name` can only name an entry of the directory that it is looked
/// up in: it is not empty, neither `.` nor `..`, and holds no slash.
pub open spec fn is_plain_name(name: Seq<u8>) -> bool {
    &&& name.len() > 0
    &&& name != current_dir()
    &&& name != parent_dir()
    &&& !name.contains(SLASH)
}

/// The names that lead from the asset root to the file that the decoded
/// path `decoded` names, or `None` where the path is absolute or steps to a
/// directory above.
pub open spec fn located(decoded: Seq<u8>) -> Option<Seq<Seq<u8>>> {
    if decoded.len() > 0 && decoded[0] == SLASH {
        None
    } else if split(decoded).contains(parent_dir()) {
        None
    } else {
        Some(split(decoded).filter(|segment: Seq<u8>| !is_skipped(segment)))
    }
}

/// The names that lead from the asset root to the file that the request
/// key names, or `None` where the request is denied.
pub open spec fn resolved(key: Seq<u8>) -> Option<Seq<Seq<u8>>> {
    let decoded = percent_decoded(trim_leading(key));
    if valid_utf8(decoded) {
        located(decoded)
    } else {
        None
    }
}

/// Trimming only takes bytes from the front.
pub proof fn lemma_trimmed_is_suffix(s: Seq<u8>)
    ensures
        trim_leading(s).len() <= s.len(),
        trim_leading(s) == s.skip(s.len() - trim_leading(s).len()),
        trim_leading(s).len() > 0 ==> trim_leading(s)[0] != SLASH,
    decreases s.len(),
{
    if s.len() > 0 && s[0] == SLASH {
        let rest = s.skip(1);
        lemma_trimmed_is_suffix(rest);
        assert(rest.skip(rest.len() - trim_leading(rest).len()) =~= s.skip(
            s.len() - trim_leading(rest).len(),
        ));
    } else {
        assert(s.skip(0) =~= s);
    }
}

/// The path whose segments are `segments`: the segments in their order,
/// with one slash between each two.
pub open spec fn joined(segments: Seq<Seq<u8>>) -> Seq<u8>
    decreases segments.len(),
{
    if segments.len() == 0 {
        Seq::empty()
    } else if segments.len() == 1 {
        segments[0]
    } else {
        joined(segments.drop_last()) + seq![SLASH] + segments.last()
    }
}

/// Splitting loses nothing: the segments of a path, joined by slashes, are
/// the path.
pub proof fn lemma_segments_join_to_path(s: Seq<u8>)
    ensures
        joined(split(s)) == s,
    decreases s.len(),
{
    if s.len() > 0 {
        let shorter = s.drop_last();
        let before = split(shorter);
        lemma_segments_join_to_path(shorter);
        lemma_segments_hold_no_slash(shorter);
        if s.last() == SLASH {
            assert(before.push(Seq::empty()).drop_last() =~= before);
            assert(joined(split(s)) =~= shorter + seq![SLASH]);
        } else {
            let grown = before.last().push(s.last());
            let after = before.drop_last().push(grown);
            if before.len() > 1 {
                assert(after.drop_last() =~= before.drop_last());
                assert(joined(after) =~= (joined(before.drop_last()) + seq![SLASH]
                    + before.last()).push(s.last()));
            } else {
                assert(joined(after) =~= joined(before).push(s.last()));
            }
        }
        assert(shorter.push(s.last()) =~= s);
        assert(shorter + seq![SLASH] =~= shorter.push(SLASH));
    }
}

/// No segment of a path holds a slash.
pub proof fn lemma_segments_hold_no_slash(s: Seq<u8>)
    ensures
        split(s).len() > 0,
        forall|i: int| 0 <= i < split(s).len() ==> !(#[trigger] split(s)[i]).contains(SLASH),
    decreases s.len(),
{
    if s.len() > 0 {
        lemma_segments_hold_no_slash(s.drop_last());
    }
}

/// Every name that a located path consists of is a plain name.
pub proof fn lemma_located_names_are_plain(decoded: Seq<u8>)
    ensures
        located(decoded) matches Some(names) ==> forall|i: int|
            0 <= i < names.len() ==> is_plain_name(#[trigger] names[i]),
{
    if let Some(names) = located(decoded) {
        let keep = |segment: Seq<u8>| !is_skipped(segment);
        let all = split(decoded);
        lemma_segments_hold_no_slash(decoded);
        assert forall|i: int| 0 <= i < names.len() implies is_plain_name(#[trigger] names[i]) by {
            all.lemma_filter_pred(keep, i);
            assert(names.contains(names[i]));
            all.lemma_filter_contains_rev(keep, names[i]);
        }
    }
}

/// A file below the asset root, named by the plain names that lead to it.
#[derive(Debug)]
pub struct AssetFile {
    names: Vec<Vec<u8>>,
}

impl AssetFile {
    #[verifier::type_invariant]
    spec fn names_are_plain_text(&self) -> bool {
        forall|i: int|
            0 <= i < self.names@.len() ==> {
                &&& is_plain_name(#[trigger] self.names@[i]@)
                &&& valid_utf8(self.names@[i]@)
            }
    }

    /// The names from the asset root down to the file.
    pub closed spec fn view(&self) -> Seq<Seq<u8>> {
        self.names@.map_values(|name: Vec<u8>| name@)
    }

    /// The names from the asset root down to the file. Each of them is
    /// UTF-8 text; none is empty, `.` or `..`, and none holds a slash.
    pub fn names(&self) -> (r: &Vec<Vec<u8>>)
        ensures
            r@.map_values(|name: Vec<u8>| name@) == self@,
            forall|i: int| 0 <= i < r@.len() ==> is_plain_name(#[trigger] r@[i]@),
            forall|i: int| 0 <= i < r@.len() ==> valid_utf8(#[trigger] r@[i]@),
    {
        proof {
            use_type_invariant(self);
        }
        &self.names
    }
}

/// Whether `segment` is `.`.
fn is_current_dir(segment: &Vec<u8>) -> (r: bool)
    ensures
        r == (segment@ == current_dir()),
{
    let r = segment.len() == 1 && segment[0] == DOT;
    assert(r ==> segment@ =~= current_dir());
    r
}

/// Whether `segment` is `..`.
fn is_parent_dir(segment: &Vec<u8>) -> (r: bool)
    ensures
        r == (segment@ == parent_dir()),
{
    let r = segment.len() == 2 && segment[0] == DOT && segment[1] == DOT;
    assert(r ==> segment@ =~= parent_dir());
    r
}

/// What is left of well-formed UTF-8 behind a slash is well-formed, and so
/// is what stands before the slash.
proof fn lemma_text_around_slash(text: Seq<u8>, at: int)
    requires
        valid_utf8(text),
        0 <= at < text.len(),
        text[at] == SLASH,
    ensures
        valid_utf8(text.take(at)),
        valid_utf8(text.skip(at + 1)),
{
    assert(!is_continuation_byte(SLASH) && is_leading_byte_width_1(SLASH));
    is_char_boundary_iff_not_is_continuation_byte(text, at);
    valid_utf8_split(text, at);
    let tail = text.subrange(at, text.len() as int);
    assert(tail[0] == SLASH);
    assert(pop_first_scalar(tail) =~= text.skip(at + 1));
    assert(text.subrange(0, at) =~= text.take(at));
}

/// Finds the file that a decoded path names, or denies the request.
pub fn locate(decoded: &str) -> (r: Option<AssetFile>)
    ensures
        match r {
            Some(file) => located(decoded.spec_bytes()) == Some(file@),
            None => located(decoded.spec_bytes()) is None,
        },
{
    let path = decoded.as_bytes();
    if path.len() > 0 && path[0] == SLASH {
        return None;
    }
    let ghost keep = |segment: Seq<u8>| !is_skipped(segment);
    let mut names: Vec<Vec<u8>> = Vec::new();
    let mut current: Vec<u8> = Vec::new();
    let mut denied = false;
    let ghost mut closed: Seq<Seq<u8>> = Seq::empty();
    let ghost mut start: int = 0;
    let mut i: usize = 0;
    proof {
        encode_utf8_valid_utf8(decoded@);
        assert(path@.take(0) =~= Seq::<u8>::empty());
        assert(path@.skip(0) =~= path@);
        assert(path@.subrange(0, 0) =~= current@);
    }
    while i < path.len()
        invariant
            i <= path@.len(),
            keep == |segment: Seq<u8>| !is_skipped(segment),
            split(path@.take(i as int)) == closed.push(current@),
            denied == closed.contains(parent_dir()),
            names@.map_values(|name: Vec<u8>| name@) == closed.filter(keep),
            0 <= start <= i,
            current@ == path@.subrange(start, i as int),
            valid_utf8(path@.skip(start)),
            forall|k: int| 0 <= k < names@.len() ==> valid_utf8(#[trigger] names@[k]@),
        decreases path@.len() - i,
    {
        let b = path[i];
        proof {
            let next = path@.take(i + 1);
            assert(next.drop_last() =~= path@.take(i as int));
            assert(next.last() == b);
            assert(closed.push(current@).last() == current@);
            assert(closed.push(current@).drop_last() =~= closed);
        }
        if b == SLASH {
            proof {
                vstd::seq_lib::lemma_seq_contains_after_push(closed, current@, parent_dir());
                closed.lemma_filter_push(current@, keep);
                lemma_text_around_slash(path@.skip(start), i - start);
                assert(path@.skip(start).take(i - start) =~= current@);
                assert(path@.skip(start).skip(i - start + 1) =~= path@.skip(i + 1));
            }
            let skip = current.len() == 0 || is_current_dir(&current);
            if is_parent_dir(&current) {
                denied = true;
            }
            proof {
                closed = closed.push(current@);
                start = i + 1;
            }
            if !skip {
                let ghost before = names@.map_values(|name: Vec<u8>| name@);
                names.push(current);
                assert(names@.map_values(|name: Vec<u8>| name@) =~= before.push(current@));
            }
            current = Vec::new();
            assert(path@.subrange(start, i + 1) =~= current@);
        } else {
            current.push(b);
            assert(path@.subrange(start, i + 1) =~= current@);
        }
        i += 1;
    }
    proof {
        assert(path@.take(i as int) =~= path@);
        assert(path@.skip(start) =~= current@);
        vstd::seq_lib::lemma_seq_contains_after_push(closed, current@, parent_dir());
        closed.lemma_filter_push(current@, keep);
    }
    if denied || is_parent_dir(&current) {
        return None;
    }
    if !(current.len() == 0 || is_current_dir(&current)) {
        let ghost before = names@.map_values(|name: Vec<u8>| name@);
        names.push(current);
        assert(names@.map_values(|name: Vec<u8>| name@) =~= before.push(current@));
    }
    proof {
        lemma_located_names_are_plain(path@);
        let found = located(path@)->0;
        assert(names@.map_values(|name: Vec<u8>| name@) == found);
        assert forall|k: int| 0 <= k < names@.len() implies is_plain_name(#[trigger] names@[k]@) by {
            assert(found[k] == names@[k]@);
        }
    }
    Some(AssetFile { names })
}

/// Finds the file that a request for the path `key` behind the assets
/// prefix names, or denies the request.
pub fn resolve(key: &[u8]) -> (r: Option<AssetFile>)
    ensures
        match r {
            Some(file) => resolved(key@) == Some(file@),
            None => resolved(key@) is None,
        },
{
    let mut start: usize = 0;
    assert(key@.skip(0) =~= key@);
    while start < key.len() && key[start] == SLASH
        invariant
            start <= key@.len(),
            trim_leading(key@) == trim_leading(key@.skip(start as int)),
        decreases key@.len() - start,
    {
        assert(key@.skip(start as int).skip(1) =~= key@.skip(start + 1));
        start += 1;
    }
    let trimmed = slice_subrange(key, start, key.len());
    assert(trimmed@ =~= key@.skip(start as int));
    match decode_utf8(trimmed) {
        Some(decoded) => locate(decoded.as_str()),
        None => None,
    }
}

} // verus!
