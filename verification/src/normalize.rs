//! Path normalization: a client-supplied request path becomes a clean list of
//! plain name segments, or is rejected.
//!
//! The path grammar: `/` and `\` separate segments; an empty segment or `.`
//! names the current directory and is dropped; `..` names the parent directory
//! and pops the last kept segment, never past the logical root; a segment
//! holding `:` is a drive or volume marker, which is rejected outright. Every
//! other segment is a plain name and is kept.

use vstd::prelude::*;

use crate::text::views_of;

verus! {

/// Why the normalizer refused an input path.
#[derive(Clone, Copy, Debug, PartialEq, Eq, Structural)]
pub enum PathError {
    /// The path holds a drive or volume marker segment.
    UnsupportedComponent,
}

/// Characters that separate path segments.
pub open spec fn is_separator(c: char) -> bool {
    c == '/' || c == '\\'
}

/// The input split at separators; repeated separators yield empty segments,
/// and the empty input yields one empty segment.
pub open spec fn split_segments(s: Seq<char>) -> Seq<Seq<char>>
    decreases s.len(),
{
    if s.len() == 0 {
        seq![Seq::<char>::empty()]
    } else if is_separator(s.last()) {
        split_segments(s.drop_last()).push(Seq::<char>::empty())
    } else {
        let rest = split_segments(s.drop_last());
        rest.update(rest.len() - 1, rest.last().push(s.last()))
    }
}

/// A current-directory segment: empty (from a leading or doubled separator)
/// or a lone `.`.
pub open spec fn seg_is_current(s: Seq<char>) -> bool {
    s.len() == 0 || (s.len() == 1 && s[0] == '.')
}

/// A parent-directory segment: exactly `..`.
pub open spec fn seg_is_parent(s: Seq<char>) -> bool {
    s.len() == 2 && s[0] == '.' && s[1] == '.'
}

/// A drive or volume marker, the one unsupported segment kind.
pub open spec fn seg_is_prefix_marker(s: Seq<char>) -> bool {
    s.contains(':')
}

/// A plain name segment: anything the normalizer keeps.
pub open spec fn seg_is_normal(s: Seq<char>) -> bool {
    !seg_is_current(s) && !seg_is_parent(s) && !seg_is_prefix_marker(s)
}

/// The normalizer's fold over a segment list: keep plain names, drop
/// current-directory segments, pop on parent-directory segments (silently
/// staying put at the logical root), reject drive or volume markers.
pub open spec fn normalize_segments(segs: Seq<Seq<char>>) -> Option<Seq<Seq<char>>>
    decreases segs.len(),
{
    if segs.len() == 0 {
        Some(Seq::empty())
    } else {
        match normalize_segments(segs.drop_last()) {
            None => None,
            Some(acc) => {
                let seg = segs.last();
                if seg_is_prefix_marker(seg) {
                    None
                } else if seg_is_parent(seg) {
                    if acc.len() == 0 {
                        Some(acc)
                    } else {
                        Some(acc.drop_last())
                    }
                } else if seg_is_current(seg) {
                    Some(acc)
                } else {
                    Some(acc.push(seg))
                }
            },
        }
    }
}

/// What `normalize_path` computes, at the level of character sequences.
pub open spec fn normalize_spec(path: Seq<char>) -> Option<Seq<Seq<char>>> {
    normalize_segments(split_segments(path))
}

/// Whether a string holds the drive or volume marker character.
fn contains_colon(s: &String) -> (b: bool)
    ensures
        b == s@.contains(':'),
{
    let n: usize = s.as_str().unicode_len();
    let mut i: usize = 0;
    while i < n
        invariant
            i <= n,
            n == s@.len(),
            forall|j: int| 0 <= j < i ==> s@[j] != ':',
        decreases n - i,
    {
        if s.as_str().get_char(i) == ':' {
            proof {
                assert(s@[i as int] == ':');
            }
            return true;
        }
        i = i + 1;
    }
    proof {
        assert(!s@.contains(':')) by {
            if s@.contains(':') {
                let j = choose|j: int| 0 <= j < s@.len() && s@[j] == ':';
                assert(s@[j] != ':');
            }
        }
    }
    false
}

/// Splits a path string at separators, keeping empty segments.
pub fn split_path(path: &str) -> (segs: Vec<String>)
    ensures
        views_of(segs@) == split_segments(path@),
{
    let n: usize = path.unicode_len();
    let mut segs: Vec<String> = Vec::new();
    let mut cur: String = String::new();
    let mut i: usize = 0;
    proof {
        assert(views_of(segs@).push(cur@) =~~= split_segments(path@.take(0)));
    }
    while i < n
        invariant
            i <= n,
            n == path@.len(),
            views_of(segs@).push(cur@) == split_segments(path@.take(i as int)),
        decreases n - i,
    {
        let ghost prev_segs = segs@;
        let ghost prev_cur = cur@;
        let c = path.get_char(i);
        if c == '/' || c == '\\' {
            segs.push(cur);
            cur = String::new();
        } else {
            let piece = path.substring_char(i, i + 1);
            cur.append(piece);
            proof {
                assert(cur@ =~= prev_cur.push(path@[i as int]));
            }
        }
        proof {
            let t = path@.take(i + 1);
            assert(t.drop_last() =~= path@.take(i as int));
            assert(t.last() == path@[i as int]);
            let rest = split_segments(path@.take(i as int));
            if is_separator(path@[i as int]) {
                assert(views_of(segs@) =~~= views_of(prev_segs).push(prev_cur));
                assert(views_of(segs@).push(cur@) =~~= rest.push(Seq::<char>::empty()));
                assert(split_segments(t) == rest.push(Seq::<char>::empty()));
            } else {
                assert(rest == views_of(prev_segs).push(prev_cur));
                assert(rest.len() == views_of(prev_segs).len() + 1);
                assert(rest.last() == prev_cur);
                assert(split_segments(t) == rest.update(rest.len() - 1, rest.last().push(path@[i as int])));
                assert(views_of(segs@).push(cur@) =~~= rest.update(
                    rest.len() - 1,
                    rest.last().push(path@[i as int]),
                ));
            }
        }
        i = i + 1;
    }
    proof {
        assert(path@.take(n as int) =~= path@);
    }
    segs.push(cur);
    proof {
        assert(views_of(segs@) =~~= split_segments(path@));
    }
    segs
}

/// Normalizes a client-supplied path into plain name segments.
///
/// Plain names are kept in order; `.` and empty segments vanish; each `..`
/// removes the most recent kept name and is ignored at the logical root; a
/// drive or volume marker anywhere rejects the whole path.
pub fn normalize_path(path: &str) -> (r: Result<Vec<String>, PathError>)
    ensures
        match r {
            Ok(v) => normalize_spec(path@) == Some(views_of(v@)),
            Err(_) => normalize_spec(path@) is None,
        },
{
    let segs = split_path(path);
    let ghost all = views_of(segs@);
    let mut buf: Vec<String> = Vec::new();
    let mut i: usize = 0;
    proof {
        assert(all.take(0) =~~= Seq::<Seq<char>>::empty());
        assert(views_of(buf@) =~~= Seq::<Seq<char>>::empty());
    }
    while i < segs.len()
        invariant
            i <= segs@.len(),
            all == views_of(segs@),
            all == split_segments(path@),
            normalize_segments(all.take(i as int)) == Some(views_of(buf@)),
        decreases segs@.len() - i,
    {
        let ghost prev_buf = buf@;
        let seg = &segs[i];
        proof {
            assert(seg@ == all[i as int]);
        }
        let len: usize = seg.as_str().unicode_len();
        if contains_colon(seg) {
            proof {
                let t = all.take(i + 1);
                assert(t.drop_last() =~~= all.take(i as int));
                assert(t.last() == all[i as int]);
                assert(normalize_segments(t) is None);
                lemma_normalize_none_extends(all, i + 1, all.len() as int);
                assert(all.take(all.len() as int) =~~= all);
            }
            return Err(PathError::UnsupportedComponent);
        } else if len == 2 && seg.as_str().get_char(0) == '.' && seg.as_str().get_char(1) == '.' {
            if buf.len() > 0 {
                buf.pop();
                proof {
                    assert(views_of(buf@) =~~= views_of(prev_buf).drop_last());
                }
            }
            proof {
                assert(seg_is_parent(all[i as int]));
            }
        } else if len == 0 || (len == 1 && seg.as_str().get_char(0) == '.') {
            proof {
                assert(seg_is_current(all[i as int]));
            }
        } else {
            buf.push(seg.clone());
            proof {
                assert(!seg_is_current(all[i as int]));
                assert(!seg_is_parent(all[i as int])) by {
                    if seg_is_parent(all[i as int]) {
                        assert(len == 2 && seg@[0] == '.' && seg@[1] == '.');
                    }
                }
                assert(views_of(buf@) =~~= views_of(prev_buf).push(all[i as int]));
            }
        }
        proof {
            let t = all.take(i + 1);
            assert(t.drop_last() =~~= all.take(i as int));
            assert(t.last() == all[i as int]);
            if views_of(prev_buf).len() == 0 && seg_is_parent(all[i as int]) {
                assert(views_of(buf@) =~~= views_of(prev_buf));
            }
        }
        i = i + 1;
    }
    proof {
        assert(all.take(segs@.len() as int) =~~= all);
    }
    Ok(buf)
}

/// Once the fold has rejected a prefix of the segment list, every longer
/// prefix is rejected too.
proof fn lemma_normalize_none_extends(segs: Seq<Seq<char>>, j: int, k: int)
    requires
        0 <= j <= k <= segs.len(),
        normalize_segments(segs.take(j)) is None,
    ensures
        normalize_segments(segs.take(k)) is None,
    decreases k - j,
{
    if j < k {
        let t = segs.take(j + 1);
        assert(t.drop_last() =~~= segs.take(j));
        assert(normalize_segments(t) is None);
        lemma_normalize_none_extends(segs, j + 1, k);
    } else {
        assert(segs.take(j) =~~= segs.take(k));
    }
}

/// Every segment kept by the fold is a plain name: never `.`, `..`, an empty
/// segment, or a drive marker. Surplus parent segments vanish at the logical
/// root rather than escaping it.
pub proof fn lemma_normalized_segments_are_plain(segs: Seq<Seq<char>>)
    ensures
        normalize_segments(segs) matches Some(v) ==> forall|i: int|
            0 <= i < v.len() ==> seg_is_normal(#[trigger] v[i]),
    decreases segs.len(),
{
    if segs.len() > 0 {
        lemma_normalized_segments_are_plain(segs.drop_last());
    }
}

/// Every segment kept by the fold is one of the input's own segments: the
/// normalizer invents no names.
pub proof fn lemma_normalized_segments_from_input(segs: Seq<Seq<char>>)
    ensures
        normalize_segments(segs) matches Some(v) ==> forall|i: int|
            0 <= i < v.len() ==> segs.contains(#[trigger] v[i]),
    decreases segs.len(),
{
    if segs.len() > 0 {
        lemma_normalized_segments_from_input(segs.drop_last());
        if normalize_segments(segs) is Some {
            let v = normalize_segments(segs)->Some_0;
            let prev = normalize_segments(segs.drop_last())->Some_0;
            assert forall|i: int| 0 <= i < v.len() implies segs.contains(#[trigger] v[i]) by {
                if i < prev.len() && v[i] == prev[i] {
                    assert(segs.drop_last().contains(prev[i]));
                    let j = choose|j: int|
                        0 <= j < segs.drop_last().len() && segs.drop_last()[j] == prev[i];
                    assert(segs[j] == prev[i]);
                } else {
                    assert(v[i] == segs.last());
                    assert(segs[segs.len() - 1] == segs.last());
                }
            }
        }
    }
}

/// The fold rejects exactly the segment lists holding a drive or volume
/// marker.
pub proof fn lemma_rejects_iff_unsupported(segs: Seq<Seq<char>>)
    ensures
        normalize_segments(segs) is None <==> exists|i: int|
            0 <= i < segs.len() && seg_is_prefix_marker(#[trigger] segs[i]),
    decreases segs.len(),
{
    if segs.len() > 0 {
        lemma_rejects_iff_unsupported(segs.drop_last());
        if normalize_segments(segs) is None {
            if normalize_segments(segs.drop_last()) is None {
                let i = choose|i: int|
                    0 <= i < segs.drop_last().len() && seg_is_prefix_marker(
                        #[trigger] segs.drop_last()[i],
                    );
                assert(seg_is_prefix_marker(segs[i]));
            } else {
                assert(seg_is_prefix_marker(segs[segs.len() - 1]));
            }
        }
        if exists|i: int| 0 <= i < segs.len() && seg_is_prefix_marker(#[trigger] segs[i]) {
            let i = choose|i: int| 0 <= i < segs.len() && seg_is_prefix_marker(#[trigger] segs[i]);
            if i < segs.len() - 1 {
                assert(seg_is_prefix_marker(segs.drop_last()[i]));
            }
        }
    }
}

/// The normalizer rejects a path exactly when some segment of it is a drive
/// or volume marker, and otherwise returns only plain name segments drawn
/// from the input.
pub proof fn lemma_normalize_spec_characterized(path: Seq<char>)
    ensures
        normalize_spec(path) is None <==> exists|i: int|
            0 <= i < split_segments(path).len() && seg_is_prefix_marker(
                #[trigger] split_segments(path)[i],
            ),
        normalize_spec(path) matches Some(v) ==> forall|i: int|
            0 <= i < v.len() ==> seg_is_normal(#[trigger] v[i]) && split_segments(path).contains(
                v[i],
            ),
{
    lemma_rejects_iff_unsupported(split_segments(path));
    lemma_normalized_segments_are_plain(split_segments(path));
    lemma_normalized_segments_from_input(split_segments(path));
}

} // verus!
