//! Mapping of arbitrary resource paths to safe relative paths.
//!
//! A resource named in a bundle manifest may be an absolute path, a relative
//! path, or contain parent traversals.  To store it under one fixed resource
//! directory without collisions and without any possibility of escaping that
//! directory, the path is rewritten segment by segment: a leading root anchor
//! becomes the literal segment `_root_`, every parent-traversal segment
//! becomes the literal segment `_up_`, current-directory segments and empty
//! segments (repeated or trailing separators) are dropped, and every other
//! segment is kept verbatim.

use vstd::prelude::*;

use crate::segments::join_segments;
use crate::segments::seg_join;
use crate::segments::seg_split;
use crate::segments::split_segments;
use crate::segments::str_eq;

verus! {

/// Holds when `s` is anchored at the filesystem root.
pub open spec fn is_absolute(s: Seq<char>) -> bool {
    s.len() > 0 && s[0] == '/'
}

/// A segment survives normalization when it is neither empty (a repeated,
/// leading or trailing separator) nor a current-directory marker.
pub open spec fn keeps_seg(seg: Seq<char>) -> bool {
    seg.len() > 0 && seg != "."@
}

/// A surviving segment is kept verbatim, except that a parent-traversal
/// segment is replaced by the `_up_` marker.
pub open spec fn map_seg(seg: Seq<char>) -> Seq<char> {
    if seg == ".."@ {
        "_up_"@
    } else {
        seg
    }
}

/// The surviving segments, in order, each mapped through `map_seg`.
pub open spec fn norm_segs(segs: Seq<Seq<char>>) -> Seq<Seq<char>>
    decreases segs.len(),
{
    if segs.len() == 0 {
        Seq::<Seq<char>>::empty()
    } else if keeps_seg(segs[0]) {
        seq![map_seg(segs[0])] + norm_segs(segs.skip(1))
    } else {
        norm_segs(segs.skip(1))
    }
}

/// The segments of the normalized form of `s`: the `_root_` marker when `s`
/// is absolute, followed by the surviving mapped segments of `s`.
pub open spec fn normalized_segs(s: Seq<char>) -> Seq<Seq<char>> {
    if is_absolute(s) {
        seq!["_root_"@] + norm_segs(seg_split(s))
    } else {
        norm_segs(seg_split(s))
    }
}

/// The normalized form of `s`, as one string.
pub open spec fn normalize_spec(s: Seq<char>) -> Seq<char> {
    seg_join(normalized_segs(s))
}

/// Given a path (absolute or relative) to a resource file, returns the
/// relative path from the bundle resources directory where that resource
/// should be stored.
pub fn resource_relpath(path: &str) -> (r: String)
    ensures
        r@ == normalize_spec(path@),
{
    let ghost m = seg_split(path@);
    let segs = split_segments(path);
    let mut kept: Vec<String> = Vec::new();
    if path.unicode_len() > 0 && path.get_char(0) == '/' {
        kept.push(String::from_str("_root_"));
    }
    let ghost base = kept@.map_values(|t: String| t@);
    proof {
        assert(m.skip(0) =~= m);
        assert(base + norm_segs(m) =~= kept@.map_values(|t: String| t@) + norm_segs(m.skip(0)));
    }
    let n = segs.len();
    let mut i: usize = 0;
    while i < n
        invariant
            0 <= i <= n,
            n == segs@.len(),
            m == segs@.map_values(|t: String| t@),
            base + norm_segs(m) == kept@.map_values(|t: String| t@) + norm_segs(m.skip(i as int)),
        decreases n - i,
    {
        let ghost kept0 = kept@;
        let seg = &segs[i];
        proof {
            assert(m[i as int] == segs@[i as int]@);
            assert(m.skip(i as int)[0] == m[i as int]);
            assert(m.skip(i as int).skip(1) =~= m.skip(i as int + 1));
        }
        if seg.as_str().unicode_len() > 0 && !str_eq(seg.as_str(), ".") {
            if str_eq(seg.as_str(), "..") {
                kept.push(String::from_str("_up_"));
            } else {
                kept.push(seg.clone());
            }
            proof {
                assert(kept@.map_values(|t: String| t@) =~= kept0.map_values(|t: String| t@)
                    + seq![map_seg(m[i as int])]);
                assert(kept0.map_values(|t: String| t@) + (seq![map_seg(m[i as int])] + norm_segs(
                    m.skip(i as int + 1),
                )) =~= kept@.map_values(|t: String| t@) + norm_segs(m.skip(i as int + 1)));
            }
        } else {
            proof {
                assert(!keeps_seg(m[i as int]));
            }
        }
        i += 1;
    }
    proof {
        assert(m.skip(n as int) =~= Seq::<Seq<char>>::empty());
        assert(kept@.map_values(|t: String| t@) + norm_segs(m.skip(n as int))
            =~= kept@.map_values(|t: String| t@));
        assert(kept@.map_values(|t: String| t@) =~= normalized_segs(path@));
    }
    join_segments(&kept)
}

/// A segment that normalization neither drops nor rewrites: an ordinary
/// name, not empty, not a current-directory marker, not a parent traversal.
pub open spec fn safe_seg(seg: Seq<char>) -> bool {
    seg.len() > 0 && seg != "."@ && seg != ".."@
}

proof fn lemma_norm_segs_identity(segs: Seq<Seq<char>>)
    requires
        forall|k: int| 0 <= k < segs.len() ==> safe_seg(#[trigger] segs[k]),
    ensures
        norm_segs(segs) == segs,
    decreases segs.len(),
{
    if segs.len() == 0 {
        assert(norm_segs(segs) =~= segs);
    } else {
        assert(forall|k: int| 0 <= k < segs.skip(1).len() ==> #[trigger] segs.skip(1)[k]
            == segs[k + 1]);
        lemma_norm_segs_identity(segs.skip(1));
        assert(norm_segs(segs) =~= segs);
    }
}

/// Law: normalization is the identity on already-safe relative paths.  A
/// path every segment of which is an ordinary name (so it is relative, has
/// no traversal or current-directory segments, and no repeated, leading or
/// trailing separators) is returned unchanged; the empty path likewise.
pub proof fn lemma_normalize_identity(s: Seq<char>)
    requires
        s.len() == 0 || forall|k: int|
            0 <= k < seg_split(s).len() ==> safe_seg(#[trigger] seg_split(s)[k]),
    ensures
        normalize_spec(s) == s,
{
    if s.len() == 0 {
        assert(seg_split(s) == seq![Seq::<char>::empty()]);
        assert(norm_segs(seg_split(s).skip(1)) =~= Seq::<Seq<char>>::empty());
        assert(seg_split(s).skip(1) =~= Seq::<Seq<char>>::empty());
        assert(normalize_spec(s) =~= s);
    } else {
        crate::segments::lemma_seg_split_len(s);
        crate::segments::lemma_seg_split_first(s);
        assert(!is_absolute(s));
        lemma_norm_segs_identity(seg_split(s));
        crate::segments::lemma_join_split(s);
    }
}

proof fn lemma_norm_segs_props(segs: Seq<Seq<char>>)
    ensures
        forall|k: int|
            0 <= k < norm_segs(segs).len() ==> (#[trigger] norm_segs(segs)[k]) != ".."@,
        forall|k: int| 0 <= k < norm_segs(segs).len() ==> (#[trigger] norm_segs(segs)[k]).len() > 0,
        (forall|k: int| 0 <= k < segs.len() ==> crate::segments::no_slash(#[trigger] segs[k]))
            ==> forall|k: int|
            0 <= k < norm_segs(segs).len() ==> crate::segments::no_slash(
                #[trigger] norm_segs(segs)[k],
            ),
    decreases segs.len(),
{
    reveal_strlit("..");
    reveal_strlit("_up_");
    if segs.len() > 0 {
        assert(forall|k: int| 0 <= k < segs.skip(1).len() ==> #[trigger] segs.skip(1)[k]
            == segs[k + 1]);
        lemma_norm_segs_props(segs.skip(1));
        let out = norm_segs(segs);
        let rest = norm_segs(segs.skip(1));
        if keeps_seg(segs[0]) {
            assert(out == seq![map_seg(segs[0])] + rest);
            assert(map_seg(segs[0]) != ".."@);
            assert(map_seg(segs[0]).len() > 0);
            assert(forall|k: int| 1 <= k < out.len() ==> #[trigger] out[k] == rest[k - 1]);
            if forall|k: int| 0 <= k < segs.len() ==> crate::segments::no_slash(
                #[trigger] segs[k],
            ) {
                assert(crate::segments::no_slash(segs[0]));
                assert(crate::segments::no_slash(map_seg(segs[0])));
            }
        } else {
            assert(out == rest);
        }
    }
}

/// Law (containment): whatever the input, the normalized form never begins
/// with a root anchor and never contains a literal parent-traversal segment
/// or an empty segment, so joining it under a fixed resource root cannot
/// escape that root.
pub proof fn lemma_normalize_contained(s: Seq<char>)
    ensures
        forall|k: int|
            0 <= k < normalized_segs(s).len() ==> (#[trigger] normalized_segs(s)[k]) != ".."@,
        forall|k: int|
            0 <= k < normalized_segs(s).len() ==> (#[trigger] normalized_segs(s)[k]).len() > 0,
        !is_absolute(normalize_spec(s)),
{
    reveal_strlit("..");
    reveal_strlit("_root_");
    lemma_norm_segs_props(seg_split(s));
    crate::segments::lemma_seg_split_no_slash(s);
    let out = normalized_segs(s);
    if out.len() == 0 {
        assert(normalize_spec(s).len() == 0);
    } else {
        crate::segments::lemma_join_first(out);
        assert(out[0].len() > 0);
        assert(normalize_spec(s) == seg_join(out));
        assert(seg_join(out).subrange(0, out[0].len() as int) == out[0]);
        assert(normalize_spec(s)[0] == out[0][0]) by {
            assert(seg_join(out).subrange(0, out[0].len() as int)[0] == seg_join(out)[0]);
        }
        if is_absolute(s) {
            assert(out[0] == "_root_"@);
            assert(out[0][0] != '/');
        } else {
            assert(out[0] == norm_segs(seg_split(s))[0]);
            assert(crate::segments::no_slash(out[0]));
        }
    }
}

/// Law: the normalized form of an absolute path is itself relative, and its
/// first segment is the `_root_` marker.
pub proof fn lemma_normalize_absolute(s: Seq<char>)
    requires
        is_absolute(s),
    ensures
        normalized_segs(s).len() >= 1,
        normalized_segs(s)[0] == "_root_"@,
        normalize_spec(s).len() >= "_root_"@.len(),
        normalize_spec(s).subrange(0, "_root_"@.len() as int) == "_root_"@,
        !is_absolute(normalize_spec(s)),
{
    crate::segments::lemma_join_first(normalized_segs(s));
    lemma_normalize_contained(s);
}

proof fn lemma_norm_segs_parents(segs: Seq<Seq<char>>, n: int)
    requires
        0 <= n <= segs.len(),
        forall|k: int| 0 <= k < n ==> (#[trigger] segs[k]) == ".."@,
        forall|k: int|
            n <= k < segs.len() ==> (#[trigger] segs[k]) != ".."@ && segs[k] != "_up_"@,
    ensures
        norm_segs(segs).len() >= n,
        forall|k: int| 0 <= k < n ==> (#[trigger] norm_segs(segs)[k]) == "_up_"@,
        forall|k: int|
            n <= k < norm_segs(segs).len() ==> (#[trigger] norm_segs(segs)[k]) != "_up_"@,
    decreases segs.len(),
{
    reveal_strlit(".");
    reveal_strlit("..");
    reveal_strlit("_up_");
    if segs.len() > 0 {
        assert(forall|k: int| 0 <= k < segs.skip(1).len() ==> #[trigger] segs.skip(1)[k]
            == segs[k + 1]);
        if n > 0 {
            lemma_norm_segs_parents(segs.skip(1), n - 1);
            assert(segs[0] == ".."@);
            assert(".."@.len() == 2);
            assert("."@.len() == 1);
            assert(keeps_seg(segs[0]));
            assert(map_seg(segs[0]) == "_up_"@);
        } else {
            lemma_norm_segs_parents(segs.skip(1), 0);
            if keeps_seg(segs[0]) {
                assert(map_seg(segs[0]) != "_up_"@);
            }
        }
    }
}

/// Law: a path whose `n` leading segments are parent traversals, and whose
/// remaining segments are neither parent traversals nor already the `_up_`
/// marker, normalizes to exactly `n` `_up_` markers, in the leading
/// positions, with no `_up_` afterwards and no parent-traversal segment
/// anywhere in the result.
pub proof fn lemma_normalize_leading_parents(s: Seq<char>, n: int)
    requires
        0 <= n <= seg_split(s).len(),
        forall|k: int| 0 <= k < n ==> (#[trigger] seg_split(s)[k]) == ".."@,
        forall|k: int|
            n <= k < seg_split(s).len() ==> (#[trigger] seg_split(s)[k]) != ".."@ && seg_split(
                s,
            )[k] != "_up_"@,
    ensures
        normalized_segs(s).len() >= n,
        forall|k: int| 0 <= k < n ==> (#[trigger] normalized_segs(s)[k]) == "_up_"@,
        forall|k: int|
            n <= k < normalized_segs(s).len() ==> (#[trigger] normalized_segs(s)[k]) != "_up_"@,
        forall|k: int|
            0 <= k < normalized_segs(s).len() ==> (#[trigger] normalized_segs(s)[k]) != ".."@,
{
    reveal_strlit("..");
    reveal_strlit("_up_");
    reveal_strlit("_root_");
    lemma_norm_segs_parents(seg_split(s), n);
    lemma_norm_segs_props(seg_split(s));
    let rest = norm_segs(seg_split(s));
    let out = normalized_segs(s);
    if is_absolute(s) {
        crate::segments::lemma_seg_split_first(s);
        crate::segments::lemma_seg_split_len(s);
        assert(n == 0) by {
            if n > 0 {
                assert(seg_split(s)[0] == ".."@);
            }
        }
        assert(out == seq!["_root_"@] + rest);
        assert(out[0] == "_root_"@);
        assert(forall|k: int| 1 <= k < out.len() ==> #[trigger] out[k] == rest[k - 1]);
    } else {
        assert(out == rest);
    }
}

} // verus!
