//! Detection of high-density "retina" icon paths.
//!
//! A path denotes a retina icon when the stem of its file name (the part
//! before the final dot, when that part is nonempty) ends with `@2x`, a
//! convention taken from Apple's high-resolution artwork guidelines.

use vstd::prelude::*;

use crate::normalize::keeps_seg;
use crate::segments::seg_split;
use crate::segments::split_segments;
use crate::segments::str_eq;

verus! {

/// The segments of a path that name actual tree steps: empty segments
/// (repeated, leading or trailing separators) and current-directory markers
/// are dropped.
pub open spec fn visible_segs(segs: Seq<Seq<char>>) -> Seq<Seq<char>>
    decreases segs.len(),
{
    if segs.len() == 0 {
        Seq::<Seq<char>>::empty()
    } else if keeps_seg(segs[0]) {
        seq![segs[0]] + visible_segs(segs.skip(1))
    } else {
        visible_segs(segs.skip(1))
    }
}

/// The file name of a path: its last visible segment, unless the path has
/// none or ends in a parent traversal.
pub open spec fn spec_file_name(s: Seq<char>) -> Option<Seq<char>> {
    let vis = visible_segs(seg_split(s));
    if vis.len() == 0 {
        Option::None
    } else if vis.last() == ".."@ {
        Option::None
    } else {
        Option::Some(vis.last())
    }
}

/// The largest index of a dot in `name`, or `-1` when it has none.
pub open spec fn last_dot(name: Seq<char>) -> int
    decreases name.len(),
{
    if name.len() == 0 {
        -1
    } else if name.last() == '.' {
        name.len() - 1
    } else {
        last_dot(name.drop_last())
    }
}

/// The stem of a file name: everything before the final dot, unless nothing
/// or only a leading dot precedes it, in which case the whole name.
pub open spec fn spec_file_stem(name: Seq<char>) -> Seq<char> {
    if last_dot(name) >= 1 {
        name.take(last_dot(name))
    } else {
        name
    }
}

/// Holds when `suffix` is a suffix of `s`.
pub open spec fn ends_with(s: Seq<char>, suffix: Seq<char>) -> bool {
    s.len() >= suffix.len() && s.skip(s.len() - suffix.len()) == suffix
}

/// Holds when the path has a file name whose stem ends with `@2x`.
pub open spec fn spec_is_retina(s: Seq<char>) -> bool {
    match spec_file_name(s) {
        Option::Some(name) => ends_with(spec_file_stem(name), "@2x"@),
        Option::None => false,
    }
}

/// Returns true if the path has a filename indicating that it is a
/// high-density "retina" icon: the file stem ends with `@2x`.
pub fn is_retina(path: &str) -> (r: bool)
    ensures
        r == spec_is_retina(path@),
{
    let ghost m = seg_split(path@);
    let segs = split_segments(path);
    let mut vis: Vec<String> = Vec::new();
    proof {
        assert(m.skip(0) =~= m);
        assert(visible_segs(m) =~= vis@.map_values(|t: String| t@) + visible_segs(m.skip(0)));
    }
    let n = segs.len();
    let mut i: usize = 0;
    while i < n
        invariant
            0 <= i <= n,
            n == segs@.len(),
            m == segs@.map_values(|t: String| t@),
            visible_segs(m) == vis@.map_values(|t: String| t@) + visible_segs(m.skip(i as int)),
        decreases n - i,
    {
        let ghost vis0 = vis@;
        let seg = &segs[i];
        proof {
            assert(m[i as int] == segs@[i as int]@);
            assert(m.skip(i as int)[0] == m[i as int]);
            assert(m.skip(i as int).skip(1) =~= m.skip(i as int + 1));
        }
        if seg.as_str().unicode_len() > 0 && !str_eq(seg.as_str(), ".") {
            vis.push(seg.clone());
            proof {
                assert(vis@.map_values(|t: String| t@) =~= vis0.map_values(|t: String| t@)
                    + seq![m[i as int]]);
                assert(vis0.map_values(|t: String| t@) + (seq![m[i as int]] + visible_segs(
                    m.skip(i as int + 1),
                )) =~= vis@.map_values(|t: String| t@) + visible_segs(m.skip(i as int + 1)));
            }
        } else {
            proof {
                assert(!keeps_seg(m[i as int]));
            }
        }
        i += 1;
    }
    proof {
        assert(m.skip(n as int) =~= Seq::<Seq<char>>::empty());
        assert(vis@.map_values(|t: String| t@) + visible_segs(m.skip(n as int)) =~= vis@.map_values(
            |t: String| t@,
        ));
    }
    if vis.len() == 0 {
        return false;
    }
    let name = &vis[vis.len() - 1];
    proof {
        assert(name@ == vis@.map_values(|t: String| t@).last());
    }
    if str_eq(name.as_str(), "..") {
        return false;
    }
    let ghost nm = name@;
    let nlen = name.as_str().unicode_len();
    let mut ld: usize = 0;
    let mut has_dot = false;
    let mut k: usize = 0;
    while k < nlen
        invariant
            0 <= k <= nlen,
            nlen == nm.len(),
            nm == name@,
            has_dot ==> last_dot(nm.take(k as int)) == ld as int && ld < k,
            !has_dot ==> last_dot(nm.take(k as int)) == -1,
        decreases nlen - k,
    {
        proof {
            assert(nm.take(k as int + 1).drop_last() =~= nm.take(k as int));
            assert(nm.take(k as int + 1).last() == nm[k as int]);
        }
        if name.as_str().get_char(k) == '.' {
            ld = k;
            has_dot = true;
        }
        k += 1;
    }
    proof {
        assert(nm.take(nlen as int) =~= nm);
    }
    let stem_len: usize = if has_dot && ld >= 1 {
        ld
    } else {
        nlen
    };
    proof {
        reveal_strlit("@2x");
        assert(spec_file_stem(nm) == nm.take(stem_len as int)) by {
            if !(has_dot && ld >= 1) {
                assert(nm.take(nlen as int) =~= nm);
            }
        }
    }
    if stem_len < 3 {
        return false;
    }
    let c0 = name.as_str().get_char(stem_len - 3);
    let c1 = name.as_str().get_char(stem_len - 2);
    let c2 = name.as_str().get_char(stem_len - 1);
    let r = c0 == '@' && c1 == '2' && c2 == 'x';
    proof {
        reveal_strlit("@2x");
        let stem = spec_file_stem(nm);
        assert(stem.len() == stem_len);
        assert(stem[stem_len - 3] == nm[stem_len - 3]);
        assert(stem[stem_len - 2] == nm[stem_len - 2]);
        assert(stem[stem_len - 1] == nm[stem_len - 1]);
        if r {
            assert(stem.skip(stem_len - 3) =~= "@2x"@);
        } else {
            if ends_with(stem, "@2x"@) {
                assert(stem.skip(stem_len - 3)[0] == stem[stem_len - 3]);
                assert(stem.skip(stem_len - 3)[1] == stem[stem_len - 2]);
                assert(stem.skip(stem_len - 3)[2] == stem[stem_len - 1]);
            }
        }
    }
    r
}

} // verus!
