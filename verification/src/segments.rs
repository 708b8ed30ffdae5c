//! Decomposition of slash-separated paths into segments, and the inverse
//! joining operation.
//!
//! A path string is modelled as the sequence of its characters; its segments
//! are the maximal runs between `/` separators, so that splitting keeps every
//! character and joining the segments with `/` restores the original string
//! exactly.

use vstd::prelude::*;

verus! {

/// The segments of `s`: the (possibly empty) runs of characters between
/// `/` separators.  A string with `k` separators has exactly `k + 1`
/// segments; in particular the empty string has the single empty segment.
pub open spec fn seg_split(s: Seq<char>) -> Seq<Seq<char>>
    decreases s.len(),
{
    if s.len() == 0 {
        seq![Seq::<char>::empty()]
    } else if s[0] == '/' {
        seq![Seq::<char>::empty()] + seg_split(s.skip(1))
    } else {
        let rest = seg_split(s.skip(1));
        seq![seq![s[0]] + rest[0]] + rest.skip(1)
    }
}

/// The segments interleaved with `/` separators, as one string.
pub open spec fn seg_join(segs: Seq<Seq<char>>) -> Seq<char>
    decreases segs.len(),
{
    if segs.len() == 0 {
        Seq::<char>::empty()
    } else if segs.len() == 1 {
        segs[0]
    } else {
        segs[0] + seq!['/'] + seg_join(segs.skip(1))
    }
}

/// Holds when no character of `seg` is a separator.
pub open spec fn no_slash(seg: Seq<char>) -> bool {
    forall|i: int| 0 <= i < seg.len() ==> seg[i] != '/'
}

/// Splitting always yields at least one segment.
pub proof fn lemma_seg_split_len(s: Seq<char>)
    ensures
        seg_split(s).len() >= 1,
    decreases s.len(),
{
    if s.len() > 0 {
        lemma_seg_split_len(s.skip(1));
    }
}

/// No segment produced by splitting contains a separator.
pub proof fn lemma_seg_split_no_slash(s: Seq<char>)
    ensures
        forall|k: int|
            0 <= k < seg_split(s).len() ==> no_slash(#[trigger] seg_split(s)[k]),
    decreases s.len(),
{
    if s.len() > 0 {
        lemma_seg_split_no_slash(s.skip(1));
        lemma_seg_split_len(s.skip(1));
    }
}

/// Joining the segments of `s` restores `s` exactly: splitting loses no
/// characters and joining reinserts precisely the separators removed.
pub proof fn lemma_join_split(s: Seq<char>)
    ensures
        seg_join(seg_split(s)) == s,
    decreases s.len(),
{
    if s.len() == 0 {
        assert(seg_join(seg_split(s)) =~= s);
    } else {
        lemma_join_split(s.skip(1));
        lemma_seg_split_len(s.skip(1));
        let rest = seg_split(s.skip(1));
        if s[0] == '/' {
            assert(seg_split(s).skip(1) =~= rest);
            if rest.len() == 1 {
                assert(seg_join(seg_split(s)) =~= s);
            } else {
                assert(seg_join(seg_split(s)) =~= s);
            }
        } else {
            if rest.len() == 1 {
                assert(seg_split(s).len() == 1);
                assert(seg_join(seg_split(s)) == seg_split(s)[0]);
                assert(seg_split(s)[0] == seq![s[0]] + rest[0]);
                assert(seg_join(rest) == rest[0]);
                assert(seq![s[0]] + rest[0] =~= s);
                assert(seg_join(seg_split(s)) =~= s);
            } else {
                assert(seg_split(s).skip(1) =~= rest.skip(1));
                assert(seg_join(seg_split(s)) == seg_split(s)[0] + seq!['/'] + seg_join(rest.skip(1)));
                assert(seg_join(rest) == rest[0] + seq!['/'] + seg_join(rest.skip(1)));
                assert(seg_join(seg_split(s)) =~= seq![s[0]] + seg_join(rest));
                assert(seq![s[0]] + s.skip(1) =~= s);
                assert(seg_join(seg_split(s)) =~= s);
            }
        }
    }
}

/// Compares two string slices character by character.
pub fn str_eq(a: &str, b: &str) -> (r: bool)
    ensures
        r == (a@ == b@),
{
    let na = a.unicode_len();
    let nb = b.unicode_len();
    if na != nb {
        return false;
    }
    let mut i: usize = 0;
    while i < na
        invariant
            0 <= i <= na,
            na == a@.len(),
            na == b@.len(),
            forall|j: int| 0 <= j < i ==> a@[j] == b@[j],
        decreases na - i,
    {
        if a.get_char(i) != b.get_char(i) {
            return false;
        }
        i += 1;
    }
    proof {
        assert(a@ =~= b@);
    }
    true
}

/// Splits a path string into its slash-separated segments.
pub fn split_segments(s: &str) -> (segs: Vec<String>)
    ensures
        segs@.map_values(|t: String| t@) == seg_split(s@),
        segs@.len() >= 1,
    decreases s@.len(),
{
    let n = s.unicode_len();
    if n == 0 {
        let mut segs: Vec<String> = Vec::new();
        segs.push(String::new());
        proof {
            assert(segs@.map_values(|t: String| t@) =~= seg_split(s@));
        }
        segs
    } else {
        let rest = s.substring_char(1, n);
        proof {
            assert(rest@ =~= s@.skip(1));
        }
        let mut segs = split_segments(rest);
        proof {
            lemma_seg_split_len(s@.skip(1));
        }
        if s.get_char(0) == '/' {
            segs.insert(0, String::new());
            proof {
                assert(segs@.map_values(|t: String| t@) =~= seg_split(s@));
            }
            segs
        } else {
            let head = s.substring_char(0, 1);
            let first = segs.remove(0);
            let combined = String::from_str(head).concat(first.as_str());
            segs.insert(0, combined);
            proof {
                assert(head@ =~= seq![s@[0]]);
                assert(segs@.map_values(|t: String| t@) =~= seg_split(s@));
            }
            segs
        }
    }
}

/// Joins segments with `/` separators into one string.
pub fn join_segments(segs: &Vec<String>) -> (r: String)
    ensures
        r@ == seg_join(segs@.map_values(|t: String| t@)),
{
    let ghost m = segs@.map_values(|t: String| t@);
    let mut r = String::new();
    let n = segs.len();
    proof {
        assert(m.skip(0) =~= m);
        assert(r@ + seg_join(m) =~= seg_join(m));
    }
    let mut i: usize = 0;
    while i < n
        invariant
            0 <= i <= n,
            n == segs@.len(),
            m == segs@.map_values(|t: String| t@),
            seg_join(m) == r@ + seg_join(m.skip(i as int)),
        decreases n - i,
    {
        let ghost r0 = r@;
        r.append(segs[i].as_str());
        if i + 1 < n {
            r.append("/");
        }
        proof {
            reveal_strlit("/");
            assert(m[i as int] == segs@[i as int]@);
            assert(m.skip(i as int)[0] == m[i as int]);
            assert(m.skip(i as int).skip(1) =~= m.skip(i as int + 1));
            if i + 1 < n {
                assert(seg_join(m.skip(i as int)) == m.skip(i as int)[0] + seq!['/'] + seg_join(
                    m.skip(i as int + 1),
                ));
                assert(r0 + seg_join(m.skip(i as int)) =~= r@ + seg_join(m.skip(i as int + 1)));
            } else {
                assert(m.skip(i as int).len() == 1);
                assert(seg_join(m.skip(i as int)) == m[i as int]);
                assert(r0 + seg_join(m.skip(i as int)) =~= r@ + seg_join(m.skip(i as int + 1)));
            }
        }
        i += 1;
    }
    proof {
        assert(m.skip(n as int) =~= Seq::<Seq<char>>::empty());
        assert(r@ + seg_join(m.skip(n as int)) =~= r@);
    }
    r
}

/// The joined string begins with the first segment.
pub proof fn lemma_join_first(segs: Seq<Seq<char>>)
    requires
        segs.len() >= 1,
    ensures
        seg_join(segs).len() >= segs[0].len(),
        seg_join(segs).subrange(0, segs[0].len() as int) == segs[0],
{
    if segs.len() == 1 {
        assert(seg_join(segs).subrange(0, segs[0].len() as int) =~= segs[0]);
    } else {
        assert(seg_join(segs) == segs[0] + seq!['/'] + seg_join(segs.skip(1)));
        assert(seg_join(segs).subrange(0, segs[0].len() as int) =~= segs[0]);
    }
}

/// The first segment of `s` is empty exactly when `s` is empty or starts
/// with a separator.
pub proof fn lemma_seg_split_first(s: Seq<char>)
    ensures
        s.len() == 0 ==> seg_split(s)[0].len() == 0,
        s.len() > 0 && s[0] == '/' ==> seg_split(s)[0].len() == 0,
        s.len() > 0 && s[0] != '/' ==> seg_split(s)[0].len() > 0 && seg_split(s)[0][0] == s[0],
{
    if s.len() > 0 && s[0] != '/' {
        lemma_seg_split_len(s.skip(1));
    }
}

} // verus!
