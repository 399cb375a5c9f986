//! Sorted, duplicate-free lists of frame formats and camera formats: the
//! `collect -> sort -> dedup` shape every backend reports its capabilities in.
use vstd::prelude::*;

use crate::types::{camera_format_lt, frame_format_rank, CameraFormat, FrameFormat};

verus! {

/// Every element comes strictly before every later one, by encoding rank.
pub open spec fn frame_formats_sorted(s: Seq<FrameFormat>) -> bool {
    forall|i: int, j: int|
        0 <= i < j < s.len() ==> frame_format_rank(#[trigger] s[i]) < frame_format_rank(
            #[trigger] s[j],
        )
}

/// Every element comes strictly before every later one, by `camera_format_lt`.
pub open spec fn camera_formats_sorted(s: Seq<CameraFormat>) -> bool {
    forall|i: int, j: int| 0 <= i < j < s.len() ==> camera_format_lt(#[trigger] s[i], #[trigger] s[j])
}

/// `camera_format_lt` is a strict total order.
pub proof fn lemma_camera_format_lt_order(a: CameraFormat, b: CameraFormat, c: CameraFormat)
    ensures
        !camera_format_lt(a, a),
        camera_format_lt(a, b) ==> !camera_format_lt(b, a),
        camera_format_lt(a, b) && camera_format_lt(b, c) ==> camera_format_lt(a, c),
        a != b ==> camera_format_lt(a, b) || camera_format_lt(b, a),
{
    if a.format != b.format {
        crate::types::lemma_frame_format_rank_injective(a.format, b.format);
    }
}

/// Whether `a` comes strictly before `b` in the camera-format order.
pub fn camera_format_less(a: &CameraFormat, b: &CameraFormat) -> (r: bool)
    ensures
        r == camera_format_lt(*a, *b),
{
    if a.resolution.width_x != b.resolution.width_x {
        return a.resolution.width_x < b.resolution.width_x;
    }
    if a.resolution.height_y != b.resolution.height_y {
        return a.resolution.height_y < b.resolution.height_y;
    }
    let ra = a.format.rank();
    let rb = b.format.rank();
    if ra != rb {
        return ra < rb;
    }
    proof {
        crate::types::lemma_frame_format_rank_injective(a.format, b.format);
    }
    a.frame_rate < b.frame_rate
}

/// Add `f` to a rank-sorted, duplicate-free list, keeping it so.
pub fn insert_frame_format(v: &mut Vec<FrameFormat>, f: FrameFormat)
    requires
        frame_formats_sorted(old(v)@),
    ensures
        frame_formats_sorted(final(v)@),
        forall|x: FrameFormat| final(v)@.contains(x) <==> (old(v)@.contains(x) || x == f),
{
    let rf = f.rank();
    let mut i: usize = 0;
    while i < v.len() && v[i].rank() < rf
        invariant
            i <= v.len(),
            v@ == old(v)@,
            frame_formats_sorted(v@),
            forall|k: int| 0 <= k < i ==> frame_format_rank(#[trigger] v@[k]) < rf,
        decreases v.len() - i,
    {
        i = i + 1;
    }
    if i < v.len() && v[i].rank() == rf {
        proof {
            crate::types::lemma_frame_format_rank_injective(v@[i as int], f);
            assert(v@.contains(f));
            assert forall|x: FrameFormat| v@.contains(x) <==> (old(v)@.contains(x) || x == f) by {
                if x == f {
                    assert(v@.contains(f));
                }
            }
        }
        return;
    }
    let ghost before = v@;
    assert(before == old(v)@);
    proof {
        assert forall|k: int| i <= k < before.len() implies rf < frame_format_rank(
            #[trigger] before[k],
        ) by {
            if k > i {
                assert(frame_format_rank(before[i as int]) < frame_format_rank(before[k]));
            }
        }
    }
    v.insert(i, f);
    proof {
        assert forall|a: int, b: int| 0 <= a < b < v@.len() implies frame_format_rank(
            #[trigger] v@[a],
        ) < frame_format_rank(#[trigger] v@[b]) by {
            if a < i && b == i {
            } else if a < i && b > i {
                assert(v@[b] == before[b - 1]);
            } else if a == i {
                assert(v@[b] == before[b - 1]);
            } else if a > i {
                assert(v@[a] == before[a - 1]);
                assert(v@[b] == before[b - 1]);
            }
        }
        assert forall|x: FrameFormat| #[trigger] v@.contains(x) <==> (old(v)@.contains(x) || x == f) by {
            if v@.contains(x) {
                let k = choose|k: int| 0 <= k < v@.len() && v@[k] == x;
                if k < i {
                    assert(before[k] == x);
                } else if k > i {
                    assert(before[k - 1] == x);
                }
            }
            if before.contains(x) {
                let k = choose|k: int| 0 <= k < before.len() && before[k] == x;
                if k < i {
                    assert(v@[k] == x);
                } else {
                    assert(v@[k + 1] == x);
                }
            }
            if x == f {
                assert(v@[i as int] == x);
            }
        }
    }
}

/// Add `c` to a strictly sorted list of camera formats, keeping it so.
pub fn insert_camera_format(v: &mut Vec<CameraFormat>, c: CameraFormat)
    requires
        camera_formats_sorted(old(v)@),
    ensures
        camera_formats_sorted(final(v)@),
        forall|x: CameraFormat| final(v)@.contains(x) <==> (old(v)@.contains(x) || x == c),
{
    let mut i: usize = 0;
    while i < v.len() && camera_format_less(&v[i], &c)
        invariant
            i <= v.len(),
            v@ == old(v)@,
            camera_formats_sorted(v@),
            forall|k: int| 0 <= k < i ==> camera_format_lt(#[trigger] v@[k], c),
        decreases v.len() - i,
    {
        i = i + 1;
    }
    if i < v.len() && v[i] == c {
        proof {
            assert(v@.contains(c));
            assert forall|x: CameraFormat| v@.contains(x) <==> (old(v)@.contains(x) || x == c) by {
                if x == c {
                    assert(v@.contains(c));
                }
            }
        }
        return;
    }
    let ghost before = v@;
    assert(before == old(v)@);
    proof {
        if i < before.len() {
            lemma_camera_format_lt_order(before[i as int], c, c);
        }
        assert forall|k: int| i <= k < before.len() implies camera_format_lt(c, #[trigger] before[k]) by {
            if k > i {
                lemma_camera_format_lt_order(c, before[i as int], before[k]);
            }
        }
    }
    v.insert(i, c);
    proof {
        assert forall|a: int, b: int| 0 <= a < b < v@.len() implies camera_format_lt(
            #[trigger] v@[a],
            #[trigger] v@[b],
        ) by {
            if a < i && b == i {
            } else if a < i && b > i {
                assert(v@[b] == before[b - 1]);
            } else if a == i {
                assert(v@[b] == before[b - 1]);
            } else if a > i {
                assert(v@[a] == before[a - 1]);
                assert(v@[b] == before[b - 1]);
            }
        }
        assert forall|x: CameraFormat| #[trigger] v@.contains(x) <==> (old(v)@.contains(x) || x == c) by {
            if v@.contains(x) {
                let k = choose|k: int| 0 <= k < v@.len() && v@[k] == x;
                if k < i {
                    assert(before[k] == x);
                } else if k > i {
                    assert(before[k - 1] == x);
                }
            }
            if before.contains(x) {
                let k = choose|k: int| 0 <= k < before.len() && before[k] == x;
                if k < i {
                    assert(v@[k] == x);
                } else {
                    assert(v@[k + 1] == x);
                }
            }
            if x == c {
                assert(v@[i as int] == x);
            }
        }
    }
}

/// The distinct frame formats of `formats`, in canonical order.
pub fn sorted_distinct_frame_formats(formats: &Vec<FrameFormat>) -> (r: Vec<FrameFormat>)
    ensures
        frame_formats_sorted(r@),
        forall|x: FrameFormat| r@.contains(x) <==> formats@.contains(x),
{
    let mut out: Vec<FrameFormat> = Vec::new();
    let mut i: usize = 0;
    while i < formats.len()
        invariant
            i <= formats.len(),
            frame_formats_sorted(out@),
            forall|x: FrameFormat| out@.contains(x) <==> formats@.take(i as int).contains(x),
        decreases formats.len() - i,
    {
        insert_frame_format(&mut out, formats[i]);
        proof {
            let ghost pre = formats@.take(i as int);
            let ghost post = formats@.take(i + 1);
            assert forall|x: FrameFormat| out@.contains(x) <==> post.contains(x) by {
                if post.contains(x) {
                    let k = choose|k: int| 0 <= k < post.len() && post[k] == x;
                    if k < i {
                        assert(pre[k] == x);
                    }
                }
                if pre.contains(x) {
                    let k = choose|k: int| 0 <= k < pre.len() && pre[k] == x;
                    assert(post[k] == x);
                }
                if x == formats@[i as int] {
                    assert(post[i as int] == x);
                }
            }
        }
        i = i + 1;
    }
    assert(formats@.take(formats.len() as int) =~= formats@);
    out
}

/// The distinct camera formats of `formats`, strictly sorted.
pub fn sorted_distinct_camera_formats(formats: &Vec<CameraFormat>) -> (r: Vec<CameraFormat>)
    ensures
        camera_formats_sorted(r@),
        forall|x: CameraFormat| r@.contains(x) <==> formats@.contains(x),
{
    let mut out: Vec<CameraFormat> = Vec::new();
    let mut i: usize = 0;
    while i < formats.len()
        invariant
            i <= formats.len(),
            camera_formats_sorted(out@),
            forall|x: CameraFormat| out@.contains(x) <==> formats@.take(i as int).contains(x),
        decreases formats.len() - i,
    {
        insert_camera_format(&mut out, formats[i]);
        proof {
            let ghost pre = formats@.take(i as int);
            let ghost post = formats@.take(i + 1);
            assert forall|x: CameraFormat| out@.contains(x) <==> post.contains(x) by {
                if post.contains(x) {
                    let k = choose|k: int| 0 <= k < post.len() && post[k] == x;
                    if k < i {
                        assert(pre[k] == x);
                    }
                }
                if pre.contains(x) {
                    let k = choose|k: int| 0 <= k < pre.len() && pre[k] == x;
                    assert(post[k] == x);
                }
                if x == formats@[i as int] {
                    assert(post[i as int] == x);
                }
            }
        }
        i = i + 1;
    }
    assert(formats@.take(formats.len() as int) =~= formats@);
    out
}

} // verus!
