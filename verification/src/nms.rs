//! Greedy per-class non-maximum suppression.
//!
//! Candidates are filtered to those whose confidence lies in
//! `(obj_threshold, 1]`, partitioned by class, and suppressed class by
//! class: the highest-confidence box (the earliest on ties) is kept
//! and every remaining box of that class whose overlap with it
//! exceeds the threshold is discarded, until the class is exhausted.
//! Overlap is the symmetric intersection-over-union, compared against
//! the Q16.16 threshold exactly, by cross-multiplication.

use vstd::prelude::*;

use crate::detection::DetectionData;

verus! {

/// The positive part of an integer.
pub open spec fn pos(v: int) -> int {
    if v > 0 {
        v
    } else {
        0
    }
}

/// The overlap area of two boxes: the product of the positive spans
/// of the corner intersections.
pub open spec fn inter_area(a: DetectionData, b: DetectionData) -> int {
    pos(vstd::math::min(a.x2 as int, b.x2 as int) - vstd::math::max(a.x1 as int, b.x1 as int))
        * pos(vstd::math::min(a.y2 as int, b.y2 as int) - vstd::math::max(a.y1 as int, b.y1 as int))
}

/// The signed area of a box.
pub open spec fn box_area(a: DetectionData) -> int {
    (a.x2 - a.x1) * (a.y2 - a.y1)
}

/// The union area of two boxes.
pub open spec fn union_area(a: DetectionData, b: DetectionData) -> int {
    box_area(a) + box_area(b) - inter_area(a, b)
}

/// The intersection-over-union of `a` and `b` exceeds `thr / 65536`:
/// `inter / union > thr / 65536`, compared by cross-multiplication
/// over a positive union.
pub open spec fn iou_gt(a: DetectionData, b: DetectionData, thr: int) -> bool {
    union_area(a, b) > 0 && inter_area(a, b) * 65536 > thr * union_area(a, b)
}

/// The overlap measure is symmetric.
pub proof fn lemma_iou_symmetric(a: DetectionData, b: DetectionData, thr: int)
    ensures
        inter_area(a, b) == inter_area(b, a),
        union_area(a, b) == union_area(b, a),
        iou_gt(a, b, thr) == iou_gt(b, a, thr),
{
}

/// A box of positive area overlaps itself completely: the
/// intersection equals the union, so the ratio is one.
pub proof fn lemma_iou_self(a: DetectionData)
    requires
        a.x1 < a.x2,
        a.y1 < a.y2,
    ensures
        inter_area(a, a) == box_area(a),
        union_area(a, a) == box_area(a),
        inter_area(a, a) == union_area(a, a),
        union_area(a, a) > 0,
{
    assert(inter_area(a, a) == (a.x2 - a.x1) * (a.y2 - a.y1));
    assert(box_area(a) > 0) by (nonlinear_arith)
        requires
            a.x1 < a.x2,
            a.y1 < a.y2,
    ;
}

/// Boxes that do not overlap — separated along either axis — have an
/// intersection of zero, so the ratio is zero.
pub proof fn lemma_iou_disjoint(a: DetectionData, b: DetectionData)
    requires
        a.x2 <= b.x1 || b.x2 <= a.x1 || a.y2 <= b.y1 || b.y2 <= a.y1,
    ensures
        inter_area(a, b) == 0,
{
    let dx = vstd::math::min(a.x2 as int, b.x2 as int) - vstd::math::max(a.x1 as int, b.x1 as int);
    let dy = vstd::math::min(a.y2 as int, b.y2 as int) - vstd::math::max(a.y1 as int, b.y1 as int);
    assert(pos(dx) == 0 || pos(dy) == 0);
    assert(pos(dx) * pos(dy) == 0) by (nonlinear_arith)
        requires
            pos(dx) == 0 || pos(dy) == 0,
            pos(dx) >= 0,
            pos(dy) >= 0,
    ;
}

/// The overlap decision, executable: exact cross-multiplied
/// comparison in 128-bit arithmetic.
pub fn iou_exceeds(a: &DetectionData, b: &DetectionData, thr: i64) -> (r: bool)
    requires
        a.in_range(),
        b.in_range(),
        0 <= thr <= 65536,
    ensures
        r == iou_gt(*a, *b, thr as int),
{
    let dx: i64 = (if a.x2 < b.x2 {
        a.x2
    } else {
        b.x2
    }) - (if a.x1 > b.x1 {
        a.x1
    } else {
        b.x1
    });
    let dy: i64 = (if a.y2 < b.y2 {
        a.y2
    } else {
        b.y2
    }) - (if a.y1 > b.y1 {
        a.y1
    } else {
        b.y1
    });
    let pdx: i64 = if dx > 0 {
        dx
    } else {
        0
    };
    let pdy: i64 = if dy > 0 {
        dy
    } else {
        0
    };
    proof {
        crate::arith::lemma_mul_le_le(pdx as int, pdy as int, 0x2000000, 0x2000000);
        lemma_area_bounds(*a);
        lemma_area_bounds(*b);
    }
    let inter: i64 = pdx * pdy;
    let area_a: i64 = (a.x2 - a.x1) * (a.y2 - a.y1);
    let area_b: i64 = (b.x2 - b.x1) * (b.y2 - b.y1);
    let union_a: i64 = area_a + area_b - inter;
    if union_a > 0 {
        proof {
            crate::arith::lemma_mul_le_le(thr as int, union_a as int, 65536, 0xc000000000000);
        }
        (inter as i128) * 65536 > (thr as i128) * (union_a as i128)
    } else {
        false
    }
}

/// The intersection and union areas of two in-range boxes, as the
/// ratio's numerator and denominator.
pub fn iou_parts(a: &DetectionData, b: &DetectionData) -> (r: (i64, i64))
    requires
        a.in_range(),
        b.in_range(),
    ensures
        r.0 == inter_area(*a, *b),
        r.1 == union_area(*a, *b),
{
    let dx: i64 = (if a.x2 < b.x2 {
        a.x2
    } else {
        b.x2
    }) - (if a.x1 > b.x1 {
        a.x1
    } else {
        b.x1
    });
    let dy: i64 = (if a.y2 < b.y2 {
        a.y2
    } else {
        b.y2
    }) - (if a.y1 > b.y1 {
        a.y1
    } else {
        b.y1
    });
    let pdx: i64 = if dx > 0 {
        dx
    } else {
        0
    };
    let pdy: i64 = if dy > 0 {
        dy
    } else {
        0
    };
    proof {
        crate::arith::lemma_mul_le_le(pdx as int, pdy as int, 0x2000000, 0x2000000);
        lemma_area_bounds(*a);
        lemma_area_bounds(*b);
    }
    let inter: i64 = pdx * pdy;
    let area_a: i64 = (a.x2 - a.x1) * (a.y2 - a.y1);
    let area_b: i64 = (b.x2 - b.x1) * (b.y2 - b.y1);
    (inter, area_a + area_b - inter)
}

/// The area of an in-range box stays within 50 bits either way.
proof fn lemma_area_bounds(a: DetectionData)
    requires
        a.in_range(),
    ensures
        -0x4000000000000 <= box_area(a) <= 0x4000000000000,
{
    assert(-0x4000000000000 <= (a.x2 - a.x1) * (a.y2 - a.y1) <= 0x4000000000000)
        by (nonlinear_arith)
        requires
            -0x2000000 <= a.x2 - a.x1 <= 0x2000000,
            -0x2000000 <= a.y2 - a.y1 <= 0x2000000,
    ;
}

/// The boxes of `s` that do not overlap `d` beyond the threshold, in
/// order.
pub open spec fn keep_low(d: DetectionData, s: Seq<DetectionData>, thr: int) -> Seq<DetectionData>
    decreases s.len(),
{
    if s.len() == 0 {
        Seq::empty()
    } else if iou_gt(d, s.first(), thr) {
        keep_low(d, s.drop_first(), thr)
    } else {
        seq![s.first()] + keep_low(d, s.drop_first(), thr)
    }
}

/// The earliest index of the greatest confidence in a non-empty list.
pub open spec fn first_max_idx(s: Seq<DetectionData>) -> int
    decreases s.len(),
{
    if s.len() <= 1 {
        0
    } else {
        let sub = first_max_idx(s.drop_first());
        if s[0].confidence >= s[sub + 1].confidence {
            0
        } else {
            sub + 1
        }
    }
}

/// Greedy suppression of one class: keep the highest-confidence box
/// (the earliest on ties), drop every remaining box that overlaps it
/// beyond the threshold, and repeat.
pub open spec fn nms_spec(s: Seq<DetectionData>, thr: int) -> Seq<DetectionData>
    decreases s.len(),
    when s.len() >= 0
    via nms_spec_decreases
{
    if s.len() == 0 {
        Seq::empty()
    } else {
        let i = first_max_idx(s);
        seq![s[i]] + nms_spec(keep_low(s[i], s.remove(i), thr), thr)
    }
}

#[via_fn]
proof fn nms_spec_decreases(s: Seq<DetectionData>, thr: int) {
    if s.len() > 0 {
        let i = first_max_idx(s);
        lemma_first_max_in_bounds(s);
        lemma_keep_low_len(s[i], s.remove(i), thr);
    }
}

/// The earliest maximum's index is in bounds.
pub proof fn lemma_first_max_in_bounds(s: Seq<DetectionData>)
    requires
        s.len() > 0,
    ensures
        0 <= first_max_idx(s) < s.len(),
    decreases s.len(),
{
    if s.len() > 1 {
        lemma_first_max_in_bounds(s.drop_first());
    }
}

/// Suppression never lengthens a list.
pub proof fn lemma_keep_low_len(d: DetectionData, s: Seq<DetectionData>, thr: int)
    ensures
        keep_low(d, s, thr).len() <= s.len(),
    decreases s.len(),
{
    if s.len() > 0 {
        lemma_keep_low_len(d, s.drop_first(), thr);
    }
}


/// The greatest confidence in the list sits at the earliest maximum.
pub proof fn lemma_first_max_is_max(s: Seq<DetectionData>)
    requires
        s.len() > 0,
    ensures
        forall|m: int|
            0 <= m < s.len() ==> (#[trigger] s[m].confidence) <= s[first_max_idx(s)].confidence,
    decreases s.len(),
{
    if s.len() > 1 {
        lemma_first_max_is_max(s.drop_first());
        lemma_first_max_in_bounds(s.drop_first());
        let sub = first_max_idx(s.drop_first());
        assert forall|m: int| 0 <= m < s.len() implies (#[trigger] s[m].confidence)
            <= s[first_max_idx(s)].confidence by {
            if m > 0 {
                assert(s.drop_first()[m - 1] == s[m]);
                assert(s.drop_first()[sub] == s[sub + 1]);
            }
        }
    }
}

/// The earliest maximum is characterised by its two properties: no
/// confidence beats it, and every earlier one is strictly below it.
pub proof fn lemma_first_max_char(s: Seq<DetectionData>, i: int)
    requires
        0 <= i < s.len(),
        forall|m: int| 0 <= m < s.len() ==> (#[trigger] s[m].confidence) <= s[i].confidence,
        forall|m: int| 0 <= m < i ==> (#[trigger] s[m].confidence) < s[i].confidence,
    ensures
        first_max_idx(s) == i,
    decreases s.len(),
{
    if s.len() > 1 {
        let sub = first_max_idx(s.drop_first());
        lemma_first_max_in_bounds(s.drop_first());
        if i == 0 {
            assert(s[sub + 1].confidence == s.drop_first()[sub].confidence);
        } else {
            assert forall|m: int| 0 <= m < s.drop_first().len() implies (#[trigger] s.drop_first()[m].confidence)
                <= s.drop_first()[i - 1].confidence by {
                assert(s.drop_first()[m] == s[m + 1]);
                assert(s.drop_first()[i - 1] == s[i]);
            }
            assert forall|m: int| 0 <= m < i - 1 implies (#[trigger] s.drop_first()[m].confidence)
                < s.drop_first()[i - 1].confidence by {
                assert(s.drop_first()[m] == s[m + 1]);
                assert(s.drop_first()[i - 1] == s[i]);
            }
            lemma_first_max_char(s.drop_first(), i - 1);
            assert(s[0].confidence < s[i].confidence);
            assert(s.drop_first()[sub] == s[sub + 1]);
        }
    }
}

/// Suppression appended one box at a time: the new box stays exactly
/// when its overlap with the kept box does not exceed the threshold.
pub proof fn lemma_keep_low_snoc(d: DetectionData, s: Seq<DetectionData>, x: DetectionData, thr: int)
    ensures
        iou_gt(d, x, thr) ==> keep_low(d, s.push(x), thr) == keep_low(d, s, thr),
        !iou_gt(d, x, thr) ==> keep_low(d, s.push(x), thr) == keep_low(d, s, thr) + seq![x],
    decreases s.len(),
{
    if s.len() == 0 {
        assert(s.push(x).first() == x);
        assert(s.push(x).drop_first() =~= Seq::<DetectionData>::empty());
        if !iou_gt(d, x, thr) {
            assert(seq![x] + keep_low(d, Seq::<DetectionData>::empty(), thr) =~= keep_low(
                d,
                s,
                thr,
            ) + seq![x]);
        }
    } else {
        assert(s.push(x).first() == s.first());
        assert(s.push(x).drop_first() =~= s.drop_first().push(x));
        lemma_keep_low_snoc(d, s.drop_first(), x, thr);
        if !iou_gt(d, s.first(), thr) && !iou_gt(d, x, thr) {
            assert(seq![s.first()] + (keep_low(d, s.drop_first(), thr) + seq![x]) =~= (seq![
                s.first(),
            ] + keep_low(d, s.drop_first(), thr)) + seq![x]);
        }
    }
}

/// Every survivor of suppression came from the list and does not
/// overlap the kept box beyond the threshold.
pub proof fn lemma_keep_low_props(d: DetectionData, s: Seq<DetectionData>, thr: int)
    ensures
        forall|k: int|
            0 <= k < keep_low(d, s, thr).len() ==> s.contains(#[trigger] keep_low(d, s, thr)[k])
                && !iou_gt(d, keep_low(d, s, thr)[k], thr),
    decreases s.len(),
{
    if s.len() > 0 {
        lemma_keep_low_props(d, s.drop_first(), thr);
        assert forall|k: int| 0 <= k < keep_low(d, s, thr).len() implies s.contains(
            #[trigger] keep_low(d, s, thr)[k],
        ) && !iou_gt(d, keep_low(d, s, thr)[k], thr) by {
            let r = keep_low(d, s, thr);
            let rsub = keep_low(d, s.drop_first(), thr);
            if iou_gt(d, s.first(), thr) {
                assert(r[k] == rsub[k]);
                assert(s.drop_first().contains(rsub[k]));
                let w = choose|w: int| 0 <= w < s.drop_first().len() && s.drop_first()[w] == rsub[k];
                assert(s[w + 1] == rsub[k]);
            } else {
                if k == 0 {
                    assert(r[0] == s.first());
                    assert(s[0] == s.first());
                } else {
                    assert(r[k] == rsub[k - 1]);
                    assert(s.drop_first().contains(rsub[k - 1]));
                    let w = choose|w: int|
                        0 <= w < s.drop_first().len() && s.drop_first()[w] == rsub[k - 1];
                    assert(s[w + 1] == rsub[k - 1]);
                }
            }
        }
    }
}

/// When no box of the list overlaps the kept box beyond the
/// threshold, suppression keeps the list whole.
pub proof fn lemma_keep_low_all(d: DetectionData, s: Seq<DetectionData>, thr: int)
    requires
        forall|k: int| 0 <= k < s.len() ==> !iou_gt(d, #[trigger] s[k], thr),
    ensures
        keep_low(d, s, thr) == s,
    decreases s.len(),
{
    if s.len() > 0 {
        assert(s[0] == s.first());
        assert forall|k: int| 0 <= k < s.drop_first().len() implies !iou_gt(
            d,
            #[trigger] s.drop_first()[k],
            thr,
        ) by {
            assert(s.drop_first()[k] == s[k + 1]);
        }
        lemma_keep_low_all(d, s.drop_first(), thr);
        assert(seq![s.first()] + s.drop_first() =~= s);
    }
}

/// Every element of a list with one box removed came from the list.
proof fn lemma_remove_contains(s: Seq<DetectionData>, i: int, x: DetectionData)
    requires
        0 <= i < s.len(),
        s.remove(i).contains(x),
    ensures
        s.contains(x),
{
    let w = choose|w: int| 0 <= w < s.remove(i).len() && s.remove(i)[w] == x;
    if w < i {
        assert(s[w] == x);
    } else {
        assert(s[w + 1] == x);
    }
}

/// What greedy suppression returns: every survivor came from the
/// input, the survivors' confidences never increase, and no two
/// survivors overlap beyond the threshold, in either order.
pub proof fn lemma_nms_props(s: Seq<DetectionData>, thr: int)
    ensures
        forall|k: int|
            0 <= k < nms_spec(s, thr).len() ==> s.contains(#[trigger] nms_spec(s, thr)[k]),
        forall|k1: int, k2: int|
            0 <= k1 < k2 < nms_spec(s, thr).len() ==> (#[trigger] nms_spec(s, thr)[k1]).confidence
                >= (#[trigger] nms_spec(s, thr)[k2]).confidence,
        forall|k1: int, k2: int|
            0 <= k1 < k2 < nms_spec(s, thr).len() ==> !iou_gt(
                #[trigger] nms_spec(s, thr)[k1],
                #[trigger] nms_spec(s, thr)[k2],
                thr,
            ) && !iou_gt(nms_spec(s, thr)[k2], nms_spec(s, thr)[k1], thr),
    decreases s.len(),
{
    if s.len() > 0 {
        let i = first_max_idx(s);
        lemma_first_max_in_bounds(s);
        lemma_first_max_is_max(s);
        let d = s[i];
        let s2 = keep_low(d, s.remove(i), thr);
        lemma_keep_low_len(d, s.remove(i), thr);
        lemma_keep_low_props(d, s.remove(i), thr);
        lemma_nms_props(s2, thr);
        let r = nms_spec(s, thr);
        let rest = nms_spec(s2, thr);
        assert(r == seq![d] + rest);
        assert forall|k: int| 0 <= k < r.len() implies s.contains(#[trigger] r[k]) by {
            if k == 0 {
                assert(r[0] == d && s[i] == d);
            } else {
                assert(r[k] == rest[k - 1]);
                assert(s2.contains(rest[k - 1]));
                let w = choose|w: int| 0 <= w < s2.len() && s2[w] == rest[k - 1];
                assert(s.remove(i).contains(s2[w]));
                lemma_remove_contains(s, i, s2[w]);
            }
        }
        assert forall|k1: int, k2: int| 0 <= k1 < k2 < r.len() implies (#[trigger] r[k1]).confidence
            >= (#[trigger] r[k2]).confidence by {
            if k1 == 0 {
                assert(r[k2] == rest[k2 - 1]);
                assert(s2.contains(rest[k2 - 1]));
                let w = choose|w: int| 0 <= w < s2.len() && s2[w] == rest[k2 - 1];
                assert(s.remove(i).contains(s2[w]));
                lemma_remove_contains(s, i, s2[w]);
                let v = choose|v: int| 0 <= v < s.len() && s[v] == rest[k2 - 1];
                assert(s[v].confidence <= s[i].confidence);
            } else {
                assert(r[k1] == rest[k1 - 1] && r[k2] == rest[k2 - 1]);
            }
        }
        assert forall|k1: int, k2: int| 0 <= k1 < k2 < r.len() implies !iou_gt(
            #[trigger] r[k1],
            #[trigger] r[k2],
            thr,
        ) && !iou_gt(r[k2], r[k1], thr) by {
            if k1 == 0 {
                assert(r[k2] == rest[k2 - 1]);
                assert(s2.contains(rest[k2 - 1]));
                let w = choose|w: int| 0 <= w < s2.len() && s2[w] == rest[k2 - 1];
                assert(!iou_gt(d, s2[w], thr));
                lemma_iou_symmetric(d, s2[w], thr);
            } else {
                assert(r[k1] == rest[k1 - 1] && r[k2] == rest[k2 - 1]);
            }
        }
    }
}

/// Of two same-class boxes that overlap beyond the threshold, greedy
/// suppression keeps exactly the higher-confidence one — the first on
/// a tie.
pub proof fn lemma_nms_pair(a: DetectionData, b: DetectionData, thr: int)
    requires
        iou_gt(a, b, thr),
    ensures
        b.confidence > a.confidence ==> nms_spec(seq![a, b], thr) == seq![b],
        a.confidence >= b.confidence ==> nms_spec(seq![a, b], thr) == seq![a],
{
    let s = seq![a, b];
    assert(s.drop_first() =~= seq![b]);
    assert(first_max_idx(seq![b]) == 0);
    lemma_iou_symmetric(a, b, thr);
    assert(seq![b].first() == b && seq![a].first() == a);
    assert(seq![b].drop_first() =~= Seq::<DetectionData>::empty());
    assert(seq![a].drop_first() =~= Seq::<DetectionData>::empty());
    assert(keep_low(a, Seq::<DetectionData>::empty(), thr) == Seq::<DetectionData>::empty());
    assert(keep_low(b, Seq::<DetectionData>::empty(), thr) == Seq::<DetectionData>::empty());
    assert(nms_spec(Seq::<DetectionData>::empty(), thr) == Seq::<DetectionData>::empty());
    if a.confidence >= b.confidence {
        assert(first_max_idx(s) == 0);
        assert(s.remove(0) =~= seq![b]);
        assert(keep_low(a, seq![b], thr) == keep_low(a, seq![b].drop_first(), thr));
        assert(keep_low(a, seq![b], thr) == Seq::<DetectionData>::empty());
        assert(nms_spec(s, thr) == seq![s[0]] + nms_spec(
            keep_low(s[0], s.remove(0), thr),
            thr,
        ));
        assert(nms_spec(s, thr) =~= seq![a]);
    } else {
        assert(first_max_idx(s) == 1);
        assert(s.remove(1) =~= seq![a]);
        assert(keep_low(b, seq![a], thr) == keep_low(b, seq![a].drop_first(), thr));
        assert(keep_low(b, seq![a], thr) == Seq::<DetectionData>::empty());
        assert(nms_spec(s, thr) == seq![s[1]] + nms_spec(
            keep_low(s[1], s.remove(1), thr),
            thr,
        ));
        assert(nms_spec(s, thr) =~= seq![b]);
    }
}

/// Greedy suppression is idempotent: running it on its own output
/// changes nothing.
pub proof fn lemma_nms_idempotent(s: Seq<DetectionData>, thr: int)
    ensures
        nms_spec(nms_spec(s, thr), thr) == nms_spec(s, thr),
    decreases s.len(),
{
    if s.len() > 0 {
        let i = first_max_idx(s);
        lemma_first_max_in_bounds(s);
        let d = s[i];
        let s2 = keep_low(d, s.remove(i), thr);
        lemma_keep_low_len(d, s.remove(i), thr);
        lemma_nms_idempotent(s2, thr);
        lemma_nms_props(s, thr);
        let r = nms_spec(s, thr);
        let rest = nms_spec(s2, thr);
        assert(r == seq![d] + rest);
        assert(r.len() > 0 && r[0] == d);
        assert forall|m: int| 0 <= m < r.len() implies (#[trigger] r[m].confidence)
            <= r[0].confidence by {}
        lemma_first_max_char(r, 0);
        assert(r.remove(0) =~= rest);
        assert forall|k: int| 0 <= k < rest.len() implies !iou_gt(d, #[trigger] rest[k], thr) by {
            assert(r[k + 1] == rest[k]);
        }
        lemma_keep_low_all(d, rest, thr);
        assert(nms_spec(r, thr) == seq![d] + nms_spec(rest, thr));
        assert(nms_spec(rest, thr) == nms_spec(nms_spec(s2, thr), thr));
        assert(nms_spec(r, thr) == r);
    }
}

/// Greedy suppression of one class list.
pub fn nms(bb: &Vec<DetectionData>, nms_threshold: i64) -> (r: Vec<DetectionData>)
    requires
        forall|k: int| 0 <= k < bb@.len() ==> (#[trigger] bb@[k]).in_range(),
        0 <= nms_threshold <= 65536,
    ensures
        r@ == nms_spec(bb@, nms_threshold as int),
        forall|k: int| 0 <= k < r@.len() ==> (#[trigger] r@[k]).in_range(),
    decreases bb@.len(),
{
    let ghost thr: int = nms_threshold as int;
    let mut detections: Vec<DetectionData> = Vec::new();
    let mut ci: usize = 0;
    while ci < bb.len()
        invariant
            ci <= bb@.len(),
            detections@ == bb@.subrange(0, ci as int),
            forall|k: int| 0 <= k < bb@.len() ==> (#[trigger] bb@[k]).in_range(),
        decreases bb@.len() - ci,
    {
        detections.push(bb[ci]);
        proof {
            assert(detections@ =~= bb@.subrange(0, ci + 1));
        }
        ci = ci + 1;
    }
    proof {
        assert(bb@.subrange(0, bb@.len() as int) =~= bb@);
    }
    let mut keep: Vec<DetectionData> = Vec::new();
    while detections.len() > 0
        invariant
            forall|k: int| 0 <= k < detections@.len() ==> (#[trigger] detections@[k]).in_range(),
            forall|k: int| 0 <= k < keep@.len() ==> (#[trigger] keep@[k]).in_range(),
            0 <= nms_threshold <= 65536,
            thr == nms_threshold as int,
            nms_spec(bb@, thr) == keep@ + nms_spec(detections@, thr),
        decreases detections@.len(),
    {
        let ghost dets0: Seq<DetectionData> = detections@;
        let n: usize = detections.len();
        let mut mi: usize = 0;
        let mut j: usize = 1;
        while j < n
            invariant
                1 <= j <= n,
                mi < j,
                n == detections@.len(),
                forall|m: int|
                    0 <= m < j ==> (#[trigger] detections@[m].confidence)
                        <= detections@[mi as int].confidence,
                forall|m: int|
                    0 <= m < mi ==> (#[trigger] detections@[m].confidence)
                        < detections@[mi as int].confidence,
            decreases n - j,
        {
            if detections[j].confidence > detections[mi].confidence {
                mi = j;
            }
            j = j + 1;
        }
        proof {
            lemma_first_max_char(detections@, mi as int);
        }
        let d = detections.remove(mi);
        keep.push(d);
        let mut rest: Vec<DetectionData> = Vec::new();
        let mut t: usize = 0;
        proof {
            assert(detections@.subrange(0, 0) =~= Seq::<DetectionData>::empty());
        }
        while t < detections.len()
            invariant
                t <= detections@.len(),
                forall|k: int|
                    0 <= k < detections@.len() ==> (#[trigger] detections@[k]).in_range(),
                forall|k: int| 0 <= k < rest@.len() ==> (#[trigger] rest@[k]).in_range(),
                d.in_range(),
                0 <= nms_threshold <= 65536,
                thr == nms_threshold as int,
                rest@ == keep_low(d, detections@.subrange(0, t as int), thr),
            decreases detections@.len() - t,
        {
            let x = detections[t];
            proof {
                lemma_keep_low_snoc(d, detections@.subrange(0, t as int), x, thr);
                assert(detections@.subrange(0, t + 1) =~= detections@.subrange(0, t as int).push(
                    x,
                ));
            }
            if !iou_exceeds(&d, &x, nms_threshold) {
                rest.push(x);
            }
            t = t + 1;
        }
        proof {
            assert(detections@.subrange(0, detections@.len() as int) =~= detections@);
            assert(detections@ == dets0.remove(mi as int));
            assert(nms_spec(dets0, thr) == seq![d] + nms_spec(rest@, thr));
            assert((keep@.drop_last() + (seq![d] + nms_spec(rest@, thr))) =~= (keep@ + nms_spec(
                rest@,
                thr,
            )));
            lemma_keep_low_len(d, detections@, thr);
        }
        detections = rest;
    }
    proof {
        assert(keep@ + nms_spec(detections@, thr) =~= keep@);
    }
    keep
}

/// The boxes of one class whose confidence clears the object
/// threshold and does not exceed one, in order.
pub open spec fn class_filter(s: Seq<DetectionData>, c: int, obj: int) -> Seq<DetectionData>
    decreases s.len(),
{
    if s.len() == 0 {
        Seq::empty()
    } else if s.first().class == c && obj < s.first().confidence <= 65536 {
        seq![s.first()] + class_filter(s.drop_first(), c, obj)
    } else {
        class_filter(s.drop_first(), c, obj)
    }
}

/// The filter appended one box at a time.
pub proof fn lemma_class_filter_snoc(s: Seq<DetectionData>, x: DetectionData, c: int, obj: int)
    ensures
        x.class == c && obj < x.confidence <= 65536 ==> class_filter(s.push(x), c, obj)
            == class_filter(s, c, obj) + seq![x],
        !(x.class == c && obj < x.confidence <= 65536) ==> class_filter(s.push(x), c, obj)
            == class_filter(s, c, obj),
    decreases s.len(),
{
    if s.len() == 0 {
        assert(s.push(x).first() == x);
        assert(s.push(x).drop_first() =~= Seq::<DetectionData>::empty());
        if x.class == c && obj < x.confidence <= 65536 {
            assert(seq![x] + class_filter(Seq::<DetectionData>::empty(), c, obj) =~= class_filter(
                s,
                c,
                obj,
            ) + seq![x]);
        }
    } else {
        assert(s.push(x).first() == s.first());
        assert(s.push(x).drop_first() =~= s.drop_first().push(x));
        lemma_class_filter_snoc(s.drop_first(), x, c, obj);
        if s.first().class == c && obj < s.first().confidence <= 65536 && x.class == c && obj
            < x.confidence <= 65536 {
            assert(seq![s.first()] + (class_filter(s.drop_first(), c, obj) + seq![x]) =~= (seq![
                s.first(),
            ] + class_filter(s.drop_first(), c, obj)) + seq![x]);
        }
    }
}

/// Every filtered box came from the list.
proof fn lemma_class_filter_contains(s: Seq<DetectionData>, c: int, obj: int)
    ensures
        forall|k: int|
            0 <= k < class_filter(s, c, obj).len() ==> s.contains(
                #[trigger] class_filter(s, c, obj)[k],
            ),
    decreases s.len(),
{
    if s.len() > 0 {
        lemma_class_filter_contains(s.drop_first(), c, obj);
        assert forall|k: int| 0 <= k < class_filter(s, c, obj).len() implies s.contains(
            #[trigger] class_filter(s, c, obj)[k],
        ) by {
            let r = class_filter(s, c, obj);
            let rsub = class_filter(s.drop_first(), c, obj);
            if s.first().class == c && obj < s.first().confidence <= 65536 {
                if k == 0 {
                    assert(s[0] == s.first());
                } else {
                    assert(r[k] == rsub[k - 1]);
                    let w = choose|w: int|
                        0 <= w < s.drop_first().len() && s.drop_first()[w] == rsub[k - 1];
                    assert(s[w + 1] == rsub[k - 1]);
                }
            } else {
                assert(r[k] == rsub[k]);
                let w = choose|w: int| 0 <= w < s.drop_first().len() && s.drop_first()[w] == rsub[k];
                assert(s[w + 1] == rsub[k]);
            }
        }
    }
}

/// The per-class survivors, classes concatenated in order: class `0`
/// first.
pub open spec fn nms_classes(s: Seq<DetectionData>, c: int, obj: int, thr: int) -> Seq<
    DetectionData,
>
    decreases c,
{
    if c <= 0 {
        Seq::empty()
    } else {
        nms_classes(s, c - 1, obj, thr) + nms_spec(class_filter(s, c - 1, obj), thr)
    }
}

/// Filters candidates to `(obj_threshold, 1]` confidence, partitions
/// them by class, and suppresses each class greedily; the result is
/// the concatenation of the per-class survivors.
pub fn nms_process(
    bb: &Vec<DetectionData>,
    cls_num: usize,
    obj_threshold: i64,
    nms_threshold: i64,
) -> (r: Vec<DetectionData>)
    requires
        forall|k: int| 0 <= k < bb@.len() ==> (#[trigger] bb@[k]).in_range(),
        forall|k: int| 0 <= k < bb@.len() ==> (#[trigger] bb@[k]).class < cls_num,
        0 <= nms_threshold <= 65536,
        cls_num <= 256,
    ensures
        r@ == nms_classes(bb@, cls_num as int, obj_threshold as int, nms_threshold as int),
        forall|k: int| 0 <= k < r@.len() ==> (#[trigger] r@[k]).in_range(),
{
    let ghost obj: int = obj_threshold as int;
    let ghost thr: int = nms_threshold as int;
    let mut out: Vec<DetectionData> = Vec::new();
    let mut c: usize = 0;
    while c < cls_num
        invariant
            c <= cls_num,
            forall|k: int| 0 <= k < bb@.len() ==> (#[trigger] bb@[k]).in_range(),
            0 <= nms_threshold <= 65536,
            obj == obj_threshold as int,
            thr == nms_threshold as int,
            out@ == nms_classes(bb@, c as int, obj, thr),
            forall|k: int| 0 <= k < out@.len() ==> (#[trigger] out@[k]).in_range(),
        decreases cls_num - c,
    {
        let mut fv: Vec<DetectionData> = Vec::new();
        let mut t: usize = 0;
        proof {
            assert(bb@.subrange(0, 0) =~= Seq::<DetectionData>::empty());
        }
        while t < bb.len()
            invariant
                t <= bb@.len(),
                forall|k: int| 0 <= k < bb@.len() ==> (#[trigger] bb@[k]).in_range(),
                obj == obj_threshold as int,
                fv@ == class_filter(bb@.subrange(0, t as int), c as int, obj),
                forall|k: int| 0 <= k < fv@.len() ==> (#[trigger] fv@[k]).in_range(),
            decreases bb@.len() - t,
        {
            let x = bb[t];
            proof {
                lemma_class_filter_snoc(bb@.subrange(0, t as int), x, c as int, obj);
                assert(bb@.subrange(0, t + 1) =~= bb@.subrange(0, t as int).push(x));
            }
            if x.class as usize == c && x.confidence > obj_threshold && x.confidence <= 65536 {
                fv.push(x);
            }
            t = t + 1;
        }
        proof {
            assert(bb@.subrange(0, bb@.len() as int) =~= bb@);
        }
        let mut part = nms(&fv, nms_threshold);
        out.append(&mut part);
        c = c + 1;
    }
    out
}

} // verus!
