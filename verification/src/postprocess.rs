//! Raw-tensor rearrangement of the accelerator's YOLO output.
//!
//! The hardware emits, per spatial cell, eight groups of 32 channels
//! spread across the tensor; the reorder step gathers them into 256
//! contiguous channels per cell.  The reshape step splits each cell's
//! 256 channels into an 18-wide box/objectness array (six slots per
//! anchor, the sixth skipped by an index offset) and a parallel
//! class-score array.  Both steps are pure index permutations on the
//! raw Q8.8 samples, so they commute with the later fixed-point
//! widening.

use vstd::prelude::*;

verus! {

/// Source index of reordered slot `t`: the hardware stores channel
/// group `j` of cell `c` at `g*g*32*j + 32*c`, and the reordered array
/// stores cell `c` contiguously at `c*256`.
pub open spec fn reorder_src(g: int, t: int) -> int {
    g * g * 32 * ((t % 256) / 32) + 32 * (t / 256) + (t % 32)
}

/// The reordered tensor: 256 contiguous channels per cell.
pub open spec fn reorder_spec(arr: Seq<i16>, g: int) -> Seq<i16> {
    Seq::new((g * g * 256) as nat, |t: int| arr[reorder_src(g, t)])
}

/// Source channel of reshape slot `s` within a cell's 256 channels:
/// anchor `s / 6` at channel offset `s % 6`, with the sixth slot
/// skipping one channel.
pub open spec fn reshape_src(s: int) -> int {
    85 * (s / 6) + (s % 6) + (if s % 6 == 5 {
        1int
    } else {
        0int
    })
}

/// The 18-wide box/objectness tensor.
pub open spec fn reshape_spec(ro: Seq<i16>, g: int) -> Seq<i16> {
    Seq::new((g * g * 18) as nat, |t: int| ro[(t / 18) * 256 + reshape_src(t % 18)])
}

/// The parallel class-score tensor: `cls` scores per anchor, three
/// anchors per cell, taken from channels `85*j + 5` on.
pub open spec fn class_spec(ro: Seq<i16>, g: int, cls: int) -> Seq<i16> {
    Seq::new(
        (g * g * 3 * cls) as nat,
        |t: int| ro[(t / (3 * cls)) * 256 + 85 * ((t % (3 * cls)) / cls) + 5 + (t % cls)],
    )
}

/// Gathers each cell's eight channel groups into 256 contiguous
/// channels.
pub fn ch_reorder(arr: &Vec<i16>, grid_num: usize) -> (r: Vec<i16>)
    requires
        grid_num <= 64,
        arr@.len() >= grid_num * grid_num * 256,
    ensures
        r@ == reorder_spec(arr@, grid_num as int),
{
    let ghost g: int = grid_num as int;
    proof {
        crate::arith::lemma_mul_le_le(g, g, 64, 64);
    }
    let cells: usize = grid_num * grid_num;
    let mut reorder: Vec<i16> = Vec::new();
    let mut i: usize = 0;
    while i < cells
        invariant
            i <= cells,
            cells == grid_num * grid_num,
            grid_num <= 64,
            arr@.len() >= g * g * 256,
            g == grid_num as int,
            reorder@ == reorder_spec(arr@, g).subrange(0, i as int * 256),
        decreases cells - i,
    {
        let mut j: usize = 0;
        while j < 8
            invariant
                j <= 8,
                i < cells,
                cells == grid_num * grid_num,
                grid_num <= 64,
                arr@.len() >= g * g * 256,
                g == grid_num as int,
                reorder@ == reorder_spec(arr@, g).subrange(0, i as int * 256 + j as int * 32),
            decreases 8 - j,
        {
            let mut k: usize = 0;
            while k < 32
                invariant
                    k <= 32,
                    j < 8,
                    i < cells,
                    cells == grid_num * grid_num,
                    grid_num <= 64,
                    arr@.len() >= g * g * 256,
                    g == grid_num as int,
                    reorder@ == reorder_spec(arr@, g).subrange(
                        0,
                        i as int * 256 + j as int * 32 + k as int,
                    ),
                decreases 32 - k,
            {
                let ghost t: int = i as int * 256 + j as int * 32 + k as int;
                proof {
                    assert(t / 256 == i as int && (t % 256) / 32 == j as int && t % 32 == k as int)
                        by (nonlinear_arith)
                        requires
                            t == i as int * 256 + j as int * 32 + k as int,
                            0 <= (i as int),
                            0 <= (j as int) < 8,
                            0 <= (k as int) < 32,
                    ;
                    assert(g * g * 32 * j as int + 32 * i as int + (k as int) < g * g * 256 && 0 <= g
                        * g * 32 * j as int + 32 * i as int + k as int && i as int * 256 + j as int
                        * 32 + (k as int) < g * g * 256 && g * g * 256 <= 0x100000)
                        by (nonlinear_arith)
                        requires
                            0 <= (i as int) < g * g,
                            0 <= (j as int) < 8,
                            0 <= (k as int) < 32,
                            0 < g <= 64,
                    ;
                    assert(cells * 32 * j as int == g * g * 32 * j as int) by (nonlinear_arith)
                        requires
                            cells == g * g,
                    ;
                }
                let src: usize = cells * 32 * j + 32 * i + k;
                let v: i16 = arr[src];
                reorder.push(v);
                proof {
                    assert(reorder@ =~= reorder_spec(arr@, g).subrange(0, t + 1));
                }
                k = k + 1;
            }
            j = j + 1;
        }
        i = i + 1;
    }
    proof {
        assert(reorder_spec(arr@, g).subrange(0, cells as int * 256) =~= reorder_spec(arr@, g));
    }
    reorder
}

/// Splits each cell's 256 reordered channels into the 18-wide
/// box/objectness tensor and the class-score tensor.
pub fn ch_reshape(reorder_arr: &Vec<i16>, grid_num: usize, cls_num: usize) -> (r: (
    Vec<i16>,
    Vec<i16>,
))
    requires
        grid_num <= 64,
        1 <= cls_num <= 80,
        reorder_arr@.len() >= grid_num * grid_num * 256,
    ensures
        r.0@ == reshape_spec(reorder_arr@, grid_num as int),
        r.1@ == class_spec(reorder_arr@, grid_num as int, cls_num as int),
{
    let ghost g: int = grid_num as int;
    let ghost cls: int = cls_num as int;
    proof {
        crate::arith::lemma_mul_le_le(g, g, 64, 64);
    }
    let cells: usize = grid_num * grid_num;
    let mut reshape: Vec<i16> = Vec::new();
    let mut class: Vec<i16> = Vec::new();
    let mut c: usize = 0;
    while c < cells
        invariant
            c <= cells,
            cells == grid_num * grid_num,
            grid_num <= 64,
            1 <= cls_num <= 80,
            reorder_arr@.len() >= g * g * 256,
            g == grid_num as int,
            cls == cls_num as int,
            reshape@ == reshape_spec(reorder_arr@, g).subrange(0, c as int * 18),
            class@ == class_spec(reorder_arr@, g, cls).subrange(0, c as int * (3 * cls)),
        decreases cells - c,
    {
        let mut j: usize = 0;
        while j < 3
            invariant
                j <= 3,
                c < cells,
                cells == grid_num * grid_num,
                grid_num <= 64,
                1 <= cls_num <= 80,
                reorder_arr@.len() >= g * g * 256,
                g == grid_num as int,
                cls == cls_num as int,
                class@ == class_spec(reorder_arr@, g, cls).subrange(
                    0,
                    c as int * (3 * cls) + j as int * cls,
                ),
            decreases 3 - j,
        {
            let mut k: usize = 0;
            while k < cls_num
                invariant
                    k <= cls_num,
                    j < 3,
                    c < cells,
                    cells == grid_num * grid_num,
                    grid_num <= 64,
                    1 <= cls_num <= 80,
                    reorder_arr@.len() >= g * g * 256,
                    g == grid_num as int,
                    cls == cls_num as int,
                    class@ == class_spec(reorder_arr@, g, cls).subrange(
                        0,
                        c as int * (3 * cls) + j as int * cls + k as int,
                    ),
                decreases cls_num - k,
            {
                let ghost t: int = c as int * (3 * cls) + j as int * cls + k as int;
                proof {
                    assert(0 <= (j as int) * cls + (k as int) < 3 * cls && t == (c as int) * (3
                        * cls) + ((j as int) * cls + (k as int)) && t == (3 * (c as int) + (
                    j as int)) * cls + (k as int)) by (nonlinear_arith)
                        requires
                            t == c as int * (3 * cls) + j as int * cls + k as int,
                            0 <= (c as int),
                            0 <= (j as int) < 3,
                            0 <= (k as int) < cls,
                            1 <= cls,
                    ;
                    vstd::arithmetic::div_mod::lemma_fundamental_div_mod_converse(
                        t,
                        3 * cls,
                        c as int,
                        (j as int) * cls + (k as int),
                    );
                    vstd::arithmetic::div_mod::lemma_fundamental_div_mod_converse(
                        (j as int) * cls + (k as int),
                        cls,
                        j as int,
                        k as int,
                    );
                    vstd::arithmetic::div_mod::lemma_fundamental_div_mod_converse(
                        t,
                        cls,
                        3 * (c as int) + (j as int),
                        k as int,
                    );
                    assert((c as int) * 256 + 254 < g * g * 256) by (nonlinear_arith)
                        requires
                            0 <= (c as int) < g * g,
                            0 < g,
                    ;
                    assert(85 * j as int + 5 + (k as int) <= 254) by (nonlinear_arith)
                        requires
                            0 <= (j as int) < 3,
                            0 <= (k as int) < cls,
                            1 <= cls <= 80,
                    ;
                    assert(t < g * g * 3 * cls && g * g * 3 * cls <= 0x100000) by (nonlinear_arith)
                        requires
                            t == (c as int) * (3 * cls) + (j as int) * cls + (k as int),
                            0 <= (c as int) < g * g,
                            0 <= (j as int) < 3,
                            0 <= (k as int) < cls,
                            1 <= cls <= 80,
                            0 < g <= 64,
                    ;
                }
                let src: usize = c * 256 + 85 * j + 5 + k;
                let v: i16 = reorder_arr[src];
                class.push(v);
                proof {
                    assert(class@ =~= class_spec(reorder_arr@, g, cls).subrange(0, t + 1));
                }
                k = k + 1;
            }
            proof {
                assert((c as int) * (3 * cls) + (j as int + 1) * cls == (c as int) * (3 * cls) + (
                j as int) * cls + cls) by (nonlinear_arith);
            }
            j = j + 1;
        }
        let mut index: usize = 0;
        while index < 18
            invariant
                index <= 18,
                c < cells,
                cells == grid_num * grid_num,
                grid_num <= 64,
                reorder_arr@.len() >= g * g * 256,
                g == grid_num as int,
                reshape@ == reshape_spec(reorder_arr@, g).subrange(0, c as int * 18 + index as int),
            decreases 18 - index,
        {
            let ghost t: int = c as int * 18 + index as int;
            let offset: usize = if index % 6 == 5 {
                1
            } else {
                0
            };
            proof {
                assert(t / 18 == c as int && t % 18 == index as int) by (nonlinear_arith)
                    requires
                        t == c as int * 18 + index as int,
                        0 <= (c as int),
                        0 <= (index as int) < 18,
                ;
                assert((c as int) * 256 + 254 < g * g * 256) by (nonlinear_arith)
                    requires
                        0 <= (c as int) < g * g,
                        0 < g,
                ;
                assert(85 * (index as int / 6) + index as int % 6 + (if index as int % 6 == 5 {
                    1int
                } else {
                    0int
                }) <= 254) by (nonlinear_arith)
                    requires
                        0 <= (index as int) < 18,
                ;
                assert(t < g * g * 18 && g * g * 18 <= 0x100000) by (nonlinear_arith)
                    requires
                        t == (c as int) * 18 + (index as int),
                        0 <= (c as int) < g * g,
                        0 <= (index as int) < 18,
                        0 < g <= 64,
                ;
            }
            let src: usize = c * 256 + 85 * (index / 6) + index % 6 + offset;
            let v: i16 = reorder_arr[src];
            reshape.push(v);
            proof {
                assert(reshape@ =~= reshape_spec(reorder_arr@, g).subrange(0, t + 1));
            }
            index = index + 1;
        }
        proof {
            assert((c as int + 1) * (3 * cls) == (c as int) * (3 * cls) + 3 * cls)
                by (nonlinear_arith);
            assert((c as int + 1) * 18 == (c as int) * 18 + 18) by (nonlinear_arith);
        }
        c = c + 1;
    }
    proof {
        assert(reshape_spec(reorder_arr@, g).subrange(0, cells as int * 18) =~= reshape_spec(
            reorder_arr@,
            g,
        ));
        assert(cells as int * (3 * cls) == g * g * 3 * cls) by (nonlinear_arith)
            requires
                cells == g * g,
        ;
        assert(class_spec(reorder_arr@, g, cls).subrange(0, cells as int * (3 * cls))
            =~= class_spec(reorder_arr@, g, cls));
    }
    (reshape, class)
}

/// The earliest index of the greatest score in a non-empty score
/// list.
pub open spec fn argmax_low(s: Seq<i16>) -> int
    decreases s.len(),
{
    if s.len() <= 1 {
        0
    } else {
        let sub = argmax_low(s.drop_first());
        if s[0] >= s[sub + 1] {
            0
        } else {
            sub + 1
        }
    }
}

/// The earliest maximum's index is in bounds.
pub proof fn lemma_argmax_low_in_bounds(s: Seq<i16>)
    requires
        s.len() > 0,
    ensures
        0 <= argmax_low(s) < s.len(),
    decreases s.len(),
{
    if s.len() > 1 {
        lemma_argmax_low_in_bounds(s.drop_first());
    }
}

/// The earliest maximum is characterised by its two properties: no
/// score beats it, and every earlier one is strictly below it.
pub proof fn lemma_argmax_low_char(s: Seq<i16>, i: int)
    requires
        0 <= i < s.len(),
        forall|m: int| 0 <= m < s.len() ==> (#[trigger] s[m]) <= s[i],
        forall|m: int| 0 <= m < i ==> (#[trigger] s[m]) < s[i],
    ensures
        argmax_low(s) == i,
    decreases s.len(),
{
    if s.len() > 1 {
        let sub = argmax_low(s.drop_first());
        lemma_argmax_low_in_bounds(s.drop_first());
        if i == 0 {
            assert(s[sub + 1] == s.drop_first()[sub]);
        } else {
            assert forall|m: int| 0 <= m < s.drop_first().len() implies (#[trigger] s.drop_first()[m])
                <= s.drop_first()[i - 1] by {
                assert(s.drop_first()[m] == s[m + 1]);
                assert(s.drop_first()[i - 1] == s[i]);
            }
            assert forall|m: int| 0 <= m < i - 1 implies (#[trigger] s.drop_first()[m])
                < s.drop_first()[i - 1] by {
                assert(s.drop_first()[m] == s[m + 1]);
                assert(s.drop_first()[i - 1] == s[i]);
            }
            lemma_argmax_low_char(s.drop_first(), i - 1);
            assert(s[0] < s[i]);
            assert(s.drop_first()[sub] == s[sub + 1]);
        }
    }
}

/// The class of anchor slot `idx`: the index of the greatest score
/// among its `cls_num` scores, the lowest such index on ties.
pub fn get_cls_id(cls_concat: &Vec<i16>, idx: usize, cls_num: usize) -> (r: u8)
    requires
        1 <= cls_num <= 255,
        (idx + 1) * cls_num <= cls_concat@.len(),
    ensures
        r < cls_num,
        r as int == argmax_low(cls_concat@.subrange(idx * cls_num, idx * cls_num + cls_num)),
        forall|m: int|
            idx * cls_num <= m < idx * cls_num + cls_num ==> #[trigger] cls_concat@[m]
                <= cls_concat@[idx * cls_num + r as int],
        forall|m: int|
            idx * cls_num <= m < idx * cls_num + r as int ==> #[trigger] cls_concat@[m]
                < cls_concat@[idx * cls_num + r as int],
{
    let total: usize = cls_concat.len();
    proof {
        assert((idx as int) * cls_num + cls_num <= total) by (nonlinear_arith)
            requires
                (idx + 1) * (cls_num as int) <= total,
                0 <= (idx as int),
                1 <= (cls_num as int),
        ;
    }
    let ccnt: usize = idx * cls_num;
    let mut best: usize = 0;
    let mut k: usize = 1;
    while k < cls_num
        invariant
            1 <= k <= cls_num,
            best < k,
            ccnt == idx * cls_num,
            total == cls_concat@.len(),
            ccnt + cls_num <= total,
            forall|m: int|
                ccnt <= m < ccnt + k ==> #[trigger] cls_concat@[m] <= cls_concat@[ccnt + best],
            forall|m: int|
                ccnt <= m < ccnt + best ==> #[trigger] cls_concat@[m] < cls_concat@[ccnt + best],
        decreases cls_num - k,
    {
        if cls_concat[ccnt + k] > cls_concat[ccnt + best] {
            best = k;
        }
        k = k + 1;
    }
    proof {
        let seg = cls_concat@.subrange(ccnt as int, ccnt + cls_num);
        assert forall|m: int| 0 <= m < seg.len() implies (#[trigger] seg[m]) <= seg[best as int] by {
            assert(seg[m] == cls_concat@[ccnt + m]);
            assert(seg[best as int] == cls_concat@[ccnt + best]);
        }
        assert forall|m: int| 0 <= m < best implies (#[trigger] seg[m]) < seg[best as int] by {
            assert(seg[m] == cls_concat@[ccnt + m]);
            assert(seg[best as int] == cls_concat@[ccnt + best]);
        }
        lemma_argmax_low_char(seg, best as int);
    }
    best as u8
}

/// The reorder and reshape steps are exact inverses where they read: a
/// box slot of anchor `a` comes back from the box/objectness tensor,
/// and a score slot from the class tensor, each at the documented
/// position of the original cell.
pub proof fn lemma_reshape_reorder_inverse(ro: Seq<i16>, g: int, cls: int, c: int, s: int)
    requires
        0 < g,
        1 <= cls <= 80,
        ro.len() == g * g * 256,
        0 <= c < g * g,
        0 <= s < 255,
    ensures
        s % 85 < 5 ==> reshape_spec(ro, g)[c * 18 + 6 * (s / 85) + (s % 85)] == ro[c * 256 + s],
        5 <= s % 85 < 5 + cls ==> class_spec(ro, g, cls)[c * (3 * cls) + (s / 85) * cls + (s % 85
            - 5)] == ro[c * 256 + s],
{
    let a = s / 85;
    let t = s % 85;
    assert(0 <= a < 3 && s == 85 * a + t && 0 <= t < 85) by (nonlinear_arith)
        requires
            0 <= s < 255,
            a == s / 85,
            t == s % 85,
    ;
    if t < 5 {
        let idx = c * 18 + 6 * a + t;
        assert(0 <= idx < g * g * 18 && idx / 18 == c && idx % 18 == 6 * a + t) by (nonlinear_arith)
            requires
                idx == c * 18 + 6 * a + t,
                0 <= c < g * g,
                0 <= a < 3,
                0 <= t < 5,
                0 < g,
        ;
        assert((6 * a + t) / 6 == a && (6 * a + t) % 6 == t) by (nonlinear_arith)
            requires
                0 <= a < 3,
                0 <= t < 5,
        ;
        assert(reshape_src(idx % 18) == 85 * a + t);
    } else if t < 5 + cls {
        let idx = c * (3 * cls) + a * cls + (t - 5);
        assert(0 <= idx < g * g * 3 * cls && 0 <= a * cls + (t - 5) < 3 * cls && idx == c * (3
            * cls) + (a * cls + (t - 5))) by (nonlinear_arith)
            requires
                idx == c * (3 * cls) + a * cls + (t - 5),
                0 <= c < g * g,
                0 <= a < 3,
                5 <= t < 5 + cls,
                1 <= cls <= 80,
                0 < g,
        ;
        vstd::arithmetic::div_mod::lemma_fundamental_div_mod_converse(
            idx,
            3 * cls,
            c,
            a * cls + (t - 5),
        );
        vstd::arithmetic::div_mod::lemma_fundamental_div_mod_converse(
            a * cls + (t - 5),
            cls,
            a,
            t - 5,
        );
        assert(idx == (3 * c + a) * cls + (t - 5)) by (nonlinear_arith)
            requires
                idx == c * (3 * cls) + a * cls + (t - 5),
        ;
        vstd::arithmetic::div_mod::lemma_fundamental_div_mod_converse(
            idx,
            cls,
            3 * c + a,
            t - 5,
        );
    }
}

} // verus!
