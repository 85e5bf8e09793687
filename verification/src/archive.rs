//! Loading of weights and biases from a gzip-compressed tar archive.
//!
//! The archive holds files named `weights<N>` and `biases<N>`, one per
//! stage index `N`; their bytes are little-endian signed Q8.8 samples.
//! Entries whose base name matches neither pattern are skipped, as are
//! the resource-fork entries some archivers add (a `._` prefix); a
//! matching name with malformed digits, an out-of-range stage index or
//! an odd byte count aborts loading.

use vstd::prelude::*;

use crate::controller::YoloController;
use crate::errors::YoloError;
use crate::hw::{DmaChannel, HwUnit, StreamSwitch};
use crate::layer_group::LayerGroup;

verus! {

/// What flate2's gzip decoder yields for a compressed stream: a
/// function of the bytes alone.
pub uninterp spec fn gunzip_of(bytes: Seq<u8>) -> Seq<u8>;

/// Whether the gzip decode of a stream succeeds: the in-memory decode
/// is deterministic, so this too is a function of the bytes alone.
pub uninterp spec fn gunzip_ok(bytes: Seq<u8>) -> bool;

/// The entry list of a tar archive, each entry's path and contents in
/// archive order: a function of the bytes alone.
pub uninterp spec fn tar_entries_of(bytes: Seq<u8>) -> Seq<(Seq<u8>, Seq<u8>)>;

/// Whether the tar parse of in-memory bytes succeeds: deterministic,
/// so a function of the bytes alone.
pub uninterp spec fn untar_ok(bytes: Seq<u8>) -> bool;

/// View of an owned entry list.
pub open spec fn entries_view(v: Seq<(Vec<u8>, Vec<u8>)>) -> Seq<(Seq<u8>, Seq<u8>)> {
    Seq::new(v.len(), |i: int| (v[i].0@, v[i].1@))
}

/// Relies on flate2::read::GzDecoder, read to the end: gzip
/// decompression of in-memory bytes, deterministic in the bytes.
#[verifier::external_body]
fn gunzip(bytes: &[u8]) -> (r: Result<Vec<u8>, YoloError>)
    ensures
        r is Ok <==> gunzip_ok(bytes@),
        r is Ok ==> r->Ok_0@ == gunzip_of(bytes@),
        r is Err ==> r->Err_0 == YoloError::ConfigError,
{
    let mut out: Vec<u8> = Vec::new();
    let mut dec = flate2::read::GzDecoder::new(bytes);
    match std::io::Read::read_to_end(&mut dec, &mut out) {
        Ok(_) => Ok(out),
        Err(_) => Err(YoloError::ConfigError),
    }
}

/// Relies on tar::Archive over in-memory bytes: the entry paths and
/// contents, in order, are a function of the bytes alone.
#[verifier::external_body]
fn untar(bytes: &[u8]) -> (r: Result<Vec<(Vec<u8>, Vec<u8>)>, YoloError>)
    ensures
        r is Ok <==> untar_ok(bytes@),
        r is Ok ==> entries_view(r->Ok_0@) == tar_entries_of(bytes@),
        r is Err ==> r->Err_0 == YoloError::ConfigError,
{
    let mut archive = tar::Archive::new(bytes);
    let mut out: Vec<(Vec<u8>, Vec<u8>)> = Vec::new();
    for entry in archive.entries().map_err(|_| YoloError::ConfigError)? {
        let mut entry = entry.map_err(|_| YoloError::ConfigError)?;
        let name = entry.path_bytes().into_owned();
        let mut data: Vec<u8> = Vec::new();
        std::io::Read::read_to_end(&mut entry, &mut data).map_err(|_| YoloError::ConfigError)?;
        out.push((name, data));
    }
    Ok(out)
}

/// The signed 16-bit value of a little-endian byte pair.
pub open spec fn le_i16_val(lo: u8, hi: u8) -> int {
    if hi >= 128 {
        lo + 256 * hi - 65536
    } else {
        lo + 256 * hi
    }
}

/// The sample sequence of a little-endian byte stream.
pub open spec fn data_to_i16(b: Seq<u8>) -> Seq<i16> {
    Seq::new((b.len() / 2) as nat, |i: int| le_i16_val(b[2 * i], b[2 * i + 1]) as i16)
}

/// Decodes one little-endian byte pair.
pub fn le_i16(lo: u8, hi: u8) -> (r: i16)
    ensures
        r == le_i16_val(lo, hi),
{
    let x: i32 = lo as i32 + 256 * (hi as i32);
    if x >= 32768 {
        (x - 65536) as i16
    } else {
        x as i16
    }
}

/// Decodes a little-endian byte stream into Q8.8 samples.
pub fn bytes_to_i16(b: &Vec<u8>) -> (r: Vec<i16>)
    requires
        b@.len() % 2 == 0,
    ensures
        r@ == data_to_i16(b@),
{
    let n: usize = b.len();
    let mut out: Vec<i16> = Vec::new();
    let mut i: usize = 0;
    while i + 1 < n
        invariant
            i % 2 == 0,
            i <= n,
            n == b@.len(),
            n % 2 == 0,
            out@ == data_to_i16(b@.subrange(0, i as int)),
            out@.len() == i / 2,
        decreases n - i,
    {
        let v: i16 = le_i16(b[i], b[i + 1]);
        out.push(v);
        proof {
            assert(out@ =~= data_to_i16(b@.subrange(0, i + 2)));
        }
        i = i + 2;
    }
    proof {
        assert(b@.subrange(0, b@.len() as int) =~= b@);
    }
    out
}

/// What an entry's base name asks of the loader.
#[derive(Clone, Copy, Debug, PartialEq, Eq, Structural)]
pub enum EntryAction {
    /// The entry matches neither naming pattern, or is an archiver's
    /// resource fork; it is ignored.
    Skip,
    /// `weights<N>`: load the data as stage `N`'s weights.
    SetWeights(usize),
    /// `biases<N>`: load the data as stage `N`'s biases.
    SetBiases(usize),
    /// A matching prefix with malformed or oversized digits.
    Malformed,
}

/// The decimal value of an all-digit byte string, if it is one.
pub open spec fn parse_dec(d: Seq<u8>) -> Option<int>
    decreases d.len(),
{
    if d.len() == 0 {
        None
    } else if !(48 <= d[d.len() - 1] <= 57) {
        None
    } else if d.len() == 1 {
        Some((d[0] - 48) as int)
    } else {
        match parse_dec(d.drop_last()) {
            Some(v) => Some(v * 10 + (d[d.len() - 1] - 48)),
            None => None,
        }
    }
}

/// The base name of an entry path: what follows the last separator,
/// with trailing separators ignored.
pub open spec fn base_name(p: Seq<u8>) -> Seq<u8>
    decreases p.len(),
{
    if p.len() == 0 {
        p
    } else if p[p.len() - 1] == 47 {
        base_name(p.drop_last())
    } else if p.contains(47u8) {
        base_name_after_slash(p)
    } else {
        p
    }
}

/// The suffix of `p` after its last separator, for a `p` that holds
/// one and does not end with one.
pub open spec fn base_name_after_slash(p: Seq<u8>) -> Seq<u8>
    decreases p.len(),
{
    if p.len() == 0 {
        p
    } else if p[p.len() - 1] == 47 {
        Seq::empty()
    } else {
        if p.drop_last().contains(47u8) || (p.len() >= 1 && p[0] == 47) {
            base_name_after_slash(p.drop_last()).push(p[p.len() - 1])
        } else {
            p
        }
    }
}

/// The prefix `weights`, as bytes.
pub open spec fn weights_prefix() -> Seq<u8> {
    seq![119u8, 101u8, 105u8, 103u8, 104u8, 116u8, 115u8]
}

/// The prefix `biases`, as bytes.
pub open spec fn biases_prefix() -> Seq<u8> {
    seq![98u8, 105u8, 97u8, 115u8, 101u8, 115u8]
}

/// What the loader does with a base name: resource forks and
/// non-matching names are skipped, a matching prefix takes its stage
/// index from the decimal digits that follow, and digits that are
/// missing, not decimal, or beyond `usize` are malformed.
pub open spec fn classify(name: Seq<u8>) -> EntryAction {
    if name.len() >= 2 && name[0] == 46 && name[1] == 95 {
        EntryAction::Skip
    } else if name.len() >= 6 && name.subrange(0, 6) == biases_prefix() {
        match parse_dec(name.skip(6)) {
            Some(v) => if v <= usize::MAX {
                EntryAction::SetBiases(v as usize)
            } else {
                EntryAction::Malformed
            },
            None => EntryAction::Malformed,
        }
    } else if name.len() >= 7 && name.subrange(0, 7) == weights_prefix() {
        match parse_dec(name.skip(7)) {
            Some(v) => if v <= usize::MAX {
                EntryAction::SetWeights(v as usize)
            } else {
                EntryAction::Malformed
            },
            None => EntryAction::Malformed,
        }
    } else {
        EntryAction::Skip
    }
}

/// The loadable part of a stage: the views of its weight and bias
/// buffers.
pub open spec fn wb_view(gs: Seq<LayerGroup>) -> Seq<(Option<Seq<i16>>, Option<Seq<i16>>)> {
    Seq::new(
        gs.len(),
        |i: int|
            (
                match gs[i].weights {
                    Some(w) => Some(w@),
                    None => None,
                },
                match gs[i].biases {
                    Some(b) => Some(b@),
                    None => None,
                },
            ),
    )
}

/// One entry applied to the loadable view of the stage list, or `None`
/// when the entry is malformed: a matching name with bad digits, a
/// stage index past the end of the list, or an odd byte count.
pub open spec fn apply_one(
    gs: Seq<(Option<Seq<i16>>, Option<Seq<i16>>)>,
    name: Seq<u8>,
    data: Seq<u8>,
) -> Option<Seq<(Option<Seq<i16>>, Option<Seq<i16>>)>> {
    match classify(base_name(name)) {
        EntryAction::Skip => Some(gs),
        EntryAction::Malformed => None,
        EntryAction::SetWeights(n) => if n < gs.len() && data.len() % 2 == 0 {
            Some(gs.update(n as int, (Some(data_to_i16(data)), gs[n as int].1)))
        } else {
            None
        },
        EntryAction::SetBiases(n) => if n < gs.len() && data.len() % 2 == 0 {
            Some(gs.update(n as int, (gs[n as int].0, Some(data_to_i16(data)))))
        } else {
            None
        },
    }
}

/// The whole entry list applied in order; a malformed entry aborts.
pub open spec fn apply_entries(
    gs: Seq<(Option<Seq<i16>>, Option<Seq<i16>>)>,
    e: Seq<(Seq<u8>, Seq<u8>)>,
) -> Option<Seq<(Option<Seq<i16>>, Option<Seq<i16>>)>>
    decreases e.len(),
{
    if e.len() == 0 {
        Some(gs)
    } else {
        match apply_one(gs, e[0].0, e[0].1) {
            Some(gs2) => apply_entries(gs2, e.skip(1)),
            None => None,
        }
    }
}

/// Computes the base name of an entry path.
pub fn file_name_of(p: &Vec<u8>) -> (r: Vec<u8>)
    ensures
        r@ == base_name(p@),
{
    let n: usize = p.len();
    let mut end: usize = n;
    while end > 0 && p[end - 1] == 47
        invariant
            end <= n,
            n == p@.len(),
            forall|j: int| end <= j < n ==> p@[j] == 47,
        decreases end,
    {
        end = end - 1;
    }
    let mut beg: usize = end;
    while beg > 0 && p[beg - 1] != 47
        invariant
            beg <= end <= n,
            n == p@.len(),
            forall|j: int| beg <= j < end ==> p@[j] != 47,
        decreases beg,
    {
        beg = beg - 1;
    }
    let mut out: Vec<u8> = Vec::new();
    let mut i: usize = beg;
    while i < end
        invariant
            beg <= i <= end <= n,
            n == p@.len(),
            out@ == p@.subrange(beg as int, i as int),
        decreases end - i,
    {
        out.push(p[i]);
        proof {
            assert(out@ =~= p@.subrange(beg as int, i + 1));
        }
        i = i + 1;
    }
    proof {
        lemma_base_name_subrange(p@, beg as int, end as int);
    }
    out
}

/// The base name of `p` is `p[beg .. end]` when everything from `end`
/// on is a separator, `p[beg .. end]` holds none, and `beg` is either
/// the start or preceded by one.
proof fn lemma_base_name_subrange(p: Seq<u8>, beg: int, end: int)
    requires
        0 <= beg <= end <= p.len(),
        forall|j: int| end <= j < p.len() ==> p[j] == 47,
        forall|j: int| beg <= j < end ==> p[j] != 47,
        beg > 0 ==> p[beg - 1] == 47,
        beg == end ==> beg == 0,
    ensures
        base_name(p) == p.subrange(beg, end),
    decreases p.len(),
{
    if end < p.len() {
        assert(p[p.len() - 1] == 47);
        lemma_base_name_subrange(p.drop_last(), beg, end);
        assert(p.drop_last().subrange(beg, end) =~= p.subrange(beg, end));
    } else if end == 0 {
        assert(p.len() == 0);
        assert(p.subrange(0, 0) =~= p);
    } else {
        assert(p[p.len() - 1] != 47);
        lemma_base_name_tail(p, beg);
    }
}

/// When `p` does not end with a separator, `p[beg ..]` holds none and
/// `beg` is the start or preceded by one, the base name is the suffix
/// from `beg`.
proof fn lemma_base_name_tail(p: Seq<u8>, beg: int)
    requires
        0 <= beg < p.len(),
        p[p.len() - 1] != 47,
        forall|j: int| beg <= j < p.len() ==> p[j] != 47,
        beg > 0 ==> p[beg - 1] == 47,
    ensures
        base_name(p) == p.subrange(beg, p.len() as int),
    decreases p.len(),
{
    if beg == 0 {
        if p.contains(47u8) {
            lemma_base_name_after_slash_tail(p, beg);
        } else {
            assert(p.subrange(0, p.len() as int) =~= p);
        }
    } else {
        assert(p.contains(47u8)) by {
            assert(p[beg - 1] == 47);
        }
        lemma_base_name_after_slash_tail(p, beg);
    }
}

/// The suffix form of the previous lemma, for the helper that walks
/// back to the last separator.
proof fn lemma_base_name_after_slash_tail(p: Seq<u8>, beg: int)
    requires
        0 <= beg < p.len(),
        p[p.len() - 1] != 47,
        forall|j: int| beg <= j < p.len() ==> p[j] != 47,
        beg > 0 ==> p[beg - 1] == 47,
        p.contains(47u8),
    ensures
        base_name_after_slash(p) == p.subrange(beg, p.len() as int),
        base_name(p) == p.subrange(beg, p.len() as int),
    decreases p.len(),
{
    assert(base_name(p) == base_name_after_slash(p));
    assert(beg > 0) by {
        if beg == 0 {
            let k = choose|k: int| 0 <= k < p.len() && p[k] == 47;
            assert(p[k] != 47);
        }
    }
    assert(p.drop_last().contains(47u8) || p[0] == 47) by {
        if beg - 1 < p.len() - 1 {
            assert(p.drop_last()[beg - 1] == 47);
        } else {
            assert(beg == p.len() - 1);
            if beg == 1 {
                assert(p[0] == 47);
            } else {
                assert(p.drop_last()[beg - 1] == 47);
            }
        }
    }
    if beg == p.len() - 1 {
        lemma_after_slash_empty_or_short(p.drop_last());
        assert(Seq::<u8>::empty().push(p[p.len() - 1]) =~= p.subrange(beg, p.len() as int));
    } else {
        assert(p.drop_last()[p.len() - 2] != 47);
        assert(p.drop_last()[beg - 1] == 47);
        assert(p.drop_last().contains(47u8));
        lemma_base_name_after_slash_tail(p.drop_last(), beg);
        assert(p.drop_last().subrange(beg, p.len() - 1).push(p[p.len() - 1]) =~= p.subrange(
            beg,
            p.len() as int,
        ));
    }
}

/// A path that ends with a separator contributes nothing after it.
proof fn lemma_after_slash_empty_or_short(p: Seq<u8>)
    requires
        p.len() > 0,
        p[p.len() - 1] == 47,
    ensures
        base_name_after_slash(p) == Seq::<u8>::empty(),
{
}

/// Classifies a base name.
pub fn classify_name(name: &Vec<u8>) -> (r: EntryAction)
    ensures
        r == classify(name@),
{
    let n: usize = name.len();
    if n >= 2 && name[0] == 46 && name[1] == 95 {
        return EntryAction::Skip;
    }
    if n >= 6 && name[0] == 98 && name[1] == 105 && name[2] == 97 && name[3] == 115 && name[4]
        == 101 && name[5] == 115 {
        proof {
            assert(name@.subrange(0, 6) =~= biases_prefix());
        }
        return match parse_digits(name, 6) {
            Some(v) => EntryAction::SetBiases(v),
            None => EntryAction::Malformed,
        };
    }
    proof {
        if name@.len() >= 6 && name@.subrange(0, 6) == biases_prefix() {
            assert(name@[0] == 98 && name@[1] == 105 && name@[2] == 97 && name@[3] == 115
                && name@[4] == 101 && name@[5] == 115) by {
                assert(name@.subrange(0, 6)[0] == 98);
                assert(name@.subrange(0, 6)[1] == 105);
                assert(name@.subrange(0, 6)[2] == 97);
                assert(name@.subrange(0, 6)[3] == 115);
                assert(name@.subrange(0, 6)[4] == 101);
                assert(name@.subrange(0, 6)[5] == 115);
            }
        }
    }
    if n >= 7 && name[0] == 119 && name[1] == 101 && name[2] == 105 && name[3] == 103 && name[4]
        == 104 && name[5] == 116 && name[6] == 115 {
        proof {
            assert(name@.subrange(0, 7) =~= weights_prefix());
        }
        return match parse_digits(name, 7) {
            Some(v) => EntryAction::SetWeights(v),
            None => EntryAction::Malformed,
        };
    }
    proof {
        if name@.len() >= 7 && name@.subrange(0, 7) == weights_prefix() {
            assert(name@[0] == 119 && name@[1] == 101 && name@[2] == 105 && name@[3] == 103
                && name@[4] == 104 && name@[5] == 116 && name@[6] == 115) by {
                assert(name@.subrange(0, 7)[0] == 119);
                assert(name@.subrange(0, 7)[1] == 101);
                assert(name@.subrange(0, 7)[2] == 105);
                assert(name@.subrange(0, 7)[3] == 103);
                assert(name@.subrange(0, 7)[4] == 104);
                assert(name@.subrange(0, 7)[5] == 116);
                assert(name@.subrange(0, 7)[6] == 115);
            }
        }
    }
    EntryAction::Skip
}

/// Parses the decimal digits of `name` from `from` on; `None` when a
/// byte is not a digit, there are none, or the value overflows.
fn parse_digits(name: &Vec<u8>, from: usize) -> (r: Option<usize>)
    requires
        from <= name@.len(),
    ensures
        (match parse_dec(name@.skip(from as int)) {
            Some(v) => if v <= usize::MAX {
                r == Some(v as usize)
            } else {
                r is None
            },
            None => r is None,
        }),
{
    let ghost d: Seq<u8> = name@.skip(from as int);
    let n: usize = name.len();
    if from == n {
        proof {
            assert(d.len() == 0);
        }
        return None;
    }
    let mut acc: usize = 0;
    let mut i: usize = from;
    while i < n
        invariant
            from <= i <= n,
            n == name@.len(),
            from < n,
            d == name@.skip(from as int),
            i == from ==> acc == 0,
            i > from ==> parse_dec(d.subrange(0, i - from)) == Some(acc as int),
        decreases n - i,
    {
        let c: u8 = name[i];
        proof {
            assert(d[i - from] == name@[i as int]);
        }
        if c < 48 || c > 57 {
            proof {
                lemma_parse_dec_bad(d, i - from);
            }
            return None;
        }
        let dd: usize = (c - 48) as usize;
        let ghost j: int = i - from;
        proof {
            if j == 0 {
                assert(d.subrange(0, 1).len() == 1);
                assert(d.subrange(0, 1)[0] == d[0]);
            } else {
                assert(d.subrange(0, j + 1).drop_last() =~= d.subrange(0, j));
                assert(d.subrange(0, j + 1)[j] == d[j]);
            }
            assert(parse_dec(d.subrange(0, j + 1)) == Some(acc * 10 + dd as int));
        }
        if acc > (usize::MAX - dd) / 10 {
            proof {
                lemma_parse_dec_grows(d, j + 1);
                assert(acc * 10 + dd > usize::MAX);
            }
            return None;
        }
        acc = acc * 10 + dd;
        i = i + 1;
    }
    proof {
        assert(d.subrange(0, d.len() as int) =~= d);
    }
    Some(acc)
}

/// A non-digit anywhere makes the whole string unparseable.
proof fn lemma_parse_dec_bad(d: Seq<u8>, i: int)
    requires
        0 <= i < d.len(),
        !(48 <= d[i] <= 57),
    ensures
        parse_dec(d) is None,
    decreases d.len(),
{
    if d.len() > 0 && i < d.len() - 1 {
        lemma_parse_dec_bad(d.drop_last(), i);
    }
}

/// A parsed value is never negative.
proof fn lemma_parse_dec_nonneg(d: Seq<u8>)
    ensures
        (match parse_dec(d) {
            Some(v) => v >= 0,
            None => true,
        }),
    decreases d.len(),
{
    if d.len() > 1 {
        lemma_parse_dec_nonneg(d.drop_last());
    }
}

/// A parsed prefix bounds the parse of the whole string from below:
/// appending digits never shrinks the value.
proof fn lemma_parse_dec_grows(d: Seq<u8>, i: int)
    requires
        0 < i <= d.len(),
    ensures
        (match parse_dec(d) {
            Some(v) => (match parse_dec(d.subrange(0, i)) {
                Some(w) => w <= v,
                None => true,
            }),
            None => true,
        }),
    decreases d.len() - i,
{
    if i == d.len() {
        assert(d.subrange(0, i) =~= d);
    } else {
        lemma_parse_dec_grows(d, i + 1);
        lemma_parse_dec_nonneg(d.subrange(0, i));
        assert(d.subrange(0, i + 1).drop_last() =~= d.subrange(0, i));
        if parse_dec(d.subrange(0, i)) is Some && 48 <= d[i] <= 57 {
            assert(parse_dec(d.subrange(0, i + 1))->0 == parse_dec(d.subrange(0, i))->0 * 10 + (
            d[i] - 48));
        }
        if parse_dec(d.subrange(0, i)) is Some && !(48 <= d[i] <= 57) {
            lemma_parse_dec_bad_prefix(d, i);
        }
    }
}

/// A non-digit at position `i` makes every extension past it
/// unparseable.
proof fn lemma_parse_dec_bad_prefix(d: Seq<u8>, i: int)
    requires
        0 <= i < d.len(),
        !(48 <= d[i] <= 57),
    ensures
        parse_dec(d) is None,
{
    lemma_parse_dec_bad(d, i);
}


/// Applies an entry list to the stage list, in order.  Succeeds
/// exactly when no entry is malformed; on success the stages' weight
/// and bias buffers are the applied view, and nothing else changes.
pub fn load_entries(groups: &mut Vec<LayerGroup>, entries: &Vec<(Vec<u8>, Vec<u8>)>) -> (r: Result<
    (),
    YoloError,
>)
    ensures
        final(groups)@.len() == old(groups)@.len(),
        forall|j: int|
            0 <= j < old(groups)@.len() ==> #[trigger] final(groups)@[j] == (LayerGroup {
                weights: final(groups)@[j].weights,
                biases: final(groups)@[j].biases,
                ..old(groups)@[j]
            }),
        r is Ok <==> apply_entries(wb_view(old(groups)@), entries_view(entries@)) is Some,
        r is Ok ==> wb_view(final(groups)@) == apply_entries(
            wb_view(old(groups)@),
            entries_view(entries@),
        )->0,
        r is Err ==> r->Err_0 == YoloError::ConfigError,
{
    let ghost full: Seq<(Seq<u8>, Seq<u8>)> = entries_view(entries@);
    proof {
        assert(full.skip(0) =~= full);
    }
    let n: usize = entries.len();
    let mut i: usize = 0;
    while i < n
        invariant
            i <= n,
            n == entries@.len(),
            full == entries_view(entries@),
            groups@.len() == old(groups)@.len(),
            forall|j: int|
                0 <= j < old(groups)@.len() ==> #[trigger] groups@[j] == (LayerGroup {
                    weights: groups@[j].weights,
                    biases: groups@[j].biases,
                    ..old(groups)@[j]
                }),
            apply_entries(wb_view(old(groups)@), full) == apply_entries(
                wb_view(groups@),
                full.skip(i as int),
            ),
        decreases n - i,
    {
        let ghost view_before: Seq<(Option<Seq<i16>>, Option<Seq<i16>>)> = wb_view(groups@);
        let ghost rem: Seq<(Seq<u8>, Seq<u8>)> = full.skip(i as int);
        proof {
            assert(rem[0] == full[i as int]);
            assert(rem.skip(1) =~= full.skip(i + 1));
        }
        let base = file_name_of(&entries[i].0);
        let action = classify_name(&base);
        match action {
            EntryAction::Skip => {},
            EntryAction::Malformed => {
                return Err(YoloError::ConfigError);
            },
            EntryAction::SetWeights(nidx) => {
                if nidx >= groups.len() {
                    return Err(YoloError::ConfigError);
                }
                if entries[i].1.len() % 2 != 0 {
                    return Err(YoloError::ConfigError);
                }
                let vals = bytes_to_i16(&entries[i].1);
                let g: &mut LayerGroup = &mut groups[nidx];
                g.weights = Some(vals);
                proof {
                    assert(wb_view(groups@) =~= view_before.update(
                        nidx as int,
                        (Some(data_to_i16(full[i as int].1)), view_before[nidx as int].1),
                    ));
                }
            },
            EntryAction::SetBiases(nidx) => {
                if nidx >= groups.len() {
                    return Err(YoloError::ConfigError);
                }
                if entries[i].1.len() % 2 != 0 {
                    return Err(YoloError::ConfigError);
                }
                let vals = bytes_to_i16(&entries[i].1);
                let g: &mut LayerGroup = &mut groups[nidx];
                g.biases = Some(vals);
                proof {
                    assert(wb_view(groups@) =~= view_before.update(
                        nidx as int,
                        (view_before[nidx as int].0, Some(data_to_i16(full[i as int].1))),
                    ));
                }
            },
        }
        i = i + 1;
    }
    proof {
        assert(full.skip(n as int).len() == 0);
    }
    Ok(())
}

impl<Sw: StreamSwitch, Dma: DmaChannel, Unit: HwUnit> YoloController<Sw, Dma, Unit> {
    /// Loads the stages' weights and biases from the bytes of a
    /// gzip-compressed tar archive holding `weights<N>` and `biases<N>`
    /// files of little-endian Q8.8 samples.  A corrupt stream or a
    /// malformed matching entry fails with `ConfigError`; nothing but
    /// weight and bias buffers changes.
    pub fn read_weights_and_biases(&mut self, archive_bytes: &[u8]) -> (r: Result<(), YoloError>)
        ensures
            final(self).poll_limit == old(self).poll_limit,
            final(self).layer_groups@.len() == old(self).layer_groups@.len(),
            forall|j: int|
                0 <= j < old(self).layer_groups@.len() ==> #[trigger] final(self).layer_groups@[j]
                    == (LayerGroup {
                    weights: final(self).layer_groups@[j].weights,
                    biases: final(self).layer_groups@[j].biases,
                    ..old(self).layer_groups@[j]
                }),
            r is Ok <==> gunzip_ok(archive_bytes@) && untar_ok(gunzip_of(archive_bytes@))
                && apply_entries(
                wb_view(old(self).layer_groups@),
                tar_entries_of(gunzip_of(archive_bytes@)),
            ) is Some,
            r is Ok ==> wb_view(final(self).layer_groups@) == apply_entries(
                wb_view(old(self).layer_groups@),
                tar_entries_of(gunzip_of(archive_bytes@)),
            )->0,
            r is Err ==> r->Err_0 == YoloError::ConfigError,
    {
        let tar_bytes = gunzip(archive_bytes)?;
        let entries = untar(tar_bytes.as_slice())?;
        load_entries(&mut self.layer_groups, &entries)
    }
}

} // verus!
