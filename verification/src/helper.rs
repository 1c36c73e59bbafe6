//! Splitting a byte buffer at a separator byte or at a separator sequence.

use itertools::Itertools;
use vstd::prelude::*;
use vstd::slice::slice_subrange;

verus! {

/// The pieces of `s` between the occurrences of `sep`, in order. A piece may be
/// empty; there is always one piece more than there are separators.
///
/// Splitting the empty sequence gives one empty piece. Appending the separator
/// to `s` opens a new, empty piece; appending anything else extends the last one.
pub open spec fn split_on<T>(s: Seq<T>, sep: T) -> Seq<Seq<T>>
    decreases s.len(),
{
    if s.len() == 0 {
        seq![Seq::empty()]
    } else {
        let before = split_on(s.drop_last(), sep);
        if s.last() == sep {
            before.push(Seq::empty())
        } else {
            before.update(before.len() - 1, before.last().push(s.last()))
        }
    }
}

/// The pieces with `sep` put back between each two neighbours.
pub open spec fn join_with<T>(pieces: Seq<Seq<T>>, sep: T) -> Seq<T>
    decreases pieces.len(),
{
    if pieces.len() == 0 {
        Seq::empty()
    } else if pieces.len() == 1 {
        pieces[0]
    } else {
        join_with(pieces.drop_last(), sep).push(sep) + pieces.last()
    }
}

/// Whether `pat` occurs in `s` at index `i`.
pub open spec fn matches_at(s: Seq<u8>, pat: Seq<u8>, i: int) -> bool {
    0 <= i && i + pat.len() <= s.len() && s.subrange(i, i + pat.len()) == pat
}

/// A scan of `s` from index `i` on, with the current piece starting at `start`:
/// each occurrence of `sep` that the scan reaches ends the current piece, and
/// the scan goes on behind that occurrence. What follows the last occurrence
/// is no piece.
pub open spec fn scan_terminated(s: Seq<u8>, sep: Seq<u8>, start: int, i: int) -> Seq<Seq<u8>>
    decreases s.len() - i,
{
    if sep.len() == 0 || i < 0 || i + sep.len() > s.len() {
        Seq::empty()
    } else if matches_at(s, sep, i) {
        seq![s.subrange(start, i)] + scan_terminated(s, sep, i + sep.len(), i + sep.len())
    } else {
        scan_terminated(s, sep, start, i + 1)
    }
}

/// The pieces of `s` that an occurrence of `sep` ends, in order, taking the
/// leftmost occurrences that do not overlap.
pub open spec fn split_terminated(s: Seq<u8>, sep: Seq<u8>) -> Seq<Seq<u8>> {
    scan_terminated(s, sep, 0, 0)
}

/// The pieces, each with `sep` behind it, one after the other.
pub open spec fn join_terminated(pieces: Seq<Seq<u8>>, sep: Seq<u8>) -> Seq<u8>
    decreases pieces.len(),
{
    if pieces.len() == 0 {
        Seq::empty()
    } else {
        pieces.first() + sep + join_terminated(pieces.drop_first(), sep)
    }
}

/// The contents of each of the slices in `pieces`.
pub open spec fn contents(pieces: Seq<&[u8]>) -> Seq<Seq<u8>> {
    Seq::new(pieces.len(), |k: int| pieces[k]@)
}

/// No piece of a split holds the separator, and joining the pieces with the
/// separator gives the sequence back.
pub proof fn lemma_split_on_join<T>(s: Seq<T>, sep: T)
    ensures
        split_on(s, sep).len() >= 1,
        forall|k: int| 0 <= k < split_on(s, sep).len() ==> !(#[trigger] split_on(s, sep)[k]).contains(sep),
        join_with(split_on(s, sep), sep) == s,
    decreases s.len(),
{
    let pieces = split_on(s, sep);
    if s.len() == 0 {
        assert(join_with(pieces, sep) =~= s);
    } else {
        let before = split_on(s.drop_last(), sep);
        lemma_split_on_join(s.drop_last(), sep);
        if s.last() == sep {
            assert(pieces.drop_last() =~= before);
            assert(join_with(pieces, sep) =~= s);
        } else {
            let k = before.len() - 1;
            assert forall|j: int| 0 <= j < pieces.len() implies !(#[trigger] pieces[j]).contains(sep) by {
                if j == k {
                    if pieces[j].contains(sep) {
                        let m = choose|m: int| 0 <= m < pieces[j].len() && pieces[j][m] == sep;
                        assert(before[k][m] == sep);
                    }
                } else {
                    assert(pieces[j] == before[j]);
                }
            }
            assert(s.drop_last().push(s.last()) =~= s);
            if before.len() > 1 {
                assert(pieces.drop_last() =~= before.drop_last());
                assert(join_with(pieces, sep) =~= join_with(before, sep).push(s.last()));
            }
        }
    }
}

/// What a scan yields, each piece with the separator behind it, is the part
/// of the sequence from the start of the current piece on that the scan reads
/// up to the last separator; behind that there is no separator.
proof fn lemma_scan_joins(s: Seq<u8>, sep: Seq<u8>, start: int, i: int)
    requires
        sep.len() > 0,
        0 <= start <= i,
        start <= s.len(),
        forall|m: int| start <= m < i ==> !matches_at(s, sep, m),
    ensures
        ({
            let joined = join_terminated(scan_terminated(s, sep, start, i), sep);
            &&& start + joined.len() <= s.len()
            &&& joined == s.subrange(start, start + joined.len())
            &&& forall|m: int| start + joined.len() <= m ==> !matches_at(s, sep, m)
        }),
    decreases s.len() - i,
{
    let pieces = scan_terminated(s, sep, start, i);
    if i + sep.len() > s.len() {
        assert(join_terminated(pieces, sep) =~= s.subrange(start, start));
    } else if matches_at(s, sep, i) {
        let next = i + sep.len();
        let rest = scan_terminated(s, sep, next, next);
        lemma_scan_joins(s, sep, next, next);
        assert(pieces.drop_first() =~= rest);
        let joined = join_terminated(pieces, sep);
        assert(joined =~= s.subrange(start, i) + sep + join_terminated(rest, sep));
        assert(joined =~= s.subrange(start, start + joined.len()));
    } else {
        lemma_scan_joins(s, sep, start, i + 1);
    }
}

/// The pieces of a split, each with the separator behind it, make up the
/// sequence from its beginning up to the last separator that counts; what
/// follows holds no separator.
pub proof fn lemma_split_terminated_join(s: Seq<u8>, sep: Seq<u8>)
    requires
        sep.len() > 0,
    ensures
        ({
            let joined = join_terminated(split_terminated(s, sep), sep);
            &&& joined.len() <= s.len()
            &&& joined == s.take(joined.len() as int)
            &&& forall|m: int| joined.len() <= m ==> !matches_at(s, sep, m)
        }),
{
    lemma_scan_joins(s, sep, 0, 0);
}

/// Whether two byte slices hold the same bytes.
pub fn bytes_eq(a: &[u8], b: &[u8]) -> (equal: bool)
    ensures
        equal == (a@ == b@),
{
    if a.len() != b.len() {
        return false;
    }
    let mut i: usize = 0;
    while i < a.len()
        invariant
            a@.len() == b@.len(),
            i <= a@.len(),
            a@.take(i as int) == b@.take(i as int),
        decreases a@.len() - i,
    {
        if a[i] != b[i] {
            return false;
        }
        assert(a@.take(i + 1) =~= a@.take(i as int).push(a@[i as int]));
        assert(b@.take(i + 1) =~= b@.take(i as int).push(b@[i as int]));
        i = i + 1;
    }
    assert(a@ =~= a@.take(i as int));
    assert(b@ =~= b@.take(i as int));
    true
}

/// Splits `bytes` at each occurrence of `splitter`. The pieces borrow from
/// `bytes`; empty pieces are kept.
pub fn split_lines_by_byte<'a>(bytes: &'a [u8], splitter: u8) -> (pieces: Vec<&'a [u8]>)
    ensures
        contents(pieces@) == split_on(bytes@, splitter),
{
    let mut pieces: Vec<&'a [u8]> = Vec::new();
    let mut start: usize = 0;
    let mut i: usize = 0;
    assert(bytes@.take(0) =~= Seq::empty());
    assert(contents(pieces@).push(bytes@.subrange(0, 0)) =~= split_on(bytes@.take(0), splitter));
    while i < bytes.len()
        invariant
            start <= i <= bytes@.len(),
            contents(pieces@).push(bytes@.subrange(start as int, i as int)) == split_on(
                bytes@.take(i as int),
                splitter,
            ),
        decreases bytes@.len() - i,
    {
        let ghost closed = contents(pieces@);
        let ghost open = bytes@.subrange(start as int, i as int);
        assert(bytes@.take(i + 1).drop_last() =~= bytes@.take(i as int));
        if bytes[i] == splitter {
            pieces.push(slice_subrange(bytes, start, i));
            start = i + 1;
            assert(contents(pieces@) =~= closed.push(open));
            assert(bytes@.subrange(start as int, i + 1) =~= Seq::empty());
        } else {
            assert(open.push(bytes@[i as int]) =~= bytes@.subrange(start as int, i + 1));
            assert(closed.push(open).update(closed.len() as int, open.push(bytes@[i as int]))
                =~= closed.push(bytes@.subrange(start as int, i + 1)));
        }
        i = i + 1;
    }
    let ghost closed = contents(pieces@);
    pieces.push(slice_subrange(bytes, start, i));
    assert(bytes@.take(i as int) =~= bytes@);
    assert(contents(pieces@) =~= closed.push(bytes@.subrange(start as int, i as int)));
    pieces
}

/// A scan that meets no occurrence of `sep` between `i` and `j` is at `j` where
/// it was at `i`.
proof fn lemma_scan_skips(s: Seq<u8>, sep: Seq<u8>, start: int, i: int, j: int)
    requires
        sep.len() > 0,
        0 <= i <= j,
        forall|m: int| i <= m < j ==> !matches_at(s, sep, m),
    ensures
        scan_terminated(s, sep, start, i) == scan_terminated(s, sep, start, j),
    decreases j - i,
{
    if i < j {
        lemma_scan_skips(s, sep, start, i + 1, j);
    }
}

/// A scan that meets no occurrence of `sep` from `i` on yields no piece.
proof fn lemma_scan_ends(s: Seq<u8>, sep: Seq<u8>, start: int, i: int)
    requires
        sep.len() > 0,
        0 <= i,
        forall|m: int| i <= m ==> !matches_at(s, sep, m),
    ensures
        scan_terminated(s, sep, start, i) == Seq::<Seq<u8>>::empty(),
    decreases s.len() - i,
{
    if i + sep.len() <= s.len() {
        lemma_scan_ends(s, sep, start, i + 1);
    }
}

/// The indices at which `splitter` occurs in `bytes`, in increasing order,
/// overlapping occurrences included.
///
/// Calls `Itertools::positions` on the windows of `bytes` that are as long as
/// `splitter`. The contract claims what that adaptor documents: it yields the
/// index of every element that satisfies the predicate, counted from the start
/// and in the order of the iteration. The `i`-th window of a slice is its
/// part from `i` to `i + splitter.len()`.
#[verifier::external_body]
fn occurrences(bytes: &[u8], splitter: &[u8]) -> (positions: Vec<usize>)
    requires
        splitter@.len() > 0,
    ensures
        forall|k: int|
            0 <= k < positions@.len() ==> matches_at(bytes@, splitter@, #[trigger] positions@[k] as int),
        forall|i: int| #[trigger]
            matches_at(bytes@, splitter@, i) ==> exists|k: int|
                0 <= k < positions@.len() && #[trigger] positions@[k] == i,
        forall|j: int, k: int|
            0 <= j < k < positions@.len() ==> #[trigger] positions@[j] < #[trigger] positions@[k],
{
    bytes.windows(splitter.len()).positions(|window| bytes_eq(window, splitter)).collect()
}

/// Splits `bytes` into the pieces that an occurrence of `splitter` ends. Of two
/// occurrences that overlap the left one counts. What follows the last
/// occurrence is not returned. The pieces borrow from `bytes`.
pub fn split_lines_by_bytes<'a>(bytes: &'a [u8], splitter: &[u8]) -> (pieces: Vec<&'a [u8]>)
    requires
        splitter@.len() > 0,
    ensures
        contents(pieces@) == split_terminated(bytes@, splitter@),
{
    let splitter_positions = occurrences(bytes, splitter);
    let width = splitter.len();
    let mut start: usize = 0;
    let mut split_slices: Vec<&'a [u8]> = Vec::new();
    let mut k: usize = 0;
    assert(contents(split_slices@) =~= Seq::empty());
    while k < splitter_positions.len()
        invariant
            width == splitter@.len(),
            width > 0,
            k <= splitter_positions@.len(),
            start <= bytes@.len(),
            forall|j: int|
                0 <= j < splitter_positions@.len() ==> matches_at(
                    bytes@,
                    splitter@,
                    #[trigger] splitter_positions@[j] as int,
                ),
            forall|i: int| #[trigger]
                matches_at(bytes@, splitter@, i) ==> exists|j: int|
                    0 <= j < splitter_positions@.len() && #[trigger] splitter_positions@[j] == i,
            forall|i: int, j: int|
                0 <= i < j < splitter_positions@.len() ==> #[trigger] splitter_positions@[i]
                    < #[trigger] splitter_positions@[j],
            forall|j: int| 0 <= j < k ==> #[trigger] splitter_positions@[j] < start,
            contents(split_slices@) + scan_terminated(bytes@, splitter@, start as int, start as int)
                == split_terminated(bytes@, splitter@),
        decreases splitter_positions@.len() - k,
    {
        let pos = splitter_positions[k];
        assert(matches_at(bytes@, splitter@, pos as int));
        assert(bytes@.len() == bytes.len());
        if pos >= start {
            let ghost closed = contents(split_slices@);
            proof {
                assert forall|m: int| start <= m < pos implies !matches_at(bytes@, splitter@, m) by {
                    if matches_at(bytes@, splitter@, m) {
                        let j = choose|j: int|
                            0 <= j < splitter_positions@.len() && #[trigger] splitter_positions@[j] == m;
                        assert(j < k);
                    }
                }
                lemma_scan_skips(bytes@, splitter@, start as int, start as int, pos as int);
            }
            split_slices.push(slice_subrange(bytes, start, pos));
            assert(contents(split_slices@) =~= closed + seq![bytes@.subrange(start as int, pos as int)]);
            start = pos + width;
        }
        k = k + 1;
    }
    proof {
        assert forall|m: int| start <= m implies !matches_at(bytes@, splitter@, m) by {
            if matches_at(bytes@, splitter@, m) {
                let j = choose|j: int|
                    0 <= j < splitter_positions@.len() && #[trigger] splitter_positions@[j] == m;
            }
        }
        lemma_scan_ends(bytes@, splitter@, start as int, start as int);
    }
    split_slices
}

} // verus!
