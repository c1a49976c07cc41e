//! Copying bytes between one contiguous packet and a list of buffers.

use vstd::prelude::*;

verus! {

/// Sum of the lengths of `bufs`.
pub open spec fn total_len(bufs: Seq<Seq<u8>>) -> nat
    decreases bufs.len(),
{
    if bufs.len() == 0 {
        0
    } else {
        total_len(bufs.drop_last()) + bufs.last().len()
    }
}

/// `buf` after the first bytes of `data` have been copied over its start.
pub open spec fn put_spec(data: Seq<u8>, buf: Seq<u8>) -> Seq<u8> {
    Seq::new(buf.len(), |j: int| if j < data.len() { data[j] } else { buf[j] })
}

/// Writes `src[start..start + len]` over `dst[..len]`.
fn copy_prefix(dst: &mut [u8], src: &[u8], start: usize, len: usize)
    requires
        start + len <= src@.len(),
        len <= old(dst)@.len(),
    ensures
        final(dst)@.len() == old(dst)@.len(),
        forall|j: int| 0 <= j < len ==> final(dst)@[j] == src@[start + j],
        forall|j: int| len <= j < old(dst)@.len() ==> final(dst)@[j] == old(dst)@[j],
{
    let n = src.len();
    let mut k: usize = 0;
    while k < len
        invariant
            n == src@.len(),
            k <= len,
            start + len <= src@.len(),
            len <= old(dst)@.len(),
            dst@.len() == old(dst)@.len(),
            forall|j: int| 0 <= j < k ==> dst@[j] == src@[start + j],
            forall|j: int| k <= j < old(dst)@.len() ==> dst@[j] == old(dst)@[j],
        decreases len - k,
    {
        dst[k] = src[start + k];
        k = k + 1;
    }
}

/// Copies as much of `data` as fits into the start of `buf`, and returns how
/// many bytes were copied.
pub fn put(data: &[u8], buf: &mut [u8]) -> (r: usize)
    ensures
        r == if data@.len() <= old(buf)@.len() { data@.len() } else { old(buf)@.len() },
        final(buf)@ == put_spec(data@, old(buf)@),
{
    let len = if data.len() <= buf.len() { data.len() } else { buf.len() };
    copy_prefix(buf, data, 0, len);
    assert(buf@ =~= put_spec(data@, old(buf)@));
    len
}

/// The contents of each buffer in `bufs`.
pub open spec fn buffer_views(bufs: Seq<Vec<u8>>) -> Seq<Seq<u8>> {
    bufs.map_values(|b: Vec<u8>| b@)
}

/// `buf` after the bytes of `data` from position `start` on have been copied
/// over its start.
pub open spec fn scatter_one(data: Seq<u8>, start: nat, buf: Seq<u8>) -> Seq<u8> {
    Seq::new(buf.len(), |j: int| if start + j < data.len() { data[start + j] } else { buf[j] })
}

/// `bufs` after `data` has been spread over them in order, each buffer
/// taking the bytes that follow those taken by the buffers before it.
pub open spec fn scatter(data: Seq<u8>, bufs: Seq<Seq<u8>>) -> Seq<Seq<u8>> {
    Seq::new(bufs.len(), |i: int| scatter_one(data, total_len(bufs.take(i)), bufs[i]))
}

/// The smaller of two lengths.
pub open spec fn min_len(a: nat, b: nat) -> nat {
    if a <= b { a } else { b }
}

/// The total length of a prefix of a list of buffers never exceeds that of
/// a longer prefix.
pub proof fn lemma_total_len_take_monotone(bufs: Seq<Seq<u8>>, i: int, k: int)
    requires
        0 <= i <= k <= bufs.len(),
    ensures
        total_len(bufs.take(i)) <= total_len(bufs.take(k)),
    decreases k - i,
{
    if i < k {
        lemma_total_len_take_monotone(bufs, i, k - 1);
        assert(bufs.take(k).drop_last() =~= bufs.take(k - 1));
    }
}

/// Spreads `data` over `bufs` in order, filling each buffer before moving to
/// the next, and returns how many bytes were copied.
pub fn putv(data: &[u8], bufs: &mut Vec<Vec<u8>>) -> (r: usize)
    ensures
        r == min_len(data@.len(), total_len(buffer_views(old(bufs)@))),
        buffer_views(final(bufs)@) == scatter(data@, buffer_views(old(bufs)@)),
{
    let ghost old_bufs = buffer_views(bufs@);
    let mut offset: usize = 0;
    let mut remaining: usize = data.len();
    let n = bufs.len();
    let mut i: usize = 0;
    assert(old_bufs.take(0) =~= Seq::<Seq<u8>>::empty());
    while i < n && remaining != 0
        invariant
            n == bufs@.len(),
            n == old_bufs.len(),
            i <= n,
            offset + remaining == data@.len(),
            data@.len() <= usize::MAX,
            offset == min_len(data@.len(), total_len(old_bufs.take(i as int))),
            forall|k: int| 0 <= k < i ==> #[trigger] bufs@[k]@ == scatter(data@, old_bufs)[k],
            forall|k: int| i <= k < n ==> #[trigger] bufs@[k]@ == old_bufs[k],
        decreases n - i,
    {
        let blen = bufs[i].len();
        let len = if remaining <= blen { remaining } else { blen };
        proof {
            assert(old_bufs.take(i + 1).drop_last() =~= old_bufs.take(i as int));
        }
        if len != 0 {
            copy_prefix(bufs[i].as_mut_slice(), data, offset, len);
            offset = offset + len;
            remaining = remaining - len;
        }
        assert(bufs@[i as int]@ =~= scatter(data@, old_bufs)[i as int]);
        i = i + 1;
    }
    proof {
        if i < n {
            assert forall|k: int| i <= k < n implies #[trigger] bufs@[k]@ == scatter(data@, old_bufs)[k] by {
                lemma_total_len_take_monotone(old_bufs, i as int, k);
                assert(bufs@[k]@ =~= scatter(data@, old_bufs)[k]);
            }
            lemma_total_len_take_monotone(old_bufs, i as int, n as int);
        }
        assert(old_bufs.take(n as int) =~= old_bufs);
        assert(buffer_views(bufs@) =~= scatter(data@, old_bufs));
    }
    offset
}

/// The bytes of `bufs` one after another.
pub open spec fn concat(bufs: Seq<Seq<u8>>) -> Seq<u8>
    decreases bufs.len(),
{
    if bufs.len() == 0 {
        Seq::empty()
    } else {
        concat(bufs.drop_last()) + bufs.last()
    }
}

/// The concatenation of a list of buffers is as long as the buffers together.
pub proof fn lemma_concat_len(bufs: Seq<Seq<u8>>)
    ensures
        concat(bufs).len() == total_len(bufs),
    decreases bufs.len(),
{
    if bufs.len() > 0 {
        lemma_concat_len(bufs.drop_last());
    }
}

/// Byte `j` of buffer `i` stands in the concatenation right after the bytes
/// of the buffers before it.
pub proof fn lemma_concat_index(bufs: Seq<Seq<u8>>, i: int, j: int)
    requires
        0 <= i < bufs.len(),
        0 <= j < bufs[i].len(),
    ensures
        total_len(bufs.take(i)) + j < total_len(bufs),
        concat(bufs)[total_len(bufs.take(i)) + j] == bufs[i][j],
    decreases bufs.len(),
{
    let init = bufs.drop_last();
    lemma_concat_len(init);
    if i < bufs.len() - 1 {
        lemma_concat_index(init, i, j);
        assert(init.take(i) =~= bufs.take(i));
    } else {
        assert(bufs.take(i) =~= init);
    }
}

/// Sum of the lengths of `bufs`.
pub fn size(bufs: &[Vec<u8>]) -> (r: usize)
    requires
        total_len(buffer_views(bufs@)) <= usize::MAX,
    ensures
        r == total_len(buffer_views(bufs@)),
{
    let ghost views = buffer_views(bufs@);
    let n = bufs.len();
    let mut total: usize = 0;
    let mut i: usize = 0;
    assert(views.take(0) =~= Seq::<Seq<u8>>::empty());
    while i < n
        invariant
            n == bufs@.len(),
            views == buffer_views(bufs@),
            total_len(views) <= usize::MAX,
            i <= n,
            total == total_len(views.take(i as int)),
        decreases n - i,
    {
        proof {
            assert(views.take(i + 1).drop_last() =~= views.take(i as int));
            lemma_total_len_take_monotone(views, i + 1, n as int);
            assert(views.take(n as int) =~= views);
        }
        total = total + bufs[i].len();
        i = i + 1;
    }
    assert(views.take(n as int) =~= views);
    total
}

/// Writes `src` over `dst[start..start + src.len()]`.
fn copy_at(dst: &mut [u8], start: usize, src: &[u8])
    requires
        start + src@.len() <= old(dst)@.len(),
    ensures
        final(dst)@.len() == old(dst)@.len(),
        forall|j: int| 0 <= j < start ==> final(dst)@[j] == old(dst)@[j],
        forall|j: int| 0 <= j < src@.len() ==> final(dst)@[start + j] == src@[j],
{
    let n = src.len();
    let m = dst.len();
    let mut k: usize = 0;
    while k < n
        invariant
            n == src@.len(),
            m == dst@.len(),
            start + n <= m,
            k <= n,
            dst@.len() == old(dst)@.len(),
            forall|j: int| 0 <= j < start ==> dst@[j] == old(dst)@[j],
            forall|j: int| 0 <= j < k ==> dst@[start + j] == src@[j],
        decreases n - k,
    {
        dst[start + k] = src[k];
        k = k + 1;
    }
}

/// Copies the non-empty buffers of `bufs` one after another into `dst`,
/// which is exactly as long as they are together.
pub fn gather(bufs: &[Vec<u8>], dst: &mut [u8])
    requires
        old(dst)@.len() == total_len(buffer_views(bufs@)),
    ensures
        final(dst)@ == concat(buffer_views(bufs@)),
{
    let ghost views = buffer_views(bufs@);
    let n = bufs.len();
    let m = dst.len();
    let mut offset: usize = 0;
    let mut i: usize = 0;
    assert(views.take(0) =~= Seq::<Seq<u8>>::empty());
    while i < n
        invariant
            n == bufs@.len(),
            m == dst@.len(),
            views == buffer_views(bufs@),
            dst@.len() == total_len(views),
            i <= n,
            offset == total_len(views.take(i as int)),
            forall|j: int| 0 <= j < offset ==> dst@[j] == concat(views.take(i as int))[j],
        decreases n - i,
    {
        proof {
            assert(views.take(i + 1).drop_last() =~= views.take(i as int));
            lemma_total_len_take_monotone(views, i + 1, n as int);
            assert(views.take(n as int) =~= views);
            lemma_concat_len(views.take(i as int));
        }
        let buf = &bufs[i];
        if buf.len() != 0 {
            copy_at(dst, offset, buf.as_slice());
            offset = offset + buf.len();
        }
        i = i + 1;
    }
    proof {
        assert(views.take(n as int) =~= views);
        lemma_concat_len(views);
        assert(dst@ =~= concat(views));
    }
}

/// Buffers of the same lengths hold the same number of bytes together.
pub proof fn lemma_total_len_same_lengths(a: Seq<Seq<u8>>, b: Seq<Seq<u8>>)
    requires
        a.len() == b.len(),
        forall|i: int| 0 <= i < a.len() ==> #[trigger] a[i].len() == b[i].len(),
    ensures
        total_len(a) == total_len(b),
    decreases a.len(),
{
    if a.len() > 0 {
        lemma_total_len_same_lengths(a.drop_last(), b.drop_last());
    }
}

/// Spreading the concatenation of some buffers over buffers of the same
/// lengths gives back the original buffers.
pub proof fn lemma_scatter_concat(bufs: Seq<Seq<u8>>, into: Seq<Seq<u8>>)
    requires
        into.len() == bufs.len(),
        forall|i: int| 0 <= i < bufs.len() ==> #[trigger] into[i].len() == bufs[i].len(),
    ensures
        scatter(concat(bufs), into) == bufs,
{
    assert forall|i: int| 0 <= i < bufs.len() implies #[trigger] scatter(concat(bufs), into)[i]
        == bufs[i] by {
        lemma_total_len_same_lengths(into.take(i), bufs.take(i));
        assert forall|j: int| 0 <= j < bufs[i].len() implies scatter(concat(bufs), into)[i][j]
            == bufs[i][j] by {
            lemma_concat_index(bufs, i, j);
            lemma_concat_len(bufs);
        }
        assert(scatter(concat(bufs), into)[i] =~= bufs[i]);
    }
    assert(scatter(concat(bufs), into) =~= bufs);
}

} // verus!
