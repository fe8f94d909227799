use crate::ring::{be16_value, SharedRegion};
use vstd::arithmetic::div_mod::{lemma_div_is_ordered, lemma_fundamental_div_mod, lemma_mod_bound};
use vstd::prelude::*;

verus! {

/// Physical index of the byte `off` places after `base` in a ring of `cap`
/// bytes; meaningful for `0 <= base` and `base + off < 2 * cap`.
pub open spec fn ring_idx(cap: int, base: int, off: int) -> int {
    if base + off < cap {
        base + off
    } else {
        base + off - cap
    }
}

/// The offset of physical index `j` from `pos`, walking forward around the
/// ring: the inverse of `ring_idx` for offsets below `cap`.
pub open spec fn ring_offset(cap: int, pos: int, j: int) -> int {
    if j >= pos {
        j - pos
    } else {
        j - pos + cap
    }
}

/// The data area after `content` has been laid into the ring starting at
/// `pos`, wrapping past the end.
pub open spec fn ring_store(data: Seq<u8>, cap: int, pos: int, content: Seq<u8>) -> Seq<u8> {
    Seq::new(cap as nat, |j: int|
        if ring_offset(cap, pos, j) < content.len() {
            content[ring_offset(cap, pos, j)]
        } else {
            data[j]
        })
}

/// A read cursor equal to the capacity marks a wraparound and stands for
/// position zero.
pub open spec fn norm_pos(cap: int, rp: int) -> int {
    if rp == cap {
        0
    } else {
        rp
    }
}

/// The length announced by the 2-byte big-endian header at normalized
/// position `nrp`, whose two bytes may themselves wrap.
pub open spec fn frame_len(data: Seq<u8>, cap: int, nrp: int) -> int {
    be16_value(data[nrp], data[ring_idx(cap, nrp, 1)])
}

/// The `len` payload bytes that follow the header at normalized position
/// `nrp`, wrapping past the end of the ring.
pub open spec fn frame_payload(data: Seq<u8>, cap: int, nrp: int, len: int) -> Seq<u8> {
    Seq::new(len as nat, |i: int| data[ring_idx(cap, nrp, 2 + i)])
}

/// The read cursor after consuming the frame at `nrp`. A frame that ends
/// exactly at the physical end leaves the cursor at `cap`, to be normalized
/// to zero on the next read; an empty frame whose header filled the last two
/// bytes leaves it at zero directly.
pub open spec fn next_read_pos(cap: int, nrp: int, len: int) -> int {
    if len > 0 && nrp + 2 + len == cap {
        cap
    } else {
        ring_idx(cap, nrp, 2 + len)
    }
}

/// Whether the region holds a decodable frame at read cursor `rp`: the
/// cursor is in bounds and the announced frame fits the ring.
pub open spec fn can_decode(data: Seq<u8>, cap: int, rp: int) -> bool {
    &&& 0 <= rp <= cap
    &&& frame_len(data, cap, norm_pos(cap, rp)) + 2 <= cap
}

/// The byte image of a frame: 2-byte big-endian length, then the payload.
pub open spec fn frame_bytes(payload: Seq<u8>) -> Seq<u8> {
    seq![(payload.len() / 256) as u8, (payload.len() % 256) as u8] + payload
}

/// Why a frame could not be read.
#[derive(Clone, Copy, Debug, PartialEq, Eq, Structural)]
pub enum FrameError {
    /// The stored read cursor lies beyond the capacity.
    CursorOutOfBounds,
    /// The announced frame does not fit the ring.
    Oversized,
    /// The payload bytes are not valid UTF-8 (raised only when text is
    /// requested).
    InvalidUtf8,
}

/// Read one length-prefixed frame at the stored read cursor, copy its
/// payload out of the ring and persist the advanced cursor. The data area
/// and the write cursor are never touched; on failure the read cursor is
/// left as it was.
#[verifier::rlimit(100)]
#[verifier::loop_isolation(false)]
pub fn read_frame(region: &mut SharedRegion) -> (r: Result<Vec<u8>, FrameError>)
    requires
        old(region).wf(),
    ensures
        final(region).wf(),
        final(region).spec_capacity() == old(region).spec_capacity(),
        final(region).spec_data() == old(region).spec_data(),
        final(region).spec_write_pos() == old(region).spec_write_pos(),
        ({
            let cap = old(region).spec_capacity();
            let rp = old(region).spec_read_pos();
            let data = old(region).spec_data();
            let nrp = norm_pos(cap, rp);
            let len = frame_len(data, cap, nrp);
            match r {
                Ok(payload) => {
                    &&& can_decode(data, cap, rp)
                    &&& payload@ == frame_payload(data, cap, nrp, len)
                    &&& final(region).spec_read_pos() == next_read_pos(cap, nrp, len)
                },
                Err(e) => {
                    &&& !can_decode(data, cap, rp)
                    &&& final(region).spec_read_pos() == rp
                    &&& (e == FrameError::CursorOutOfBounds <==> rp > cap)
                    &&& (e == FrameError::Oversized <==> rp <= cap && len + 2 > cap)
                },
            }
        }),
{
    proof {
        region.lemma_wf();
    }
    let ghost data = region.spec_data();
    let cap = region.capacity();
    let stored = region.read_pos() as usize;
    if stored > cap {
        return Err(FrameError::CursorOutOfBounds);
    }
    let mut rp = stored;
    if rp == cap {
        rp = 0;
    }
    let ghost nrp = rp as int;
    let remaining = cap - rp;
    let len: usize;
    let pstart: usize;
    let prem: usize;
    if remaining == 1 {
        let hi = region.get_u8(rp);
        let lo = region.get_u8(0);
        len = hi as usize * 256 + lo as usize;
        pstart = 1;
        prem = cap - 1;
    } else if remaining == 2 {
        let l = region.get_u16(rp);
        len = l as usize;
        pstart = 0;
        prem = 0;
    } else {
        let l = region.get_u16(rp);
        len = l as usize;
        pstart = rp + 2;
        prem = remaining - 2;
    }
    proof {
        assert(len == frame_len(data, cap as int, nrp));
    }
    if len + 2 > cap {
        return Err(FrameError::Oversized);
    }
    let mut out: Vec<u8> = Vec::new();
    if len <= prem {
        let mut i: usize = 0;
        while i < len
            invariant
                region.wf(),
                *region == *old(region),
                region.spec_capacity() == cap,
                region.spec_data() == data,
                i <= len,
                len <= prem,
                pstart + len <= cap,
                out@ == Seq::new(i as nat, |k: int| data[pstart + k]),
            decreases len - i,
        {
            let b = region.get_u8(pstart + i);
            out.push(b);
            proof {
                assert(out@ =~= Seq::new((i + 1) as nat, |k: int| data[pstart + k]));
            }
            i = i + 1;
        }
        region.set_read_pos((pstart + len) as u32);
        proof {
            assert(out@ =~= frame_payload(data, cap as int, nrp, len as int));
        }
        Ok(out)
    } else {
        let mut i: usize = 0;
        while i < prem
            invariant
                region.wf(),
                *region == *old(region),
                region.spec_capacity() == cap,
                region.spec_data() == data,
                i <= prem,
                out@ == Seq::new(i as nat, |k: int| data[pstart + k]),
            decreases prem - i,
        {
            let b = region.get_u8(pstart + i);
            out.push(b);
            proof {
                assert(out@ =~= Seq::new((i + 1) as nat, |k: int| data[pstart + k]));
            }
            i = i + 1;
        }
        let head = len - prem;
        let mut j: usize = 0;
        while j < head
            invariant
                region.wf(),
                *region == *old(region),
                region.spec_capacity() == cap,
                region.spec_data() == data,
                j <= head,
                head <= cap,
                pstart + prem == cap || (pstart == 0 && prem == 0),
                out@ == Seq::new(prem as nat, |k: int| data[pstart + k]) + Seq::new(
                    j as nat,
                    |k: int| data[k],
                ),
            decreases head - j,
        {
            let b = region.get_u8(j);
            out.push(b);
            proof {
                assert(out@ =~= Seq::new(prem as nat, |k: int| data[pstart + k]) + Seq::new(
                    (j + 1) as nat,
                    |k: int| data[k],
                ));
            }
            j = j + 1;
        }
        region.set_read_pos(head as u32);
        proof {
            assert(out@ =~= frame_payload(data, cap as int, nrp, len as int));
        }
        Ok(out)
    }
}

/// Lay a frame for `payload` into the ring at `pos`: the 2-byte big-endian
/// length header followed by the payload bytes, wrapping past the end. The
/// cursor fields are untouched.
#[verifier::loop_isolation(false)]
pub fn write_frame(region: &mut SharedRegion, pos: usize, payload: &Vec<u8>)
    requires
        old(region).wf(),
        pos < old(region).spec_capacity(),
        payload@.len() + 2 <= old(region).spec_capacity(),
        payload@.len() <= 0xFFFF,
    ensures
        final(region).wf(),
        final(region).spec_capacity() == old(region).spec_capacity(),
        final(region).spec_read_pos() == old(region).spec_read_pos(),
        final(region).spec_write_pos() == old(region).spec_write_pos(),
        final(region).spec_data() == ring_store(
            old(region).spec_data(),
            old(region).spec_capacity(),
            pos as int,
            frame_bytes(payload@),
        ),
{
    proof {
        region.lemma_wf();
    }
    let ghost data0 = region.spec_data();
    let ghost content = frame_bytes(payload@);
    let cap = region.capacity();
    let n = payload.len();
    let hi = (n / 256) as u8;
    let lo = (n % 256) as u8;
    proof {
        lemma_fundamental_div_mod(n as int, 256);
        lemma_div_is_ordered(n as int, 0xFFFF, 256);
        assert(0xFFFFint / 256 == 255);
        lemma_mod_bound(n as int, 256);
        assert(content[0] == hi && content[1] == lo);
        assert(forall|k: int| 2 <= k < n + 2 ==> content[k] == payload@[k - 2]);
    }
    proof {
        assert(ring_store(data0, cap as int, pos as int, content.take(0)) =~= data0);
    }
    let mut k: usize = 0;
    while k < n + 2
        invariant
            region.wf(),
            region.spec_capacity() == cap,
            region.spec_read_pos() == old(region).spec_read_pos(),
            region.spec_write_pos() == old(region).spec_write_pos(),
            k <= n + 2,
            n + 2 <= cap,
            n == payload@.len(),
            pos < cap,
            content == frame_bytes(payload@),
            content.len() == n + 2,
            content[0] == hi,
            content[1] == lo,
            forall|t: int| 2 <= t < n + 2 ==> content[t] == payload@[t - 2],
            region.spec_data() == ring_store(data0, cap as int, pos as int, content.take(k as int)),
        decreases n + 2 - k,
    {
        let b = if k == 0 {
            hi
        } else if k == 1 {
            lo
        } else {
            payload[k - 2]
        };
        let idx = if k < cap - pos {
            pos + k
        } else {
            k - (cap - pos)
        };
        proof {
            assert(idx == ring_idx(cap as int, pos as int, k as int));
        }
        region.put_u8(idx, b);
        proof {
            assert(ring_offset(cap as int, pos as int, idx as int) == k);
            assert forall|jj: int| 0 <= jj < cap implies ring_store(
                data0,
                cap as int,
                pos as int,
                content.take(k + 1),
            )[jj] == ring_store(data0, cap as int, pos as int, content.take(k as int)).update(
                idx as int,
                b,
            )[jj] by {
                let o = ring_offset(cap as int, pos as int, jj);
            }
            assert(region.spec_data() =~= ring_store(
                data0,
                cap as int,
                pos as int,
                content.take(k + 1),
            ));
        }
        k = k + 1;
    }
    proof {
        assert(content.take(content.len() as int) =~= content);
    }
}

/// Relies on String::from_utf8: Some exactly when the bytes are valid
/// UTF-8, and then the string's characters are their decoding.
#[verifier::external_body]
fn bytes_to_string(bytes: Vec<u8>) -> (r: Option<String>)
    ensures
        r is Some <==> vstd::utf8::valid_utf8(bytes@),
        r matches Some(s) ==> s@ == vstd::utf8::decode_utf8(bytes@),
{
    String::from_utf8(bytes).ok()
}

/// Read one frame at the stored read cursor and interpret its payload as
/// UTF-8 text. A framing error leaves the cursor untouched; a payload that
/// is not valid UTF-8 is consumed (the cursor advances past it) and
/// reported, so that the next frame can still be read.
pub fn read_frame_text(region: &mut SharedRegion) -> (r: Result<String, FrameError>)
    requires
        old(region).wf(),
    ensures
        final(region).wf(),
        final(region).spec_capacity() == old(region).spec_capacity(),
        final(region).spec_data() == old(region).spec_data(),
        final(region).spec_write_pos() == old(region).spec_write_pos(),
        ({
            let cap = old(region).spec_capacity();
            let rp = old(region).spec_read_pos();
            let data = old(region).spec_data();
            let nrp = norm_pos(cap, rp);
            let len = frame_len(data, cap, nrp);
            let payload = frame_payload(data, cap, nrp, len);
            match r {
                Ok(s) => {
                    &&& can_decode(data, cap, rp)
                    &&& vstd::utf8::valid_utf8(payload)
                    &&& s@ == vstd::utf8::decode_utf8(payload)
                    &&& final(region).spec_read_pos() == next_read_pos(cap, nrp, len)
                },
                Err(e) => match e {
                    FrameError::CursorOutOfBounds => {
                        &&& rp > cap
                        &&& final(region).spec_read_pos() == rp
                    },
                    FrameError::Oversized => {
                        &&& rp <= cap
                        &&& len + 2 > cap
                        &&& final(region).spec_read_pos() == rp
                    },
                    FrameError::InvalidUtf8 => {
                        &&& can_decode(data, cap, rp)
                        &&& !vstd::utf8::valid_utf8(payload)
                        &&& final(region).spec_read_pos() == next_read_pos(cap, nrp, len)
                    },
                },
            }
        }),
{
    proof {
        region.lemma_wf();
    }
    match read_frame(region) {
        Ok(payload) => match bytes_to_string(payload) {
            Some(s) => Ok(s),
            None => Err(FrameError::InvalidUtf8),
        },
        Err(e) => Err(e),
    }
}

/// A frame laid into the ring at any position reads back as itself: the
/// header announces the payload length and the payload bytes come back
/// unchanged, however they wrapped.
pub proof fn lemma_frame_round_trip(data: Seq<u8>, cap: int, pos: int, payload: Seq<u8>)
    requires
        3 <= cap,
        data.len() == cap,
        0 <= pos < cap,
        payload.len() + 2 <= cap,
        payload.len() <= 0xFFFF,
    ensures
        ({
            let stored = ring_store(data, cap, pos, frame_bytes(payload));
            &&& frame_len(stored, cap, pos) == payload.len()
            &&& frame_payload(stored, cap, pos, payload.len() as int) == payload
            &&& can_decode(stored, cap, pos)
        }),
{
    let content = frame_bytes(payload);
    let stored = ring_store(data, cap, pos, content);
    let n = payload.len() as int;
    lemma_fundamental_div_mod(n, 256);
    lemma_div_is_ordered(n, 0xFFFF, 256);
    assert(0xFFFFint / 256 == 255);
    lemma_mod_bound(n, 256);
    assert(ring_offset(cap, pos, ring_idx(cap, pos, 0)) == 0);
    assert(ring_offset(cap, pos, ring_idx(cap, pos, 1)) == 1);
    assert(stored[pos] == content[0]);
    assert(stored[ring_idx(cap, pos, 1)] == content[1]);
    assert(frame_len(stored, cap, pos) == (n / 256) * 256 + n % 256);
    assert forall|i: int| 0 <= i < n implies frame_payload(stored, cap, pos, n)[i]
        == payload[i] by {
        assert(ring_offset(cap, pos, ring_idx(cap, pos, 2 + i)) == 2 + i);
        assert(stored[ring_idx(cap, pos, 2 + i)] == content[2 + i]);
    }
    assert(frame_payload(stored, cap, pos, n) =~= payload);
}

/// A payload that fits between the header and the physical end of the ring
/// is a single contiguous span of the data area.
pub proof fn lemma_payload_contiguous(data: Seq<u8>, cap: int, nrp: int, len: int)
    requires
        3 <= cap,
        data.len() == cap,
        0 <= nrp < cap,
        0 <= len,
        len + 2 <= cap,
        ring_idx(cap, nrp, 2) + len <= cap,
    ensures
        frame_payload(data, cap, nrp, len) == data.subrange(
            ring_idx(cap, nrp, 2),
            ring_idx(cap, nrp, 2) + len,
        ),
{
    let pstart = ring_idx(cap, nrp, 2);
    assert(frame_payload(data, cap, nrp, len) =~= data.subrange(pstart, pstart + len));
}

/// A payload that crosses the physical end of the ring is the tail span up
/// to the end followed by the wrapped head span from position zero, in that
/// order, with no byte duplicated or lost.
pub proof fn lemma_payload_wrapped(data: Seq<u8>, cap: int, nrp: int, len: int)
    requires
        3 <= cap,
        data.len() == cap,
        0 <= nrp < cap,
        0 <= len,
        len + 2 <= cap,
        ring_idx(cap, nrp, 2) + len > cap,
    ensures
        frame_payload(data, cap, nrp, len) == data.subrange(ring_idx(cap, nrp, 2), cap)
            + data.subrange(0, ring_idx(cap, nrp, 2) + len - cap),
{
    let pstart = ring_idx(cap, nrp, 2);
    assert(frame_payload(data, cap, nrp, len) =~= data.subrange(pstart, cap) + data.subrange(
        0,
        pstart + len - cap,
    ));
}

} // verus!

