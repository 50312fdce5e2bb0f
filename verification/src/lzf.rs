//! LZF decompression of a single record.

use vstd::prelude::*;

verus! {

/// `out` after `n` more bytes were appended one at a time, each a repeat of
/// the byte `dist` places before the end at that moment. A run may therefore
/// overlap the bytes it has just written.
pub open spec fn copy_back(out: Seq<u8>, dist: int, n: nat) -> Seq<u8>
    decreases n,
{
    if n == 0 {
        out
    } else {
        copy_back(out.push(out[out.len() - dist]), dist, (n - 1) as nat)
    }
}

/// Number of bytes that a back-reference with control byte `c` occupies.
pub open spec fn reference_width(c: int) -> int {
    if c / 32 == 7 {
        3
    } else {
        2
    }
}

/// What the blocks of `src` from `ip` on add to `out`; `None` where a block is
/// cut short, points before the start of the output, or the output does not
/// end with exactly `cap` bytes.
pub open spec fn inflate_from(src: Seq<u8>, ip: int, out: Seq<u8>, cap: int) -> Option<Seq<u8>>
    decreases src.len() - ip,
{
    if ip < 0 || ip >= src.len() {
        if out.len() == cap {
            Some(out)
        } else {
            None
        }
    } else {
        let c = src[ip] as int;
        if c < 32 {
            let n = c + 1;
            if ip + 1 + n > src.len() || out.len() + n > cap {
                None
            } else {
                inflate_from(src, ip + 1 + n, out + src.subrange(ip + 1, ip + 1 + n), cap)
            }
        } else {
            let w = reference_width(c);
            if ip + w > src.len() {
                None
            } else {
                let n = if w == 3 {
                    9 + src[ip + 1] as int
                } else {
                    c / 32 + 2
                };
                let dist = (c % 32) * 256 + src[ip + w - 1] as int + 1;
                if dist > out.len() || out.len() + n > cap {
                    None
                } else {
                    inflate_from(src, ip + w, copy_back(out, dist, n as nat), cap)
                }
            }
        }
    }
}

/// The `cap` bytes that `src` decompresses to, if it does.
pub open spec fn inflate(src: Seq<u8>, cap: int) -> Option<Seq<u8>> {
    inflate_from(src, 0, Seq::empty(), cap)
}

/// Decompresses `src` into exactly `out_len` bytes.
///
/// A control byte below 32 starts a literal run of one byte more than its
/// value. Any other starts a back-reference: its top three bits give the
/// length (seven means one more byte of length follows), two are added, and
/// its low five bits with the next byte give the distance back, less one.
pub fn decompress(src: &[u8], out_len: u64) -> (r: Option<Vec<u8>>)
    ensures
        match r {
            Some(v) => inflate(src@, out_len as int) == Some(v@),
            None => inflate(src@, out_len as int) is None,
        },
{
    let mut out: Vec<u8> = Vec::new();
    let mut ip: usize = 0;
    while ip < src.len()
        invariant
            ip <= src.len(),
            out@.len() <= out_len,
            inflate_from(src@, ip as int, out@, out_len as int) == inflate(src@, out_len as int),
        decreases src.len() - ip,
    {
        let c: u8 = src[ip];
        if c < 32 {
            let n: usize = c as usize + 1;
            if n > src.len() - ip - 1 || n as u64 > out_len - out.len() as u64 {
                return None;
            }
            let ghost before = out@;
            let mut k: usize = 0;
            while k < n
                invariant
                    k <= n,
                    ip + 1 + n <= src.len(),
                    out@ == before + src@.subrange(ip + 1, ip + 1 + k),
                decreases n - k,
            {
                out.push(src[ip + 1 + k]);
                k += 1;
                assert(out@ =~= before + src@.subrange(ip + 1, ip + 1 + k));
            }
            ip = ip + 1 + n;
        } else {
            let w: usize = if c / 32 == 7 {
                3
            } else {
                2
            };
            if w > src.len() - ip {
                return None;
            }
            let n: usize = if w == 3 {
                9 + src[ip + 1] as usize
            } else {
                (c / 32) as usize + 2
            };
            let dist: usize = (c % 32) as usize * 256 + src[ip + w - 1] as usize + 1;
            if dist > out.len() || n as u64 > out_len - out.len() as u64 {
                return None;
            }
            let ghost before = out@;
            let mut k: usize = 0;
            while k < n
                invariant
                    k <= n,
                    dist >= 1,
                    dist <= out@.len(),
                    out@.len() == before.len() + k,
                    copy_back(out@, dist as int, (n - k) as nat) == copy_back(
                        before,
                        dist as int,
                        n as nat,
                    ),
                decreases n - k,
            {
                let b: u8 = out[out.len() - dist];
                out.push(b);
                k += 1;
            }
            ip = ip + w;
        }
    }
    if out.len() as u64 == out_len {
        Some(out)
    } else {
        None
    }
}

/// The compression of `data` that uses no back-reference: runs of up to 32
/// bytes, each behind a control byte that holds its length less one.
pub open spec fn literal_blocks(data: Seq<u8>) -> Seq<u8>
    decreases data.len(),
{
    if data.len() == 0 {
        Seq::empty()
    } else {
        let n: int = if data.len() < 32 {
            data.len() as int
        } else {
            32
        };
        seq![(n - 1) as u8] + data.subrange(0, n) + literal_blocks(
            data.subrange(n, data.len() as int),
        )
    }
}

proof fn lemma_literals(prefix: Seq<u8>, rest: Seq<u8>, out: Seq<u8>, cap: int)
    requires
        out.len() + rest.len() == cap,
    ensures
        inflate_from(prefix + literal_blocks(rest), prefix.len() as int, out, cap) == Some(
            out + rest,
        ),
    decreases rest.len(),
{
    let src = prefix + literal_blocks(rest);
    let ip = prefix.len() as int;
    if rest.len() == 0 {
        assert(src =~= prefix);
        assert(out + rest =~= out);
    } else {
        let n: int = if rest.len() < 32 {
            rest.len() as int
        } else {
            32
        };
        let chunk = rest.subrange(0, n);
        let tail = rest.subrange(n, rest.len() as int);
        let longer = prefix + seq![(n - 1) as u8] + chunk;
        assert(src =~= longer + literal_blocks(tail));
        lemma_literals(longer, tail, out + chunk, cap);
        assert(src[ip] == (n - 1) as u8);
        assert(src.subrange(ip + 1, ip + 1 + n) =~= chunk);
        assert(out + chunk + tail =~= out + rest);
        assert(longer.len() == ip + 1 + n);
    }
}

/// Every byte sequence comes back, byte for byte, from its compression
/// without back-references.
pub proof fn lemma_round_trip(data: Seq<u8>)
    ensures
        inflate(literal_blocks(data), data.len() as int) == Some(data),
{
    lemma_literals(Seq::empty(), data, Seq::empty(), data.len() as int);
    assert(Seq::<u8>::empty() + literal_blocks(data) =~= literal_blocks(data));
    assert(Seq::<u8>::empty() + data =~= data);
}

} // verus!
