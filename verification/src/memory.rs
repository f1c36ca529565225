//! The remote memory reader: null-terminated byte strings and null-terminated
//! pointer arrays, read from a memory source in fixed-size chunks.
//!
//! A source is either the address space of a traced process — reached through
//! a process-boundary transfer primitive and opaque to reasoning — or an
//! in-memory image with a base address, over which every read is pinned
//! exactly. Reads are fail-soft: a fault mid-way yields whatever was decoded
//! before it, flagged, and never a panic.

use vstd::prelude::*;

verus! {

/// How many bytes one transfer asks for.
pub const READ_CHUNK: usize = 64;

/// A contiguous memory region with a base virtual address.
pub struct MemImage {
    pub base: u64,
    pub bytes: Vec<u8>,
}

impl MemImage {
    /// The region must fit below the top of the address space.
    pub open spec fn wf(&self) -> bool {
        self.base + self.bytes@.len() <= u64::MAX
    }
}

/// Where reads are served from: a synthetic image, or a traced process's
/// address space (by pid).
pub enum MemSource {
    Image(MemImage),
    Remote(i32),
}

impl MemSource {
    pub open spec fn wf(&self) -> bool {
        match self {
            MemSource::Image(img) => img.wf(),
            MemSource::Remote(_) => true,
        }
    }
}

/// What a read of up to `len` bytes at `addr` returns from an image: the
/// available bytes, clipped at the image's end, or nothing when `addr` lies
/// outside the image.
pub open spec fn spec_image_read(base: u64, mem: Seq<u8>, addr: u64, len: nat) -> Option<Seq<u8>> {
    if base <= addr && addr - base < mem.len() && len >= 1 {
        let o = addr - base;
        let end = if o + len <= mem.len() {
            o + len
        } else {
            mem.len() as int
        };
        Some(mem.subrange(o, end))
    } else {
        Option::None
    }
}

/// Position of the first zero byte in `mem[o..limit]`, if any.
pub open spec fn first_nul_from(mem: Seq<u8>, o: int, limit: int) -> Option<int>
    decreases limit - o,
{
    if o < 0 || o >= limit || limit > mem.len() {
        Option::None
    } else if mem[o] == 0 {
        Some(o)
    } else {
        first_nul_from(mem, o + 1, limit)
    }
}

/// What decoding a null-terminated string at `addr`, capped at `cap` bytes,
/// returns from an image: the bytes before the terminator and `true`, or —
/// when the cap or the image's end cuts the string short — the bytes read so
/// far and `false`.
pub open spec fn image_cstring(base: u64, mem: Seq<u8>, addr: u64, cap: nat) -> (Seq<u8>, bool) {
    if base <= addr && addr - base < mem.len() {
        let o = addr - base;
        let limit = if o + cap <= mem.len() {
            o + cap
        } else {
            mem.len() as int
        };
        match first_nul_from(mem, o, limit) {
            Some(k) => (mem.subrange(o, k), true),
            Option::None => (mem.subrange(o, limit), false),
        }
    } else {
        (Seq::empty(), false)
    }
}

/// Little-endian 64-bit value of the eight bytes at offset `o`.
pub open spec fn spec_le64(mem: Seq<u8>, o: int) -> u64 {
    (mem[o] + mem[o + 1] * 0x100 + mem[o + 2] * 0x1_0000 + mem[o + 3] * 0x100_0000 + mem[o + 4]
        * 0x1_0000_0000 + mem[o + 5] * 0x100_0000_0000 + mem[o + 6] * 0x1_0000_0000_0000 + mem[o
        + 7] * 0x100_0000_0000_0000) as u64
}

/// Whether an aligned run of eight bytes at `addr` lies inside the image.
pub open spec fn word_readable(base: u64, mem: Seq<u8>, addr: u64) -> bool {
    base <= addr && addr - base + 8 <= mem.len()
}

/// What decoding a null-terminated pointer array at `addr`, capped at `cap`
/// elements, returns from an image: the pointers before the null entry and
/// `true`, or — when the cap or a fault cuts the walk short — the pointers
/// read so far and `false`.
pub open spec fn image_ptr_array(base: u64, mem: Seq<u8>, addr: u64, cap: nat) -> (Seq<u64>, bool)
    decreases cap,
{
    if cap == 0 {
        (Seq::empty(), false)
    } else if !word_readable(base, mem, addr) {
        (Seq::empty(), false)
    } else {
        let w = spec_le64(mem, addr - base);
        if w == 0 {
            (Seq::empty(), true)
        } else {
            let rest = image_ptr_array(base, mem, (addr + 8) as u64, (cap - 1) as nat);
            (seq![w] + rest.0, rest.1)
        }
    }
}

/// Relies on nix's `process_vm_readv`: transfers up to `len` bytes from the
/// traced process's address space at `addr` into a local buffer, returning
/// how much the kernel could read, or the errno when nothing was readable
/// (the process exited, or the address is unmapped).
#[verifier::external_body]
fn read_remote_bytes(pid: i32, addr: u64, len: usize) -> (r: Result<Vec<u8>, i32>)
    ensures
        r matches Ok(b) ==> b@.len() <= len,
{
    let mut buf: Vec<u8> = vec![0u8; len];
    let mut local = [std::io::IoSliceMut::new(&mut buf)];
    let remote = [nix::sys::uio::RemoteIoVec { base: addr as usize, len }];
    match nix::sys::uio::process_vm_readv(nix::unistd::Pid::from_raw(pid), &mut local, &remote) {
        Ok(n) => {
            buf.truncate(n);
            Ok(buf)
        },
        Err(e) => Err(e as i32),
    }
}

/// Reads up to `len` bytes at `addr`. `None` means nothing was readable
/// there. Over an image the result is pinned to `spec_image_read`; over a
/// traced process only its length is known.
fn read_mem(src: &MemSource, addr: u64, len: usize) -> (r: Option<Vec<u8>>)
    requires
        src.wf(),
        len >= 1,
    ensures
        src matches MemSource::Image(img) ==> (match r {
            Some(b) => spec_image_read(img.base, img.bytes@, addr, len as nat) == Some(b@),
            Option::None => spec_image_read(img.base, img.bytes@, addr, len as nat)
                is None,
        }),
        r matches Some(b) ==> 1 <= b@.len() <= len,
{
    match src {
        MemSource::Image(img) => {
            if addr < img.base {
                return Option::None;
            }
            let off64 = addr - img.base;
            if off64 >= img.bytes.len() as u64 {
                return Option::None;
            }
            let off = off64 as usize;
            let n = img.bytes.len();
            let avail = n - off;
            let take = if len <= avail {
                len
            } else {
                avail
            };
            let mut out: Vec<u8> = Vec::new();
            proof {
                assert(out@ =~= img.bytes@.subrange(off as int, off as int));
            }
            let mut k: usize = 0;
            while k < take
                invariant
                    off + take <= n,
                    n == img.bytes@.len(),
                    0 <= k <= take,
                    out@ == img.bytes@.subrange(off as int, off + k),
                decreases take - k,
            {
                out.push(img.bytes[off + k]);
                proof {
                    assert(out@ =~= img.bytes@.subrange(off as int, off + k + 1));
                }
                k += 1;
            }
            Some(out)
        },
        MemSource::Remote(pid) => {
            match read_remote_bytes(*pid, addr, len) {
                Ok(b) => {
                    if b.len() >= 1 {
                        Some(b)
                    } else {
                        Option::None
                    }
                },
                Err(_) => Option::None,
            }
        },
    }
}

/// A null-terminated byte string as read from a memory source: the bytes
/// before the terminator, and whether the terminator was actually seen
/// (`false` when the cap, a fault or the source's end cut the read short).
#[derive(Debug, Clone, PartialEq, Eq)]
pub struct CStringRead {
    pub bytes: Vec<u8>,
    pub terminated: bool,
}

/// If `mem[o..i]` holds no zero byte, the first zero at or past `o` is the
/// first zero at or past `i`.
proof fn lemma_first_nul_skip(mem: Seq<u8>, o: int, i: int, limit: int)
    requires
        0 <= o <= i <= limit <= mem.len(),
        forall|j: int| o <= j < i ==> mem[j] != 0,
    ensures
        first_nul_from(mem, o, limit) == first_nul_from(mem, i, limit),
    decreases i - o,
{
    if o < i {
        lemma_first_nul_skip(mem, o + 1, i, limit);
    }
}

/// Appends `chunk[0..k]` to `out`.
fn append_prefix(out: &mut Vec<u8>, chunk: &Vec<u8>, k: usize)
    requires
        k <= chunk@.len(),
    ensures
        final(out)@ == old(out)@ + chunk@.subrange(0, k as int),
{
    let ghost out0 = out@;
    let mut i: usize = 0;
    while i < k
        invariant
            0 <= i <= k <= chunk@.len(),
            out@ == out0 + chunk@.subrange(0, i as int),
        decreases k - i,
    {
        out.push(chunk[i]);
        proof {
            assert(out@ =~= out0 + chunk@.subrange(0, i + 1 as int));
        }
        i += 1;
    }
}

/// Reads the null-terminated string at `addr`, capped at `cap` bytes,
/// chunk by chunk. Over an image the result is pinned to `image_cstring`;
/// over a traced process the result is some byte string of at most `cap`
/// bytes. Either way it holds no interior zero byte.
pub fn read_cstring(src: &MemSource, addr: u64, cap: usize) -> (r: CStringRead)
    requires
        src.wf(),
    ensures
        src matches MemSource::Image(img) ==> (r.bytes@, r.terminated) == image_cstring(
            img.base,
            img.bytes@,
            addr,
            cap as nat,
        ),
        r.bytes@.len() <= cap,
        forall|j: int| 0 <= j < r.bytes@.len() ==> r.bytes@[j] != 0,
{
    let mut out: Vec<u8> = Vec::new();
    loop
        invariant
            src.wf(),
            out@.len() <= cap,
            forall|j: int| 0 <= j < out@.len() ==> out@[j] != 0,
            src matches MemSource::Image(img) ==> (out@.len() > 0 ==> {
                let o = addr - img.base;
                &&& img.base <= addr
                &&& o < img.bytes@.len()
                &&& o + out@.len() <= img.bytes@.len()
                &&& addr + out@.len() <= u64::MAX
                &&& out@ == img.bytes@.subrange(o, o + out@.len())
            }),
        decreases cap - out.len(),
    {
        let remaining = cap - out.len();
        if remaining == 0 {
            // capped: no terminator within the configured maximum
            proof {
                if let MemSource::Image(img) = src {
                    cstring_no_nul_return(img.base, img.bytes@, addr, cap as nat, out@);
                }
            }
            return CStringRead { bytes: out, terminated: false };
        }
        let chunk_len = if remaining < READ_CHUNK {
            remaining
        } else {
            READ_CHUNK
        };
        if out.len() as u64 > u64::MAX - addr {
            // the walk would wrap around the top of the address space; over an
            // image this cannot happen while bytes are still being produced
            proof {
                if let MemSource::Image(img) = src {
                    assert(out@.len() > 0);
                    assert(false);
                }
            }
            return CStringRead { bytes: out, terminated: false };
        }
        let pos: u64 = addr + out.len() as u64;
        match read_mem(src, pos, chunk_len) {
            Option::None => {
                proof {
                    if let MemSource::Image(img) = src {
                        let mem = img.bytes@;
                        let o = addr - img.base;
                        if out@.len() == 0 {
                            assert(!(img.base <= addr && o < mem.len()));
                        } else {
                            assert(o + out@.len() == mem.len());
                        }
                        cstring_no_nul_return(img.base, mem, addr, cap as nat, out@);
                    }
                }
                return CStringRead { bytes: out, terminated: false };
            },
            Some(chunk) => {
                let ghost out0 = out@;
                proof {
                    if let MemSource::Image(img) = src {
                        let mem = img.bytes@;
                        let o = addr - img.base;
                        let p = pos - img.base;
                        let end = if p + chunk_len <= mem.len() {
                            p + chunk_len
                        } else {
                            mem.len() as int
                        };
                        assert(chunk@ == mem.subrange(p, end));
                        assert(p == o + out0.len());
                        assert(forall|j: int|
                            p <= j < p + chunk@.len() ==> mem[j] == chunk@[j - p]);
                        assert(forall|j: int| o <= j < p ==> mem[j] == out0[j - o]);
                        assert(forall|j: int| o <= j < p ==> mem[j] != 0);
                    }
                }
                match find_nul(&chunk) {
                    Some(ci) => {
                        append_prefix(&mut out, &chunk, ci);
                        proof {
                            if let MemSource::Image(img) = src {
                                let mem = img.bytes@;
                                let o = addr - img.base;
                                let p = pos - img.base;
                                let k = p + ci;
                                let limit = if o + cap <= mem.len() {
                                    o + cap
                                } else {
                                    mem.len() as int
                                };
                                assert(mem[k] == 0);
                                assert(k < limit) by {
                                    assert(ci < chunk@.len());
                                    assert(chunk@.len() <= chunk_len);
                                    assert(out0.len() + ci < cap);
                                    assert(k < mem.len());
                                }
                                assert(forall|j: int| p <= j < k ==> mem[j] == chunk@[j - p]);
                                assert(forall|j: int| p <= j < k ==> mem[j] != 0);
                                assert(forall|j: int| o <= j < k ==> mem[j] != 0);
                                lemma_first_nul_skip(mem, o, k, limit);
                                assert(first_nul_from(mem, o, limit) == Some(k));
                                assert(out@ =~= mem.subrange(o, k));
                            }
                        }
                        return CStringRead { bytes: out, terminated: true };
                    },
                    Option::None => {
                        append_prefix(&mut out, &chunk, chunk.len());
                        proof {
                            assert(chunk@.subrange(0, chunk@.len() as int) =~= chunk@);
                            if let MemSource::Image(img) = src {
                                let mem = img.bytes@;
                                let o = addr - img.base;
                                assert(out@ =~= mem.subrange(o, o + out@.len()));
                            }
                        }
                    },
                }
            },
        }
    }
}

/// Closes the capped and end-of-image cases: with no zero byte among the
/// bytes already produced and the scan window exhausted, the spec read is
/// exactly those bytes, unterminated.
proof fn cstring_no_nul_return(base: u64, mem: Seq<u8>, addr: u64, cap: nat, out: Seq<u8>)
    requires
        base + mem.len() <= u64::MAX,
        out.len() <= cap,
        forall|j: int| 0 <= j < out.len() ==> out[j] != 0,
        out.len() > 0 ==> {
            let o = addr - base;
            &&& base <= addr
            &&& o < mem.len()
            &&& o + out.len() <= mem.len()
            &&& out == mem.subrange(o, o + out.len())
        },
        out.len() < cap ==> (out.len() > 0 && addr - base + out.len() == mem.len()) || (out.len()
            == 0 && !(base <= addr && addr - base < mem.len())),
        out.len() == 0 ==> cap == 0 || !(base <= addr && addr - base < mem.len()),
    ensures
        (out, false) == image_cstring(base, mem, addr, cap),
{
    let o = addr - base;
    if base <= addr && o < mem.len() {
        let limit = if o + cap <= mem.len() {
            o + cap
        } else {
            mem.len() as int
        };
        assert(o + out.len() == limit);
        assert(forall|j: int| o <= j < o + out.len() ==> mem[j] != 0) by {
            assert(forall|j: int| o <= j < o + out.len() ==> mem[j] == out[j - o]);
        }
        lemma_first_nul_skip(mem, o, limit, limit);
        assert(first_nul_from(mem, o, limit) is None);
        assert(out =~= mem.subrange(o, limit));
    } else {
        assert(out =~= Seq::<u8>::empty());
        assert(image_cstring(base, mem, addr, cap) == (Seq::<u8>::empty(), false));
    }
}

/// A null-terminated pointer array as read from a memory source: the
/// non-null pointers before the null entry, and whether the null entry was
/// actually seen (`false` when the configured maximum count or a fault cut
/// the walk short).
#[derive(Debug, Clone, PartialEq, Eq)]
pub struct PtrArrayRead {
    pub ptrs: Vec<u64>,
    pub terminated: bool,
}

/// Little-endian 64-bit value of the first eight bytes of `b`.
fn le64(b: &Vec<u8>) -> (r: u64)
    requires
        b@.len() >= 8,
    ensures
        r == spec_le64(b@, 0),
{
    (b[0] as u64) + (b[1] as u64) * 0x100 + (b[2] as u64) * 0x1_0000 + (b[3] as u64) * 0x100_0000
        + (b[4] as u64) * 0x1_0000_0000 + (b[5] as u64) * 0x100_0000_0000 + (b[6] as u64)
        * 0x1_0000_0000_0000 + (b[7] as u64) * 0x100_0000_0000_0000
}

/// Walks the null-terminated array of 64-bit little-endian pointers at
/// `addr`, capped at `cap` elements. Over an image the result is pinned to
/// `image_ptr_array`; over a traced process the result is some sequence of
/// at most `cap` non-null pointers.
pub fn read_ptr_array(src: &MemSource, addr: u64, cap: usize) -> (r: PtrArrayRead)
    requires
        src.wf(),
    ensures
        src matches MemSource::Image(img) ==> (r.ptrs@, r.terminated) == image_ptr_array(
            img.base,
            img.bytes@,
            addr,
            cap as nat,
        ),
        r.ptrs@.len() <= cap,
        forall|j: int| 0 <= j < r.ptrs@.len() ==> r.ptrs@[j] != 0,
{
    let mut ptrs: Vec<u64> = Vec::new();
    let mut pos: u64 = addr;
    loop
        invariant
            src.wf(),
            ptrs@.len() <= cap,
            forall|j: int| 0 <= j < ptrs@.len() ==> ptrs@[j] != 0,
            src matches MemSource::Image(img) ==> {
                let t = image_ptr_array(
                    img.base,
                    img.bytes@,
                    pos,
                    (cap - ptrs@.len()) as nat,
                );
                image_ptr_array(img.base, img.bytes@, addr, cap as nat) == (
                    ptrs@ + t.0,
                    t.1,
                )
            },
        decreases cap - ptrs.len(),
    {
        let ghost t0 = match src {
            MemSource::Image(img) => image_ptr_array(
                img.base,
                img.bytes@,
                pos,
                (cap - ptrs@.len()) as nat,
            ),
            MemSource::Remote(_) => (Seq::empty(), false),
        };
        if ptrs.len() == cap {
            // capped: no null entry within the configured maximum count
            proof {
                if let MemSource::Image(img) = src {
                    assert(t0 == (Seq::<u64>::empty(), false));
                    assert(ptrs@ + t0.0 =~= ptrs@);
                }
            }
            return PtrArrayRead { ptrs, terminated: false };
        }
        if pos > u64::MAX - 8 {
            // the walk would wrap around the top of the address space; over an
            // image no word is readable there
            proof {
                if let MemSource::Image(img) = src {
                    assert(!word_readable(img.base, img.bytes@, pos));
                    assert(t0 == (Seq::<u64>::empty(), false));
                    assert(ptrs@ + t0.0 =~= ptrs@);
                }
            }
            return PtrArrayRead { ptrs, terminated: false };
        }
        match read_mem(src, pos, 8) {
            Option::None => {
                proof {
                    if let MemSource::Image(img) = src {
                        assert(!word_readable(img.base, img.bytes@, pos));
                        assert(t0 == (Seq::<u64>::empty(), false));
                        assert(ptrs@ + t0.0 =~= ptrs@);
                    }
                }
                return PtrArrayRead { ptrs, terminated: false };
            },
            Some(chunk) => {
                if chunk.len() < 8 {
                    // the image ends inside the word: a fault
                    proof {
                        if let MemSource::Image(img) = src {
                            assert(!word_readable(img.base, img.bytes@, pos));
                            assert(t0 == (Seq::<u64>::empty(), false));
                            assert(ptrs@ + t0.0 =~= ptrs@);
                        }
                    }
                    return PtrArrayRead { ptrs, terminated: false };
                }
                let w = le64(&chunk);
                proof {
                    if let MemSource::Image(img) = src {
                        let mem = img.bytes@;
                        let p = pos - img.base;
                        assert(chunk@ == mem.subrange(p, p + 8));
                        assert(word_readable(img.base, mem, pos));
                        assert(forall|j: int| 0 <= j < 8 ==> chunk@[j] == mem[p + j]);
                        assert(spec_le64(chunk@, 0) == spec_le64(mem, p));
                    }
                }
                if w == 0 {
                    proof {
                        if let MemSource::Image(img) = src {
                            assert(t0 == (Seq::<u64>::empty(), true));
                            assert(ptrs@ + t0.0 =~= ptrs@);
                        }
                    }
                    return PtrArrayRead { ptrs, terminated: true };
                }
                let ghost ptrs0 = ptrs@;
                ptrs.push(w);
                pos = pos + 8;
                proof {
                    if let MemSource::Image(img) = src {
                        let t1 = image_ptr_array(
                            img.base,
                            img.bytes@,
                            pos,
                            (cap - ptrs@.len()) as nat,
                        );
                        assert(t0 == (seq![w] + t1.0, t1.1));
                        assert(ptrs0 + t0.0 =~= ptrs@ + t1.0);
                    }
                }
            },
        }
    }
}

/// Position of the first zero byte in `chunk`, if any.
fn find_nul(chunk: &Vec<u8>) -> (r: Option<usize>)
    ensures
        match r {
            Some(i) => i < chunk@.len() && chunk@[i as int] == 0 && (forall|j: int|
                0 <= j < i ==> chunk@[j] != 0),
            Option::None => forall|j: int| 0 <= j < chunk@.len() ==> chunk@[j] != 0,
        },
{
    let mut i: usize = 0;
    while i < chunk.len()
        invariant
            0 <= i <= chunk@.len(),
            forall|j: int| 0 <= j < i ==> chunk@[j] != 0,
        decreases chunk.len() - i,
    {
        if chunk[i] == 0 {
            return Some(i);
        }
        i += 1;
    }
    Option::None
}

} // verus!
