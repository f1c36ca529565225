//! The argument decoder: given the register values of an exec-family
//! syscall entry — pointer to the filename, to the argv array and to the
//! envp array — it reconstructs the executable path, the argument vector
//! and the environment vector from the process's memory.
//!
//! Decoding is fail-soft: the filename is resolved first, then the argv
//! pointer array is walked and each element dereferenced, then envp, each
//! walk stopping at its null terminator or at the configured maximum count.
//! A read failure yields whatever was decoded before it, with the
//! `complete` marker cleared, never a panic.

use vstd::prelude::*;

use crate::event::{bytes_views, ExecData, ExecDataView};
use crate::memory::{image_cstring, image_ptr_array, read_cstring, read_ptr_array, MemSource};

verus! {

/// Guards against a corrupted or adversarial argument array causing
/// unbounded remote reads.
#[derive(Clone, Copy, Debug)]
pub struct DecodeLimits {
    /// Largest number of argv (or envp) elements walked.
    pub max_args: usize,
    /// Largest number of bytes read for any single string.
    pub max_str_len: usize,
}

/// The strings decoded by dereferencing each of `ptrs` in an image, each
/// capped at `cap` bytes.
pub open spec fn image_cstring_seq(base: u64, mem: Seq<u8>, ptrs: Seq<u64>, cap: nat) -> Seq<
    Seq<u8>,
> {
    ptrs.map_values(|p: u64| image_cstring(base, mem, p, cap).0)
}

/// Whether every one of `ptrs` dereferences to a string whose terminator
/// lies within `cap` bytes of readable image.
pub open spec fn image_all_terminated(base: u64, mem: Seq<u8>, ptrs: Seq<u64>, cap: nat) -> bool {
    forall|i: int| 0 <= i < ptrs.len() ==> (#[trigger] image_cstring(base, mem, ptrs[i], cap)).1
}

/// What decoding a whole exec call returns from an image: filename, argv and
/// envp, with `complete` exactly when every walk saw its terminator.
pub open spec fn image_exec_decode(
    base: u64,
    mem: Seq<u8>,
    filename_ptr: u64,
    argv_ptr: u64,
    envp_ptr: u64,
    max_args: nat,
    max_str: nat,
) -> ExecDataView {
    let f = image_cstring(base, mem, filename_ptr, max_str);
    let av = image_ptr_array(base, mem, argv_ptr, max_args);
    let ev = image_ptr_array(base, mem, envp_ptr, max_args);
    ExecDataView {
        filename: f.0,
        argv: image_cstring_seq(base, mem, av.0, max_str),
        envp: image_cstring_seq(base, mem, ev.0, max_str),
        complete: f.1 && av.1 && ev.1 && image_all_terminated(base, mem, av.0, max_str)
            && image_all_terminated(base, mem, ev.0, max_str),
    }
}

/// Dereferences each pointer to a string, capped at `cap` bytes each;
/// returns the strings and whether every one was null-terminated.
fn read_cstring_vec(src: &MemSource, ptrs: &Vec<u64>, cap: usize) -> (r: (Vec<Vec<u8>>, bool))
    requires
        src.wf(),
    ensures
        src matches MemSource::Image(img) ==> {
            &&& bytes_views(r.0@) == image_cstring_seq(img.base, img.bytes@, ptrs@, cap as nat)
            &&& r.1 == image_all_terminated(img.base, img.bytes@, ptrs@, cap as nat)
        },
        r.0@.len() == ptrs@.len(),
        forall|i: int| 0 <= i < r.0@.len() ==> (#[trigger] r.0@[i])@.len() <= cap,
{
    let mut out: Vec<Vec<u8>> = Vec::new();
    let mut all_terminated = true;
    let mut i: usize = 0;
    while i < ptrs.len()
        invariant
            src.wf(),
            0 <= i <= ptrs@.len(),
            out@.len() == i,
            forall|k: int| 0 <= k < out@.len() ==> (#[trigger] out@[k])@.len() <= cap,
            src matches MemSource::Image(img) ==> {
                &&& bytes_views(out@) == image_cstring_seq(
                    img.base,
                    img.bytes@,
                    ptrs@.subrange(0, i as int),
                    cap as nat,
                )
                &&& all_terminated == image_all_terminated(
                    img.base,
                    img.bytes@,
                    ptrs@.subrange(0, i as int),
                    cap as nat,
                )
            },
        decreases ptrs@.len() - i,
    {
        let ghost prefix0 = ptrs@.subrange(0, i as int);
        let ghost out0 = out@;
        let ghost term0 = all_terminated;
        let s = read_cstring(src, ptrs[i], cap);
        let terminated = s.terminated;
        let ghost sbytes = s.bytes@;
        out.push(s.bytes);
        all_terminated = all_terminated && terminated;
        i += 1;
        proof {
            if let MemSource::Image(img) = src {
                let base = img.base;
                let mem = img.bytes@;
                let prefix1 = ptrs@.subrange(0, i as int);
                assert(prefix1 =~= prefix0.push(ptrs@[i - 1]));
                let lhs = bytes_views(out@);
                let rhs = image_cstring_seq(base, mem, prefix1, cap as nat);
                assert(sbytes == image_cstring(base, mem, ptrs@[i - 1], cap as nat).0);
                assert forall|k: int| 0 <= k < lhs.len() implies lhs[k] == rhs[k] by {
                    if k < out0.len() {
                        assert(out@[k] == out0[k]);
                        assert(bytes_views(out0)[k] == out0[k]@);
                        assert(prefix1[k] == prefix0[k]);
                        assert(rhs[k] == image_cstring(base, mem, prefix1[k], cap as nat).0);
                        assert(image_cstring_seq(base, mem, prefix0, cap as nat)[k]
                            == image_cstring(base, mem, prefix0[k], cap as nat).0);
                    } else {
                        assert(out@[k]@ == sbytes);
                        assert(prefix1[k] == ptrs@[i - 1]);
                    }
                }
                assert(lhs =~= rhs);
                if all_terminated {
                    assert forall|k: int| 0 <= k < prefix1.len() implies (#[trigger] image_cstring(
                        base,
                        mem,
                        prefix1[k],
                        cap as nat,
                    )).1 by {
                        if k < prefix1.len() - 1 {
                            assert(prefix1[k] == prefix0[k]);
                            assert(image_cstring(base, mem, prefix0[k], cap as nat).1);
                        }
                    }
                } else {
                    if !term0 {
                        let k0 = choose|k: int|
                            0 <= k < prefix0.len() && !(#[trigger] image_cstring(
                                base,
                                mem,
                                prefix0[k],
                                cap as nat,
                            )).1;
                        assert(prefix1[k0] == prefix0[k0]);
                        assert(!image_cstring(base, mem, prefix1[k0], cap as nat).1);
                    } else {
                        assert(!image_cstring(base, mem, prefix1[i - 1], cap as nat).1);
                    }
                    assert(!image_all_terminated(base, mem, prefix1, cap as nat));
                }
            }
        }
    }
    proof {
        assert(ptrs@.subrange(0, ptrs@.len() as int) =~= ptrs@);
    }
    (out, all_terminated)
}

/// Decodes an exec call's filename, argv and envp from a memory source.
/// Over an image the result is pinned to `image_exec_decode`; over a traced
/// process, whatever came back respects the limits, and `complete` says that
/// every walk saw its terminator before any cap or fault.
pub fn decode_exec_call(
    src: &MemSource,
    filename_ptr: u64,
    argv_ptr: u64,
    envp_ptr: u64,
    limits: &DecodeLimits,
) -> (r: ExecData)
    requires
        src.wf(),
    ensures
        src matches MemSource::Image(img) ==> r@ == image_exec_decode(
            img.base,
            img.bytes@,
            filename_ptr,
            argv_ptr,
            envp_ptr,
            limits.max_args as nat,
            limits.max_str_len as nat,
        ),
        r.filename@.len() <= limits.max_str_len,
        r.argv@.len() <= limits.max_args,
        r.envp@.len() <= limits.max_args,
        forall|i: int| 0 <= i < r.argv@.len() ==> (#[trigger] r.argv@[i])@.len()
            <= limits.max_str_len,
        forall|i: int| 0 <= i < r.envp@.len() ==> (#[trigger] r.envp@[i])@.len()
            <= limits.max_str_len,
{
    let filename = read_cstring(src, filename_ptr, limits.max_str_len);
    let argv_ptrs = read_ptr_array(src, argv_ptr, limits.max_args);
    let argv = read_cstring_vec(src, &argv_ptrs.ptrs, limits.max_str_len);
    let envp_ptrs = read_ptr_array(src, envp_ptr, limits.max_args);
    let envp = read_cstring_vec(src, &envp_ptrs.ptrs, limits.max_str_len);
    let complete = filename.terminated && argv_ptrs.terminated && envp_ptrs.terminated && argv.1
        && envp.1;
    ExecData { filename: filename.bytes, argv: argv.0, envp: envp.0, complete }
}

} // verus!
