//! Output path derivation: the default output file name sits next to the
//! input, with a suffix spliced in before the extension. Paths are handled
//! as bytes with `/` separators and `.` extension marks; missing pieces get
//! the documented defaults.

use vstd::prelude::*;

use crate::cli::{BakeArgs, MotionArgs};
use crate::detect::InputPair;
use crate::motion::MotionInputPair;

verus! {

use vstd::string::StringSliceAdditionalSpecFns;

/// Last index of `c` in `b`, or -1.
pub open spec fn rfind_byte(b: Seq<u8>, c: u8) -> int
    decreases b.len(),
{
    if b.len() == 0 {
        -1
    } else if b[b.len() - 1] == c {
        b.len() - 1
    } else {
        rfind_byte(b.drop_last(), c)
    }
}

/// The derived output name: the input's directory part, its stem (or
/// `default_stem` when empty), the suffix, a dot, and the input's extension
/// (or `jpg` when it has none).
pub open spec fn out_name_spec(p: Seq<u8>, suffix: Seq<u8>, default_stem: Seq<u8>) -> Seq<u8> {
    let ls = rfind_byte(p, 47);
    let dir = if ls >= 0 {
        p.subrange(0, ls + 1)
    } else {
        Seq::<u8>::empty()
    };
    let name = p.subrange(ls + 1, p.len() as int);
    let ld = rfind_byte(name, 46);
    let stem = if ld > 0 {
        name.subrange(0, ld)
    } else {
        name
    };
    let ext = if ld > 0 {
        name.subrange(ld + 1, name.len() as int)
    } else {
        "jpg".spec_bytes()
    };
    let stem2 = if stem.len() == 0 {
        default_stem
    } else {
        stem
    };
    dir + stem2 + suffix + seq![46u8] + ext
}

/// Scan backwards for the last occurrence of `c`; the result is the index
/// plus one (zero when the byte does not occur), so that it stays a usize.
fn rfind_byte_exec(b: &[u8], c: u8) -> (r: usize)
    ensures
        r == rfind_byte(b@, c) + 1,
        r <= b@.len(),
{
    let mut i: usize = b.len();
    proof {
        assert(b@.subrange(0, b@.len() as int) =~= b@);
    }
    loop
        invariant
            0 <= i <= b@.len(),
            rfind_byte(b@, c) == rfind_byte(b@.subrange(0, i as int), c),
        decreases i,
    {
        if i == 0 {
            proof {
                assert(b@.subrange(0, 0) =~= Seq::<u8>::empty());
            }
            return 0;
        }
        proof {
            let sub = b@.subrange(0, i as int);
            assert(sub.len() == i);
            assert(sub[i - 1] == b@[i - 1]);
            assert(sub.drop_last() =~= b@.subrange(0, i - 1));
        }
        if b[i - 1] == c {
            return i;
        }
        i -= 1;
    }
}

/// Derive an output name from `p` with the given suffix and fallback stem.
fn out_name(p: &[u8], suffix: &str, default_stem: &str) -> (r: Vec<u8>)
    ensures
        r@ == out_name_spec(p@, suffix.spec_bytes(), default_stem.spec_bytes()),
{
    let ls_plus = rfind_byte_exec(p, 47);
    let name = vstd::slice::slice_subrange(p, ls_plus, p.len());
    let ld_plus = rfind_byte_exec(name, 46);
    let mut out: Vec<u8> = Vec::new();
    out.extend_from_slice(vstd::slice::slice_subrange(p, 0, ls_plus));
    proof {
        let ls = rfind_byte(p@, 47);
        if ls >= 0 {
            assert(out@ =~= p@.subrange(0, ls + 1));
        } else {
            assert(out@ =~= Seq::<u8>::empty());
        }
    }
    if ld_plus > 1 {
        out.extend_from_slice(vstd::slice::slice_subrange(name, 0, ld_plus - 1));
    } else {
        if name.len() == 0 {
            crate::binutil::push_str_bytes(&mut out, default_stem);
        } else {
            out.extend_from_slice(name);
        }
    }
    crate::binutil::push_str_bytes(&mut out, suffix);
    out.push(46);
    if ld_plus > 1 {
        out.extend_from_slice(vstd::slice::slice_subrange(name, ld_plus, name.len()));
    } else {
        crate::binutil::push_str_bytes(&mut out, "jpg");
    }
    proof {
        assert(out@ =~= out_name_spec(p@, suffix.spec_bytes(), default_stem.spec_bytes()));
    }
    out
}

/// The default output name for a bake, derived from the SDR input.
pub fn default_out_for_sdr(sdr_path: &[u8]) -> (r: Vec<u8>)
    ensures
        r@ == out_name_spec(sdr_path@, "-merge".spec_bytes(), "sdr".spec_bytes()),
{
    out_name(sdr_path, "-merge", "sdr")
}

/// The default output name for a Motion Photo, derived from the photo input.
pub fn default_motion_out(photo_path: &[u8]) -> (r: Vec<u8>)
    ensures
        r@ == out_name_spec(photo_path@, "-motion".spec_bytes(), "photo".spec_bytes()),
{
    out_name(photo_path, "-motion", "photo")
}

/// The bake output path: the explicit override, or the default next to the
/// SDR input.
pub fn resolve_out_path(args: &BakeArgs, inputs: &InputPair) -> (r: Vec<u8>)
    ensures
        match args.out {
            Some(o) => r@ == vstd::utf8::encode_utf8(o@),
            None => r@ == out_name_spec(
                vstd::utf8::encode_utf8(inputs.sdr@),
                "-merge".spec_bytes(),
                "sdr".spec_bytes(),
            ),
        },
{
    match &args.out {
        Some(o) => vstd::slice::slice_to_vec(o.as_str().as_bytes()),
        None => default_out_for_sdr(inputs.sdr.as_str().as_bytes()),
    }
}

/// The Motion Photo output path: the explicit override, or the default next
/// to the photo input.
pub fn resolve_motion_out_path(args: &MotionArgs, inputs: &MotionInputPair) -> (r: Vec<u8>)
    ensures
        match args.out {
            Some(o) => r@ == vstd::utf8::encode_utf8(o@),
            None => r@ == out_name_spec(
                vstd::utf8::encode_utf8(inputs.photo@),
                "-motion".spec_bytes(),
                "photo".spec_bytes(),
            ),
        },
{
    match &args.out {
        Some(o) => vstd::slice::slice_to_vec(o.as_str().as_bytes()),
        None => default_motion_out(inputs.photo.as_str().as_bytes()),
    }
}

} // verus!
