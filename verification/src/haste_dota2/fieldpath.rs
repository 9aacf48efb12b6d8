//! Field paths of 32 bit components, read with a bit reader whose reads fail at the end of the
//! buffer.

use crate::haste_base::fieldpath::{code_walk, op_of_id};
use crate::haste_common::bitbuf::{BitBufError, BitReader};
use crate::haste_common::bits::{bit_at, total_bits};
use crate::haste_core::fieldops::{
    rd_bits, rd_delta, rd_fp, rd_var, rd_varint, FieldOp, NonTopoDelta, FIELD_PATH_LEN,
};
use crate::haste_dota2::fieldops::{
    fieldop_ok32, fieldop_spec32, lemma_non_topo32_keeps_last, non_topo_from32, path_wf32,
    push_fp_values32, st_inc_at32, st_pop32, st_push32, wrap_i32, PathState32,
};
use vstd::prelude::*;

verus! {

/// Error of field path decoding.
#[derive(Debug, Clone, Copy, PartialEq, Eq, Structural)]
pub enum Error {
    /// A read ran past the end of the bit buffer.
    BitBuf(BitBufError),
    /// 17 bits (the depth of the Huffman tree) were read without completing an operation code.
    ExhaustedMaxOpBits,
}

/// Number of components of a field path.
pub const FIELD_PATH_DATA_SIZE: usize = 7;

/// A field path: seven components, of which those up to `position` are in use.
#[derive(Debug, Clone, Copy)]
pub struct FieldPath {
    pub data: [i32; 7],
    pub position: usize,
    pub finished: bool,
}

/// The path that decoding starts from: `[-1, 0, 0, 0, 0, 0, 0]`, the first component in use.
pub open spec fn initial_path_state32() -> PathState32 {
    (seq![-1i32, 0i32, 0i32, 0i32, 0i32, 0i32, 0i32], 0)
}

impl Default for FieldPath {
    /// The path that decoding starts from, see [`initial_path_state32`].
    fn default() -> (r: Self)
        ensures
            r.state() == initial_path_state32(),
            !r.finished,
            r.wf(),
    {
        let r = FieldPath { data: [-1, 0, 0, 0, 0, 0, 0], position: 0, finished: false };
        assert(r.data@ =~= initial_path_state32().0);
        r
    }
}

impl FieldPath {
    /// Components and index of the last one in use.
    pub open spec fn state(&self) -> PathState32 {
        (self.data@, self.position as int)
    }

    /// Seven components, zero after the last one in use.
    pub open spec fn wf(&self) -> bool {
        path_wf32(self.state())
    }

    /// Adds `v` to component `i`, wrapping around at `2^32`.
    fn inc_at(&mut self, i: usize, v: i64)
        requires
            old(self).wf(),
            i <= old(self).state().1,
            -0x1_0000_0000_0000 < v < 0x1_0000_0000_0000,
        ensures
            final(self).state() == st_inc_at32(old(self).state(), i as int, v as int),
            final(self).finished == old(self).finished,
            final(self).wf(),
    {
        let x: i64 = self.data[i] as i64 + v;
        proof {
            assert((x as i32) as int == (x + 0x8000_0000) % 0x1_0000_0000 - 0x8000_0000)
                by (bit_vector);
        }
        let r: i32 = #[verifier::truncate] (x as i32);
        self.data[i] = r;
        assert(self.data@ =~= st_inc_at32(old(self).state(), i as int, v as int).0);
    }

    /// Adds `v` to the last component in use.
    fn inc_last(&mut self, v: i64)
        requires
            old(self).wf(),
            -0x1_0000_0000_0000 < v < 0x1_0000_0000_0000,
        ensures
            final(self).state() == crate::haste_dota2::fieldops::st_inc_last32(
                old(self).state(),
                v as int,
            ),
            final(self).finished == old(self).finished,
            final(self).wf(),
    {
        let position = self.position;
        self.inc_at(position, v);
    }

    /// Appends a component `value` (wrapped into 32 bits).
    fn push_back(&mut self, value: i64)
        requires
            old(self).wf(),
            old(self).state().1 + 1 < FIELD_PATH_LEN,
            -0x1_0000_0000_0000 < value < 0x1_0000_0000_0000,
        ensures
            final(self).state() == st_push32(old(self).state(), value as int),
            final(self).finished == old(self).finished,
            final(self).wf(),
    {
        self.position = self.position + 1;
        proof {
            assert((value as i32) as int == (value + 0x8000_0000) % 0x1_0000_0000 - 0x8000_0000)
                by (bit_vector);
        }
        let r: i32 = #[verifier::truncate] (value as i32);
        self.data[self.position] = r;
        assert(self.data@ =~= st_push32(old(self).state(), value as int).0);
    }

    /// Drops the last `n` components, setting them to zero.
    fn pop(&mut self, n: usize)
        requires
            old(self).wf(),
            n <= old(self).state().1,
        ensures
            final(self).state() == st_pop32(old(self).state(), n as nat),
            final(self).finished == old(self).finished,
            final(self).wf(),
    {
        let mut k: usize = 0;
        while k < n
            invariant
                k <= n,
                n <= old(self).state().1,
                self.wf(),
                self.state().1 == old(self).state().1 - k,
                self.finished == old(self).finished,
                st_pop32(old(self).state(), n as nat) == st_pop32(self.state(), (n - k) as nat),
            decreases n - k,
        {
            let position = self.position;
            self.data[position] = 0;
            self.position = position - 1;
            k = k + 1;
        }
    }
}

/// `op` may run on `fp` with the bits after bit `br.pos()`.
pub open spec fn op_pre32(op: FieldOp, fp: FieldPath, br: BitReader) -> bool {
    &&& fp.wf()
    &&& br.wf()
    &&& fieldop_ok32(op, fp.state(), br.bytes(), br.pos())
}

/// `fp1`, `br1` and `r` are what `op` makes of `fp0` and `br0`: when its bits lie inside the
/// buffer, the path of [`fieldop_spec32`]; otherwise an overflow error.
pub open spec fn op_post32(
    op: FieldOp,
    fp0: FieldPath,
    fp1: FieldPath,
    br0: BitReader,
    br1: BitReader,
    r: Result<(), Error>,
) -> bool {
    let sp = fieldop_spec32(op, fp0.state(), br0.bytes(), br0.pos());
    &&& fp1.wf()
    &&& br1.wf()
    &&& br1.bytes() == br0.bytes()
    &&& sp.1 <= total_bits(br0.bytes()) ==> {
        &&& r is Ok
        &&& fp1.state() == sp.0
        &&& br1.pos() == sp.1
        &&& fp1.finished == (fp0.finished || op == FieldOp::FieldPathEncodeFinish)
    }
    &&& sp.1 > total_bits(br0.bytes()) ==> r == Err::<(), Error>(Error::BitBuf(BitBufError::Overflow))
}

/// The error of a read that ran out of bits.
pub open spec fn overflow<T>() -> Result<T, Error> {
    Err(Error::BitBuf(BitBufError::Overflow))
}

/// Reads a field path `UBitVarFP`.
fn read_fp(br: &mut BitReader) -> (r: Result<i64, Error>)
    requires
        old(br).wf(),
    ensures
        final(br).wf(),
        final(br).bytes() == old(br).bytes(),
        ({
            let (v, c) = rd_fp(old(br).bytes(), old(br).pos());
            &&& old(br).pos() + c <= total_bits(old(br).bytes()) ==> r == Ok::<i64, Error>(v as i64)
                && final(br).pos() == old(br).pos() + c && 0 <= v < 0x1_0000_0000
            &&& old(br).pos() + c > total_bits(old(br).bytes()) ==> r == overflow::<i64>()
        }),
{
    proof {
        crate::haste_common::bits::lemma_var_bounds(br.bytes(), br.pos());
    }
    match br.read_ubitvarfp() {
        Ok(v) => Ok(v as i64),
        Err(e) => Err(Error::BitBuf(e)),
    }
}

/// Reads a `UBitVar`.
fn read_var(br: &mut BitReader) -> (r: Result<i64, Error>)
    requires
        old(br).wf(),
    ensures
        final(br).wf(),
        final(br).bytes() == old(br).bytes(),
        ({
            let (v, c) = rd_var(old(br).bytes(), old(br).pos());
            &&& old(br).pos() + c <= total_bits(old(br).bytes()) ==> r == Ok::<i64, Error>(v as i64)
                && final(br).pos() == old(br).pos() + c && 0 <= v < 0x1_0000_0000
            &&& old(br).pos() + c > total_bits(old(br).bytes()) ==> r == overflow::<i64>()
        }),
{
    proof {
        crate::haste_common::bits::lemma_var_bounds(br.bytes(), br.pos());
    }
    match br.read_ubitvar() {
        Ok(v) => Ok(v as i64),
        Err(e) => Err(Error::BitBuf(e)),
    }
}

/// Reads a ZigZag varint.
fn read_varint(br: &mut BitReader) -> (r: Result<i64, Error>)
    requires
        old(br).wf(),
    ensures
        final(br).wf(),
        final(br).bytes() == old(br).bytes(),
        ({
            let (v, c) = rd_varint(old(br).bytes(), old(br).pos());
            &&& old(br).pos() + c <= total_bits(old(br).bytes()) ==> r == Ok::<i64, Error>(v as i64)
                && final(br).pos() == old(br).pos() + c && -0x8000_0000 <= v < 0x8000_0000
            &&& old(br).pos() + c > total_bits(old(br).bytes()) ==> r == overflow::<i64>()
        }),
{
    proof {
        crate::haste_common::bits::lemma_var_bounds(br.bytes(), br.pos());
    }
    match br.read_varint32() {
        Ok(v) => Ok(v as i64),
        Err(e) => Err(Error::BitBuf(e)),
    }
}

/// Reads `n` bits.
fn read_bits(br: &mut BitReader, n: usize) -> (r: Result<i64, Error>)
    requires
        old(br).wf(),
        n <= 8,
    ensures
        final(br).wf(),
        final(br).bytes() == old(br).bytes(),
        old(br).pos() + n <= total_bits(old(br).bytes()) ==> r == Ok::<i64, Error>(
            rd_bits(old(br).bytes(), old(br).pos(), n as nat) as i64,
        ) && final(br).pos() == old(br).pos() + n && 0 <= rd_bits(
            old(br).bytes(),
            old(br).pos(),
            n as nat,
        ) < 256,
        old(br).pos() + n > total_bits(old(br).bytes()) ==> r == overflow::<i64>(),
{
    proof {
        crate::haste_common::bits::lemma_bits_value_bound(br.bytes(), br.pos(), n as nat);
        vstd::arithmetic::power2::lemma2_to64();
        if n < 8 {
            vstd::arithmetic::power2::lemma_pow2_strictly_increases(n as nat, 8);
        }
    }
    match br.read_ubitlong(n) {
        Ok(v) => Ok(v as i64),
        Err(e) => Err(Error::BitBuf(e)),
    }
}

/// Reads the increment of a flagged component of a non-topological operation.
fn read_delta(br: &mut BitReader, mode: NonTopoDelta) -> (r: Result<i64, Error>)
    requires
        old(br).wf(),
    ensures
        final(br).wf(),
        final(br).bytes() == old(br).bytes(),
        ({
            let (v, c) = rd_delta(mode, old(br).bytes(), old(br).pos());
            &&& old(br).pos() + c <= total_bits(old(br).bytes()) ==> r == Ok::<i64, Error>(v as i64)
                && final(br).pos() == old(br).pos() + c && -0x1_0000_0000 < v < 0x1_0000_0000
            &&& old(br).pos() + c > total_bits(old(br).bytes()) ==> r == overflow::<i64>()
        }),
{
    match mode {
        NonTopoDelta::VarintPlusOne => {
            let v = read_varint(br)?;
            Ok(v + 1)
        },
        NonTopoDelta::Varint => read_varint(br),
        NonTopoDelta::Pack4Bits => {
            let v = read_bits(br, 4)?;
            Ok(v - 7)
        },
    }
}

/// The bit position only grows along a non-topological operation.
proof fn lemma_non_topo32_forward(st: PathState32, i: int, mode: NonTopoDelta, d: Seq<u8>, q: int)
    ensures
        non_topo_from32(st, i, mode, d, q).1 >= q,
        (0 <= i <= st.1) ==> non_topo_from32(st, i, mode, d, q).1 >= q + 1,
    decreases st.1 + 1 - i,
{
    if i > st.1 || i < 0 {
    } else if bit_at(d, q) {
        let r = rd_delta(mode, d, q + 1);
        lemma_non_topo32_forward(st_inc_at32(st, i, r.0), i + 1, mode, d, q + 1 + r.1);
        lemma_rd_delta_width(mode, d, q + 1);
    } else {
        lemma_non_topo32_forward(st, i + 1, mode, d, q + 1);
    }
}

/// Increments take no negative width.
proof fn lemma_rd_delta_width(mode: NonTopoDelta, d: Seq<u8>, q: int)
    ensures
        rd_delta(mode, d, q).1 >= 0,
{
}

/// The bit position only grows along pushes of field path values.
proof fn lemma_push_fp32_forward(st: PathState32, k: nat, d: Seq<u8>, q: int)
    ensures
        push_fp_values32(st, k, d, q).1 >= q,
        k > 0 ==> push_fp_values32(st, k, d, q).1 >= q + rd_fp(d, q).1,
    decreases k,
{
    if k > 0 {
        let v = rd_fp(d, q);
        lemma_push_fp32_forward(st_push32(st, v.0), (k - 1) as nat, d, q + v.1);
    }
}

/// The bit position only grows along pushes and non-topological operations.
proof fn lemma_forward_all(d: Seq<u8>)
    ensures
        forall|st: PathState32, k: nat, q: int|
            #[trigger] push_fp_values32(st, k, d, q).1 >= q,
        forall|st: PathState32, mode: NonTopoDelta, q: int|
            #[trigger] non_topo_from32(st, 0, mode, d, q).1 >= q,
{
    assert forall|st: PathState32, k: nat, q: int| #[trigger] push_fp_values32(st, k, d, q).1 >= q by {
        lemma_push_fp32_forward(st, k, d, q);
    }
    assert forall|st: PathState32, mode: NonTopoDelta, q: int|
        #[trigger] non_topo_from32(st, 0, mode, d, q).1 >= q by {
        lemma_non_topo32_forward(st, 0, mode, d, q);
    }
}

/// For every component in use: a flag bit, then, if set, an increment of that component.
fn non_topo_exec(fp: &mut FieldPath, br: &mut BitReader, mode: NonTopoDelta) -> (r: Result<
    (),
    Error,
>)
    requires
        old(fp).wf(),
        old(br).wf(),
    ensures
        final(fp).wf(),
        final(br).wf(),
        final(br).bytes() == old(br).bytes(),
        ({
            let sp = non_topo_from32(old(fp).state(), 0, mode, old(br).bytes(), old(br).pos());
            &&& sp.1 <= total_bits(old(br).bytes()) ==> r is Ok && final(fp).state() == sp.0
                && final(br).pos() == sp.1 && final(fp).finished == old(fp).finished
            &&& sp.1 > total_bits(old(br).bytes()) ==> r == overflow::<()>()
        }),
{
    let ghost d = br.bytes();
    let position = fp.position;
    let mut i: usize = 0;
    while i <= position
        invariant
            fp.wf(),
            br.wf(),
            br.bytes() == d,
            d == old(br).bytes(),
            position == fp.state().1,
            position < FIELD_PATH_LEN,
            i <= position + 1,
            fp.finished == old(fp).finished,
            non_topo_from32(old(fp).state(), 0, mode, d, old(br).pos()) == non_topo_from32(
                fp.state(),
                i as int,
                mode,
                d,
                br.pos(),
            ),
        decreases position + 1 - i,
    {
        proof {
            lemma_non_topo32_forward(fp.state(), i as int, mode, d, br.pos());
            let r = rd_delta(mode, d, br.pos() + 1);
            lemma_non_topo32_forward(
                st_inc_at32(fp.state(), i as int, r.0),
                i + 1,
                mode,
                d,
                br.pos() + 1 + r.1,
            );
            lemma_non_topo32_forward(fp.state(), i + 1, mode, d, br.pos() + 1);
        }
        let flag = match br.read_bool() {
            Ok(b) => b,
            Err(e) => return Err(Error::BitBuf(e)),
        };
        if flag {
            let v = read_delta(br, mode)?;
            fp.inc_at(i, v);
        }
        i = i + 1;
    }
    Ok(())
}

/// Appends `n` components, each read as a field path `UBitVarFP`.
fn push_fp_values_exec(fp: &mut FieldPath, br: &mut BitReader, n: usize) -> (r: Result<
    (),
    Error,
>)
    requires
        old(fp).wf(),
        old(br).wf(),
        old(fp).state().1 + n < FIELD_PATH_LEN,
    ensures
        final(fp).wf(),
        final(br).wf(),
        final(br).bytes() == old(br).bytes(),
        ({
            let sp = push_fp_values32(old(fp).state(), n as nat, old(br).bytes(), old(br).pos());
            &&& sp.1 <= total_bits(old(br).bytes()) ==> r is Ok && final(fp).state() == sp.0
                && final(br).pos() == sp.1 && final(fp).finished == old(fp).finished
            &&& sp.1 > total_bits(old(br).bytes()) ==> r == overflow::<()>()
        }),
{
    let ghost d = br.bytes();
    let mut k: usize = 0;
    while k < n
        invariant
            fp.wf(),
            br.wf(),
            br.bytes() == d,
            d == old(br).bytes(),
            k <= n,
            fp.state().1 == old(fp).state().1 + k,
            old(fp).state().1 + n < FIELD_PATH_LEN,
            fp.finished == old(fp).finished,
            push_fp_values32(old(fp).state(), n as nat, d, old(br).pos()) == push_fp_values32(
                fp.state(),
                (n - k) as nat,
                d,
                br.pos(),
            ),
        decreases n - k,
    {
        proof {
            lemma_push_fp32_forward(fp.state(), (n - k) as nat, d, br.pos());
        }
        let v = read_fp(br)?;
        fp.push_back(v);
        k = k + 1;
    }
    proof {
        lemma_push_fp32_forward(fp.state(), 0, d, br.pos());
    }
    Ok(())
}

/// Field path operation `PlusOne`.
fn plus_one(fp: &mut FieldPath, br: &mut BitReader) -> (r: Result<(), Error>)
    requires
        op_pre32(FieldOp::PlusOne, *old(fp), *old(br)),
    ensures
        op_post32(FieldOp::PlusOne, *old(fp), *final(fp), *old(br), *final(br), r),
{
    fp.inc_last(1);
    Ok(())
}

/// Field path operation `PlusTwo`.
fn plus_two(fp: &mut FieldPath, br: &mut BitReader) -> (r: Result<(), Error>)
    requires
        op_pre32(FieldOp::PlusTwo, *old(fp), *old(br)),
    ensures
        op_post32(FieldOp::PlusTwo, *old(fp), *final(fp), *old(br), *final(br), r),
{
    fp.inc_last(2);
    Ok(())
}

/// Field path operation `PlusThree`.
fn plus_three(fp: &mut FieldPath, br: &mut BitReader) -> (r: Result<(), Error>)
    requires
        op_pre32(FieldOp::PlusThree, *old(fp), *old(br)),
    ensures
        op_post32(FieldOp::PlusThree, *old(fp), *final(fp), *old(br), *final(br), r),
{
    fp.inc_last(3);
    Ok(())
}

/// Field path operation `PlusFour`.
fn plus_four(fp: &mut FieldPath, br: &mut BitReader) -> (r: Result<(), Error>)
    requires
        op_pre32(FieldOp::PlusFour, *old(fp), *old(br)),
    ensures
        op_post32(FieldOp::PlusFour, *old(fp), *final(fp), *old(br), *final(br), r),
{
    fp.inc_last(4);
    Ok(())
}

/// Field path operation `PlusN`.
fn plus_n(fp: &mut FieldPath, br: &mut BitReader) -> (r: Result<(), Error>)
    requires
        op_pre32(FieldOp::PlusN, *old(fp), *old(br)),
    ensures
        op_post32(FieldOp::PlusN, *old(fp), *final(fp), *old(br), *final(br), r),
{
    let v = read_fp(br)?;
    fp.inc_last(v + 5);
    Ok(())
}

/// Field path operation `PushOneLeftDeltaZeroRightZero`.
fn push_one_left_delta_zero_right_zero(fp: &mut FieldPath, br: &mut BitReader) -> (r: Result<(), Error>)
    requires
        op_pre32(FieldOp::PushOneLeftDeltaZeroRightZero, *old(fp), *old(br)),
    ensures
        op_post32(FieldOp::PushOneLeftDeltaZeroRightZero, *old(fp), *final(fp), *old(br), *final(br), r),
{
    fp.push_back(0);
    Ok(())
}

/// Field path operation `PushOneLeftDeltaZeroRightNonZero`.
fn push_one_left_delta_zero_right_non_zero(fp: &mut FieldPath, br: &mut BitReader) -> (r: Result<(), Error>)
    requires
        op_pre32(FieldOp::PushOneLeftDeltaZeroRightNonZero, *old(fp), *old(br)),
    ensures
        op_post32(FieldOp::PushOneLeftDeltaZeroRightNonZero, *old(fp), *final(fp), *old(br), *final(br), r),
{
    let v = read_fp(br)?;
    fp.push_back(v);
    Ok(())
}

/// Field path operation `PushOneLeftDeltaOneRightZero`.
fn push_one_left_delta_one_right_zero(fp: &mut FieldPath, br: &mut BitReader) -> (r: Result<(), Error>)
    requires
        op_pre32(FieldOp::PushOneLeftDeltaOneRightZero, *old(fp), *old(br)),
    ensures
        op_post32(FieldOp::PushOneLeftDeltaOneRightZero, *old(fp), *final(fp), *old(br), *final(br), r),
{
    fp.inc_last(1);
    fp.push_back(0);
    Ok(())
}

/// Field path operation `PushOneLeftDeltaOneRightNonZero`.
fn push_one_left_delta_one_right_non_zero(fp: &mut FieldPath, br: &mut BitReader) -> (r: Result<(), Error>)
    requires
        op_pre32(FieldOp::PushOneLeftDeltaOneRightNonZero, *old(fp), *old(br)),
    ensures
        op_post32(FieldOp::PushOneLeftDeltaOneRightNonZero, *old(fp), *final(fp), *old(br), *final(br), r),
{
    fp.inc_last(1);
    let v = read_fp(br)?;
    fp.push_back(v);
    Ok(())
}

/// Field path operation `PushOneLeftDeltaNRightZero`.
fn push_one_left_delta_n_right_zero(fp: &mut FieldPath, br: &mut BitReader) -> (r: Result<(), Error>)
    requires
        op_pre32(FieldOp::PushOneLeftDeltaNRightZero, *old(fp), *old(br)),
    ensures
        op_post32(FieldOp::PushOneLeftDeltaNRightZero, *old(fp), *final(fp), *old(br), *final(br), r),
{
    let v = read_fp(br)?;
    fp.inc_last(v);
    fp.push_back(0);
    Ok(())
}

/// Field path operation `PushOneLeftDeltaNRightNonZero`.
fn push_one_left_delta_n_right_non_zero(fp: &mut FieldPath, br: &mut BitReader) -> (r: Result<(), Error>)
    requires
        op_pre32(FieldOp::PushOneLeftDeltaNRightNonZero, *old(fp), *old(br)),
    ensures
        op_post32(FieldOp::PushOneLeftDeltaNRightNonZero, *old(fp), *final(fp), *old(br), *final(br), r),
{
    let a = read_fp(br)?;
    fp.inc_last(a + 2);
    let b = read_fp(br)?;
    fp.push_back(b + 1);
    Ok(())
}

/// Field path operation `PushOneLeftDeltaNRightNonZeroPack6Bits`.
fn push_one_left_delta_n_right_non_zero_pack6_bits(fp: &mut FieldPath, br: &mut BitReader) -> (r: Result<(), Error>)
    requires
        op_pre32(FieldOp::PushOneLeftDeltaNRightNonZeroPack6Bits, *old(fp), *old(br)),
    ensures
        op_post32(FieldOp::PushOneLeftDeltaNRightNonZeroPack6Bits, *old(fp), *final(fp), *old(br), *final(br), r),
{
    let a = read_bits(br, 3)?;
    fp.inc_last(a + 2);
    let b = read_bits(br, 3)?;
    fp.push_back(b + 1);
    Ok(())
}

/// Field path operation `PushOneLeftDeltaNRightNonZeroPack8Bits`.
fn push_one_left_delta_n_right_non_zero_pack8_bits(fp: &mut FieldPath, br: &mut BitReader) -> (r: Result<(), Error>)
    requires
        op_pre32(FieldOp::PushOneLeftDeltaNRightNonZeroPack8Bits, *old(fp), *old(br)),
    ensures
        op_post32(FieldOp::PushOneLeftDeltaNRightNonZeroPack8Bits, *old(fp), *final(fp), *old(br), *final(br), r),
{
    let a = read_bits(br, 4)?;
    fp.inc_last(a + 2);
    let b = read_bits(br, 4)?;
    fp.push_back(b + 1);
    Ok(())
}

/// Field path operation `PushTwoLeftDeltaZero`.
fn push_two_left_delta_zero(fp: &mut FieldPath, br: &mut BitReader) -> (r: Result<(), Error>)
    requires
        op_pre32(FieldOp::PushTwoLeftDeltaZero, *old(fp), *old(br)),
    ensures
        op_post32(FieldOp::PushTwoLeftDeltaZero, *old(fp), *final(fp), *old(br), *final(br), r),
{
    let a = read_fp(br)?;
    fp.push_back(a);
    let b = read_fp(br)?;
    fp.push_back(b);
    Ok(())
}

/// Field path operation `PushTwoPack5LeftDeltaZero`.
fn push_two_pack5_left_delta_zero(fp: &mut FieldPath, br: &mut BitReader) -> (r: Result<(), Error>)
    requires
        op_pre32(FieldOp::PushTwoPack5LeftDeltaZero, *old(fp), *old(br)),
    ensures
        op_post32(FieldOp::PushTwoPack5LeftDeltaZero, *old(fp), *final(fp), *old(br), *final(br), r),
{
    let a = read_bits(br, 5)?;
    fp.push_back(a);
    let b = read_bits(br, 5)?;
    fp.push_back(b);
    Ok(())
}

/// Field path operation `PushThreeLeftDeltaZero`.
fn push_three_left_delta_zero(fp: &mut FieldPath, br: &mut BitReader) -> (r: Result<(), Error>)
    requires
        op_pre32(FieldOp::PushThreeLeftDeltaZero, *old(fp), *old(br)),
    ensures
        op_post32(FieldOp::PushThreeLeftDeltaZero, *old(fp), *final(fp), *old(br), *final(br), r),
{
    let a = read_fp(br)?;
    fp.push_back(a);
    let b = read_fp(br)?;
    fp.push_back(b);
    let c = read_fp(br)?;
    fp.push_back(c);
    Ok(())
}

/// Field path operation `PushThreePack5LeftDeltaZero`.
fn push_three_pack5_left_delta_zero(fp: &mut FieldPath, br: &mut BitReader) -> (r: Result<(), Error>)
    requires
        op_pre32(FieldOp::PushThreePack5LeftDeltaZero, *old(fp), *old(br)),
    ensures
        op_post32(FieldOp::PushThreePack5LeftDeltaZero, *old(fp), *final(fp), *old(br), *final(br), r),
{
    let a = read_bits(br, 5)?;
    fp.push_back(a);
    let b = read_bits(br, 5)?;
    fp.push_back(b);
    let c = read_bits(br, 5)?;
    fp.push_back(c);
    Ok(())
}

/// Field path operation `PushTwoLeftDeltaOne`.
fn push_two_left_delta_one(fp: &mut FieldPath, br: &mut BitReader) -> (r: Result<(), Error>)
    requires
        op_pre32(FieldOp::PushTwoLeftDeltaOne, *old(fp), *old(br)),
    ensures
        op_post32(FieldOp::PushTwoLeftDeltaOne, *old(fp), *final(fp), *old(br), *final(br), r),
{
    fp.inc_last(1);
    let a = read_fp(br)?;
    fp.push_back(a);
    let b = read_fp(br)?;
    fp.push_back(b);
    Ok(())
}

/// Field path operation `PushTwoPack5LeftDeltaOne`.
fn push_two_pack5_left_delta_one(fp: &mut FieldPath, br: &mut BitReader) -> (r: Result<(), Error>)
    requires
        op_pre32(FieldOp::PushTwoPack5LeftDeltaOne, *old(fp), *old(br)),
    ensures
        op_post32(FieldOp::PushTwoPack5LeftDeltaOne, *old(fp), *final(fp), *old(br), *final(br), r),
{
    fp.inc_last(1);
    let a = read_bits(br, 5)?;
    fp.push_back(a);
    let b = read_bits(br, 5)?;
    fp.push_back(b);
    Ok(())
}

/// Field path operation `PushThreeLeftDeltaOne`.
fn push_three_left_delta_one(fp: &mut FieldPath, br: &mut BitReader) -> (r: Result<(), Error>)
    requires
        op_pre32(FieldOp::PushThreeLeftDeltaOne, *old(fp), *old(br)),
    ensures
        op_post32(FieldOp::PushThreeLeftDeltaOne, *old(fp), *final(fp), *old(br), *final(br), r),
{
    fp.inc_last(1);
    let a = read_fp(br)?;
    fp.push_back(a);
    let b = read_fp(br)?;
    fp.push_back(b);
    let c = read_fp(br)?;
    fp.push_back(c);
    Ok(())
}

/// Field path operation `PushThreePack5LeftDeltaOne`.
fn push_three_pack5_left_delta_one(fp: &mut FieldPath, br: &mut BitReader) -> (r: Result<(), Error>)
    requires
        op_pre32(FieldOp::PushThreePack5LeftDeltaOne, *old(fp), *old(br)),
    ensures
        op_post32(FieldOp::PushThreePack5LeftDeltaOne, *old(fp), *final(fp), *old(br), *final(br), r),
{
    fp.inc_last(1);
    let a = read_bits(br, 5)?;
    fp.push_back(a);
    let b = read_bits(br, 5)?;
    fp.push_back(b);
    let c = read_bits(br, 5)?;
    fp.push_back(c);
    Ok(())
}

/// Field path operation `PushTwoLeftDeltaN`.
fn push_two_left_delta_n(fp: &mut FieldPath, br: &mut BitReader) -> (r: Result<(), Error>)
    requires
        op_pre32(FieldOp::PushTwoLeftDeltaN, *old(fp), *old(br)),
    ensures
        op_post32(FieldOp::PushTwoLeftDeltaN, *old(fp), *final(fp), *old(br), *final(br), r),
{
    let n = read_var(br)?;
    fp.inc_last(n + 2);
    let a = read_fp(br)?;
    fp.push_back(a);
    let b = read_fp(br)?;
    fp.push_back(b);
    Ok(())
}

/// Field path operation `PushTwoPack5LeftDeltaN`.
fn push_two_pack5_left_delta_n(fp: &mut FieldPath, br: &mut BitReader) -> (r: Result<(), Error>)
    requires
        op_pre32(FieldOp::PushTwoPack5LeftDeltaN, *old(fp), *old(br)),
    ensures
        op_post32(FieldOp::PushTwoPack5LeftDeltaN, *old(fp), *final(fp), *old(br), *final(br), r),
{
    let n = read_var(br)?;
    fp.inc_last(n + 2);
    let a = read_bits(br, 5)?;
    fp.push_back(a);
    let b = read_bits(br, 5)?;
    fp.push_back(b);
    Ok(())
}

/// Field path operation `PushThreeLeftDeltaN`.
fn push_three_left_delta_n(fp: &mut FieldPath, br: &mut BitReader) -> (r: Result<(), Error>)
    requires
        op_pre32(FieldOp::PushThreeLeftDeltaN, *old(fp), *old(br)),
    ensures
        op_post32(FieldOp::PushThreeLeftDeltaN, *old(fp), *final(fp), *old(br), *final(br), r),
{
    let n = read_var(br)?;
    fp.inc_last(n + 2);
    let a = read_fp(br)?;
    fp.push_back(a);
    let b = read_fp(br)?;
    fp.push_back(b);
    let c = read_fp(br)?;
    fp.push_back(c);
    Ok(())
}

/// Field path operation `PushThreePack5LeftDeltaN`.
fn push_three_pack5_left_delta_n(fp: &mut FieldPath, br: &mut BitReader) -> (r: Result<(), Error>)
    requires
        op_pre32(FieldOp::PushThreePack5LeftDeltaN, *old(fp), *old(br)),
    ensures
        op_post32(FieldOp::PushThreePack5LeftDeltaN, *old(fp), *final(fp), *old(br), *final(br), r),
{
    let n = read_var(br)?;
    fp.inc_last(n + 2);
    let a = read_bits(br, 5)?;
    fp.push_back(a);
    let b = read_bits(br, 5)?;
    fp.push_back(b);
    let c = read_bits(br, 5)?;
    fp.push_back(c);
    Ok(())
}

/// Field path operation `PushN`.
fn push_n(fp: &mut FieldPath, br: &mut BitReader) -> (r: Result<(), Error>)
    requires
        op_pre32(FieldOp::PushN, *old(fp), *old(br)),
    ensures
        op_post32(FieldOp::PushN, *old(fp), *final(fp), *old(br), *final(br), r),
{
    proof {
        lemma_forward_all(br.bytes());
    }
    let n = read_var(br)? as usize;
    let v = read_var(br)?;
    fp.inc_last(v);
    push_fp_values_exec(fp, br, n)?;
    Ok(())
}

/// Field path operation `PushNAndNonTopographical`.
fn push_n_and_non_topological(fp: &mut FieldPath, br: &mut BitReader) -> (r: Result<(), Error>)
    requires
        op_pre32(FieldOp::PushNAndNonTopographical, *old(fp), *old(br)),
    ensures
        op_post32(FieldOp::PushNAndNonTopographical, *old(fp), *final(fp), *old(br), *final(br), r),
{
    proof {
        lemma_forward_all(br.bytes());
    }
    proof {
        lemma_non_topo32_keeps_last(fp.state(), 0, NonTopoDelta::VarintPlusOne, br.bytes(), br.pos());
    }
    non_topo_exec(fp, br, NonTopoDelta::VarintPlusOne)?;
    let n = read_var(br)? as usize;
    push_fp_values_exec(fp, br, n)?;
    Ok(())
}

/// Field path operation `PopOnePlusOne`.
fn pop_one_plus_one(fp: &mut FieldPath, br: &mut BitReader) -> (r: Result<(), Error>)
    requires
        op_pre32(FieldOp::PopOnePlusOne, *old(fp), *old(br)),
    ensures
        op_post32(FieldOp::PopOnePlusOne, *old(fp), *final(fp), *old(br), *final(br), r),
{
    fp.pop(1);
    fp.inc_last(1);
    Ok(())
}

/// Field path operation `PopOnePlusN`.
fn pop_one_plus_n(fp: &mut FieldPath, br: &mut BitReader) -> (r: Result<(), Error>)
    requires
        op_pre32(FieldOp::PopOnePlusN, *old(fp), *old(br)),
    ensures
        op_post32(FieldOp::PopOnePlusN, *old(fp), *final(fp), *old(br), *final(br), r),
{
    fp.pop(1);
    let v = read_fp(br)?;
    fp.inc_last(v + 1);
    Ok(())
}

/// Field path operation `PopAllButOnePlusOne`.
fn pop_all_but_one_plus_one(fp: &mut FieldPath, br: &mut BitReader) -> (r: Result<(), Error>)
    requires
        op_pre32(FieldOp::PopAllButOnePlusOne, *old(fp), *old(br)),
    ensures
        op_post32(FieldOp::PopAllButOnePlusOne, *old(fp), *final(fp), *old(br), *final(br), r),
{
    let n = fp.position;
    fp.pop(n);
    fp.inc_last(1);
    Ok(())
}

/// Field path operation `PopAllButOnePlusN`.
fn pop_all_but_one_plus_n(fp: &mut FieldPath, br: &mut BitReader) -> (r: Result<(), Error>)
    requires
        op_pre32(FieldOp::PopAllButOnePlusN, *old(fp), *old(br)),
    ensures
        op_post32(FieldOp::PopAllButOnePlusN, *old(fp), *final(fp), *old(br), *final(br), r),
{
    let n = fp.position;
    fp.pop(n);
    let v = read_fp(br)?;
    fp.inc_last(v + 1);
    Ok(())
}

/// Field path operation `PopAllButOnePlusNPack3Bits`.
fn pop_all_but_one_plus_n_pack3_bits(fp: &mut FieldPath, br: &mut BitReader) -> (r: Result<(), Error>)
    requires
        op_pre32(FieldOp::PopAllButOnePlusNPack3Bits, *old(fp), *old(br)),
    ensures
        op_post32(FieldOp::PopAllButOnePlusNPack3Bits, *old(fp), *final(fp), *old(br), *final(br), r),
{
    let n = fp.position;
    fp.pop(n);
    let v = read_bits(br, 3)?;
    fp.inc_last(v + 1);
    Ok(())
}

/// Field path operation `PopAllButOnePlusNPack6Bits`.
fn pop_all_but_one_plus_n_pack6_bits(fp: &mut FieldPath, br: &mut BitReader) -> (r: Result<(), Error>)
    requires
        op_pre32(FieldOp::PopAllButOnePlusNPack6Bits, *old(fp), *old(br)),
    ensures
        op_post32(FieldOp::PopAllButOnePlusNPack6Bits, *old(fp), *final(fp), *old(br), *final(br), r),
{
    let n = fp.position;
    fp.pop(n);
    let v = read_bits(br, 6)?;
    fp.inc_last(v + 1);
    Ok(())
}

/// Field path operation `PopNPlusOne`.
fn pop_n_plus_one(fp: &mut FieldPath, br: &mut BitReader) -> (r: Result<(), Error>)
    requires
        op_pre32(FieldOp::PopNPlusOne, *old(fp), *old(br)),
    ensures
        op_post32(FieldOp::PopNPlusOne, *old(fp), *final(fp), *old(br), *final(br), r),
{
    let n = read_fp(br)? as usize;
    fp.pop(n);
    fp.inc_last(1);
    Ok(())
}

/// Field path operation `PopNPlusN`.
fn pop_n_plus_n(fp: &mut FieldPath, br: &mut BitReader) -> (r: Result<(), Error>)
    requires
        op_pre32(FieldOp::PopNPlusN, *old(fp), *old(br)),
    ensures
        op_post32(FieldOp::PopNPlusN, *old(fp), *final(fp), *old(br), *final(br), r),
{
    let n = read_fp(br)? as usize;
    fp.pop(n);
    let v = read_varint(br)?;
    fp.inc_last(v);
    Ok(())
}

/// Field path operation `PopNAndNonTopographical`.
fn pop_n_and_non_topographical(fp: &mut FieldPath, br: &mut BitReader) -> (r: Result<(), Error>)
    requires
        op_pre32(FieldOp::PopNAndNonTopographical, *old(fp), *old(br)),
    ensures
        op_post32(FieldOp::PopNAndNonTopographical, *old(fp), *final(fp), *old(br), *final(br), r),
{
    proof {
        lemma_forward_all(br.bytes());
    }
    let n = read_fp(br)? as usize;
    fp.pop(n);
    non_topo_exec(fp, br, NonTopoDelta::Varint)?;
    Ok(())
}

/// Field path operation `NonTopoComplex`.
fn non_topo_complex(fp: &mut FieldPath, br: &mut BitReader) -> (r: Result<(), Error>)
    requires
        op_pre32(FieldOp::NonTopoComplex, *old(fp), *old(br)),
    ensures
        op_post32(FieldOp::NonTopoComplex, *old(fp), *final(fp), *old(br), *final(br), r),
{
    non_topo_exec(fp, br, NonTopoDelta::Varint)?;
    Ok(())
}

/// Field path operation `NonTopoPenultimatePlusOne`.
fn non_topo_penultimate_plus_one(fp: &mut FieldPath, br: &mut BitReader) -> (r: Result<(), Error>)
    requires
        op_pre32(FieldOp::NonTopoPenultimatePlusOne, *old(fp), *old(br)),
    ensures
        op_post32(FieldOp::NonTopoPenultimatePlusOne, *old(fp), *final(fp), *old(br), *final(br), r),
{
    let i = fp.position - 1;
    fp.inc_at(i, 1);
    Ok(())
}

/// Field path operation `NonTopoComplexPack4Bits`.
fn non_topo_complex_pack4_bits(fp: &mut FieldPath, br: &mut BitReader) -> (r: Result<(), Error>)
    requires
        op_pre32(FieldOp::NonTopoComplexPack4Bits, *old(fp), *old(br)),
    ensures
        op_post32(FieldOp::NonTopoComplexPack4Bits, *old(fp), *final(fp), *old(br), *final(br), r),
{
    non_topo_exec(fp, br, NonTopoDelta::Pack4Bits)?;
    Ok(())
}

/// Field path operation `FieldPathEncodeFinish`.
fn field_path_encode_finish(fp: &mut FieldPath, br: &mut BitReader) -> (r: Result<(), Error>)
    requires
        op_pre32(FieldOp::FieldPathEncodeFinish, *old(fp), *old(br)),
    ensures
        op_post32(FieldOp::FieldPathEncodeFinish, *old(fp), *final(fp), *old(br), *final(br), r),
{
    fp.finished = true;
    Ok(())
}

/// Applies the operation whose code is `id`; `Ok(false)` when no operation has that code.
fn lookup_exec_op(id: u32, fp: &mut FieldPath, br: &mut BitReader) -> (r: Result<bool, Error>)
    requires
        old(fp).wf(),
        old(br).wf(),
        op_of_id(id) is Some ==> fieldop_ok32(op_of_id(id)->0, old(fp).state(), old(br).bytes(), old(br).pos()),
    ensures
        op_of_id(id) is None ==> r == Ok::<bool, Error>(false) && *final(fp) == *old(fp) && *final(br) == *old(br),
        op_of_id(id) is Some ==> op_post32(
            op_of_id(id)->0,
            *old(fp),
            *final(fp),
            *old(br),
            *final(br),
            match r {
                Ok(_) => Ok(()),
                Err(e) => Err(e),
            },
        ) && (r is Ok ==> r == Ok::<bool, Error>(true)),
{
    match id {
        0 => plus_one(fp, br)?,
        2 => field_path_encode_finish(fp, br)?,
        14 => plus_two(fp, br)?,
        15 => push_one_left_delta_n_right_non_zero_pack6_bits(fp, br)?,
        24 => push_one_left_delta_one_right_non_zero(fp, br)?,
        26 => plus_n(fp, br)?,
        50 => plus_three(fp, br)?,
        51 => pop_all_but_one_plus_one(fp, br)?,
        217 => push_one_left_delta_n_right_non_zero(fp, br)?,
        218 => push_one_left_delta_one_right_zero(fp, br)?,
        220 => push_one_left_delta_n_right_zero(fp, br)?,
        222 => pop_all_but_one_plus_n_pack6_bits(fp, br)?,
        223 => plus_four(fp, br)?,
        432 => pop_all_but_one_plus_n(fp, br)?,
        438 => push_one_left_delta_n_right_non_zero_pack8_bits(fp, br)?,
        439 => non_topo_penultimate_plus_one(fp, br)?,
        442 => pop_all_but_one_plus_n_pack3_bits(fp, br)?,
        443 => push_n_and_non_topological(fp, br)?,
        866 => non_topo_complex_pack4_bits(fp, br)?,
        1735 => non_topo_complex(fp, br)?,
        3469 => push_one_left_delta_zero_right_zero(fp, br)?,
        27745 => pop_one_plus_one(fp, br)?,
        27749 => push_one_left_delta_zero_right_non_zero(fp, br)?,
        55488 => pop_n_and_non_topographical(fp, br)?,
        55489 => pop_n_plus_n(fp, br)?,
        55492 => push_n(fp, br)?,
        55493 => push_three_pack5_left_delta_n(fp, br)?,
        55494 => pop_n_plus_one(fp, br)?,
        55495 => pop_one_plus_n(fp, br)?,
        55496 => push_two_left_delta_zero(fp, br)?,
        110994 => push_three_left_delta_zero(fp, br)?,
        110995 => push_two_pack5_left_delta_zero(fp, br)?,
        111000 => push_two_left_delta_n(fp, br)?,
        111001 => push_three_pack5_left_delta_one(fp, br)?,
        111002 => push_three_left_delta_n(fp, br)?,
        111003 => push_two_pack5_left_delta_n(fp, br)?,
        111004 => push_two_left_delta_one(fp, br)?,
        111005 => push_three_pack5_left_delta_zero(fp, br)?,
        111006 => push_three_left_delta_one(fp, br)?,
        111007 => push_two_pack5_left_delta_one(fp, br)?,
        _ => return Ok(false),
    };
    Ok(true)
}


/// Decodes field paths at bit `q`, starting from the path `st`, until the code of
/// `FieldPathEncodeFinish`: the paths and the bit after the final code. An overflow error when
/// a code or an operation needs bits past the end of the buffer; `ExhaustedMaxOpBits` when 17
/// bits complete no code; `None` when an operation would leave the seven components or more
/// than `cap` paths would be decoded.
pub open spec fn decode_paths32(st: PathState32, d: Seq<u8>, q: int, cap: nat) -> Option<
    Result<(Seq<PathState32>, int), Error>,
>
    decreases cap,
{
    match code_walk(d, q, 0, 0) {
        None => if q + 17 > total_bits(d) {
            Some(Err(Error::BitBuf(BitBufError::Overflow)))
        } else {
            Some(Err(Error::ExhaustedMaxOpBits))
        },
        Some(w) => if w.1 > total_bits(d) {
            Some(Err(Error::BitBuf(BitBufError::Overflow)))
        } else if !fieldop_ok32(w.0, st, d, w.1) {
            None
        } else {
            let r = fieldop_spec32(w.0, st, d, w.1);
            if r.1 > total_bits(d) {
                Some(Err(Error::BitBuf(BitBufError::Overflow)))
            } else if w.0 == FieldOp::FieldPathEncodeFinish {
                Some(Ok((Seq::empty(), r.1)))
            } else if cap == 0 {
                None
            } else {
                match decode_paths32(r.0, d, r.1, (cap - 1) as nat) {
                    None => None,
                    Some(Err(e)) => Some(Err(e)),
                    Some(Ok(rest)) => Some(Ok((seq![r.0] + rest.0, rest.1))),
                }
            }
        },
    }
}

/// The decoding that remains after `i` paths of `full`.
pub open spec fn decode_rest32(full: Result<(Seq<PathState32>, int), Error>, i: int) -> Result<
    (Seq<PathState32>, int),
    Error,
> {
    match full {
        Ok(p) => Ok((p.0.skip(i), p.1)),
        Err(e) => Err(e),
    }
}

/// Reads a list of field paths into `fps` and returns how many were read.
#[verifier::rlimit(60)]
pub fn read_field_paths(br: &mut BitReader, fps: &mut [FieldPath]) -> (res: Result<usize, Error>)
    requires
        old(br).wf(),
        decode_paths32(initial_path_state32(), old(br).bytes(), old(br).pos(), old(fps)@.len())
            is Some,
    ensures
        ({
            let r = decode_paths32(
                initial_path_state32(),
                old(br).bytes(),
                old(br).pos(),
                old(fps)@.len(),
            )->0;
            &&& final(fps)@.len() == old(fps)@.len()
            &&& final(br).bytes() == old(br).bytes()
            &&& final(br).wf()
            &&& match r {
                Ok(paths) => {
                    &&& res == Ok::<usize, Error>(paths.0.len() as usize)
                    &&& forall|j: int|
                        0 <= j < paths.0.len() ==> #[trigger] final(fps)@[j].state() == paths.0[j]
                    &&& forall|j: int| 0 <= j < paths.0.len() ==> !(#[trigger] final(fps)@[j]).finished
                    &&& final(br).pos() == paths.1
                },
                Err(e) => res == Err::<usize, Error>(e),
            }
        }),
{
    let ghost d = br.bytes();
    let ghost full = decode_paths32(initial_path_state32(), d, br.pos(), fps@.len())->0;
    let mut fp = FieldPath::default();
    let mut i: usize = 0;
    proof {
        if full is Ok {
            assert(full->Ok_0.0.skip(0) =~= full->Ok_0.0);
        }
    }
    loop
        invariant
            br.wf(),
            br.bytes() == d,
            d == old(br).bytes(),
            full == decode_paths32(
                initial_path_state32(),
                old(br).bytes(),
                old(br).pos(),
                old(fps)@.len(),
            )->0,
            fp.wf(),
            !fp.finished,
            fps@.len() == old(fps)@.len(),
            i <= fps@.len(),
            decode_paths32(fp.state(), d, br.pos(), (fps@.len() - i) as nat) == Some(
                decode_rest32(full, i as int),
            ),
            full is Ok ==> i <= full->Ok_0.0.len(),
            full is Ok ==> forall|j: int|
                0 <= j < i ==> #[trigger] fps@[j].state() == full->Ok_0.0[j],
            forall|j: int| 0 <= j < i ==> !(#[trigger] fps@[j]).finished,
        decreases fps@.len() - i,
    {
        let ghost q0 = br.pos();
        let ghost fp0 = fp;
        let ghost cap = (fps@.len() - i) as nat;
        let mut id: u32 = 0;
        let mut k: usize = 0;
        let mut stored = false;
        proof {
            vstd::arithmetic::power2::lemma2_to64();
        }
        while k < 17
            invariant_except_break
                br.wf(),
                br.bytes() == d,
                fp == fp0,
                fp0.wf(),
                !fp0.finished,
                !stored,
                k <= 17,
                id as nat <= vstd::arithmetic::power2::pow2(k as nat) - 1,
                br.pos() == q0 + k,
                q0 + k <= total_bits(d),
                code_walk(d, q0, 0, 0) == code_walk(d, br.pos(), id as nat, k as nat),
                decode_paths32(fp0.state(), d, q0, cap) == Some(decode_rest32(full, i as int)),
                full is Ok ==> i <= full->Ok_0.0.len(),
                full is Ok ==> forall|j: int|
                    0 <= j < i ==> #[trigger] fps@[j].state() == full->Ok_0.0[j],
                forall|j: int| 0 <= j < i ==> !(#[trigger] fps@[j]).finished,
                full == decode_paths32(
                    initial_path_state32(),
                    old(br).bytes(),
                    old(br).pos(),
                    old(fps)@.len(),
                )->0,
                d == old(br).bytes(),
                fps@.len() == old(fps)@.len(),
                cap == fps@.len() - i,
                i <= fps@.len(),
            ensures
                br.wf(),
                br.bytes() == d,
                stored ==> code_walk(d, q0, 0, 0) == Some((op_of_id(id)->0, q0 + k)),
                stored ==> op_of_id(id) is Some && op_of_id(id)->0
                    != FieldOp::FieldPathEncodeFinish,
                stored ==> fp.wf() && !fp.finished && fp.state() == fieldop_spec32(
                    op_of_id(id)->0,
                    fp0.state(),
                    d,
                    q0 + k,
                ).0 && br.pos() == fieldop_spec32(op_of_id(id)->0, fp0.state(), d, q0 + k).1,
                stored ==> q0 + k <= total_bits(d) && fieldop_spec32(
                    op_of_id(id)->0,
                    fp0.state(),
                    d,
                    q0 + k,
                ).1 <= total_bits(d),
                stored ==> fieldop_ok32(op_of_id(id)->0, fp0.state(), d, q0 + k),
                !stored ==> code_walk(d, q0, 0, 0) is None && br.pos() == q0 + 17 && fp == fp0,
            decreases 17 - k,
        {
            let ghost id_old = id;
            let ghost pos_old = br.pos();
            let b = match br.read_bool() {
                Ok(b) => b,
                Err(e) => {
                    proof {
                        assert(code_walk(d, pos_old, id_old as nat, k as nat) is Some ==> (code_walk(
                            d,
                            pos_old,
                            id_old as nat,
                            k as nat,
                        )->0).1 > total_bits(d)) by {
                            lemma_code_walk_forward(d, pos_old, id_old as nat, k as nat);
                        }
                    }
                    return Err(Error::BitBuf(e));
                },
            };
            proof {
                vstd::arithmetic::power2::lemma2_to64();
                vstd::arithmetic::power2::lemma_pow2_unfold((k + 1) as nat);
                if k < 16 {
                    vstd::arithmetic::power2::lemma_pow2_strictly_increases(k as nat, 16);
                }
                assert(id < 0x1_0000);
            }
            let bit: u32 = if b {
                1
            } else {
                0
            };
            proof {
                assert((id << 1u32) | bit == 2 * id + bit) by (bit_vector)
                    requires
                        id < 0x1_0000,
                        bit <= 1,
                ;
            }
            id = (id << 1u32) | bit;
            k = k + 1;
            proof {
                assert(code_walk(d, pos_old, id_old as nat, (k - 1) as nat) == (match op_of_id(
                    id,
                ) {
                    Some(op) => Some((op, pos_old + 1)),
                    None => code_walk(d, pos_old + 1, id as nat, k as nat),
                }));
            }
            let ran = lookup_exec_op(id, &mut fp, br)?;
            if !ran {
                continue;
            }
            if fp.finished {
                proof {
                    assert(full->Ok_0.0.skip(i as int) =~= Seq::<PathState32>::empty());
                    assert(full->Ok_0.0 =~= full->Ok_0.0.subrange(0, i as int));
                }
                return Ok(i);
            }
            stored = true;
            break;
        }
        if !stored {
            return Err(Error::ExhaustedMaxOpBits);
        }
        proof {
            let op = op_of_id(id)->0;
            let r = fieldop_spec32(op, fp0.state(), d, q0 + k);
            let rest = decode_paths32(r.0, d, r.1, (cap - 1) as nat);
            assert(cap != 0);
            if full is Ok {
                let p = full->Ok_0;
                let rr = rest->0->Ok_0;
                assert(p.0.skip(i as int) == seq![r.0] + rr.0);
                assert(p.0.skip(i as int)[0] == fp.state());
                assert(p.0.skip(i as int).skip(1) =~= p.0.skip(i + 1));
                assert(p.0.skip(i + 1) =~= rr.0);
            }
        }
        fps[i] = fp;
        i = i + 1;
    }
}

/// A completed code ends after the bit it is read from.
proof fn lemma_code_walk_forward(d: Seq<u8>, q: int, id: nat, k: nat)
    ensures
        code_walk(d, q, id, k) is Some ==> (code_walk(d, q, id, k)->0).1 >= q + 1,
    decreases 17 - k,
{
    if k < 17 {
        let id2 = 2 * id + (if bit_at(d, q) {
            1nat
        } else {
            0nat
        });
        lemma_code_walk_forward(d, q + 1, id2, k + 1);
    }
}

} // verus!
