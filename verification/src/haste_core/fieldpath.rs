//! Field paths: where in an entity's (nested) serializer a changed field lives, and how the
//! paths are decoded from a bit stream with a Huffman coded list of operations.

use crate::haste_common::bits::{bit_at, total_bits};
use crate::haste_core::bitreader::BitReader;
use crate::haste_core::fieldops::{
    fieldop_ok, fieldop_spec, non_topo_from, path_wf, push_fp_values, rd_delta, rd_fp,
    st_inc_at, st_inc_last, st_pop, st_push, wrap_u8, FieldOp, NonTopoDelta, PathState,
    FIELD_PATH_LEN,
};
use vstd::prelude::*;

verus! {

/// A field path: up to seven components, each an index into the fields of a (nested)
/// serializer; `last` is the index of the deepest component in use.
#[derive(Debug, Clone, Copy)]
pub struct FieldPath {
    pub(crate) data: [u8; 7],
    pub(crate) last: usize,
    pub(crate) finished: bool,
}

/// The path that field path decoding starts from: components `[255, 0, 0, 0, 0, 0, 0]`, the
/// first one in use (the first `PlusOne` takes it to 0).
pub open spec fn initial_path_state() -> PathState {
    (seq![255u8, 0u8, 0u8, 0u8, 0u8, 0u8, 0u8], 0)
}

impl FieldPath {
    /// Components and index of the last one in use.
    pub closed spec fn state(&self) -> PathState {
        (self.data@, self.last as int)
    }

    /// Whether the operation that ends a list of paths was applied.
    pub closed spec fn is_finished(&self) -> bool {
        self.finished
    }

    /// Seven components, zero after the last one in use.
    pub open spec fn wf(&self) -> bool {
        path_wf(self.state())
    }

    /// Adds `v` to component `i`, modulo 256.
    fn inc_at(&mut self, i: usize, v: i64)
        requires
            old(self).wf(),
            i <= old(self).state().1,
            -0x1_0000_0000_0000 < v < 0x1_0000_0000_0000,
        ensures
            final(self).state() == st_inc_at(old(self).state(), i as int, v as int),
            final(self).is_finished() == old(self).is_finished(),
            final(self).wf(),
    {
        let x: i64 = self.data[i] as i64 + v;
        let r: u8 = (x & 0xffi64) as u8;
        proof {
            assert((x & 0xffi64) as int == x % 256) by (bit_vector);
        }
        self.data[i] = r;
        assert(self.data@ =~= st_inc_at(old(self).state(), i as int, v as int).0);
    }

    /// Adds `v` to the last component, modulo 256.
    fn inc_last(&mut self, v: i64)
        requires
            old(self).wf(),
            -0x1_0000_0000_0000 < v < 0x1_0000_0000_0000,
        ensures
            final(self).state() == st_inc_last(old(self).state(), v as int),
            final(self).is_finished() == old(self).is_finished(),
            final(self).wf(),
    {
        let last = self.last;
        self.inc_at(last, v);
    }

    /// Appends a component `v` (modulo 256).
    fn push(&mut self, v: i64)
        requires
            old(self).wf(),
            old(self).state().1 + 1 < FIELD_PATH_LEN,
            -0x1_0000_0000_0000 < v < 0x1_0000_0000_0000,
        ensures
            final(self).state() == st_push(old(self).state(), v as int),
            final(self).is_finished() == old(self).is_finished(),
            final(self).wf(),
    {
        self.last = self.last + 1;
        let r: u8 = (v & 0xffi64) as u8;
        proof {
            assert((v & 0xffi64) as int == v % 256) by (bit_vector);
        }
        self.data[self.last] = r;
        assert(self.data@ =~= st_push(old(self).state(), v as int).0);
    }

    /// Drops the last `n` components, setting them to zero.
    fn pop(&mut self, n: usize)
        requires
            old(self).wf(),
            n <= old(self).state().1,
        ensures
            final(self).state() == st_pop(old(self).state(), n as nat),
            final(self).is_finished() == old(self).is_finished(),
            final(self).wf(),
    {
        let mut k: usize = 0;
        while k < n
            invariant
                k <= n,
                n <= old(self).state().1,
                self.wf(),
                self.state().1 == old(self).state().1 - k,
                self.is_finished() == old(self).is_finished(),
                st_pop(old(self).state(), n as nat) == st_pop(self.state(), (n - k) as nat),
            decreases n - k,
        {
            let last = self.last;
            self.data[last] = 0;
            self.last = last - 1;
            k = k + 1;
        }
    }

    /// Component `index`, if the path has that many (including unused ones).
    pub fn get(&self, index: usize) -> (r: Option<usize>)
        requires
            self.wf(),
        ensures
            index < FIELD_PATH_LEN ==> r == Some(self.state().0[index as int] as usize),
            index >= FIELD_PATH_LEN ==> r is None,
    {
        if index < 7 {
            Some(self.data[index] as usize)
        } else {
            None
        }
    }

    /// Index of the last component in use.
    pub fn last(&self) -> (r: usize)
        ensures
            r == self.state().1,
    {
        self.last
    }

    /// The components in use, from the first to the last.
    pub fn iter(&self) -> (r: Vec<u8>)
        requires
            self.wf(),
        ensures
            r@ == self.state().0.subrange(0, self.state().1 + 1),
    {
        let mut r: Vec<u8> = Vec::new();
        let mut i: usize = 0;
        while i <= self.last
            invariant
                self.wf(),
                i <= self.state().1 + 1,
                r@ == self.state().0.subrange(0, i as int),
            decreases self.state().1 + 1 - i,
        {
            r.push(self.data[i]);
            i = i + 1;
        }
        r
    }
}

impl Default for FieldPath {
    /// The path that decoding starts from, see [`initial_path_state`].
    fn default() -> (r: Self)
        ensures
            r.state() == initial_path_state(),
            !r.is_finished(),
            r.wf(),
    {
        let r = FieldPath { data: [255, 0, 0, 0, 0, 0, 0], last: 0, finished: false };
        assert(r.data@ =~= initial_path_state().0);
        r
    }
}

/// `op` may run on `fp` with the bits that `br` reads next.
pub open spec fn op_pre(op: FieldOp, fp: FieldPath, br: BitReader) -> bool {
    &&& fp.wf()
    &&& br.wf()
    &&& fieldop_ok(op, fp.state(), br.bytes(), br.pos())
}

/// `fp1` and `br1` are `fp0` and `br0` after `op`, see [`fieldop_spec`].
pub open spec fn op_post(
    op: FieldOp,
    fp0: FieldPath,
    fp1: FieldPath,
    br0: BitReader,
    br1: BitReader,
) -> bool {
    let r = fieldop_spec(op, fp0.state(), br0.bytes(), br0.pos());
    &&& fp1.wf()
    &&& fp1.state() == r.0
    &&& br1.wf()
    &&& br1.bytes() == br0.bytes()
    &&& br1.pos() == r.1
    &&& fp1.is_finished() == (fp0.is_finished() || op == FieldOp::FieldPathEncodeFinish)
}

/// Reads a field path `UBitVarFP`.
fn read_fp(br: &mut BitReader) -> (v: i64)
    requires
        old(br).wf(),
    ensures
        v == rd_fp(old(br).bytes(), old(br).pos()).0,
        0 <= v < 0x1_0000_0000,
        final(br).advanced(*old(br), rd_fp(old(br).bytes(), old(br).pos()).1),
{
    br.read_ubitvarfp() as i64
}

/// Reads a `UBitVar`.
fn read_var(br: &mut BitReader) -> (v: i64)
    requires
        old(br).wf(),
    ensures
        v == crate::haste_core::fieldops::rd_var(old(br).bytes(), old(br).pos()).0,
        0 <= v < 0x1_0000_0000,
        final(br).advanced(
            *old(br),
            crate::haste_core::fieldops::rd_var(old(br).bytes(), old(br).pos()).1,
        ),
{
    br.read_ubitvar() as i64
}

/// Reads `n` bits.
fn read_bits(br: &mut BitReader, n: usize) -> (v: i64)
    requires
        old(br).wf(),
        n <= 8,
    ensures
        v == crate::haste_core::fieldops::rd_bits(old(br).bytes(), old(br).pos(), n as nat),
        0 <= v < 256,
        final(br).advanced(*old(br), n as int),
{
    proof {
        crate::haste_common::bits::lemma_bits_value_bound(br.bytes(), br.pos(), n as nat);
        vstd::arithmetic::power2::lemma2_to64();
        if n < 8 {
            vstd::arithmetic::power2::lemma_pow2_strictly_increases(n as nat, 8);
        }
    }
    br.read_ubit64(n) as i64
}

/// Reads the increment of a flagged component of a non-topological operation.
fn read_delta(br: &mut BitReader, mode: NonTopoDelta) -> (v: i64)
    requires
        old(br).wf(),
    ensures
        v == rd_delta(mode, old(br).bytes(), old(br).pos()).0,
        -0x1_0000_0000 < v < 0x1_0000_0000,
        final(br).advanced(*old(br), rd_delta(mode, old(br).bytes(), old(br).pos()).1),
{
    match mode {
        NonTopoDelta::VarintPlusOne => br.read_varint32() as i64 + 1,
        NonTopoDelta::Varint => br.read_varint32() as i64,
        NonTopoDelta::Pack4Bits => read_bits(br, 4) - 7,
    }
}

/// For every component in use: a flag bit, then, if set, an increment of that component.
fn non_topo_exec(fp: &mut FieldPath, br: &mut BitReader, mode: NonTopoDelta)
    requires
        old(fp).wf(),
        old(br).wf(),
    ensures
        (final(fp).state(), final(br).pos()) == non_topo_from(
            old(fp).state(),
            0,
            mode,
            old(br).bytes(),
            old(br).pos(),
        ),
        final(fp).wf(),
        final(br).wf(),
        final(br).bytes() == old(br).bytes(),
        final(fp).is_finished() == old(fp).is_finished(),
{
    let ghost d = br.bytes();
    let last = fp.last;
    let mut i: usize = 0;
    while i <= last
        invariant
            fp.wf(),
            br.wf(),
            br.bytes() == d,
            d == old(br).bytes(),
            last == fp.state().1,
            last < FIELD_PATH_LEN,
            i <= last + 1,
            fp.is_finished() == old(fp).is_finished(),
            non_topo_from(old(fp).state(), 0, mode, d, old(br).pos()) == non_topo_from(
                fp.state(),
                i as int,
                mode,
                d,
                br.pos(),
            ),
        decreases last + 1 - i,
    {
        if br.read_bool() {
            let v = read_delta(br, mode);
            fp.inc_at(i, v);
        }
        i = i + 1;
    }
}

/// Appends `n` components, each read as a field path `UBitVarFP`.
fn push_fp_values_exec(fp: &mut FieldPath, br: &mut BitReader, n: usize)
    requires
        old(fp).wf(),
        old(br).wf(),
        old(fp).state().1 + n < FIELD_PATH_LEN,
    ensures
        (final(fp).state(), final(br).pos()) == push_fp_values(
            old(fp).state(),
            n as nat,
            old(br).bytes(),
            old(br).pos(),
        ),
        final(fp).wf(),
        final(br).wf(),
        final(br).bytes() == old(br).bytes(),
        final(fp).is_finished() == old(fp).is_finished(),
{
    let ghost d = br.bytes();
    let mut k: usize = 0;
    while k < n
        invariant
            fp.wf(),
            br.wf(),
            br.bytes() == d,
            d == old(br).bytes(),
            k <= n,
            fp.state().1 == old(fp).state().1 + k,
            old(fp).state().1 + n < FIELD_PATH_LEN,
            fp.is_finished() == old(fp).is_finished(),
            push_fp_values(old(fp).state(), n as nat, d, old(br).pos()) == push_fp_values(
                fp.state(),
                (n - k) as nat,
                d,
                br.pos(),
            ),
        decreases n - k,
    {
        let v = read_fp(br);
        fp.push(v);
        k = k + 1;
    }
}


/// Field path operation `PlusOne`.
fn plus_one(fp: &mut FieldPath, br: &mut BitReader)
    requires
        op_pre(FieldOp::PlusOne, *old(fp), *old(br)),
    ensures
        op_post(FieldOp::PlusOne, *old(fp), *final(fp), *old(br), *final(br)),
{
    fp.inc_last(1);
}

/// Field path operation `PlusTwo`.
fn plus_two(fp: &mut FieldPath, br: &mut BitReader)
    requires
        op_pre(FieldOp::PlusTwo, *old(fp), *old(br)),
    ensures
        op_post(FieldOp::PlusTwo, *old(fp), *final(fp), *old(br), *final(br)),
{
    fp.inc_last(2);
}

/// Field path operation `PlusThree`.
fn plus_three(fp: &mut FieldPath, br: &mut BitReader)
    requires
        op_pre(FieldOp::PlusThree, *old(fp), *old(br)),
    ensures
        op_post(FieldOp::PlusThree, *old(fp), *final(fp), *old(br), *final(br)),
{
    fp.inc_last(3);
}

/// Field path operation `PlusFour`.
fn plus_four(fp: &mut FieldPath, br: &mut BitReader)
    requires
        op_pre(FieldOp::PlusFour, *old(fp), *old(br)),
    ensures
        op_post(FieldOp::PlusFour, *old(fp), *final(fp), *old(br), *final(br)),
{
    fp.inc_last(4);
}

/// Field path operation `PlusN`.
fn plus_n(fp: &mut FieldPath, br: &mut BitReader)
    requires
        op_pre(FieldOp::PlusN, *old(fp), *old(br)),
    ensures
        op_post(FieldOp::PlusN, *old(fp), *final(fp), *old(br), *final(br)),
{
    let v = read_fp(br);
    fp.inc_last(v + 5);
}

/// Field path operation `PushOneLeftDeltaZeroRightZero`.
fn push_one_left_delta_zero_right_zero(fp: &mut FieldPath, br: &mut BitReader)
    requires
        op_pre(FieldOp::PushOneLeftDeltaZeroRightZero, *old(fp), *old(br)),
    ensures
        op_post(FieldOp::PushOneLeftDeltaZeroRightZero, *old(fp), *final(fp), *old(br), *final(br)),
{
    fp.push(0);
}

/// Field path operation `PushOneLeftDeltaZeroRightNonZero`.
fn push_one_left_delta_zero_right_non_zero(fp: &mut FieldPath, br: &mut BitReader)
    requires
        op_pre(FieldOp::PushOneLeftDeltaZeroRightNonZero, *old(fp), *old(br)),
    ensures
        op_post(FieldOp::PushOneLeftDeltaZeroRightNonZero, *old(fp), *final(fp), *old(br), *final(br)),
{
    let v = read_fp(br);
    fp.push(v);
}

/// Field path operation `PushOneLeftDeltaOneRightZero`.
fn push_one_left_delta_one_right_zero(fp: &mut FieldPath, br: &mut BitReader)
    requires
        op_pre(FieldOp::PushOneLeftDeltaOneRightZero, *old(fp), *old(br)),
    ensures
        op_post(FieldOp::PushOneLeftDeltaOneRightZero, *old(fp), *final(fp), *old(br), *final(br)),
{
    fp.inc_last(1);
    fp.push(0);
}

/// Field path operation `PushOneLeftDeltaOneRightNonZero`.
fn push_one_left_delta_one_right_non_zero(fp: &mut FieldPath, br: &mut BitReader)
    requires
        op_pre(FieldOp::PushOneLeftDeltaOneRightNonZero, *old(fp), *old(br)),
    ensures
        op_post(FieldOp::PushOneLeftDeltaOneRightNonZero, *old(fp), *final(fp), *old(br), *final(br)),
{
    fp.inc_last(1);
    let v = read_fp(br);
    fp.push(v);
}

/// Field path operation `PushOneLeftDeltaNRightZero`.
fn push_one_left_delta_n_right_zero(fp: &mut FieldPath, br: &mut BitReader)
    requires
        op_pre(FieldOp::PushOneLeftDeltaNRightZero, *old(fp), *old(br)),
    ensures
        op_post(FieldOp::PushOneLeftDeltaNRightZero, *old(fp), *final(fp), *old(br), *final(br)),
{
    let v = read_fp(br);
    fp.inc_last(v);
    fp.push(0);
}

/// Field path operation `PushOneLeftDeltaNRightNonZero`.
fn push_one_left_delta_n_right_non_zero(fp: &mut FieldPath, br: &mut BitReader)
    requires
        op_pre(FieldOp::PushOneLeftDeltaNRightNonZero, *old(fp), *old(br)),
    ensures
        op_post(FieldOp::PushOneLeftDeltaNRightNonZero, *old(fp), *final(fp), *old(br), *final(br)),
{
    let a = read_fp(br);
    fp.inc_last(a + 2);
    let b = read_fp(br);
    fp.push(b + 1);
}

/// Field path operation `PushOneLeftDeltaNRightNonZeroPack6Bits`.
fn push_one_left_delta_n_right_non_zero_pack6_bits(fp: &mut FieldPath, br: &mut BitReader)
    requires
        op_pre(FieldOp::PushOneLeftDeltaNRightNonZeroPack6Bits, *old(fp), *old(br)),
    ensures
        op_post(FieldOp::PushOneLeftDeltaNRightNonZeroPack6Bits, *old(fp), *final(fp), *old(br), *final(br)),
{
    let a = read_bits(br, 3);
    fp.inc_last(a + 2);
    let b = read_bits(br, 3);
    fp.push(b + 1);
}

/// Field path operation `PushOneLeftDeltaNRightNonZeroPack8Bits`.
fn push_one_left_delta_n_right_non_zero_pack8_bits(fp: &mut FieldPath, br: &mut BitReader)
    requires
        op_pre(FieldOp::PushOneLeftDeltaNRightNonZeroPack8Bits, *old(fp), *old(br)),
    ensures
        op_post(FieldOp::PushOneLeftDeltaNRightNonZeroPack8Bits, *old(fp), *final(fp), *old(br), *final(br)),
{
    let a = read_bits(br, 4);
    fp.inc_last(a + 2);
    let b = read_bits(br, 4);
    fp.push(b + 1);
}

/// Field path operation `PushTwoLeftDeltaZero`.
fn push_two_left_delta_zero(fp: &mut FieldPath, br: &mut BitReader)
    requires
        op_pre(FieldOp::PushTwoLeftDeltaZero, *old(fp), *old(br)),
    ensures
        op_post(FieldOp::PushTwoLeftDeltaZero, *old(fp), *final(fp), *old(br), *final(br)),
{
    let a = read_fp(br);
    fp.push(a);
    let b = read_fp(br);
    fp.push(b);
}

/// Field path operation `PushTwoPack5LeftDeltaZero`.
fn push_two_pack5_left_delta_zero(fp: &mut FieldPath, br: &mut BitReader)
    requires
        op_pre(FieldOp::PushTwoPack5LeftDeltaZero, *old(fp), *old(br)),
    ensures
        op_post(FieldOp::PushTwoPack5LeftDeltaZero, *old(fp), *final(fp), *old(br), *final(br)),
{
    let a = read_bits(br, 5);
    fp.push(a);
    let b = read_bits(br, 5);
    fp.push(b);
}

/// Field path operation `PushThreeLeftDeltaZero`.
fn push_three_left_delta_zero(fp: &mut FieldPath, br: &mut BitReader)
    requires
        op_pre(FieldOp::PushThreeLeftDeltaZero, *old(fp), *old(br)),
    ensures
        op_post(FieldOp::PushThreeLeftDeltaZero, *old(fp), *final(fp), *old(br), *final(br)),
{
    let a = read_fp(br);
    fp.push(a);
    let b = read_fp(br);
    fp.push(b);
    let c = read_fp(br);
    fp.push(c);
}

/// Field path operation `PushThreePack5LeftDeltaZero`.
fn push_three_pack5_left_delta_zero(fp: &mut FieldPath, br: &mut BitReader)
    requires
        op_pre(FieldOp::PushThreePack5LeftDeltaZero, *old(fp), *old(br)),
    ensures
        op_post(FieldOp::PushThreePack5LeftDeltaZero, *old(fp), *final(fp), *old(br), *final(br)),
{
    let a = read_bits(br, 5);
    fp.push(a);
    let b = read_bits(br, 5);
    fp.push(b);
    let c = read_bits(br, 5);
    fp.push(c);
}

/// Field path operation `PushTwoLeftDeltaOne`.
fn push_two_left_delta_one(fp: &mut FieldPath, br: &mut BitReader)
    requires
        op_pre(FieldOp::PushTwoLeftDeltaOne, *old(fp), *old(br)),
    ensures
        op_post(FieldOp::PushTwoLeftDeltaOne, *old(fp), *final(fp), *old(br), *final(br)),
{
    fp.inc_last(1);
    let a = read_fp(br);
    fp.push(a);
    let b = read_fp(br);
    fp.push(b);
}

/// Field path operation `PushTwoPack5LeftDeltaOne`.
fn push_two_pack5_left_delta_one(fp: &mut FieldPath, br: &mut BitReader)
    requires
        op_pre(FieldOp::PushTwoPack5LeftDeltaOne, *old(fp), *old(br)),
    ensures
        op_post(FieldOp::PushTwoPack5LeftDeltaOne, *old(fp), *final(fp), *old(br), *final(br)),
{
    fp.inc_last(1);
    let a = read_bits(br, 5);
    fp.push(a);
    let b = read_bits(br, 5);
    fp.push(b);
}

/// Field path operation `PushThreeLeftDeltaOne`.
fn push_three_left_delta_one(fp: &mut FieldPath, br: &mut BitReader)
    requires
        op_pre(FieldOp::PushThreeLeftDeltaOne, *old(fp), *old(br)),
    ensures
        op_post(FieldOp::PushThreeLeftDeltaOne, *old(fp), *final(fp), *old(br), *final(br)),
{
    fp.inc_last(1);
    let a = read_fp(br);
    fp.push(a);
    let b = read_fp(br);
    fp.push(b);
    let c = read_fp(br);
    fp.push(c);
}

/// Field path operation `PushThreePack5LeftDeltaOne`.
fn push_three_pack5_left_delta_one(fp: &mut FieldPath, br: &mut BitReader)
    requires
        op_pre(FieldOp::PushThreePack5LeftDeltaOne, *old(fp), *old(br)),
    ensures
        op_post(FieldOp::PushThreePack5LeftDeltaOne, *old(fp), *final(fp), *old(br), *final(br)),
{
    fp.inc_last(1);
    let a = read_bits(br, 5);
    fp.push(a);
    let b = read_bits(br, 5);
    fp.push(b);
    let c = read_bits(br, 5);
    fp.push(c);
}

/// Field path operation `PushTwoLeftDeltaN`.
fn push_two_left_delta_n(fp: &mut FieldPath, br: &mut BitReader)
    requires
        op_pre(FieldOp::PushTwoLeftDeltaN, *old(fp), *old(br)),
    ensures
        op_post(FieldOp::PushTwoLeftDeltaN, *old(fp), *final(fp), *old(br), *final(br)),
{
    let n = read_var(br);
    fp.inc_last(n + 2);
    let a = read_fp(br);
    fp.push(a);
    let b = read_fp(br);
    fp.push(b);
}

/// Field path operation `PushTwoPack5LeftDeltaN`.
fn push_two_pack5_left_delta_n(fp: &mut FieldPath, br: &mut BitReader)
    requires
        op_pre(FieldOp::PushTwoPack5LeftDeltaN, *old(fp), *old(br)),
    ensures
        op_post(FieldOp::PushTwoPack5LeftDeltaN, *old(fp), *final(fp), *old(br), *final(br)),
{
    let n = read_var(br);
    fp.inc_last(n + 2);
    let a = read_bits(br, 5);
    fp.push(a);
    let b = read_bits(br, 5);
    fp.push(b);
}

/// Field path operation `PushThreeLeftDeltaN`.
fn push_three_left_delta_n(fp: &mut FieldPath, br: &mut BitReader)
    requires
        op_pre(FieldOp::PushThreeLeftDeltaN, *old(fp), *old(br)),
    ensures
        op_post(FieldOp::PushThreeLeftDeltaN, *old(fp), *final(fp), *old(br), *final(br)),
{
    let n = read_var(br);
    fp.inc_last(n + 2);
    let a = read_fp(br);
    fp.push(a);
    let b = read_fp(br);
    fp.push(b);
    let c = read_fp(br);
    fp.push(c);
}

/// Field path operation `PushThreePack5LeftDeltaN`.
fn push_three_pack5_left_delta_n(fp: &mut FieldPath, br: &mut BitReader)
    requires
        op_pre(FieldOp::PushThreePack5LeftDeltaN, *old(fp), *old(br)),
    ensures
        op_post(FieldOp::PushThreePack5LeftDeltaN, *old(fp), *final(fp), *old(br), *final(br)),
{
    let n = read_var(br);
    fp.inc_last(n + 2);
    let a = read_bits(br, 5);
    fp.push(a);
    let b = read_bits(br, 5);
    fp.push(b);
    let c = read_bits(br, 5);
    fp.push(c);
}

/// Field path operation `PushN`.
fn push_n(fp: &mut FieldPath, br: &mut BitReader)
    requires
        op_pre(FieldOp::PushN, *old(fp), *old(br)),
    ensures
        op_post(FieldOp::PushN, *old(fp), *final(fp), *old(br), *final(br)),
{
    let n = br.read_ubitvar() as usize;
    let v = read_var(br);
    fp.inc_last(v);
    push_fp_values_exec(fp, br, n);
}

/// Field path operation `PushNAndNonTopographical`.
fn push_n_and_non_topographical(fp: &mut FieldPath, br: &mut BitReader)
    requires
        op_pre(FieldOp::PushNAndNonTopographical, *old(fp), *old(br)),
    ensures
        op_post(FieldOp::PushNAndNonTopographical, *old(fp), *final(fp), *old(br), *final(br)),
{
    proof {
        crate::haste_core::fieldops::lemma_non_topo_keeps_last(
            fp.state(),
            0,
            NonTopoDelta::VarintPlusOne,
            br.bytes(),
            br.pos(),
        );
    }
    non_topo_exec(fp, br, NonTopoDelta::VarintPlusOne);
    let n = br.read_ubitvar() as usize;
    push_fp_values_exec(fp, br, n);
}

/// Field path operation `PopOnePlusOne`.
fn pop_one_plus_one(fp: &mut FieldPath, br: &mut BitReader)
    requires
        op_pre(FieldOp::PopOnePlusOne, *old(fp), *old(br)),
    ensures
        op_post(FieldOp::PopOnePlusOne, *old(fp), *final(fp), *old(br), *final(br)),
{
    fp.pop(1);
    fp.inc_last(1);
}

/// Field path operation `PopOnePlusN`.
fn pop_one_plus_n(fp: &mut FieldPath, br: &mut BitReader)
    requires
        op_pre(FieldOp::PopOnePlusN, *old(fp), *old(br)),
    ensures
        op_post(FieldOp::PopOnePlusN, *old(fp), *final(fp), *old(br), *final(br)),
{
    fp.pop(1);
    let v = read_fp(br);
    fp.inc_last(v + 1);
}

/// Field path operation `PopAllButOnePlusOne`.
fn pop_all_but_one_plus_one(fp: &mut FieldPath, br: &mut BitReader)
    requires
        op_pre(FieldOp::PopAllButOnePlusOne, *old(fp), *old(br)),
    ensures
        op_post(FieldOp::PopAllButOnePlusOne, *old(fp), *final(fp), *old(br), *final(br)),
{
    let n = fp.last;
    fp.pop(n);
    fp.inc_last(1);
}

/// Field path operation `PopAllButOnePlusN`.
fn pop_all_but_one_plus_n(fp: &mut FieldPath, br: &mut BitReader)
    requires
        op_pre(FieldOp::PopAllButOnePlusN, *old(fp), *old(br)),
    ensures
        op_post(FieldOp::PopAllButOnePlusN, *old(fp), *final(fp), *old(br), *final(br)),
{
    let n = fp.last;
    fp.pop(n);
    let v = read_fp(br);
    fp.inc_last(v + 1);
}

/// Field path operation `PopAllButOnePlusNPack3Bits`.
fn pop_all_but_one_plus_n_pack3_bits(fp: &mut FieldPath, br: &mut BitReader)
    requires
        op_pre(FieldOp::PopAllButOnePlusNPack3Bits, *old(fp), *old(br)),
    ensures
        op_post(FieldOp::PopAllButOnePlusNPack3Bits, *old(fp), *final(fp), *old(br), *final(br)),
{
    let n = fp.last;
    fp.pop(n);
    let v = read_bits(br, 3);
    fp.inc_last(v + 1);
}

/// Field path operation `PopAllButOnePlusNPack6Bits`.
fn pop_all_but_one_plus_n_pack6_bits(fp: &mut FieldPath, br: &mut BitReader)
    requires
        op_pre(FieldOp::PopAllButOnePlusNPack6Bits, *old(fp), *old(br)),
    ensures
        op_post(FieldOp::PopAllButOnePlusNPack6Bits, *old(fp), *final(fp), *old(br), *final(br)),
{
    let n = fp.last;
    fp.pop(n);
    let v = read_bits(br, 6);
    fp.inc_last(v + 1);
}

/// Field path operation `PopNPlusOne`.
fn pop_n_plus_one(fp: &mut FieldPath, br: &mut BitReader)
    requires
        op_pre(FieldOp::PopNPlusOne, *old(fp), *old(br)),
    ensures
        op_post(FieldOp::PopNPlusOne, *old(fp), *final(fp), *old(br), *final(br)),
{
    let n = br.read_ubitvarfp() as usize;
    fp.pop(n);
    fp.inc_last(1);
}

/// Field path operation `PopNPlusN`.
fn pop_n_plus_n(fp: &mut FieldPath, br: &mut BitReader)
    requires
        op_pre(FieldOp::PopNPlusN, *old(fp), *old(br)),
    ensures
        op_post(FieldOp::PopNPlusN, *old(fp), *final(fp), *old(br), *final(br)),
{
    let n = br.read_ubitvarfp() as usize;
    fp.pop(n);
    let v = br.read_varint32() as i64;
    fp.inc_last(v);
}

/// Field path operation `PopNAndNonTopographical`.
fn pop_n_and_non_topographical(fp: &mut FieldPath, br: &mut BitReader)
    requires
        op_pre(FieldOp::PopNAndNonTopographical, *old(fp), *old(br)),
    ensures
        op_post(FieldOp::PopNAndNonTopographical, *old(fp), *final(fp), *old(br), *final(br)),
{
    let n = br.read_ubitvarfp() as usize;
    fp.pop(n);
    non_topo_exec(fp, br, NonTopoDelta::Varint);
}

/// Field path operation `NonTopoComplex`.
fn non_topo_complex(fp: &mut FieldPath, br: &mut BitReader)
    requires
        op_pre(FieldOp::NonTopoComplex, *old(fp), *old(br)),
    ensures
        op_post(FieldOp::NonTopoComplex, *old(fp), *final(fp), *old(br), *final(br)),
{
    non_topo_exec(fp, br, NonTopoDelta::Varint);
}

/// Field path operation `NonTopoPenultimatePlusOne`.
fn non_topo_penultimate_pluse_one(fp: &mut FieldPath, br: &mut BitReader)
    requires
        op_pre(FieldOp::NonTopoPenultimatePlusOne, *old(fp), *old(br)),
    ensures
        op_post(FieldOp::NonTopoPenultimatePlusOne, *old(fp), *final(fp), *old(br), *final(br)),
{
    let i = fp.last - 1;
    fp.inc_at(i, 1);
}

/// Field path operation `NonTopoComplexPack4Bits`.
fn non_topo_complex_pack4_bits(fp: &mut FieldPath, br: &mut BitReader)
    requires
        op_pre(FieldOp::NonTopoComplexPack4Bits, *old(fp), *old(br)),
    ensures
        op_post(FieldOp::NonTopoComplexPack4Bits, *old(fp), *final(fp), *old(br), *final(br)),
{
    non_topo_exec(fp, br, NonTopoDelta::Pack4Bits);
}

/// Field path operation `FieldPathEncodeFinish`.
fn field_path_encode_finish(fp: &mut FieldPath, br: &mut BitReader)
    requires
        op_pre(FieldOp::FieldPathEncodeFinish, *old(fp), *old(br)),
    ensures
        op_post(FieldOp::FieldPathEncodeFinish, *old(fp), *final(fp), *old(br), *final(br)),
{
    fp.finished = true;
}


/// Applies the field path operation `op`.
pub(crate) fn exec_op(op: FieldOp, fp: &mut FieldPath, br: &mut BitReader)
    requires
        op_pre(op, *old(fp), *old(br)),
    ensures
        op_post(op, *old(fp), *final(fp), *old(br), *final(br)),
{
    match op {
        FieldOp::PlusOne => plus_one(fp, br),
        FieldOp::PlusTwo => plus_two(fp, br),
        FieldOp::PlusThree => plus_three(fp, br),
        FieldOp::PlusFour => plus_four(fp, br),
        FieldOp::PlusN => plus_n(fp, br),
        FieldOp::PushOneLeftDeltaZeroRightZero => push_one_left_delta_zero_right_zero(fp, br),
        FieldOp::PushOneLeftDeltaZeroRightNonZero => push_one_left_delta_zero_right_non_zero(fp, br),
        FieldOp::PushOneLeftDeltaOneRightZero => push_one_left_delta_one_right_zero(fp, br),
        FieldOp::PushOneLeftDeltaOneRightNonZero => push_one_left_delta_one_right_non_zero(fp, br),
        FieldOp::PushOneLeftDeltaNRightZero => push_one_left_delta_n_right_zero(fp, br),
        FieldOp::PushOneLeftDeltaNRightNonZero => push_one_left_delta_n_right_non_zero(fp, br),
        FieldOp::PushOneLeftDeltaNRightNonZeroPack6Bits => push_one_left_delta_n_right_non_zero_pack6_bits(fp, br),
        FieldOp::PushOneLeftDeltaNRightNonZeroPack8Bits => push_one_left_delta_n_right_non_zero_pack8_bits(fp, br),
        FieldOp::PushTwoLeftDeltaZero => push_two_left_delta_zero(fp, br),
        FieldOp::PushTwoPack5LeftDeltaZero => push_two_pack5_left_delta_zero(fp, br),
        FieldOp::PushThreeLeftDeltaZero => push_three_left_delta_zero(fp, br),
        FieldOp::PushThreePack5LeftDeltaZero => push_three_pack5_left_delta_zero(fp, br),
        FieldOp::PushTwoLeftDeltaOne => push_two_left_delta_one(fp, br),
        FieldOp::PushTwoPack5LeftDeltaOne => push_two_pack5_left_delta_one(fp, br),
        FieldOp::PushThreeLeftDeltaOne => push_three_left_delta_one(fp, br),
        FieldOp::PushThreePack5LeftDeltaOne => push_three_pack5_left_delta_one(fp, br),
        FieldOp::PushTwoLeftDeltaN => push_two_left_delta_n(fp, br),
        FieldOp::PushTwoPack5LeftDeltaN => push_two_pack5_left_delta_n(fp, br),
        FieldOp::PushThreeLeftDeltaN => push_three_left_delta_n(fp, br),
        FieldOp::PushThreePack5LeftDeltaN => push_three_pack5_left_delta_n(fp, br),
        FieldOp::PushN => push_n(fp, br),
        FieldOp::PushNAndNonTopographical => push_n_and_non_topographical(fp, br),
        FieldOp::PopOnePlusOne => pop_one_plus_one(fp, br),
        FieldOp::PopOnePlusN => pop_one_plus_n(fp, br),
        FieldOp::PopAllButOnePlusOne => pop_all_but_one_plus_one(fp, br),
        FieldOp::PopAllButOnePlusN => pop_all_but_one_plus_n(fp, br),
        FieldOp::PopAllButOnePlusNPack3Bits => pop_all_but_one_plus_n_pack3_bits(fp, br),
        FieldOp::PopAllButOnePlusNPack6Bits => pop_all_but_one_plus_n_pack6_bits(fp, br),
        FieldOp::PopNPlusOne => pop_n_plus_one(fp, br),
        FieldOp::PopNPlusN => pop_n_plus_n(fp, br),
        FieldOp::PopNAndNonTopographical => pop_n_and_non_topographical(fp, br),
        FieldOp::NonTopoComplex => non_topo_complex(fp, br),
        FieldOp::NonTopoPenultimatePlusOne => non_topo_penultimate_pluse_one(fp, br),
        FieldOp::NonTopoComplexPack4Bits => non_topo_complex_pack4_bits(fp, br),
        FieldOp::FieldPathEncodeFinish => field_path_encode_finish(fp, br),
    }
}


} // verus!

verus! {

/// A node of the field operation Huffman tree. Nodes are numbered in the order in which they
/// are made; the number breaks ties between equal weights.
#[derive(Debug)]
pub enum Node<T> {
    Leaf { weight: usize, num: usize, value: T },
    Branch { weight: usize, num: usize, left: Box<Node<T>>, right: Box<Node<T>> },
}

impl<T> Node<T> {
    /// The weight of the node: a leaf's frequency, a branch's sum of its children.
    pub open spec fn spec_weight(&self) -> usize {
        match self {
            Node::Leaf { weight, .. } => *weight,
            Node::Branch { weight, .. } => *weight,
        }
    }

    /// The node's number.
    pub open spec fn spec_num(&self) -> usize {
        match self {
            Node::Leaf { num, .. } => *num,
            Node::Branch { num, .. } => *num,
        }
    }

    /// The weight of the node.
    fn weight(&self) -> (w: usize)
        ensures
            w == self.spec_weight(),
    {
        match self {
            Node::Leaf { weight, .. } => *weight,
            Node::Branch { weight, .. } => *weight,
        }
    }

    /// The number of the node.
    fn num(&self) -> (n: usize)
        ensures
            n == self.spec_num(),
    {
        match self {
            Node::Leaf { num, .. } => *num,
            Node::Branch { num, .. } => *num,
        }
    }

    /// The left child of a branch.
    fn unwrap_left_branch(&self) -> (r: &Self)
        requires
            self is Branch,
        ensures
            *r == *self->left,
    {
        match self {
            Node::Branch { left, .. } => left,
            Node::Leaf { .. } => {
                proof {
                    assert(false);
                }
                self
            },
        }
    }

    /// The right child of a branch.
    fn unwrap_right_branch(&self) -> (r: &Self)
        requires
            self is Branch,
        ensures
            *r == *self->right,
    {
        match self {
            Node::Branch { right, .. } => right,
            Node::Leaf { .. } => {
                proof {
                    assert(false);
                }
                self
            },
        }
    }
}

/// `a` comes out of the priority queue before `b`: lighter first, and of equal weights the
/// later made.
pub open spec fn pops_before<T>(a: Node<T>, b: Node<T>) -> bool {
    a.spec_weight() < b.spec_weight() || (a.spec_weight() == b.spec_weight() && a.spec_num()
        > b.spec_num())
}

/// Index of the node that the priority queue `s` hands out next (the first of the best).
pub open spec fn pq_best<T>(s: Seq<Node<T>>) -> int
    decreases s.len(),
{
    if s.len() <= 1 {
        0
    } else {
        let j = pq_best(s.drop_last());
        if pops_before(s.last(), s[j]) {
            s.len() - 1
        } else {
            j
        }
    }
}

/// The Huffman tree built from the queue `heap`: the two nodes that come out first become the
/// left and right child of a new branch numbered `num`, until one node is left.
pub open spec fn huffman_from<T>(heap: Seq<Node<T>>, num: nat) -> Node<T>
    decreases heap.len(),
{
    if heap.len() <= 1 {
        heap[0]
    } else {
        let i = pq_best(heap);
        let left = heap[i];
        let h1 = heap.remove(i);
        let j = pq_best(h1);
        let right = h1[j];
        let h2 = h1.remove(j);
        proof {
            lemma_pq_best_in_range(heap);
            lemma_pq_best_in_range(h1);
        }
        huffman_from(
            h2.push(
                Node::Branch {
                    weight: (left.spec_weight() + right.spec_weight()) as usize,
                    num: num as usize,
                    left: Box::new(left),
                    right: Box::new(right),
                },
            ),
            num + 1,
        )
    }
}

/// Sum of the weights of the nodes of `s`.
pub open spec fn heap_weight<T>(s: Seq<Node<T>>) -> nat
    decreases s.len(),
{
    if s.len() == 0 {
        0
    } else {
        heap_weight(s.drop_last()) + s.last().spec_weight() as nat
    }
}

/// Taking a node out of a queue takes its weight out of the queue's total.
pub proof fn lemma_heap_weight_remove<T>(s: Seq<Node<T>>, i: int)
    requires
        0 <= i < s.len(),
    ensures
        heap_weight(s.remove(i)) + s[i].spec_weight() == heap_weight(s),
    decreases s.len(),
{
    if i < s.len() - 1 {
        lemma_heap_weight_remove(s.drop_last(), i);
        assert(s.remove(i).drop_last() =~= s.drop_last().remove(i));
        assert(s.remove(i).last() == s.last());
    } else {
        assert(s.remove(i) =~= s.drop_last());
    }
}

/// The queue hands out one of its own nodes.
pub proof fn lemma_pq_best_in_range<T>(s: Seq<Node<T>>)
    requires
        s.len() >= 1,
    ensures
        0 <= pq_best(s) < s.len(),
    decreases s.len(),
{
    if s.len() > 1 {
        lemma_pq_best_in_range(s.drop_last());
    }
}

/// The weight of the operation `FIELDOP_DESCRIPTORS[i]` and the operation (how often it occurs;
/// the Huffman tree is built from these).
pub open spec fn fieldop_descriptor_spec(i: int) -> (usize, FieldOp) {
    if i == 0 { (36271, FieldOp::PlusOne) }
    else if i == 1 { (10334, FieldOp::PlusTwo) }
    else if i == 2 { (1375, FieldOp::PlusThree) }
    else if i == 3 { (646, FieldOp::PlusFour) }
    else if i == 4 { (4128, FieldOp::PlusN) }
    else if i == 5 { (35, FieldOp::PushOneLeftDeltaZeroRightZero) }
    else if i == 6 { (3, FieldOp::PushOneLeftDeltaZeroRightNonZero) }
    else if i == 7 { (521, FieldOp::PushOneLeftDeltaOneRightZero) }
    else if i == 8 { (2942, FieldOp::PushOneLeftDeltaOneRightNonZero) }
    else if i == 9 { (560, FieldOp::PushOneLeftDeltaNRightZero) }
    else if i == 10 { (471, FieldOp::PushOneLeftDeltaNRightNonZero) }
    else if i == 11 { (10530, FieldOp::PushOneLeftDeltaNRightNonZeroPack6Bits) }
    else if i == 12 { (251, FieldOp::PushOneLeftDeltaNRightNonZeroPack8Bits) }
    else if i == 13 { (1, FieldOp::PushTwoLeftDeltaZero) }
    else if i == 14 { (1, FieldOp::PushTwoPack5LeftDeltaZero) }
    else if i == 15 { (1, FieldOp::PushThreeLeftDeltaZero) }
    else if i == 16 { (1, FieldOp::PushThreePack5LeftDeltaZero) }
    else if i == 17 { (1, FieldOp::PushTwoLeftDeltaOne) }
    else if i == 18 { (1, FieldOp::PushTwoPack5LeftDeltaOne) }
    else if i == 19 { (1, FieldOp::PushThreeLeftDeltaOne) }
    else if i == 20 { (1, FieldOp::PushThreePack5LeftDeltaOne) }
    else if i == 21 { (1, FieldOp::PushTwoLeftDeltaN) }
    else if i == 22 { (1, FieldOp::PushTwoPack5LeftDeltaN) }
    else if i == 23 { (1, FieldOp::PushThreeLeftDeltaN) }
    else if i == 24 { (1, FieldOp::PushThreePack5LeftDeltaN) }
    else if i == 25 { (1, FieldOp::PushN) }
    else if i == 26 { (310, FieldOp::PushNAndNonTopographical) }
    else if i == 27 { (2, FieldOp::PopOnePlusOne) }
    else if i == 28 { (1, FieldOp::PopOnePlusN) }
    else if i == 29 { (1837, FieldOp::PopAllButOnePlusOne) }
    else if i == 30 { (149, FieldOp::PopAllButOnePlusN) }
    else if i == 31 { (300, FieldOp::PopAllButOnePlusNPack3Bits) }
    else if i == 32 { (634, FieldOp::PopAllButOnePlusNPack6Bits) }
    else if i == 33 { (1, FieldOp::PopNPlusOne) }
    else if i == 34 { (1, FieldOp::PopNPlusN) }
    else if i == 35 { (1, FieldOp::PopNAndNonTopographical) }
    else if i == 36 { (76, FieldOp::NonTopoComplex) }
    else if i == 37 { (271, FieldOp::NonTopoPenultimatePlusOne) }
    else if i == 38 { (99, FieldOp::NonTopoComplexPack4Bits) }
    else { (25474, FieldOp::FieldPathEncodeFinish) }
}

/// Number of field path operations.
pub const FIELDOP_COUNT: usize = 40;

/// `FIELDOP_DESCRIPTORS[i]`: weight and operation.
fn fieldop_descriptor(i: usize) -> (r: (usize, FieldOp))
    requires
        i < FIELDOP_COUNT,
    ensures
        r == fieldop_descriptor_spec(i as int),
{
    match i {
        0 => (36271, FieldOp::PlusOne),
        1 => (10334, FieldOp::PlusTwo),
        2 => (1375, FieldOp::PlusThree),
        3 => (646, FieldOp::PlusFour),
        4 => (4128, FieldOp::PlusN),
        5 => (35, FieldOp::PushOneLeftDeltaZeroRightZero),
        6 => (3, FieldOp::PushOneLeftDeltaZeroRightNonZero),
        7 => (521, FieldOp::PushOneLeftDeltaOneRightZero),
        8 => (2942, FieldOp::PushOneLeftDeltaOneRightNonZero),
        9 => (560, FieldOp::PushOneLeftDeltaNRightZero),
        10 => (471, FieldOp::PushOneLeftDeltaNRightNonZero),
        11 => (10530, FieldOp::PushOneLeftDeltaNRightNonZeroPack6Bits),
        12 => (251, FieldOp::PushOneLeftDeltaNRightNonZeroPack8Bits),
        13 => (1, FieldOp::PushTwoLeftDeltaZero),
        14 => (1, FieldOp::PushTwoPack5LeftDeltaZero),
        15 => (1, FieldOp::PushThreeLeftDeltaZero),
        16 => (1, FieldOp::PushThreePack5LeftDeltaZero),
        17 => (1, FieldOp::PushTwoLeftDeltaOne),
        18 => (1, FieldOp::PushTwoPack5LeftDeltaOne),
        19 => (1, FieldOp::PushThreeLeftDeltaOne),
        20 => (1, FieldOp::PushThreePack5LeftDeltaOne),
        21 => (1, FieldOp::PushTwoLeftDeltaN),
        22 => (1, FieldOp::PushTwoPack5LeftDeltaN),
        23 => (1, FieldOp::PushThreeLeftDeltaN),
        24 => (1, FieldOp::PushThreePack5LeftDeltaN),
        25 => (1, FieldOp::PushN),
        26 => (310, FieldOp::PushNAndNonTopographical),
        27 => (2, FieldOp::PopOnePlusOne),
        28 => (1, FieldOp::PopOnePlusN),
        29 => (1837, FieldOp::PopAllButOnePlusOne),
        30 => (149, FieldOp::PopAllButOnePlusN),
        31 => (300, FieldOp::PopAllButOnePlusNPack3Bits),
        32 => (634, FieldOp::PopAllButOnePlusNPack6Bits),
        33 => (1, FieldOp::PopNPlusOne),
        34 => (1, FieldOp::PopNPlusN),
        35 => (1, FieldOp::PopNAndNonTopographical),
        36 => (76, FieldOp::NonTopoComplex),
        37 => (271, FieldOp::NonTopoPenultimatePlusOne),
        38 => (99, FieldOp::NonTopoComplexPack4Bits),
        _ => (25474, FieldOp::FieldPathEncodeFinish),
    }
}

/// The queue of leaves the Huffman tree is built from: leaf `i` holds operation `i`, with its
/// weight, numbered `i`.
pub open spec fn initial_leaves(n: nat) -> Seq<Node<FieldOp>> {
    Seq::new(
        n,
        |i: int|
            Node::Leaf {
                weight: fieldop_descriptor_spec(i).0,
                num: i as usize,
                value: fieldop_descriptor_spec(i).1,
            },
    )
}

/// Takes the node that comes out of the priority queue first.
fn pop_best<T>(heap: &mut Vec<Node<T>>) -> (r: Node<T>)
    requires
        old(heap).len() >= 1,
    ensures
        r == old(heap)@[pq_best(old(heap)@)],
        final(heap)@ == old(heap)@.remove(pq_best(old(heap)@)),
{
    let mut best: usize = 0;
    let mut k: usize = 1;
    while k < heap.len()
        invariant
            1 <= k <= heap.len(),
            heap@ == old(heap)@,
            best == pq_best(heap@.subrange(0, k as int)),
            best < k,
        decreases heap.len() - k,
    {
        let ghost prefix = heap@.subrange(0, (k + 1) as int);
        assert(prefix.drop_last() =~= heap@.subrange(0, k as int));
        let kw = heap[k].weight();
        let bw = heap[best].weight();
        if kw < bw || (kw == bw && heap[k].num() > heap[best].num()) {
            best = k;
        }
        k = k + 1;
    }
    assert(heap@.subrange(0, heap.len() as int) =~= heap@);
    heap.remove(best)
}

/// Builds the Huffman tree of the field path operations from their weights.
pub fn build_fieldop_hierarchy() -> (r: Node<FieldOp>)
    ensures
        r == huffman_from(initial_leaves(FIELDOP_COUNT as nat), FIELDOP_COUNT as nat),
{
    let mut heap: Vec<Node<FieldOp>> = Vec::new();
    let mut num: usize = 0;
    while num < FIELDOP_COUNT
        invariant
            num <= FIELDOP_COUNT,
            heap@ =~= initial_leaves(num as nat),
            heap_weight(heap@) <= 40000 * num,
        decreases FIELDOP_COUNT - num,
    {
        let (weight, op) = fieldop_descriptor(num);
        heap.push(Node::Leaf { weight, num, value: op });
        proof {
            assert(heap@.drop_last() =~= initial_leaves(num as nat));
        }
        num = num + 1;
    }
    let ghost total = heap_weight(heap@);
    while heap.len() > 1
        invariant
            heap.len() + num == 2 * FIELDOP_COUNT,
            heap.len() >= 1,
            heap_weight(heap@) == total,
            total <= 40000 * FIELDOP_COUNT,
            huffman_from(initial_leaves(FIELDOP_COUNT as nat), FIELDOP_COUNT as nat)
                == huffman_from(heap@, num as nat),
        decreases heap.len(),
    {
        proof {
            lemma_pq_best_in_range(heap@);
            lemma_heap_weight_remove(heap@, pq_best(heap@));
        }
        let left = pop_best(&mut heap);
        proof {
            lemma_pq_best_in_range(heap@);
            lemma_heap_weight_remove(heap@, pq_best(heap@));
        }
        let right = pop_best(&mut heap);
        let ghost h2 = heap@;
        let weight = left.weight() + right.weight();
        heap.push(
            Node::Branch { weight, num, left: Box::new(left), right: Box::new(right) },
        );
        proof {
            assert(heap@.drop_last() =~= h2);
        }
        num = num + 1;
    }
    let r = heap.pop();
    match r {
        Some(node) => node,
        None => {
            proof {
                assert(false);
            }
            Node::Leaf { weight: 0, num: 0, value: FieldOp::PlusOne }
        },
    }
}

} // verus!

verus! {

/// The operation that the Huffman tree `t` decodes from the bits at `q`, and the bit after its
/// code: from the root, a set bit goes right and a clear bit left, until a leaf.
pub open spec fn walk(t: Node<FieldOp>, d: Seq<u8>, q: int) -> (FieldOp, int)
    decreases t,
{
    match t {
        Node::Branch { left, right, .. } => {
            let next = if bit_at(d, q) {
                *right
            } else {
                *left
            };
            match next {
                Node::Leaf { value, .. } => (value, q + 1),
                Node::Branch { .. } => walk(next, d, q + 1),
            }
        },
        Node::Leaf { value, .. } => (value, q),
    }
}

/// Decodes field paths at bit `q` with the tree `t`, starting from the path `st`: each code's
/// operation yields the next path, until `FieldPathEncodeFinish`. `None` when an operation
/// would leave the seven components or more than `cap` paths would be decoded. Otherwise the
/// paths (not counting the start) and the bit after the last code.
pub open spec fn decode_paths(t: Node<FieldOp>, st: PathState, d: Seq<u8>, q: int, cap: nat) -> Option<
    (Seq<PathState>, int),
>
    decreases cap,
{
    let w = walk(t, d, q);
    if !fieldop_ok(w.0, st, d, w.1) {
        None
    } else {
        let r = fieldop_spec(w.0, st, d, w.1);
        if w.0 == FieldOp::FieldPathEncodeFinish {
            Some((Seq::empty(), r.1))
        } else if cap == 0 {
            None
        } else {
            match decode_paths(t, r.0, d, r.1, (cap - 1) as nat) {
                Some(rest) => Some((seq![r.0] + rest.0, rest.1)),
                None => None,
            }
        }
    }
}

/// Reads one operation code, walking the tree from its root.
fn walk_exec(t: &Node<FieldOp>, br: &mut BitReader) -> (op: FieldOp)
    requires
        old(br).wf(),
        *t is Branch,
    ensures
        op == walk(*t, old(br).bytes(), old(br).pos()).0,
        final(br).pos() == walk(*t, old(br).bytes(), old(br).pos()).1,
        final(br).bytes() == old(br).bytes(),
        final(br).wf(),
{
    let mut root: &Node<FieldOp> = t;
    loop
        invariant
            br.wf(),
            br.bytes() == old(br).bytes(),
            *root is Branch,
            walk(*t, old(br).bytes(), old(br).pos()) == walk(*root, br.bytes(), br.pos()),
        decreases *root,
    {
        let next = if br.read_bool() {
            root.unwrap_right_branch()
        } else {
            root.unwrap_left_branch()
        };
        match next {
            Node::Leaf { value, .. } => {
                return *value;
            },
            Node::Branch { .. } => {
                root = next;
            },
        }
    }
}

/// Reads a list of field paths into `fps`, decoding operations with the Huffman tree
/// `hierarchy` (see [`build_fieldop_hierarchy`]); returns how many were read.
pub fn read_field_paths(
    br: &mut BitReader,
    fps: &mut [FieldPath],
    hierarchy: &Node<FieldOp>,
) -> (n: usize)
    requires
        old(br).wf(),
        *hierarchy is Branch,
        decode_paths(
            *hierarchy,
            initial_path_state(),
            old(br).bytes(),
            old(br).pos(),
            old(fps)@.len(),
        ) is Some,
    ensures
        ({
            let r = decode_paths(
                *hierarchy,
                initial_path_state(),
                old(br).bytes(),
                old(br).pos(),
                old(fps)@.len(),
            )->0;
            &&& n == r.0.len()
            &&& final(fps)@.len() == old(fps)@.len()
            &&& forall|j: int| 0 <= j < n ==> #[trigger] final(fps)@[j].state() == r.0[j]
            &&& forall|j: int| 0 <= j < n ==> !(#[trigger] final(fps)@[j]).is_finished()
            &&& forall|j: int| n <= j < old(fps)@.len() ==> #[trigger] final(fps)@[j] == old(
                fps,
            )@[j]
            &&& final(br).pos() == r.1
            &&& final(br).bytes() == old(br).bytes()
            &&& final(br).wf()
        }),
{
    let ghost d = br.bytes();
    let ghost full = decode_paths(*hierarchy, initial_path_state(), d, br.pos(), fps@.len())->0;
    let mut fp = FieldPath::default();
    let mut i: usize = 0;
    loop
        invariant
            br.wf(),
            br.bytes() == d,
            d == old(br).bytes(),
            full == decode_paths(
                *hierarchy,
                initial_path_state(),
                old(br).bytes(),
                old(br).pos(),
                old(fps)@.len(),
            )->0,
            *hierarchy is Branch,
            fp.wf(),
            !fp.is_finished(),
            fps@.len() == old(fps)@.len(),
            i <= fps@.len(),
            decode_paths(*hierarchy, fp.state(), d, br.pos(), (fps@.len() - i) as nat) == Some(
                (full.0.skip(i as int), full.1),
            ),
            i <= full.0.len(),
            forall|j: int| 0 <= j < i ==> #[trigger] fps@[j].state() == full.0[j],
            forall|j: int| 0 <= j < i ==> !(#[trigger] fps@[j]).is_finished(),
            forall|j: int| i <= j < old(fps)@.len() ==> #[trigger] fps@[j] == old(fps)@[j],
        decreases fps@.len() - i,
    {
        let ghost cap = (fps@.len() - i) as nat;
        let ghost st = fp.state();
        let op = walk_exec(hierarchy, br);
        exec_op(op, &mut fp, br);
        if fp.finished {
            assert(full.0.skip(i as int) =~= Seq::<PathState>::empty());
            assert(full.0 =~= full.0.subrange(0, i as int));
            return i;
        }
        assert(full.0.skip(i as int)[0] == fp.state());
        assert(full.0.skip(i as int).skip(1) =~= full.0.skip(i + 1));
        fps[i] = fp;
        i = i + 1;
    }
}

} // verus!
