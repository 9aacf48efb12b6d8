//! Field paths of the first parser generation: the operations are methods and codes are
//! matched against a table of the 40 Huffman codes, one bit at a time.

use crate::haste_common::bits::bit_at;
use vstd::arithmetic::power2::pow2;
use crate::haste_core::bitreader::BitReader;
use crate::haste_core::fieldops::{
    fieldop_ok, fieldop_spec, non_topo_from, path_wf, push_fp_values, rd_delta, rd_fp,
    st_inc_at, st_inc_last, st_pop, st_push, FieldOp, NonTopoDelta, PathState, FIELD_PATH_LEN,
};
pub use crate::haste_core::fieldpath::initial_path_state;
use vstd::prelude::*;

verus! {

/// A field path: up to seven components, each an index into the fields of a (nested)
/// serializer; `last` is the index of the deepest component in use.
#[derive(Debug, Clone, Copy)]
pub struct FieldPath {
    pub(crate) data: [u8; 7],
    pub(crate) last: usize,
}

impl FieldPath {
    /// Components and index of the last one in use.
    pub closed spec fn state(&self) -> PathState {
        (self.data@, self.last as int)
    }

    /// Seven components, zero after the last one in use.
    pub open spec fn wf(&self) -> bool {
        path_wf(self.state())
    }

    /// Adds `v` to component `i`, modulo 256.
    fn inc_at(&mut self, i: usize, v: i64)
        requires
            old(self).wf(),
            i <= old(self).state().1,
            -0x1_0000_0000_0000 < v < 0x1_0000_0000_0000,
        ensures
            final(self).state() == st_inc_at(old(self).state(), i as int, v as int),
            final(self).wf(),
    {
        let x: i64 = self.data[i] as i64 + v;
        let r: u8 = (x & 0xffi64) as u8;
        proof {
            assert((x & 0xffi64) as int == x % 256) by (bit_vector);
        }
        self.data[i] = r;
        assert(self.data@ =~= st_inc_at(old(self).state(), i as int, v as int).0);
    }

    /// Adds `v` to the last component, modulo 256.
    fn inc_last(&mut self, v: i64)
        requires
            old(self).wf(),
            -0x1_0000_0000_0000 < v < 0x1_0000_0000_0000,
        ensures
            final(self).state() == st_inc_last(old(self).state(), v as int),
            final(self).wf(),
    {
        let last = self.last;
        self.inc_at(last, v);
    }

    /// Appends a component `v` (modulo 256).
    fn push(&mut self, v: i64)
        requires
            old(self).wf(),
            old(self).state().1 + 1 < FIELD_PATH_LEN,
            -0x1_0000_0000_0000 < v < 0x1_0000_0000_0000,
        ensures
            final(self).state() == st_push(old(self).state(), v as int),
            final(self).wf(),
    {
        self.last = self.last + 1;
        let r: u8 = (v & 0xffi64) as u8;
        proof {
            assert((v & 0xffi64) as int == v % 256) by (bit_vector);
        }
        self.data[self.last] = r;
        assert(self.data@ =~= st_push(old(self).state(), v as int).0);
    }

    /// Drops the last `n` components, setting them to zero.
    fn pop(&mut self, n: usize)
        requires
            old(self).wf(),
            n <= old(self).state().1,
        ensures
            final(self).state() == st_pop(old(self).state(), n as nat),
            final(self).wf(),
    {
        let mut k: usize = 0;
        while k < n
            invariant
                k <= n,
                n <= old(self).state().1,
                self.wf(),
                self.state().1 == old(self).state().1 - k,
                st_pop(old(self).state(), n as nat) == st_pop(self.state(), (n - k) as nat),
            decreases n - k,
        {
            let last = self.last;
            self.data[last] = 0;
            self.last = last - 1;
            k = k + 1;
        }
    }

    /// Component `index`, if the path has that many (including unused ones).
    pub fn get(&self, index: usize) -> (r: Option<usize>)
        requires
            self.wf(),
        ensures
            index < FIELD_PATH_LEN ==> r == Some(self.state().0[index as int] as usize),
            index >= FIELD_PATH_LEN ==> r is None,
    {
        if index < 7 {
            Some(self.data[index] as usize)
        } else {
            None
        }
    }

    /// Index of the last component in use.
    pub fn last(&self) -> (r: usize)
        ensures
            r == self.state().1,
    {
        self.last
    }

    /// The components in use, from the first to the last.
    pub fn iter(&self) -> (r: Vec<u8>)
        requires
            self.wf(),
        ensures
            r@ == self.state().0.subrange(0, self.state().1 + 1),
    {
        let mut r: Vec<u8> = Vec::new();
        let mut i: usize = 0;
        while i <= self.last
            invariant
                self.wf(),
                i <= self.state().1 + 1,
                r@ == self.state().0.subrange(0, i as int),
            decreases self.state().1 + 1 - i,
        {
            r.push(self.data[i]);
            i = i + 1;
        }
        r
    }
}

impl Default for FieldPath {
    /// The path that decoding starts from, see [`initial_path_state`].
    fn default() -> (r: Self)
        ensures
            r.state() == initial_path_state(),
            r.wf(),
    {
        let r = FieldPath { data: [255, 0, 0, 0, 0, 0, 0], last: 0 };
        assert(r.data@ =~= initial_path_state().0);
        r
    }
}

/// `op` may run on `fp` with the bits that `br` reads next.
pub open spec fn op_pre(op: FieldOp, fp: FieldPath, br: BitReader) -> bool {
    &&& fp.wf()
    &&& br.wf()
    &&& fieldop_ok(op, fp.state(), br.bytes(), br.pos())
}

/// `fp1` and `br1` are `fp0` and `br0` after `op`, see [`fieldop_spec`].
pub open spec fn op_post(
    op: FieldOp,
    fp0: FieldPath,
    fp1: FieldPath,
    br0: BitReader,
    br1: BitReader,
) -> bool {
    let r = fieldop_spec(op, fp0.state(), br0.bytes(), br0.pos());
    &&& fp1.wf()
    &&& fp1.state() == r.0
    &&& br1.wf()
    &&& br1.bytes() == br0.bytes()
    &&& br1.pos() == r.1
}

/// Reads a field path `UBitVarFP`.
fn read_fp(br: &mut BitReader) -> (v: i64)
    requires
        old(br).wf(),
    ensures
        v == rd_fp(old(br).bytes(), old(br).pos()).0,
        0 <= v < 0x1_0000_0000,
        final(br).advanced(*old(br), rd_fp(old(br).bytes(), old(br).pos()).1),
{
    br.read_ubitvarfp() as i64
}

/// Reads a `UBitVar`.
fn read_var(br: &mut BitReader) -> (v: i64)
    requires
        old(br).wf(),
    ensures
        v == crate::haste_core::fieldops::rd_var(old(br).bytes(), old(br).pos()).0,
        0 <= v < 0x1_0000_0000,
        final(br).advanced(
            *old(br),
            crate::haste_core::fieldops::rd_var(old(br).bytes(), old(br).pos()).1,
        ),
{
    br.read_ubitvar() as i64
}

/// Reads `n` bits.
fn read_bits(br: &mut BitReader, n: usize) -> (v: i64)
    requires
        old(br).wf(),
        n <= 8,
    ensures
        v == crate::haste_core::fieldops::rd_bits(old(br).bytes(), old(br).pos(), n as nat),
        0 <= v < 256,
        final(br).advanced(*old(br), n as int),
{
    proof {
        crate::haste_common::bits::lemma_bits_value_bound(br.bytes(), br.pos(), n as nat);
        vstd::arithmetic::power2::lemma2_to64();
        if n < 8 {
            vstd::arithmetic::power2::lemma_pow2_strictly_increases(n as nat, 8);
        }
    }
    br.read_ubit64(n) as i64
}

/// Reads the increment of a flagged component of a non-topological operation.
fn read_delta(br: &mut BitReader, mode: NonTopoDelta) -> (v: i64)
    requires
        old(br).wf(),
    ensures
        v == rd_delta(mode, old(br).bytes(), old(br).pos()).0,
        -0x1_0000_0000 < v < 0x1_0000_0000,
        final(br).advanced(*old(br), rd_delta(mode, old(br).bytes(), old(br).pos()).1),
{
    match mode {
        NonTopoDelta::VarintPlusOne => br.read_varint32() as i64 + 1,
        NonTopoDelta::Varint => br.read_varint32() as i64,
        NonTopoDelta::Pack4Bits => read_bits(br, 4) - 7,
    }
}

/// For every component in use: a flag bit, then, if set, an increment of that component.
fn non_topo_exec(fp: &mut FieldPath, br: &mut BitReader, mode: NonTopoDelta)
    requires
        old(fp).wf(),
        old(br).wf(),
    ensures
        (final(fp).state(), final(br).pos()) == non_topo_from(
            old(fp).state(),
            0,
            mode,
            old(br).bytes(),
            old(br).pos(),
        ),
        final(fp).wf(),
        final(br).wf(),
        final(br).bytes() == old(br).bytes(),
{
    let ghost d = br.bytes();
    let last = fp.last;
    let mut i: usize = 0;
    while i <= last
        invariant
            fp.wf(),
            br.wf(),
            br.bytes() == d,
            d == old(br).bytes(),
            last == fp.state().1,
            last < FIELD_PATH_LEN,
            i <= last + 1,
            non_topo_from(old(fp).state(), 0, mode, d, old(br).pos()) == non_topo_from(
                fp.state(),
                i as int,
                mode,
                d,
                br.pos(),
            ),
        decreases last + 1 - i,
    {
        if br.read_bool() {
            let v = read_delta(br, mode);
            fp.inc_at(i, v);
        }
        i = i + 1;
    }
}

/// Appends `n` components, each read as a field path `UBitVarFP`.
fn push_fp_values_exec(fp: &mut FieldPath, br: &mut BitReader, n: usize)
    requires
        old(fp).wf(),
        old(br).wf(),
        old(fp).state().1 + n < FIELD_PATH_LEN,
    ensures
        (final(fp).state(), final(br).pos()) == push_fp_values(
            old(fp).state(),
            n as nat,
            old(br).bytes(),
            old(br).pos(),
        ),
        final(fp).wf(),
        final(br).wf(),
        final(br).bytes() == old(br).bytes(),
{
    let ghost d = br.bytes();
    let mut k: usize = 0;
    while k < n
        invariant
            fp.wf(),
            br.wf(),
            br.bytes() == d,
            d == old(br).bytes(),
            k <= n,
            fp.state().1 == old(fp).state().1 + k,
            old(fp).state().1 + n < FIELD_PATH_LEN,
            push_fp_values(old(fp).state(), n as nat, d, old(br).pos()) == push_fp_values(
                fp.state(),
                (n - k) as nat,
                d,
                br.pos(),
            ),
        decreases n - k,
    {
        let v = read_fp(br);
        fp.push(v);
        k = k + 1;
    }
}


impl FieldPath {
    /// Field path operation `PlusOne`.
    fn plus_one(&mut self, br: &mut BitReader)
        requires
            op_pre(FieldOp::PlusOne, *old(self), *old(br)),
        ensures
            op_post(FieldOp::PlusOne, *old(self), *final(self), *old(br), *final(br)),
    {
        self.inc_last(1);
    }

    /// Field path operation `PlusTwo`.
    fn plus_two(&mut self, br: &mut BitReader)
        requires
            op_pre(FieldOp::PlusTwo, *old(self), *old(br)),
        ensures
            op_post(FieldOp::PlusTwo, *old(self), *final(self), *old(br), *final(br)),
    {
        self.inc_last(2);
    }

    /// Field path operation `PlusThree`.
    fn plus_three(&mut self, br: &mut BitReader)
        requires
            op_pre(FieldOp::PlusThree, *old(self), *old(br)),
        ensures
            op_post(FieldOp::PlusThree, *old(self), *final(self), *old(br), *final(br)),
    {
        self.inc_last(3);
    }

    /// Field path operation `PlusFour`.
    fn plus_four(&mut self, br: &mut BitReader)
        requires
            op_pre(FieldOp::PlusFour, *old(self), *old(br)),
        ensures
            op_post(FieldOp::PlusFour, *old(self), *final(self), *old(br), *final(br)),
    {
        self.inc_last(4);
    }

    /// Field path operation `PlusN`.
    fn plus_n(&mut self, br: &mut BitReader)
        requires
            op_pre(FieldOp::PlusN, *old(self), *old(br)),
        ensures
            op_post(FieldOp::PlusN, *old(self), *final(self), *old(br), *final(br)),
    {
        let v = read_fp(br);
        self.inc_last(v + 5);
    }

    /// Field path operation `PushOneLeftDeltaZeroRightZero`.
    fn push_one_left_delta_zero_right_zero(&mut self, br: &mut BitReader)
        requires
            op_pre(FieldOp::PushOneLeftDeltaZeroRightZero, *old(self), *old(br)),
        ensures
            op_post(FieldOp::PushOneLeftDeltaZeroRightZero, *old(self), *final(self), *old(br), *final(br)),
    {
        self.push(0);
    }

    /// Field path operation `PushOneLeftDeltaZeroRightNonZero`.
    fn push_one_left_delta_zero_right_non_zero(&mut self, br: &mut BitReader)
        requires
            op_pre(FieldOp::PushOneLeftDeltaZeroRightNonZero, *old(self), *old(br)),
        ensures
            op_post(FieldOp::PushOneLeftDeltaZeroRightNonZero, *old(self), *final(self), *old(br), *final(br)),
    {
        let v = read_fp(br);
        self.push(v);
    }

    /// Field path operation `PushOneLeftDeltaOneRightZero`.
    fn push_one_left_delta_one_right_zero(&mut self, br: &mut BitReader)
        requires
            op_pre(FieldOp::PushOneLeftDeltaOneRightZero, *old(self), *old(br)),
        ensures
            op_post(FieldOp::PushOneLeftDeltaOneRightZero, *old(self), *final(self), *old(br), *final(br)),
    {
        self.inc_last(1);
        self.push(0);
    }

    /// Field path operation `PushOneLeftDeltaOneRightNonZero`.
    fn push_one_left_delta_one_right_non_zero(&mut self, br: &mut BitReader)
        requires
            op_pre(FieldOp::PushOneLeftDeltaOneRightNonZero, *old(self), *old(br)),
        ensures
            op_post(FieldOp::PushOneLeftDeltaOneRightNonZero, *old(self), *final(self), *old(br), *final(br)),
    {
        self.inc_last(1);
        let v = read_fp(br);
        self.push(v);
    }

    /// Field path operation `PushOneLeftDeltaNRightZero`.
    fn push_one_left_delta_n_right_zero(&mut self, br: &mut BitReader)
        requires
            op_pre(FieldOp::PushOneLeftDeltaNRightZero, *old(self), *old(br)),
        ensures
            op_post(FieldOp::PushOneLeftDeltaNRightZero, *old(self), *final(self), *old(br), *final(br)),
    {
        let v = read_fp(br);
        self.inc_last(v);
        self.push(0);
    }

    /// Field path operation `PushOneLeftDeltaNRightNonZero`.
    fn push_one_left_delta_n_right_non_zero(&mut self, br: &mut BitReader)
        requires
            op_pre(FieldOp::PushOneLeftDeltaNRightNonZero, *old(self), *old(br)),
        ensures
            op_post(FieldOp::PushOneLeftDeltaNRightNonZero, *old(self), *final(self), *old(br), *final(br)),
    {
        let a = read_fp(br);
        self.inc_last(a + 2);
        let b = read_fp(br);
        self.push(b + 1);
    }

    /// Field path operation `PushOneLeftDeltaNRightNonZeroPack6Bits`.
    fn push_one_left_delta_n_right_non_zero_pack6_bits(&mut self, br: &mut BitReader)
        requires
            op_pre(FieldOp::PushOneLeftDeltaNRightNonZeroPack6Bits, *old(self), *old(br)),
        ensures
            op_post(FieldOp::PushOneLeftDeltaNRightNonZeroPack6Bits, *old(self), *final(self), *old(br), *final(br)),
    {
        let a = read_bits(br, 3);
        self.inc_last(a + 2);
        let b = read_bits(br, 3);
        self.push(b + 1);
    }

    /// Field path operation `PushOneLeftDeltaNRightNonZeroPack8Bits`.
    fn push_one_left_delta_n_right_non_zero_pack8_bits(&mut self, br: &mut BitReader)
        requires
            op_pre(FieldOp::PushOneLeftDeltaNRightNonZeroPack8Bits, *old(self), *old(br)),
        ensures
            op_post(FieldOp::PushOneLeftDeltaNRightNonZeroPack8Bits, *old(self), *final(self), *old(br), *final(br)),
    {
        let a = read_bits(br, 4);
        self.inc_last(a + 2);
        let b = read_bits(br, 4);
        self.push(b + 1);
    }

    /// Field path operation `PushTwoLeftDeltaZero`.
    fn push_two_left_delta_zero(&mut self, br: &mut BitReader)
        requires
            op_pre(FieldOp::PushTwoLeftDeltaZero, *old(self), *old(br)),
        ensures
            op_post(FieldOp::PushTwoLeftDeltaZero, *old(self), *final(self), *old(br), *final(br)),
    {
        let a = read_fp(br);
        self.push(a);
        let b = read_fp(br);
        self.push(b);
    }

    /// Field path operation `PushTwoPack5LeftDeltaZero`.
    fn push_two_pack5_left_delta_zero(&mut self, br: &mut BitReader)
        requires
            op_pre(FieldOp::PushTwoPack5LeftDeltaZero, *old(self), *old(br)),
        ensures
            op_post(FieldOp::PushTwoPack5LeftDeltaZero, *old(self), *final(self), *old(br), *final(br)),
    {
        let a = read_bits(br, 5);
        self.push(a);
        let b = read_bits(br, 5);
        self.push(b);
    }

    /// Field path operation `PushThreeLeftDeltaZero`.
    fn push_three_left_delta_zero(&mut self, br: &mut BitReader)
        requires
            op_pre(FieldOp::PushThreeLeftDeltaZero, *old(self), *old(br)),
        ensures
            op_post(FieldOp::PushThreeLeftDeltaZero, *old(self), *final(self), *old(br), *final(br)),
    {
        let a = read_fp(br);
        self.push(a);
        let b = read_fp(br);
        self.push(b);
        let c = read_fp(br);
        self.push(c);
    }

    /// Field path operation `PushThreePack5LeftDeltaZero`.
    fn push_three_pack5_left_delta_zero(&mut self, br: &mut BitReader)
        requires
            op_pre(FieldOp::PushThreePack5LeftDeltaZero, *old(self), *old(br)),
        ensures
            op_post(FieldOp::PushThreePack5LeftDeltaZero, *old(self), *final(self), *old(br), *final(br)),
    {
        let a = read_bits(br, 5);
        self.push(a);
        let b = read_bits(br, 5);
        self.push(b);
        let c = read_bits(br, 5);
        self.push(c);
    }

    /// Field path operation `PushTwoLeftDeltaOne`.
    fn push_two_left_delta_one(&mut self, br: &mut BitReader)
        requires
            op_pre(FieldOp::PushTwoLeftDeltaOne, *old(self), *old(br)),
        ensures
            op_post(FieldOp::PushTwoLeftDeltaOne, *old(self), *final(self), *old(br), *final(br)),
    {
        self.inc_last(1);
        let a = read_fp(br);
        self.push(a);
        let b = read_fp(br);
        self.push(b);
    }

    /// Field path operation `PushTwoPack5LeftDeltaOne`.
    fn push_two_pack5_left_delta_one(&mut self, br: &mut BitReader)
        requires
            op_pre(FieldOp::PushTwoPack5LeftDeltaOne, *old(self), *old(br)),
        ensures
            op_post(FieldOp::PushTwoPack5LeftDeltaOne, *old(self), *final(self), *old(br), *final(br)),
    {
        self.inc_last(1);
        let a = read_bits(br, 5);
        self.push(a);
        let b = read_bits(br, 5);
        self.push(b);
    }

    /// Field path operation `PushThreeLeftDeltaOne`.
    fn push_three_left_delta_one(&mut self, br: &mut BitReader)
        requires
            op_pre(FieldOp::PushThreeLeftDeltaOne, *old(self), *old(br)),
        ensures
            op_post(FieldOp::PushThreeLeftDeltaOne, *old(self), *final(self), *old(br), *final(br)),
    {
        self.inc_last(1);
        let a = read_fp(br);
        self.push(a);
        let b = read_fp(br);
        self.push(b);
        let c = read_fp(br);
        self.push(c);
    }

    /// Field path operation `PushThreePack5LeftDeltaOne`.
    fn push_three_pack5_left_delta_one(&mut self, br: &mut BitReader)
        requires
            op_pre(FieldOp::PushThreePack5LeftDeltaOne, *old(self), *old(br)),
        ensures
            op_post(FieldOp::PushThreePack5LeftDeltaOne, *old(self), *final(self), *old(br), *final(br)),
    {
        self.inc_last(1);
        let a = read_bits(br, 5);
        self.push(a);
        let b = read_bits(br, 5);
        self.push(b);
        let c = read_bits(br, 5);
        self.push(c);
    }

    /// Field path operation `PushTwoLeftDeltaN`.
    fn push_two_left_delta_n(&mut self, br: &mut BitReader)
        requires
            op_pre(FieldOp::PushTwoLeftDeltaN, *old(self), *old(br)),
        ensures
            op_post(FieldOp::PushTwoLeftDeltaN, *old(self), *final(self), *old(br), *final(br)),
    {
        let n = read_var(br);
        self.inc_last(n + 2);
        let a = read_fp(br);
        self.push(a);
        let b = read_fp(br);
        self.push(b);
    }

    /// Field path operation `PushTwoPack5LeftDeltaN`.
    fn push_two_pack5_left_delta_n(&mut self, br: &mut BitReader)
        requires
            op_pre(FieldOp::PushTwoPack5LeftDeltaN, *old(self), *old(br)),
        ensures
            op_post(FieldOp::PushTwoPack5LeftDeltaN, *old(self), *final(self), *old(br), *final(br)),
    {
        let n = read_var(br);
        self.inc_last(n + 2);
        let a = read_bits(br, 5);
        self.push(a);
        let b = read_bits(br, 5);
        self.push(b);
    }

    /// Field path operation `PushThreeLeftDeltaN`.
    fn push_three_left_delta_n(&mut self, br: &mut BitReader)
        requires
            op_pre(FieldOp::PushThreeLeftDeltaN, *old(self), *old(br)),
        ensures
            op_post(FieldOp::PushThreeLeftDeltaN, *old(self), *final(self), *old(br), *final(br)),
    {
        let n = read_var(br);
        self.inc_last(n + 2);
        let a = read_fp(br);
        self.push(a);
        let b = read_fp(br);
        self.push(b);
        let c = read_fp(br);
        self.push(c);
    }

    /// Field path operation `PushThreePack5LeftDeltaN`.
    fn push_three_pack5_left_delta_n(&mut self, br: &mut BitReader)
        requires
            op_pre(FieldOp::PushThreePack5LeftDeltaN, *old(self), *old(br)),
        ensures
            op_post(FieldOp::PushThreePack5LeftDeltaN, *old(self), *final(self), *old(br), *final(br)),
    {
        let n = read_var(br);
        self.inc_last(n + 2);
        let a = read_bits(br, 5);
        self.push(a);
        let b = read_bits(br, 5);
        self.push(b);
        let c = read_bits(br, 5);
        self.push(c);
    }

    /// Field path operation `PushN`.
    fn push_n(&mut self, br: &mut BitReader)
        requires
            op_pre(FieldOp::PushN, *old(self), *old(br)),
        ensures
            op_post(FieldOp::PushN, *old(self), *final(self), *old(br), *final(br)),
    {
        let n = br.read_ubitvar() as usize;
        let v = read_var(br);
        self.inc_last(v);
        push_fp_values_exec(self, br, n);
    }

    /// Field path operation `PushNAndNonTopographical`.
    fn push_n_and_non_topographical(&mut self, br: &mut BitReader)
        requires
            op_pre(FieldOp::PushNAndNonTopographical, *old(self), *old(br)),
        ensures
            op_post(FieldOp::PushNAndNonTopographical, *old(self), *final(self), *old(br), *final(br)),
    {
        proof {
            crate::haste_core::fieldops::lemma_non_topo_keeps_last(
                self.state(),
                0,
                NonTopoDelta::VarintPlusOne,
                br.bytes(),
                br.pos(),
            );
        }
        non_topo_exec(self, br, NonTopoDelta::VarintPlusOne);
        let n = br.read_ubitvar() as usize;
        push_fp_values_exec(self, br, n);
    }

    /// Field path operation `PopOnePlusOne`.
    fn pop_one_plus_one(&mut self, br: &mut BitReader)
        requires
            op_pre(FieldOp::PopOnePlusOne, *old(self), *old(br)),
        ensures
            op_post(FieldOp::PopOnePlusOne, *old(self), *final(self), *old(br), *final(br)),
    {
        self.pop(1);
        self.inc_last(1);
    }

    /// Field path operation `PopOnePlusN`.
    fn pop_one_plus_n(&mut self, br: &mut BitReader)
        requires
            op_pre(FieldOp::PopOnePlusN, *old(self), *old(br)),
        ensures
            op_post(FieldOp::PopOnePlusN, *old(self), *final(self), *old(br), *final(br)),
    {
        self.pop(1);
        let v = read_fp(br);
        self.inc_last(v + 1);
    }

    /// Field path operation `PopAllButOnePlusOne`.
    fn pop_all_but_one_plus_one(&mut self, br: &mut BitReader)
        requires
            op_pre(FieldOp::PopAllButOnePlusOne, *old(self), *old(br)),
        ensures
            op_post(FieldOp::PopAllButOnePlusOne, *old(self), *final(self), *old(br), *final(br)),
    {
        let n = self.last;
        self.pop(n);
        self.inc_last(1);
    }

    /// Field path operation `PopAllButOnePlusN`.
    fn pop_all_but_one_plus_n(&mut self, br: &mut BitReader)
        requires
            op_pre(FieldOp::PopAllButOnePlusN, *old(self), *old(br)),
        ensures
            op_post(FieldOp::PopAllButOnePlusN, *old(self), *final(self), *old(br), *final(br)),
    {
        let n = self.last;
        self.pop(n);
        let v = read_fp(br);
        self.inc_last(v + 1);
    }

    /// Field path operation `PopAllButOnePlusNPack3Bits`.
    fn pop_all_but_one_plus_n_pack3_bits(&mut self, br: &mut BitReader)
        requires
            op_pre(FieldOp::PopAllButOnePlusNPack3Bits, *old(self), *old(br)),
        ensures
            op_post(FieldOp::PopAllButOnePlusNPack3Bits, *old(self), *final(self), *old(br), *final(br)),
    {
        let n = self.last;
        self.pop(n);
        let v = read_bits(br, 3);
        self.inc_last(v + 1);
    }

    /// Field path operation `PopAllButOnePlusNPack6Bits`.
    fn pop_all_but_one_plus_n_pack6_bits(&mut self, br: &mut BitReader)
        requires
            op_pre(FieldOp::PopAllButOnePlusNPack6Bits, *old(self), *old(br)),
        ensures
            op_post(FieldOp::PopAllButOnePlusNPack6Bits, *old(self), *final(self), *old(br), *final(br)),
    {
        let n = self.last;
        self.pop(n);
        let v = read_bits(br, 6);
        self.inc_last(v + 1);
    }

    /// Field path operation `PopNPlusOne`.
    fn pop_n_plus_one(&mut self, br: &mut BitReader)
        requires
            op_pre(FieldOp::PopNPlusOne, *old(self), *old(br)),
        ensures
            op_post(FieldOp::PopNPlusOne, *old(self), *final(self), *old(br), *final(br)),
    {
        let n = br.read_ubitvarfp() as usize;
        self.pop(n);
        self.inc_last(1);
    }

    /// Field path operation `PopNPlusN`.
    fn pop_n_plus_n(&mut self, br: &mut BitReader)
        requires
            op_pre(FieldOp::PopNPlusN, *old(self), *old(br)),
        ensures
            op_post(FieldOp::PopNPlusN, *old(self), *final(self), *old(br), *final(br)),
    {
        let n = br.read_ubitvarfp() as usize;
        self.pop(n);
        let v = br.read_varint32() as i64;
        self.inc_last(v);
    }

    /// Field path operation `PopNAndNonTopographical`.
    fn pop_n_and_non_topographical(&mut self, br: &mut BitReader)
        requires
            op_pre(FieldOp::PopNAndNonTopographical, *old(self), *old(br)),
        ensures
            op_post(FieldOp::PopNAndNonTopographical, *old(self), *final(self), *old(br), *final(br)),
    {
        let n = br.read_ubitvarfp() as usize;
        self.pop(n);
        non_topo_exec(self, br, NonTopoDelta::Varint);
    }

    /// Field path operation `NonTopoComplex`.
    fn non_topo_complex(&mut self, br: &mut BitReader)
        requires
            op_pre(FieldOp::NonTopoComplex, *old(self), *old(br)),
        ensures
            op_post(FieldOp::NonTopoComplex, *old(self), *final(self), *old(br), *final(br)),
    {
        non_topo_exec(self, br, NonTopoDelta::Varint);
    }

    /// Field path operation `NonTopoPenultimatePlusOne`.
    fn non_topo_penultimate_pluse_one(&mut self, br: &mut BitReader)
        requires
            op_pre(FieldOp::NonTopoPenultimatePlusOne, *old(self), *old(br)),
        ensures
            op_post(FieldOp::NonTopoPenultimatePlusOne, *old(self), *final(self), *old(br), *final(br)),
    {
        let i = self.last - 1;
        self.inc_at(i, 1);
    }

    /// Field path operation `NonTopoComplexPack4Bits`.
    fn non_topo_complex_pack4_bits(&mut self, br: &mut BitReader)
        requires
            op_pre(FieldOp::NonTopoComplexPack4Bits, *old(self), *old(br)),
        ensures
            op_post(FieldOp::NonTopoComplexPack4Bits, *old(self), *final(self), *old(br), *final(br)),
    {
        non_topo_exec(self, br, NonTopoDelta::Pack4Bits);
    }

    /// Field path operation `FieldPathEncodeFinish`.
    fn field_path_encode_finish(&mut self, br: &mut BitReader)
        requires
            op_pre(FieldOp::FieldPathEncodeFinish, *old(self), *old(br)),
        ensures
            op_post(FieldOp::FieldPathEncodeFinish, *old(self), *final(self), *old(br), *final(br)),
    {
    }

    /// Applies the operation whose code is `id`; `false` when no operation has that code.
    fn exec_op(&mut self, id: u32, br: &mut BitReader) -> (r: bool)
        requires
            old(self).wf(),
            old(br).wf(),
            op_of_id(id) is Some ==> fieldop_ok(op_of_id(id)->0, old(self).state(), old(br).bytes(), old(br).pos()),
        ensures
            r == op_of_id(id) is Some,
            r ==> op_post(op_of_id(id)->0, *old(self), *final(self), *old(br), *final(br)),
            !r ==> *final(self) == *old(self) && *final(br) == *old(br),
    {
        match id {
            0b_00000000000000000 => self.plus_one(br),
            0b_00000000000000010 => self.field_path_encode_finish(br),
            0b_00000000000001110 => self.plus_two(br),
            0b_00000000000001111 => self.push_one_left_delta_n_right_non_zero_pack6_bits(br),
            0b_00000000000011000 => self.push_one_left_delta_one_right_non_zero(br),
            0b_00000000000011010 => self.plus_n(br),
            0b_00000000000110010 => self.plus_three(br),
            0b_00000000000110011 => self.pop_all_but_one_plus_one(br),
            0b_00000000011011001 => self.push_one_left_delta_n_right_non_zero(br),
            0b_00000000011011010 => self.push_one_left_delta_one_right_zero(br),
            0b_00000000011011100 => self.push_one_left_delta_n_right_zero(br),
            0b_00000000011011110 => self.pop_all_but_one_plus_n_pack6_bits(br),
            0b_00000000011011111 => self.plus_four(br),
            0b_00000000110110000 => self.pop_all_but_one_plus_n(br),
            0b_00000000110110110 => self.push_one_left_delta_n_right_non_zero_pack8_bits(br),
            0b_00000000110110111 => self.non_topo_penultimate_pluse_one(br),
            0b_00000000110111010 => self.pop_all_but_one_plus_n_pack3_bits(br),
            0b_00000000110111011 => self.push_n_and_non_topographical(br),
            0b_00000001101100010 => self.non_topo_complex_pack4_bits(br),
            0b_00000011011000111 => self.non_topo_complex(br),
            0b_00000110110001101 => self.push_one_left_delta_zero_right_zero(br),
            0b_00110110001100001 => self.pop_one_plus_one(br),
            0b_00110110001100101 => self.push_one_left_delta_zero_right_non_zero(br),
            0b_01101100011000000 => self.pop_n_and_non_topographical(br),
            0b_01101100011000001 => self.pop_n_plus_n(br),
            0b_01101100011000100 => self.push_n(br),
            0b_01101100011000101 => self.push_three_pack5_left_delta_n(br),
            0b_01101100011000110 => self.pop_n_plus_one(br),
            0b_01101100011000111 => self.pop_one_plus_n(br),
            0b_01101100011001000 => self.push_two_left_delta_zero(br),
            0b_11011000110010010 => self.push_three_left_delta_zero(br),
            0b_11011000110010011 => self.push_two_pack5_left_delta_zero(br),
            0b_11011000110011000 => self.push_two_left_delta_n(br),
            0b_11011000110011001 => self.push_three_pack5_left_delta_one(br),
            0b_11011000110011010 => self.push_three_left_delta_n(br),
            0b_11011000110011011 => self.push_two_pack5_left_delta_n(br),
            0b_11011000110011100 => self.push_two_left_delta_one(br),
            0b_11011000110011101 => self.push_three_pack5_left_delta_zero(br),
            0b_11011000110011110 => self.push_three_left_delta_one(br),
            0b_11011000110011111 => self.push_two_pack5_left_delta_one(br),
            _ => return false,
        };
        true
    }
}

/// The operation whose Huffman code, read most significant bit first, is `id` (17 bits at
/// most).
pub open spec fn op_of_id(id: u32) -> Option<FieldOp> {
    if id == 0 { Some(FieldOp::PlusOne) }
    else if id == 2 { Some(FieldOp::FieldPathEncodeFinish) }
    else if id == 14 { Some(FieldOp::PlusTwo) }
    else if id == 15 { Some(FieldOp::PushOneLeftDeltaNRightNonZeroPack6Bits) }
    else if id == 24 { Some(FieldOp::PushOneLeftDeltaOneRightNonZero) }
    else if id == 26 { Some(FieldOp::PlusN) }
    else if id == 50 { Some(FieldOp::PlusThree) }
    else if id == 51 { Some(FieldOp::PopAllButOnePlusOne) }
    else if id == 217 { Some(FieldOp::PushOneLeftDeltaNRightNonZero) }
    else if id == 218 { Some(FieldOp::PushOneLeftDeltaOneRightZero) }
    else if id == 220 { Some(FieldOp::PushOneLeftDeltaNRightZero) }
    else if id == 222 { Some(FieldOp::PopAllButOnePlusNPack6Bits) }
    else if id == 223 { Some(FieldOp::PlusFour) }
    else if id == 432 { Some(FieldOp::PopAllButOnePlusN) }
    else if id == 438 { Some(FieldOp::PushOneLeftDeltaNRightNonZeroPack8Bits) }
    else if id == 439 { Some(FieldOp::NonTopoPenultimatePlusOne) }
    else if id == 442 { Some(FieldOp::PopAllButOnePlusNPack3Bits) }
    else if id == 443 { Some(FieldOp::PushNAndNonTopographical) }
    else if id == 866 { Some(FieldOp::NonTopoComplexPack4Bits) }
    else if id == 1735 { Some(FieldOp::NonTopoComplex) }
    else if id == 3469 { Some(FieldOp::PushOneLeftDeltaZeroRightZero) }
    else if id == 27745 { Some(FieldOp::PopOnePlusOne) }
    else if id == 27749 { Some(FieldOp::PushOneLeftDeltaZeroRightNonZero) }
    else if id == 55488 { Some(FieldOp::PopNAndNonTopographical) }
    else if id == 55489 { Some(FieldOp::PopNPlusN) }
    else if id == 55492 { Some(FieldOp::PushN) }
    else if id == 55493 { Some(FieldOp::PushThreePack5LeftDeltaN) }
    else if id == 55494 { Some(FieldOp::PopNPlusOne) }
    else if id == 55495 { Some(FieldOp::PopOnePlusN) }
    else if id == 55496 { Some(FieldOp::PushTwoLeftDeltaZero) }
    else if id == 110994 { Some(FieldOp::PushThreeLeftDeltaZero) }
    else if id == 110995 { Some(FieldOp::PushTwoPack5LeftDeltaZero) }
    else if id == 111000 { Some(FieldOp::PushTwoLeftDeltaN) }
    else if id == 111001 { Some(FieldOp::PushThreePack5LeftDeltaOne) }
    else if id == 111002 { Some(FieldOp::PushThreeLeftDeltaN) }
    else if id == 111003 { Some(FieldOp::PushTwoPack5LeftDeltaN) }
    else if id == 111004 { Some(FieldOp::PushTwoLeftDeltaOne) }
    else if id == 111005 { Some(FieldOp::PushThreePack5LeftDeltaZero) }
    else if id == 111006 { Some(FieldOp::PushThreeLeftDeltaOne) }
    else if id == 111007 { Some(FieldOp::PushTwoPack5LeftDeltaOne) }
    else { None }
}


/// Error of field path decoding.
#[derive(Debug, Clone, Copy, PartialEq, Eq, Structural)]
pub enum Error {
    /// 17 bits (the depth of the Huffman tree) were read without completing an operation code.
    ExhaustedMaxOpBits,
}

/// Reads an operation code at bit `q`, after `k` bits that made the (incomplete) code `id`:
/// each bit extends the code (most significant first) until it names an operation, at most 17
/// bits in all. The operation and the bit after its code; `None` when no code completes.
pub open spec fn code_walk(d: Seq<u8>, q: int, id: nat, k: nat) -> Option<(FieldOp, int)>
    decreases 17 - k,
{
    if k >= 17 {
        None
    } else {
        let id2 = 2 * id + (if bit_at(d, q) {
            1nat
        } else {
            0nat
        });
        match op_of_id(id2 as u32) {
            Some(op) => Some((op, q + 1)),
            None => code_walk(d, q + 1, id2, k + 1),
        }
    }
}

/// Decodes field paths at bit `q`, starting from the path `st`, until the code of
/// `FieldPathEncodeFinish`. `None` when an operation would leave the seven components or more
/// than `cap` paths would be decoded; `Err` with the bit after the failed code when a code does
/// not complete in 17 bits; otherwise the paths and the bit after the final code.
pub open spec fn decode_paths(st: PathState, d: Seq<u8>, q: int, cap: nat) -> Option<
    Result<(Seq<PathState>, int), int>,
>
    decreases cap,
{
    match code_walk(d, q, 0, 0) {
        None => Some(Err(q + 17)),
        Some(w) => if w.0 == FieldOp::FieldPathEncodeFinish {
            Some(Ok((Seq::empty(), w.1)))
        } else if !fieldop_ok(w.0, st, d, w.1) || cap == 0 {
            None
        } else {
            let r = fieldop_spec(w.0, st, d, w.1);
            match decode_paths(r.0, d, r.1, (cap - 1) as nat) {
                None => None,
                Some(Err(e)) => Some(Err(e)),
                Some(Ok(rest)) => Some(Ok((seq![r.0] + rest.0, rest.1))),
            }
        },
    }
}

/// The decoding that remains after `i` paths of `full`.
pub open spec fn decode_rest(full: Result<(Seq<PathState>, int), int>, i: int) -> Result<
    (Seq<PathState>, int),
    int,
> {
    match full {
        Ok(p) => Ok((p.0.skip(i), p.1)),
        Err(e) => Err(e),
    }
}

/// Reads a list of field paths into `fps` and returns how many were read.
#[verifier::rlimit(60)]
pub fn read_field_paths(br: &mut BitReader, fps: &mut [FieldPath]) -> (res: Result<usize, Error>)
    requires
        old(br).wf(),
        decode_paths(initial_path_state(), old(br).bytes(), old(br).pos(), old(fps)@.len())
            is Some,
    ensures
        ({
            let r = decode_paths(
                initial_path_state(),
                old(br).bytes(),
                old(br).pos(),
                old(fps)@.len(),
            )->0;
            &&& final(fps)@.len() == old(fps)@.len()
            &&& final(br).bytes() == old(br).bytes()
            &&& final(br).wf()
            &&& match r {
                Ok(paths) => {
                    &&& res == Ok::<usize, Error>(paths.0.len() as usize)
                    &&& forall|j: int|
                        0 <= j < paths.0.len() ==> #[trigger] final(fps)@[j].state() == paths.0[j]
                    &&& final(br).pos() == paths.1
                },
                Err(e) => {
                    &&& res == Err::<usize, Error>(Error::ExhaustedMaxOpBits)
                    &&& final(br).pos() == e
                },
            }
        }),
{
    let ghost d = br.bytes();
    let ghost full = decode_paths(initial_path_state(), d, br.pos(), fps@.len())->0;
    let mut fp = FieldPath::default();
    let mut i: usize = 0;
    proof {
        if full is Ok {
            assert(full->Ok_0.0.skip(0) =~= full->Ok_0.0);
        }
    }
    loop
        invariant
            br.wf(),
            br.bytes() == d,
            d == old(br).bytes(),
            full == decode_paths(
                initial_path_state(),
                old(br).bytes(),
                old(br).pos(),
                old(fps)@.len(),
            )->0,
            fp.wf(),
            fps@.len() == old(fps)@.len(),
            i <= fps@.len(),
            decode_paths(fp.state(), d, br.pos(), (fps@.len() - i) as nat) == Some(
                decode_rest(full, i as int),
            ),
            full is Ok ==> i <= full->Ok_0.0.len(),
            full is Ok ==> forall|j: int|
                0 <= j < i ==> #[trigger] fps@[j].state() == full->Ok_0.0[j],
        decreases fps@.len() - i,
    {
        let ghost q0 = br.pos();
        let ghost fp0 = fp;
        let ghost br0 = *br;
        let ghost cap = (fps@.len() - i) as nat;
        let mut id: u32 = 0;
        let mut k: usize = 0;
        let mut stored = false;
        proof {
            vstd::arithmetic::power2::lemma2_to64();
        }
        while k < 17
            invariant_except_break
                br.wf(),
                br.bytes() == d,
                br0.bytes() == d,
                br0.pos() == q0,
                fp == fp0,
                fp0.wf(),
                !stored,
                k <= 17,
                id as nat <= pow2(k as nat) - 1,
                br.pos() == q0 + k,
                code_walk(d, q0, 0, 0) == code_walk(d, br.pos(), id as nat, k as nat),
                decode_paths(fp0.state(), d, q0, cap) == Some(decode_rest(full, i as int)),
                full is Ok ==> i <= full->Ok_0.0.len(),
                full is Ok ==> forall|j: int|
                    0 <= j < i ==> #[trigger] fps@[j].state() == full->Ok_0.0[j],
                full == decode_paths(
                    initial_path_state(),
                    old(br).bytes(),
                    old(br).pos(),
                    old(fps)@.len(),
                )->0,
                d == old(br).bytes(),
                fps@.len() == old(fps)@.len(),
                cap == fps@.len() - i,
            ensures
                br.wf(),
                br.bytes() == d,
                stored ==> code_walk(d, q0, 0, 0) == Some((op_of_id(id)->0, br0.pos() + k)),
                stored ==> op_of_id(id) is Some && op_of_id(id)->0 != FieldOp::FieldPathEncodeFinish,
                stored ==> fp.wf() && fp.state() == fieldop_spec(
                    op_of_id(id)->0,
                    fp0.state(),
                    d,
                    q0 + k,
                ).0 && br.pos() == fieldop_spec(op_of_id(id)->0, fp0.state(), d, q0 + k).1,
                stored ==> fieldop_ok(op_of_id(id)->0, fp0.state(), d, br0.pos() + k),
                !stored ==> code_walk(d, q0, 0, 0) is None && br.pos() == q0 + 17 && fp == fp0,
            decreases 17 - k,
        {
            let ghost id_old = id;
            let ghost pos_old = br.pos();
            let b = br.read_bool();
            proof {
                vstd::arithmetic::power2::lemma2_to64();
                vstd::arithmetic::power2::lemma_pow2_unfold((k + 1) as nat);
                if k < 16 {
                    vstd::arithmetic::power2::lemma_pow2_strictly_increases(k as nat, 16);
                }
                assert(id < 0x1_0000);
            }
            let bit: u32 = if b {
                1
            } else {
                0
            };
            proof {
                assert((id << 1u32) | bit == 2 * id + bit) by (bit_vector)
                    requires
                        id < 0x1_0000,
                        bit <= 1,
                ;
            }
            id = (id << 1u32) | bit;
            k = k + 1;
            proof {
                assert(code_walk(d, pos_old, id_old as nat, (k - 1) as nat) == (match op_of_id(
                    id,
                ) {
                    Some(op) => Some((op, pos_old + 1)),
                    None => code_walk(d, pos_old + 1, id as nat, k as nat),
                }));
            }
            if id == 0b10 {
                proof {
                    assert(full->Ok_0.0.skip(i as int) =~= Seq::<PathState>::empty());
                    assert(full->Ok_0.0 =~= full->Ok_0.0.subrange(0, i as int));
                }
                return Ok(i);
            }
            if fp.exec_op(id, br) {
                stored = true;
                break;
            }
        }
        if !stored {
            return Err(Error::ExhaustedMaxOpBits);
        }
        proof {
            let op = op_of_id(id)->0;
            let r = fieldop_spec(op, fp0.state(), d, q0 + k);
            assert(r.0 == fp.state());
            assert(r.1 == br.pos());
            let rest = decode_paths(r.0, d, r.1, (cap - 1) as nat);
            assert(cap != 0);
            assert(decode_paths(fp0.state(), d, q0, cap) == match rest {
                None => None,
                Some(Err(e)) => Some(Err(e)),
                Some(Ok(rest)) => Some(Ok((seq![r.0] + rest.0, rest.1))),
            });
            if full is Ok {
                let p = full->Ok_0;
                let rr = rest->0->Ok_0;
                assert(p.0.skip(i as int) == seq![r.0] + rr.0);
                assert(p.0.skip(i as int)[0] == fp.state());
                assert(p.0.skip(i as int).skip(1) =~= p.0.skip(i + 1));
                assert(p.0.skip(i + 1) =~= rr.0);
            }
        }
        fps[i] = fp;
        i = i + 1;
    }
}

} // verus!
