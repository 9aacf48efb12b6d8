//! The field path operations on paths of 32 bit components (the same operations as
//! [`crate::haste_core::fieldops`], with components that wrap around at `2^32`).

use crate::haste_common::bits::bit_at;
use crate::haste_core::fieldops::{
    rd_bits, rd_delta, rd_fp, rd_var, rd_varint, FieldOp, NonTopoDelta, FIELD_PATH_LEN,
};
use vstd::prelude::*;

verus! {

/// Components (32 bit integers) and the index of the last one in use.
pub type PathState32 = (Seq<i32>, int);

/// A path state is well formed: seven components, `last` inside them, zeros after `last`.
pub open spec fn path_wf32(st: PathState32) -> bool {
    &&& st.0.len() == FIELD_PATH_LEN
    &&& 0 <= st.1 < FIELD_PATH_LEN
    &&& forall|i: int| st.1 < i < FIELD_PATH_LEN ==> #[trigger] st.0[i] == 0i32
}

/// An integer reduced to a 32 bit two's complement component (modulo `2^32`).
pub open spec fn wrap_i32(x: int) -> i32 {
    ((x + 0x8000_0000) % 0x1_0000_0000 - 0x8000_0000) as i32
}

/// Adds `v` to component `i`.
pub open spec fn st_inc_at32(st: PathState32, i: int, v: int) -> PathState32 {
    (st.0.update(i, wrap_i32(st.0[i] + v)), st.1)
}

/// Adds `v` to the last component.
pub open spec fn st_inc_last32(st: PathState32, v: int) -> PathState32 {
    st_inc_at32(st, st.1, v)
}

/// Appends a component of value `v`.
pub open spec fn st_push32(st: PathState32, v: int) -> PathState32 {
    (st.0.update(st.1 + 1, wrap_i32(v)), st.1 + 1)
}

/// Drops the last `n` components (setting them to zero).
pub open spec fn st_pop32(st: PathState32, n: nat) -> PathState32
    decreases n,
{
    if n == 0 {
        st
    } else {
        st_pop32((st.0.update(st.1, 0i32), st.1 - 1), (n - 1) as nat)
    }
}

/// Pushes `k` components, each read as a field path `UBitVarFP`.
pub open spec fn push_fp_values32(st: PathState32, k: nat, d: Seq<u8>, q: int) -> (PathState32, int)
    decreases k,
{
    if k == 0 {
        (st, q)
    } else {
        let v = rd_fp(d, q);
        push_fp_values32(st_push32(st, v.0), (k - 1) as nat, d, q + v.1)
    }
}

/// For components `i..=last`: a flag bit; when it is set, an increment follows for that
/// component.
pub open spec fn non_topo_from32(st: PathState32, i: int, mode: NonTopoDelta, d: Seq<u8>, q: int) -> (
    PathState32,
    int,
)
    decreases st.1 + 1 - i,
{
    if i > st.1 || i < 0 {
        (st, q)
    } else if bit_at(d, q) {
        let r = rd_delta(mode, d, q + 1);
        non_topo_from32(st_inc_at32(st, i, r.0), i + 1, mode, d, q + 1 + r.1)
    } else {
        non_topo_from32(st, i + 1, mode, d, q + 1)
    }
}

/// The path state and bit position after the operation `op` at bit `q`.
pub open spec fn fieldop_spec32(op: FieldOp, st: PathState32, d: Seq<u8>, q: int) -> (PathState32, int) {
    let fp1 = rd_fp(d, q);
    let fp2 = rd_fp(d, q + fp1.1);
    let fp3 = rd_fp(d, q + fp1.1 + fp2.1);
    let var1 = rd_var(d, q);
    let var1_fp2 = rd_fp(d, q + var1.1);
    let var1_fp3 = rd_fp(d, q + var1.1 + var1_fp2.1);
    let var1_fp4 = rd_fp(d, q + var1.1 + var1_fp2.1 + var1_fp3.1);
    match op {
        FieldOp::PlusOne => (st_inc_last32(st, 1), q),
        FieldOp::PlusTwo => (st_inc_last32(st, 2), q),
        FieldOp::PlusThree => (st_inc_last32(st, 3), q),
        FieldOp::PlusFour => (st_inc_last32(st, 4), q),
        FieldOp::PlusN => (st_inc_last32(st, fp1.0 + 5), q + fp1.1),
        FieldOp::PushOneLeftDeltaZeroRightZero => (st_push32(st, 0), q),
        FieldOp::PushOneLeftDeltaZeroRightNonZero => (st_push32(st, fp1.0), q + fp1.1),
        FieldOp::PushOneLeftDeltaOneRightZero => (st_push32(st_inc_last32(st, 1), 0), q),
        FieldOp::PushOneLeftDeltaOneRightNonZero => (
            st_push32(st_inc_last32(st, 1), fp1.0),
            q + fp1.1,
        ),
        FieldOp::PushOneLeftDeltaNRightZero => (st_push32(st_inc_last32(st, fp1.0), 0), q + fp1.1),
        FieldOp::PushOneLeftDeltaNRightNonZero => (
            st_push32(st_inc_last32(st, fp1.0 + 2), fp2.0 + 1),
            q + fp1.1 + fp2.1,
        ),
        FieldOp::PushOneLeftDeltaNRightNonZeroPack6Bits => (
            st_push32(st_inc_last32(st, rd_bits(d, q, 3) + 2), rd_bits(d, q + 3, 3) + 1),
            q + 6,
        ),
        FieldOp::PushOneLeftDeltaNRightNonZeroPack8Bits => (
            st_push32(st_inc_last32(st, rd_bits(d, q, 4) + 2), rd_bits(d, q + 4, 4) + 1),
            q + 8,
        ),
        FieldOp::PushTwoLeftDeltaZero => (
            st_push32(st_push32(st, fp1.0), fp2.0),
            q + fp1.1 + fp2.1,
        ),
        FieldOp::PushTwoPack5LeftDeltaZero => (
            st_push32(st_push32(st, rd_bits(d, q, 5)), rd_bits(d, q + 5, 5)),
            q + 10,
        ),
        FieldOp::PushThreeLeftDeltaZero => (
            st_push32(st_push32(st_push32(st, fp1.0), fp2.0), fp3.0),
            q + fp1.1 + fp2.1 + fp3.1,
        ),
        FieldOp::PushThreePack5LeftDeltaZero => (
            st_push32(
                st_push32(st_push32(st, rd_bits(d, q, 5)), rd_bits(d, q + 5, 5)),
                rd_bits(d, q + 10, 5),
            ),
            q + 15,
        ),
        FieldOp::PushTwoLeftDeltaOne => (
            st_push32(st_push32(st_inc_last32(st, 1), fp1.0), fp2.0),
            q + fp1.1 + fp2.1,
        ),
        FieldOp::PushTwoPack5LeftDeltaOne => (
            st_push32(
                st_push32(st_inc_last32(st, 1), rd_bits(d, q, 5)),
                rd_bits(d, q + 5, 5),
            ),
            q + 10,
        ),
        FieldOp::PushThreeLeftDeltaOne => (
            st_push32(st_push32(st_push32(st_inc_last32(st, 1), fp1.0), fp2.0), fp3.0),
            q + fp1.1 + fp2.1 + fp3.1,
        ),
        FieldOp::PushThreePack5LeftDeltaOne => (
            st_push32(
                st_push32(
                    st_push32(st_inc_last32(st, 1), rd_bits(d, q, 5)),
                    rd_bits(d, q + 5, 5),
                ),
                rd_bits(d, q + 10, 5),
            ),
            q + 15,
        ),
        FieldOp::PushTwoLeftDeltaN => (
            st_push32(st_push32(st_inc_last32(st, var1.0 + 2), var1_fp2.0), var1_fp3.0),
            q + var1.1 + var1_fp2.1 + var1_fp3.1,
        ),
        FieldOp::PushTwoPack5LeftDeltaN => (
            st_push32(
                st_push32(st_inc_last32(st, var1.0 + 2), rd_bits(d, q + var1.1, 5)),
                rd_bits(d, q + var1.1 + 5, 5),
            ),
            q + var1.1 + 10,
        ),
        FieldOp::PushThreeLeftDeltaN => (
            st_push32(
                st_push32(st_push32(st_inc_last32(st, var1.0 + 2), var1_fp2.0), var1_fp3.0),
                var1_fp4.0,
            ),
            q + var1.1 + var1_fp2.1 + var1_fp3.1 + var1_fp4.1,
        ),
        FieldOp::PushThreePack5LeftDeltaN => (
            st_push32(
                st_push32(
                    st_push32(st_inc_last32(st, var1.0 + 2), rd_bits(d, q + var1.1, 5)),
                    rd_bits(d, q + var1.1 + 5, 5),
                ),
                rd_bits(d, q + var1.1 + 10, 5),
            ),
            q + var1.1 + 15,
        ),
        FieldOp::PushN => {
            let inc = rd_var(d, q + var1.1);
            push_fp_values32(st_inc_last32(st, inc.0), var1.0 as nat, d, q + var1.1 + inc.1)
        },
        FieldOp::PushNAndNonTopographical => {
            let nt = non_topo_from32(st, 0, NonTopoDelta::VarintPlusOne, d, q);
            let n = rd_var(d, nt.1);
            push_fp_values32(nt.0, n.0 as nat, d, nt.1 + n.1)
        },
        FieldOp::PopOnePlusOne => (st_inc_last32(st_pop32(st, 1), 1), q),
        FieldOp::PopOnePlusN => (st_inc_last32(st_pop32(st, 1), fp1.0 + 1), q + fp1.1),
        FieldOp::PopAllButOnePlusOne => (st_inc_last32(st_pop32(st, st.1 as nat), 1), q),
        FieldOp::PopAllButOnePlusN => (
            st_inc_last32(st_pop32(st, st.1 as nat), fp1.0 + 1),
            q + fp1.1,
        ),
        FieldOp::PopAllButOnePlusNPack3Bits => (
            st_inc_last32(st_pop32(st, st.1 as nat), rd_bits(d, q, 3) + 1),
            q + 3,
        ),
        FieldOp::PopAllButOnePlusNPack6Bits => (
            st_inc_last32(st_pop32(st, st.1 as nat), rd_bits(d, q, 6) + 1),
            q + 6,
        ),
        FieldOp::PopNPlusOne => (st_inc_last32(st_pop32(st, fp1.0 as nat), 1), q + fp1.1),
        FieldOp::PopNPlusN => {
            let v = rd_varint(d, q + fp1.1);
            (st_inc_last32(st_pop32(st, fp1.0 as nat), v.0), q + fp1.1 + v.1)
        },
        FieldOp::PopNAndNonTopographical => non_topo_from32(
            st_pop32(st, fp1.0 as nat),
            0,
            NonTopoDelta::Varint,
            d,
            q + fp1.1,
        ),
        FieldOp::NonTopoComplex => non_topo_from32(st, 0, NonTopoDelta::Varint, d, q),
        FieldOp::NonTopoPenultimatePlusOne => (st_inc_at32(st, st.1 - 1, 1), q),
        FieldOp::NonTopoComplexPack4Bits => non_topo_from32(st, 0, NonTopoDelta::Pack4Bits, d, q),
        FieldOp::FieldPathEncodeFinish => (st, q),
    }
}

/// `op` at bit `q` stays inside the seven components: it pushes no component past the last
/// one and pops no more components than there are after the first.
pub open spec fn fieldop_ok32(op: FieldOp, st: PathState32, d: Seq<u8>, q: int) -> bool {
    let fp1 = rd_fp(d, q);
    let var1 = rd_var(d, q);
    match op {
        FieldOp::PushOneLeftDeltaZeroRightZero
        | FieldOp::PushOneLeftDeltaZeroRightNonZero
        | FieldOp::PushOneLeftDeltaOneRightZero
        | FieldOp::PushOneLeftDeltaOneRightNonZero
        | FieldOp::PushOneLeftDeltaNRightZero
        | FieldOp::PushOneLeftDeltaNRightNonZero
        | FieldOp::PushOneLeftDeltaNRightNonZeroPack6Bits
        | FieldOp::PushOneLeftDeltaNRightNonZeroPack8Bits => st.1 + 1 < FIELD_PATH_LEN,
        FieldOp::PushTwoLeftDeltaZero
        | FieldOp::PushTwoPack5LeftDeltaZero
        | FieldOp::PushTwoLeftDeltaOne
        | FieldOp::PushTwoPack5LeftDeltaOne
        | FieldOp::PushTwoLeftDeltaN
        | FieldOp::PushTwoPack5LeftDeltaN => st.1 + 2 < FIELD_PATH_LEN,
        FieldOp::PushThreeLeftDeltaZero
        | FieldOp::PushThreePack5LeftDeltaZero
        | FieldOp::PushThreeLeftDeltaOne
        | FieldOp::PushThreePack5LeftDeltaOne
        | FieldOp::PushThreeLeftDeltaN
        | FieldOp::PushThreePack5LeftDeltaN => st.1 + 3 < FIELD_PATH_LEN,
        FieldOp::PushN => st.1 + var1.0 < FIELD_PATH_LEN,
        FieldOp::PushNAndNonTopographical => {
            let nt = non_topo_from32(st, 0, NonTopoDelta::VarintPlusOne, d, q);
            st.1 + rd_var(d, nt.1).0 < FIELD_PATH_LEN
        },
        FieldOp::PopOnePlusOne | FieldOp::PopOnePlusN => st.1 >= 1,
        FieldOp::PopNPlusOne | FieldOp::PopNPlusN | FieldOp::PopNAndNonTopographical => fp1.0
            <= st.1,
        FieldOp::NonTopoPenultimatePlusOne => st.1 >= 1,
        _ => true,
    }
}


/// Non-topological operations change no path length.
pub proof fn lemma_non_topo32_keeps_last(
    st: PathState32,
    i: int,
    mode: NonTopoDelta,
    d: Seq<u8>,
    q: int,
)
    ensures
        (non_topo_from32(st, i, mode, d, q).0).1 == st.1,
    decreases st.1 + 1 - i,
{
    if i > st.1 || i < 0 {
    } else if bit_at(d, q) {
        let r = rd_delta(mode, d, q + 1);
        lemma_non_topo32_keeps_last(st_inc_at32(st, i, r.0), i + 1, mode, d, q + 1 + r.1);
    } else {
        lemma_non_topo32_keeps_last(st, i + 1, mode, d, q + 1);
    }
}

/// Pushing a component and then popping one gives the path back.
pub proof fn lemma_pop_undoes_push32(st: PathState32, v: int)
    requires
        path_wf32(st),
        st.1 + 1 < FIELD_PATH_LEN,
    ensures
        st_pop32(st_push32(st, v), 1) == st,
{
    let pushed = st_push32(st, v);
    assert(st_pop32(pushed, 1) == st_pop32((pushed.0.update(pushed.1, 0i32), pushed.1 - 1), 0));
    assert(pushed.0.update(pushed.1, 0i32) =~= st.0);
}

/// Adding to a component in use keeps a path well formed.
proof fn lemma_inc_keeps_wf32(st: PathState32, i: int, v: int)
    requires
        path_wf32(st),
        0 <= i <= st.1,
    ensures
        path_wf32(st_inc_at32(st, i, v)),
        st_inc_at32(st, i, v).1 == st.1,
{
}

/// Pushing a component where there is room keeps a path well formed.
proof fn lemma_push_keeps_wf32(st: PathState32, v: int)
    requires
        path_wf32(st),
        st.1 + 1 < FIELD_PATH_LEN,
    ensures
        path_wf32(st_push32(st, v)),
        st_push32(st, v).1 == st.1 + 1,
{
}

/// Popping at most all components but the first keeps a path well formed.
proof fn lemma_pop_keeps_wf32(st: PathState32, n: nat)
    requires
        path_wf32(st),
        n <= st.1,
    ensures
        path_wf32(st_pop32(st, n)),
        st_pop32(st, n).1 == st.1 - n,
    decreases n,
{
    if n > 0 {
        let next = (st.0.update(st.1, 0i32), st.1 - 1);
        assert(path_wf32(next));
        lemma_pop_keeps_wf32(next, (n - 1) as nat);
    }
}

/// Pushing `k` components where there is room for them keeps a path well formed.
proof fn lemma_push_fp_keeps_wf32(st: PathState32, k: nat, d: Seq<u8>, q: int)
    requires
        path_wf32(st),
        st.1 + k < FIELD_PATH_LEN,
    ensures
        path_wf32(push_fp_values32(st, k, d, q).0),
    decreases k,
{
    if k > 0 {
        let v = rd_fp(d, q);
        lemma_push_keeps_wf32(st, v.0);
        lemma_push_fp_keeps_wf32(st_push32(st, v.0), (k - 1) as nat, d, q + v.1);
    }
}

/// Non-topological operations keep a path well formed.
proof fn lemma_non_topo_keeps_wf32(st: PathState32, i: int, mode: NonTopoDelta, d: Seq<u8>, q: int)
    requires
        path_wf32(st),
    ensures
        path_wf32(non_topo_from32(st, i, mode, d, q).0),
    decreases st.1 + 1 - i,
{
    if i > st.1 || i < 0 {
    } else if bit_at(d, q) {
        let r = rd_delta(mode, d, q + 1);
        lemma_inc_keeps_wf32(st, i, r.0);
        lemma_non_topo_keeps_wf32(st_inc_at32(st, i, r.0), i + 1, mode, d, q + 1 + r.1);
    } else {
        lemma_non_topo_keeps_wf32(st, i + 1, mode, d, q + 1);
    }
}

/// Every field path operation keeps a well-formed path well formed: at most seven 32 bit
/// components in use, the unused ones zero.
pub proof fn lemma_fieldop_keeps_wf32(op: FieldOp, st: PathState32, d: Seq<u8>, q: int)
    requires
        path_wf32(st),
        fieldop_ok32(op, st, d, q),
    ensures
        path_wf32(fieldop_spec32(op, st, d, q).0),
{
    let fp1 = rd_fp(d, q);
    let fp2 = rd_fp(d, q + fp1.1);
    let var1 = rd_var(d, q);
    let var1_fp2 = rd_fp(d, q + var1.1);
    let var1_fp3 = rd_fp(d, q + var1.1 + var1_fp2.1);
    let last = st.1;
    assert forall|v: int| path_wf32(#[trigger] st_inc_last32(st, v)) && st_inc_last32(st, v).1 == last by {
        lemma_inc_keeps_wf32(st, last, v);
    }
    assert forall|v: int, w: int| last + 1 < FIELD_PATH_LEN ==> path_wf32(
        #[trigger] st_push32(st_inc_last32(st, v), w),
    ) && st_push32(st_inc_last32(st, v), w).1 == last + 1 by {
        if last + 1 < FIELD_PATH_LEN {
            lemma_push_keeps_wf32(st_inc_last32(st, v), w);
        }
    }
    assert forall|w: int| last + 1 < FIELD_PATH_LEN ==> path_wf32(#[trigger] st_push32(st, w))
        && st_push32(st, w).1 == last + 1 by {
        if last + 1 < FIELD_PATH_LEN {
            lemma_push_keeps_wf32(st, w);
        }
    }
    assert forall|p: PathState32, w: int| path_wf32(p) && p.1 + 1 < FIELD_PATH_LEN ==> path_wf32(
        #[trigger] st_push32(p, w),
    ) && st_push32(p, w).1 == p.1 + 1 by {
        if path_wf32(p) && p.1 + 1 < FIELD_PATH_LEN {
            lemma_push_keeps_wf32(p, w);
        }
    }
    assert forall|n: nat, v: int| n <= last ==> path_wf32(#[trigger] st_inc_last32(st_pop32(st, n), v)) by {
        if n <= last {
            lemma_pop_keeps_wf32(st, n);
            lemma_inc_keeps_wf32(st_pop32(st, n), last - n, v);
        }
    }
    match op {
        FieldOp::PushN => {
            let inc = rd_var(d, q + var1.1);
            lemma_push_fp_keeps_wf32(st_inc_last32(st, inc.0), var1.0 as nat, d, q + var1.1 + inc.1);
        },
        FieldOp::PushNAndNonTopographical => {
            let nt = non_topo_from32(st, 0, NonTopoDelta::VarintPlusOne, d, q);
            lemma_non_topo_keeps_wf32(st, 0, NonTopoDelta::VarintPlusOne, d, q);
            lemma_non_topo32_keeps_last(st, 0, NonTopoDelta::VarintPlusOne, d, q);
            let n = rd_var(d, nt.1);
            lemma_push_fp_keeps_wf32(nt.0, n.0 as nat, d, nt.1 + n.1);
        },
        FieldOp::PopNAndNonTopographical => {
            lemma_pop_keeps_wf32(st, fp1.0 as nat);
            lemma_non_topo_keeps_wf32(st_pop32(st, fp1.0 as nat), 0, NonTopoDelta::Varint, d, q + fp1.1);
        },
        FieldOp::NonTopoComplex => {
            lemma_non_topo_keeps_wf32(st, 0, NonTopoDelta::Varint, d, q);
        },
        FieldOp::NonTopoComplexPack4Bits => {
            lemma_non_topo_keeps_wf32(st, 0, NonTopoDelta::Pack4Bits, d, q);
        },
        FieldOp::NonTopoPenultimatePlusOne => {
            lemma_inc_keeps_wf32(st, last - 1, 1);
        },
        _ => {},
    }
}

/// `new` is `old` with its last `pops` components dropped, `delta` added to the component
/// that is then last, and the values `pushed` (at most three) appended after it, each reduced
/// to a component; every component past the new last one is zero.
pub open spec fn moved32(old: PathState32, new: PathState32, pops: int, delta: int, pushed: Seq<int>) -> bool {
    let base = old.1 - pops;
    &&& new.0.len() == FIELD_PATH_LEN
    &&& new.1 == base + pushed.len()
    &&& forall|i: int| 0 <= i < base ==> #[trigger] new.0[i] == old.0[i]
    &&& new.0[base] == wrap_i32(old.0[base] + delta)
    &&& pushed.len() > 0 ==> new.0[base + 1] == wrap_i32(pushed[0])
    &&& pushed.len() > 1 ==> new.0[base + 2] == wrap_i32(pushed[1])
    &&& pushed.len() > 2 ==> new.0[base + 3] == wrap_i32(pushed[2])
    &&& forall|i: int| new.1 < i < FIELD_PATH_LEN ==> #[trigger] new.0[i] == 0
}

/// What each operation does to a path, read off its name: `PlusK` adds `K` to the last
/// component; `PushK` appends `K` components after adding the left delta (zero, one, or a read
/// number plus two) to the last one; `PopK` drops components and adds to the one then last;
/// `Pack` variants read fixed-width numbers instead of variable-width ones. `r` is the new
/// path and bit position.
pub open spec fn op_meaning32(op: FieldOp, st: PathState32, d: Seq<u8>, q: int, r: (PathState32, int)) -> bool {
    let new = r.0;
    let a = rd_fp(d, q);
    let b = rd_fp(d, q + a.1);
    let c = rd_fp(d, q + a.1 + b.1);
    let v = rd_var(d, q);
    let va = rd_fp(d, q + v.1);
    let vb = rd_fp(d, q + v.1 + va.1);
    let vc = rd_fp(d, q + v.1 + va.1 + vb.1);
    match op {
        FieldOp::PlusOne => moved32(st, new, 0, 1, seq![]) && r.1 == q,
        FieldOp::PlusTwo => moved32(st, new, 0, 2, seq![]) && r.1 == q,
        FieldOp::PlusThree => moved32(st, new, 0, 3, seq![]) && r.1 == q,
        FieldOp::PlusFour => moved32(st, new, 0, 4, seq![]) && r.1 == q,
        FieldOp::PlusN => moved32(st, new, 0, a.0 + 5, seq![]) && r.1 == q + a.1,
        FieldOp::PushOneLeftDeltaZeroRightZero => moved32(st, new, 0, 0, seq![0]) && r.1 == q,
        FieldOp::PushOneLeftDeltaZeroRightNonZero => moved32(st, new, 0, 0, seq![a.0]) && r.1
            == q + a.1,
        FieldOp::PushOneLeftDeltaOneRightZero => moved32(st, new, 0, 1, seq![0]) && r.1 == q,
        FieldOp::PushOneLeftDeltaOneRightNonZero => moved32(st, new, 0, 1, seq![a.0]) && r.1
            == q + a.1,
        FieldOp::PushOneLeftDeltaNRightZero => moved32(st, new, 0, a.0, seq![0]) && r.1 == q
            + a.1,
        FieldOp::PushOneLeftDeltaNRightNonZero => moved32(st, new, 0, a.0 + 2, seq![b.0 + 1])
            && r.1 == q + a.1 + b.1,
        FieldOp::PushOneLeftDeltaNRightNonZeroPack6Bits => moved32(
            st,
            new,
            0,
            rd_bits(d, q, 3) + 2,
            seq![rd_bits(d, q + 3, 3) + 1],
        ) && r.1 == q + 6,
        FieldOp::PushOneLeftDeltaNRightNonZeroPack8Bits => moved32(
            st,
            new,
            0,
            rd_bits(d, q, 4) + 2,
            seq![rd_bits(d, q + 4, 4) + 1],
        ) && r.1 == q + 8,
        FieldOp::PushTwoLeftDeltaZero => moved32(st, new, 0, 0, seq![a.0, b.0]) && r.1 == q
            + a.1 + b.1,
        FieldOp::PushTwoPack5LeftDeltaZero => moved32(
            st,
            new,
            0,
            0,
            seq![rd_bits(d, q, 5), rd_bits(d, q + 5, 5)],
        ) && r.1 == q + 10,
        FieldOp::PushThreeLeftDeltaZero => moved32(st, new, 0, 0, seq![a.0, b.0, c.0]) && r.1
            == q + a.1 + b.1 + c.1,
        FieldOp::PushThreePack5LeftDeltaZero => moved32(
            st,
            new,
            0,
            0,
            seq![rd_bits(d, q, 5), rd_bits(d, q + 5, 5), rd_bits(d, q + 10, 5)],
        ) && r.1 == q + 15,
        FieldOp::PushTwoLeftDeltaOne => moved32(st, new, 0, 1, seq![a.0, b.0]) && r.1 == q
            + a.1 + b.1,
        FieldOp::PushTwoPack5LeftDeltaOne => moved32(
            st,
            new,
            0,
            1,
            seq![rd_bits(d, q, 5), rd_bits(d, q + 5, 5)],
        ) && r.1 == q + 10,
        FieldOp::PushThreeLeftDeltaOne => moved32(st, new, 0, 1, seq![a.0, b.0, c.0]) && r.1
            == q + a.1 + b.1 + c.1,
        FieldOp::PushThreePack5LeftDeltaOne => moved32(
            st,
            new,
            0,
            1,
            seq![rd_bits(d, q, 5), rd_bits(d, q + 5, 5), rd_bits(d, q + 10, 5)],
        ) && r.1 == q + 15,
        FieldOp::PushTwoLeftDeltaN => moved32(st, new, 0, v.0 + 2, seq![va.0, vb.0]) && r.1
            == q + v.1 + va.1 + vb.1,
        FieldOp::PushTwoPack5LeftDeltaN => moved32(
            st,
            new,
            0,
            v.0 + 2,
            seq![rd_bits(d, q + v.1, 5), rd_bits(d, q + v.1 + 5, 5)],
        ) && r.1 == q + v.1 + 10,
        FieldOp::PushThreeLeftDeltaN => moved32(st, new, 0, v.0 + 2, seq![va.0, vb.0, vc.0])
            && r.1 == q + v.1 + va.1 + vb.1 + vc.1,
        FieldOp::PushThreePack5LeftDeltaN => moved32(
            st,
            new,
            0,
            v.0 + 2,
            seq![rd_bits(d, q + v.1, 5), rd_bits(d, q + v.1 + 5, 5), rd_bits(d, q + v.1 + 10, 5)],
        ) && r.1 == q + v.1 + 15,
        FieldOp::PopOnePlusOne => moved32(st, new, 1, 1, seq![]) && r.1 == q,
        FieldOp::PopOnePlusN => moved32(st, new, 1, a.0 + 1, seq![]) && r.1 == q + a.1,
        FieldOp::PopAllButOnePlusOne => moved32(st, new, st.1, 1, seq![]) && r.1 == q,
        FieldOp::PopAllButOnePlusN => moved32(st, new, st.1, a.0 + 1, seq![]) && r.1 == q + a.1,
        FieldOp::PopAllButOnePlusNPack3Bits => moved32(st, new, st.1, rd_bits(d, q, 3) + 1, seq![])
            && r.1 == q + 3,
        FieldOp::PopAllButOnePlusNPack6Bits => moved32(st, new, st.1, rd_bits(d, q, 6) + 1, seq![])
            && r.1 == q + 6,
        FieldOp::PopNPlusOne => moved32(st, new, a.0, 1, seq![]) && r.1 == q + a.1,
        FieldOp::PopNPlusN => moved32(st, new, a.0, rd_varint(d, q + a.1).0, seq![]) && r.1 == q
            + a.1 + rd_varint(d, q + a.1).1,
        FieldOp::NonTopoPenultimatePlusOne => new.1 == st.1 && new.0 == st.0.update(
            st.1 - 1,
            wrap_i32(st.0[st.1 - 1] + 1),
        ) && r.1 == q,
        FieldOp::NonTopoComplex | FieldOp::NonTopoComplexPack4Bits => new.1 == st.1,
        FieldOp::FieldPathEncodeFinish => new == st && r.1 == q,
        _ => true,
    }
}

/// Dropping `n` components keeps those up to the new last one and zeroes the rest.
proof fn lemma_pop_effect32(st: PathState32, n: nat)
    requires
        path_wf32(st),
        n <= st.1,
    ensures
        st_pop32(st, n).1 == st.1 - n,
        st_pop32(st, n).0.len() == FIELD_PATH_LEN,
        forall|i: int| 0 <= i <= st.1 - n ==> #[trigger] st_pop32(st, n).0[i] == st.0[i],
        forall|i: int| st.1 - n < i < FIELD_PATH_LEN ==> #[trigger] st_pop32(st, n).0[i] == 0,
    decreases n,
{
    if n > 0 {
        let next = (st.0.update(st.1, 0), st.1 - 1);
        assert(path_wf32(next));
        lemma_pop_effect32(next, (n - 1) as nat);
    }
}

/// The operations of one family do what their names say.
#[verifier::rlimit(80)]
proof fn lemma_meaning_plus32(op: FieldOp, st: PathState32, d: Seq<u8>, q: int)
    requires
        path_wf32(st),
        fieldop_ok32(op, st, d, q),
        op == FieldOp::PlusOne || op == FieldOp::PlusTwo || op == FieldOp::PlusThree || op == FieldOp::PlusFour || op == FieldOp::PlusN,
    ensures
        op_meaning32(op, st, d, q, fieldop_spec32(op, st, d, q)),
{
}

/// The operations of one family do what their names say.
#[verifier::rlimit(80)]
proof fn lemma_meaning_push_one32(op: FieldOp, st: PathState32, d: Seq<u8>, q: int)
    requires
        path_wf32(st),
        fieldop_ok32(op, st, d, q),
        op == FieldOp::PushOneLeftDeltaZeroRightZero || op == FieldOp::PushOneLeftDeltaZeroRightNonZero || op == FieldOp::PushOneLeftDeltaOneRightZero || op == FieldOp::PushOneLeftDeltaOneRightNonZero || op == FieldOp::PushOneLeftDeltaNRightZero || op == FieldOp::PushOneLeftDeltaNRightNonZero || op == FieldOp::PushOneLeftDeltaNRightNonZeroPack6Bits || op == FieldOp::PushOneLeftDeltaNRightNonZeroPack8Bits,
    ensures
        op_meaning32(op, st, d, q, fieldop_spec32(op, st, d, q)),
{
}

/// The operations of one family do what their names say.
#[verifier::rlimit(80)]
proof fn lemma_meaning_push_two32(op: FieldOp, st: PathState32, d: Seq<u8>, q: int)
    requires
        path_wf32(st),
        fieldop_ok32(op, st, d, q),
        op == FieldOp::PushTwoLeftDeltaZero || op == FieldOp::PushTwoPack5LeftDeltaZero || op == FieldOp::PushTwoLeftDeltaOne || op == FieldOp::PushTwoPack5LeftDeltaOne || op == FieldOp::PushTwoLeftDeltaN || op == FieldOp::PushTwoPack5LeftDeltaN,
    ensures
        op_meaning32(op, st, d, q, fieldop_spec32(op, st, d, q)),
{
}

/// The operations of one family do what their names say.
#[verifier::rlimit(80)]
proof fn lemma_meaning_push_three32(op: FieldOp, st: PathState32, d: Seq<u8>, q: int)
    requires
        path_wf32(st),
        fieldop_ok32(op, st, d, q),
        op == FieldOp::PushThreeLeftDeltaZero || op == FieldOp::PushThreePack5LeftDeltaZero || op == FieldOp::PushThreeLeftDeltaOne || op == FieldOp::PushThreePack5LeftDeltaOne || op == FieldOp::PushThreeLeftDeltaN || op == FieldOp::PushThreePack5LeftDeltaN,
    ensures
        op_meaning32(op, st, d, q, fieldop_spec32(op, st, d, q)),
{
}

/// Every operation does what its name says (see [`op_meaning32`]) to a well formed path it
/// stays inside of.
pub proof fn lemma_fieldop_meaning32(op: FieldOp, st: PathState32, d: Seq<u8>, q: int)
    requires
        path_wf32(st),
        fieldop_ok32(op, st, d, q),
    ensures
        op_meaning32(op, st, d, q, fieldop_spec32(op, st, d, q)),
{
    let a = rd_fp(d, q);
    match op {
        _ if op == FieldOp::PlusOne || op == FieldOp::PlusTwo || op == FieldOp::PlusThree || op == FieldOp::PlusFour || op == FieldOp::PlusN => lemma_meaning_plus32(op, st, d, q),
        _ if op == FieldOp::PushOneLeftDeltaZeroRightZero || op == FieldOp::PushOneLeftDeltaZeroRightNonZero || op == FieldOp::PushOneLeftDeltaOneRightZero || op == FieldOp::PushOneLeftDeltaOneRightNonZero || op == FieldOp::PushOneLeftDeltaNRightZero || op == FieldOp::PushOneLeftDeltaNRightNonZero || op == FieldOp::PushOneLeftDeltaNRightNonZeroPack6Bits || op == FieldOp::PushOneLeftDeltaNRightNonZeroPack8Bits => lemma_meaning_push_one32(op, st, d, q),
        _ if op == FieldOp::PushTwoLeftDeltaZero || op == FieldOp::PushTwoPack5LeftDeltaZero || op == FieldOp::PushTwoLeftDeltaOne || op == FieldOp::PushTwoPack5LeftDeltaOne || op == FieldOp::PushTwoLeftDeltaN || op == FieldOp::PushTwoPack5LeftDeltaN => lemma_meaning_push_two32(op, st, d, q),
        _ if op == FieldOp::PushThreeLeftDeltaZero || op == FieldOp::PushThreePack5LeftDeltaZero || op == FieldOp::PushThreeLeftDeltaOne || op == FieldOp::PushThreePack5LeftDeltaOne || op == FieldOp::PushThreeLeftDeltaN || op == FieldOp::PushThreePack5LeftDeltaN => lemma_meaning_push_three32(op, st, d, q),
        FieldOp::PopOnePlusOne | FieldOp::PopOnePlusN => lemma_pop_effect32(st, 1),
        FieldOp::PopAllButOnePlusOne
        | FieldOp::PopAllButOnePlusN
        | FieldOp::PopAllButOnePlusNPack3Bits
        | FieldOp::PopAllButOnePlusNPack6Bits => lemma_pop_effect32(st, st.1 as nat),
        FieldOp::PopNPlusOne | FieldOp::PopNPlusN => lemma_pop_effect32(st, a.0 as nat),
        FieldOp::NonTopoComplex | FieldOp::NonTopoComplexPack4Bits => {
            lemma_non_topo32_keeps_last(st, 0, NonTopoDelta::Varint, d, q);
            lemma_non_topo32_keeps_last(st, 0, NonTopoDelta::Pack4Bits, d, q);
        },
        _ => {},
    }
}

} // verus!
