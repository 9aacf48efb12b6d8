//! The decoded serializers message of a send-tables command, as plain values: symbols, fields
//! that name symbols by index, and serializers that list fields by index; and what building
//! serializers from it needs of any field type (names looked up by hash, the first serializer
//! that lists a field).

use crate::haste_base::fxhash::hash_u8;
use crate::haste_core::fxhash::fx_hash_bytes;
use vstd::prelude::*;
use vstd::string::StringSliceAdditionalSpecFns;
use vstd::utf8::encode_utf8;

verus! {

/// A field as the serializers message gives it: its names are indices into the message's
/// symbols.
#[derive(Debug, Clone, Copy, PartialEq, Eq, Structural)]
pub struct ProtoFlattenedSerializerField {
    pub var_type_sym: Option<i32>,
    pub var_name_sym: Option<i32>,
    pub bit_count: Option<i32>,
    pub encode_flags: Option<i32>,
    pub field_serializer_name_sym: Option<i32>,
    pub var_encoder_sym: Option<i32>,
    /// Whether the field's encoding settings (bit count, range, encode flags) admit the decoder
    /// that its type calls for, where that decoder is built from them. The range is floating
    /// point, so this is judged where the message is decoded.
    pub decoder_builds: bool,
}

/// A serializer as the serializers message gives it: its name, and its fields as indices into
/// the message's fields.
pub struct ProtoFlattenedSerializer {
    pub serializer_name_sym: Option<i32>,
    pub serializer_version: Option<i32>,
    pub fields_index: Vec<i32>,
}

/// The decoded serializers message of a send-tables command.
pub struct FlattenedSerializerMsg {
    pub symbols: Vec<String>,
    pub fields: Vec<ProtoFlattenedSerializerField>,
    pub serializers: Vec<ProtoFlattenedSerializer>,
}


/// `v` names a symbol of the message.
pub open spec fn sym_ok(msg: &FlattenedSerializerMsg, v: i32) -> bool {
    0 <= v < msg.symbols@.len()
}

/// The text of symbol `v`.
pub open spec fn sym_text(msg: &FlattenedSerializerMsg, v: i32) -> Seq<char> {
    msg.symbols@[v as int]@
}

/// The FxHash of the bytes of symbol `v`.
pub open spec fn sym_hash(msg: &FlattenedSerializerMsg, v: i32) -> u64 {
    fx_hash_bytes(encode_utf8(sym_text(msg, v)))
}

/// The FxHash of the symbol that `o` names, if it names one.
pub open spec fn opt_sym_hash(msg: &FlattenedSerializerMsg, o: Option<i32>) -> Option<u64> {
    match o {
        Some(v) => Some(sym_hash(msg, v)),
        None => None,
    }
}

/// The declared type of message field `v`, as text.
pub open spec fn var_type_text(msg: &FlattenedSerializerMsg, v: i32) -> Seq<char> {
    sym_text(msg, msg.fields@[v as int].var_type_sym->0)
}


/// The serializer that `names` gives for the hash `h`: that of its last entry with hash `h`.
pub open spec fn lookup(names: Seq<(u64, usize)>, h: u64) -> Option<usize>
    decreases names.len(),
{
    if names.len() == 0 {
        None
    } else if names.last().0 == h {
        Some(names.last().1)
    } else {
        lookup(names.drop_last(), h)
    }
}


/// Field `j2` of serializer `k2` comes before field `j` of serializer `k` in the order in which
/// a build visits the listed fields.
pub open spec fn listed_before(k2: int, j2: int, k: int, j: int) -> bool {
    k2 < k || (k2 == k && j2 < j)
}

/// A name hash gives the serializer of the last entry with that hash, and no serializer when no
/// entry has it.
pub proof fn lemma_lookup_is_last(names: Seq<(u64, usize)>, h: u64)
    ensures
        match lookup(names, h) {
            Some(a) => exists|k: int|
                0 <= k < names.len() && #[trigger] names[k] == (h, a) && forall|k2: int|
                    k < k2 < names.len() ==> (#[trigger] names[k2]).0 != h,
            None => forall|k: int| 0 <= k < names.len() ==> (#[trigger] names[k]).0 != h,
        },
    decreases names.len(),
{
    if names.len() > 0 {
        let last = names.len() - 1;
        assert(names.last() == names[last]);
        if names[last].0 != h {
            let init = names.drop_last();
            lemma_lookup_is_last(init, h);
            match lookup(init, h) {
                Some(a) => {
                    let k = choose|k: int|
                        0 <= k < init.len() && #[trigger] init[k] == (h, a) && forall|k2: int|
                            k < k2 < init.len() ==> (#[trigger] init[k2]).0 != h;
                    assert(names[k] == init[k]);
                    assert forall|k2: int| k < k2 < names.len() implies (#[trigger] names[k2]).0 != h by {
                        if k2 < last {
                            assert(names[k2] == init[k2]);
                        }
                    }
                },
                None => {
                    assert forall|k: int| 0 <= k < names.len() implies (#[trigger] names[k]).0 != h by {
                        if k < last {
                            assert(names[k] == init[k]);
                        }
                    }
                },
            }
        } else {
            assert(names[last] == (h, names[last].1));
        }
    }
}

/// Every serializer that `names` gives is an index of `t`.
pub open spec fn names_in(names: Seq<(u64, usize)>, len: int) -> bool {
    forall|k: int| 0 <= k < names.len() ==> (#[trigger] names[k]).1 < len
}

/// `b` starts with `a`.
pub open spec fn extends<A>(a: Seq<A>, b: Seq<A>) -> bool {
    &&& a.len() <= b.len()
    &&& forall|i: int| 0 <= i < a.len() ==> #[trigger] b[i] == a[i]
}

pub(crate) proof fn lemma_lookup_in(names: Seq<(u64, usize)>, h: u64, len: int)
    requires
        names_in(names, len),
    ensures
        lookup(names, h) matches Some(b) ==> b < len,
    decreases names.len(),
{
    if names.len() > 0 {
        assert(names.last() == names[names.len() - 1]);
        lemma_lookup_in(names.drop_last(), h, len);
    }
}


/// The FxHash of the bytes of symbol `v`.
pub(crate) fn symbol_hash(msg: &FlattenedSerializerMsg, v: i32) -> (r: u64)
    requires
        sym_ok(msg, v),
    ensures
        r == sym_hash(msg, v),
{
    hash_u8(msg.symbols[v as usize].as_str().as_bytes())
}

/// The FxHash of the symbol that `o` names, if it names one.
pub(crate) fn opt_symbol_hash(msg: &FlattenedSerializerMsg, o: Option<i32>) -> (r: Option<u64>)
    requires
        o matches Some(v) ==> sym_ok(msg, v),
    ensures
        r == opt_sym_hash(msg, o),
{
    match o {
        Some(v) => Some(symbol_hash(msg, v)),
        None => None,
    }
}


/// Serializer `k` of the message lists field `v`.
pub open spec fn uses(msg: &FlattenedSerializerMsg, k: int, v: i32) -> bool {
    msg.serializers@[k].fields_index@.contains(v)
}

/// A serializer before the `k`-th lists field `v`.
pub open spec fn used_before(msg: &FlattenedSerializerMsg, v: i32, k: int) -> bool {
    exists|k2: int| 0 <= k2 < k && #[trigger] uses(msg, k2, v)
}

/// The first serializer of the message that lists field `v`.
pub open spec fn first_use(msg: &FlattenedSerializerMsg, v: i32) -> int {
    choose|k: int| 0 <= k < msg.serializers@.len() && uses(msg, k, v) && !used_before(msg, v, k)
}

/// A field listed by serializer `k` is first listed by serializer `first_use` or an earlier one.
pub(crate) proof fn lemma_first_use(msg: &FlattenedSerializerMsg, v: i32, k: int)
    requires
        0 <= k < msg.serializers@.len(),
        uses(msg, k, v),
    ensures
        0 <= first_use(msg, v) <= k,
        uses(msg, first_use(msg, v), v),
        !used_before(msg, v, first_use(msg, v)),
    decreases k,
{
    if used_before(msg, v, k) {
        let k2 = choose|k2: int| 0 <= k2 < k && #[trigger] uses(msg, k2, v);
        lemma_first_use(msg, v, k2);
    } else {
        let f = first_use(msg, v);
        if f > k {
            assert(used_before(msg, v, f));
        }
    }
}


/// Listed before serializer `k + 1`: listed before serializer `k`, or by it.
pub(crate) proof fn lemma_used_before_step(msg: &FlattenedSerializerMsg, v: i32, k: int)
    requires
        0 <= k,
    ensures
        used_before(msg, v, k + 1) <==> (used_before(msg, v, k) || uses(msg, k, v)),
{
    if used_before(msg, v, k + 1) {
        let k2 = choose|k2: int| 0 <= k2 < k + 1 && #[trigger] uses(msg, k2, v);
        if k2 < k {
            assert(used_before(msg, v, k));
        }
    }
    if used_before(msg, v, k) {
        let k2 = choose|k2: int| 0 <= k2 < k && #[trigger] uses(msg, k2, v);
        assert(0 <= k2 < k + 1 && uses(msg, k2, v));
    }
}

/// The first `j + 1` items hold `x` when the first `j` do or item `j` is `x`.
pub(crate) proof fn lemma_prefix_contains_step(s: Seq<i32>, j: int, x: i32)
    requires
        0 <= j < s.len(),
    ensures
        s.subrange(0, j + 1).contains(x) <==> (s.subrange(0, j).contains(x) || s[j] == x),
{
    let a = s.subrange(0, j);
    let b = s.subrange(0, j + 1);
    if b.contains(x) {
        let i = choose|i: int| 0 <= i < b.len() && b[i] == x;
        if i < j {
            assert(a[i] == x);
        }
    }
    if a.contains(x) {
        let i = choose|i: int| 0 <= i < a.len() && a[i] == x;
        assert(b[i] == x);
    }
    if s[j] == x {
        assert(b[j] == x);
    }
}

} // verus!
