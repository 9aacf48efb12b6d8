//! Serializers as a table: each field knows the hash of its name and, for a nested field, the
//! serializer of its own fields (by index); serializers are built from the decoded serializers
//! message of a send-tables command. A field path leads from a serializer down to a field, and
//! the names along it make the field's key.

use crate::haste_base::entities::field_key;
use crate::haste_base::fxhash::Hasher;
use crate::haste_common::varint::{self, read_uvarint32, reads_sixth_byte, uvarint32_at};
use crate::haste_core::fxhash::{fx_add, fx_hash_bytes};
use crate::haste_core::serializersmsg::{
    extends, first_use, lemma_first_use, lemma_lookup_in, lemma_prefix_contains_step,
    lemma_used_before_step, lookup, names_in, opt_sym_hash, opt_symbol_hash, sym_hash, sym_ok,
    symbol_hash, used_before, uses, var_type_text, listed_before,
};
pub use crate::haste_core::serializersmsg::{
    FlattenedSerializerMsg, ProtoFlattenedSerializer, ProtoFlattenedSerializerField,
};
use crate::haste_dota2::fieldmetadata;
use crate::haste_dota2::fieldmetadata::{
    get_field_metadata, lemma_metadata_of_same_decl, metadata_spec, FieldMetadata,
    FieldSpecialDescriptor,
};
use crate::haste_dota2::fieldpath::FieldPath;
use crate::haste_base::fieldmetadata::{built_from_settings, DecoderKind};
use crate::haste_dota2_deflat::var_type::parser::{decl_is, parse_any_spec, parsed_decl};
use crate::haste_dota2_deflat::var_type::Decl;
use vstd::prelude::*;
use vstd::string::StringSliceAdditionalSpecFns;
use vstd::utf8::{encode_utf8, is_ascii_chars};

verus! {

/// A field of a serializer.
#[derive(Debug, Clone, Copy, PartialEq, Eq, Structural)]
pub struct FlattenedSerializerField {
    /// The FxHash of the field's name.
    pub var_name_hash: u64,
    pub bit_count: Option<i32>,
    pub encode_flags: Option<i32>,
    /// The FxHash of the name of the serializer of the field's own fields, where it names one.
    pub field_serializer_name_hash: Option<u64>,
    /// The index of the serializer of the field's own fields, for a nested field.
    pub field_serializer: Option<usize>,
    /// The FxHash of the name of the field's encoder, where it has one.
    pub var_encoder_hash: Option<u64>,
    /// How the field is decoded.
    pub metadata: FieldMetadata,
}

impl FlattenedSerializerField {
    /// Whether the field has an encoder whose name hashes to `var_encoder_hash`.
    pub fn var_encoder_hash_eq(&self, var_encoder_hash: u64) -> (r: bool)
        ensures
            r == (self.var_encoder_hash == Some(var_encoder_hash)),
    {
        match self.var_encoder_hash {
            Some(veh) => veh == var_encoder_hash,
            None => false,
        }
    }

    /// The field at `index` of this field's own serializer.
    pub fn get_child_unchecked(&self, sers: &FlattenedSerializers, index: usize) -> (r: FlattenedSerializerField)
        requires
            self.field_serializer is Some,
            self.field_serializer->0 < table_of(sers).len(),
            index < fields_of(table_of(sers), self.field_serializer->0 as int).len(),
        ensures
            r == fields_of(table_of(sers), self.field_serializer->0 as int)[index as int],
    {
        let s = match self.field_serializer {
            Some(s) => s,
            None => 0,
        };
        sers.serializers[s].get_child_unchecked(index)
    }
}

/// A serializer: the hash of its name (zero for the element serializer of an array) and its
/// fields, in order.
pub struct FlattenedSerializer {
    pub serializer_name_hash: u64,
    pub fields: Vec<FlattenedSerializerField>,
}

impl FlattenedSerializer {
    /// The field at `index`.
    pub fn get_child_unchecked(&self, index: usize) -> (r: FlattenedSerializerField)
        requires
            index < self.fields@.len(),
        ensures
            r == self.fields@[index as int],
    {
        self.fields[index]
    }
}

/// All serializers, by index, and the named ones by the hash of their name: a later entry of
/// `names` with the same hash hides an earlier one.
pub struct FlattenedSerializers {
    pub serializers: Vec<FlattenedSerializer>,
    pub names: Vec<(u64, usize)>,
}

impl FlattenedSerializers {
    /// The serializer whose name hashes to `serializer_name_hash`, if there is one.
    pub fn by_name_hash(&self, serializer_name_hash: u64) -> (r: Option<usize>)
        ensures
            r == lookup(self.names@, serializer_name_hash),
    {
        let mut i: usize = self.names.len();
        proof {
            assert(self.names@.subrange(0, i as int) =~= self.names@);
        }
        while i > 0
            invariant
                i <= self.names@.len(),
                lookup(self.names@, serializer_name_hash) == lookup(self.names@.subrange(0, i as int), serializer_name_hash),
            decreases i,
        {
            let (h, s) = self.names[i - 1];
            proof {
                assert(self.names@.subrange(0, i as int).drop_last() =~= self.names@.subrange(0, i - 1));
            }
            if h == serializer_name_hash {
                return Some(s);
            }
            i = i - 1;
        }
        proof {
            assert(self.names@.subrange(0, 0).len() == 0);
        }
        None
    }

    /// The serializer whose name hashes to `serializer_name_hash`, which must be known.
    pub fn by_name_hash_unckecked(&self, serializer_name_hash: u64) -> (r: usize)
        requires
            lookup(self.names@, serializer_name_hash) is Some,
        ensures
            Some(r) == lookup(self.names@, serializer_name_hash),
    {
        match self.by_name_hash(serializer_name_hash) {
            Some(s) => s,
            None => 0,
        }
    }
}

/// The fields of serializer `s`.
pub open spec fn fields_of(sers: Seq<Seq<FlattenedSerializerField>>, s: int) -> Seq<FlattenedSerializerField> {
    sers[s]
}

/// The serializers as plain values.
pub open spec fn table_of(sers: &FlattenedSerializers) -> Seq<Seq<FlattenedSerializerField>> {
    sers.serializers@.map_values(|s: FlattenedSerializer| s.fields@)
}

/// Components `i..=last` of `comps` lead down from serializer `s`: each is an index of a field
/// of the serializer reached so far, and every field but the last has a serializer of its own.
pub open spec fn path_leads(sers: Seq<Seq<FlattenedSerializerField>>, s: int, comps: Seq<i32>, i: int, last: int) -> bool
    decreases last - i,
{
    &&& 0 <= s < sers.len()
    &&& 0 <= i <= last < comps.len()
    &&& 0 <= comps[i] < fields_of(sers, s).len()
    &&& i < last ==> {
        let f = fields_of(sers, s)[comps[i] as int];
        f.field_serializer matches Some(t) && path_leads(sers, t as int, comps, i + 1, last)
    }
}

/// The name hashes of the fields that components `i..=last` lead through from serializer `s`.
pub open spec fn path_hashes(sers: Seq<Seq<FlattenedSerializerField>>, s: int, comps: Seq<i32>, i: int, last: int) -> Seq<u64>
    decreases last - i,
{
    if i > last || i < 0 || s < 0 || s >= sers.len() {
        Seq::empty()
    } else {
        let f = fields_of(sers, s)[comps[i] as int];
        if i == last {
            seq![f.var_name_hash]
        } else {
            match f.field_serializer {
                Some(t) => seq![f.var_name_hash] + path_hashes(sers, t as int, comps, i + 1, last),
                None => seq![f.var_name_hash],
            }
        }
    }
}

/// The key made of name hashes: the first seeds the hash, each further one is added in.
pub open spec fn key_of_hashes(hs: Seq<u64>) -> u64
    decreases hs.len(),
{
    if hs.len() <= 1 {
        hs[0]
    } else {
        fx_add(key_of_hashes(hs.drop_last()), hs.last())
    }
}

/// The serializer that components `i..j` lead to from serializer `s` (`s` itself when `j <= i`).
pub open spec fn reach(sers: Seq<Seq<FlattenedSerializerField>>, s: int, comps: Seq<i32>, i: int, j: int) -> int
    decreases j - i,
{
    if i >= j {
        s
    } else {
        reach(sers, fields_of(sers, s)[comps[i] as int].field_serializer->0 as int, comps, i + 1, j)
    }
}

/// The key of the field that `fp` leads to from serializer `root`: see [`key_of_hashes`] and
/// [`path_hashes`].
pub fn field_key_of_path(sers: &FlattenedSerializers, root: usize, fp: &FieldPath) -> (r: u64)
    requires
        fp.position < 7,
        path_leads(table_of(sers), root as int, fp.data@, 0, fp.position as int),
    ensures
        r == key_of_hashes(path_hashes(table_of(sers), root as int, fp.data@, 0, fp.position as int)),
{
    let ghost t = table_of(sers);
    let ghost comps = fp.data@;
    let ghost last = fp.position as int;
    let mut s: usize = root;
    proof {
        assert(sers.serializers@[root as int].fields@ == t[root as int]);
        assert(path_hashes(t, root as int, comps, 0, 0) == seq![t[root as int][comps[0] as int].var_name_hash]);
    }
    let mut field = sers.serializers[s].fields[fp.data[0] as usize];
    let mut hasher = Hasher::with_seed(field.var_name_hash);
    let mut i: usize = 1;
    while i <= fp.position
        invariant
            1 <= i <= fp.position + 1,
            fp.position < 7,
            t == table_of(sers),
            comps == fp.data@,
            last == fp.position,
            path_leads(t, root as int, comps, 0, last),
            s == reach(t, root as int, comps, 0, (i - 1) as int),
            path_leads(t, s as int, comps, (i - 1) as int, last),
            field == t[s as int][comps[i - 1] as int],
            path_hashes(t, root as int, comps, 0, (i - 1) as int).len() == i,
            hasher.state() == key_of_hashes(path_hashes(t, root as int, comps, 0, (i - 1) as int)),
        decreases fp.position + 1 - i,
    {
        proof {
            lemma_reach_step(t, root as int, comps, 0, (i - 1) as int, last);
            lemma_reach_step(t, root as int, comps, 0, i as int, last);
        }
        let next = match field.field_serializer {
            Some(n) => n,
            None => {
                proof {
                    assert(false);
                }
                0
            },
        };
        proof {
            assert(t.len() == sers.serializers@.len());
            assert(t[next as int] == sers.serializers@[next as int].fields@);
        }
        s = next;
        field = sers.serializers[s].fields[fp.data[i] as usize];
        proof {
            lemma_hashes_push(t, root as int, comps, 0, i as int, last);
            lemma_key_of_push(path_hashes(t, root as int, comps, 0, (i - 1) as int), field.var_name_hash);
        }
        hasher.write_u64(field.var_name_hash);
        i = i + 1;
    }
    hasher.finish()
}

/// One more level: the serializer reached at level `j + 1` is that of the field chosen at level
/// `j`, and the path goes on from there.
proof fn lemma_reach_step(t: Seq<Seq<FlattenedSerializerField>>, s: int, comps: Seq<i32>, i: int, j: int, last: int)
    requires
        path_leads(t, s, comps, i, last),
        i <= j <= last,
    ensures
        path_leads(t, reach(t, s, comps, i, j), comps, j, last),
        j < last ==> t[reach(t, s, comps, i, j)][comps[j] as int].field_serializer is Some,
        j < last ==> reach(t, s, comps, i, j + 1)
            == t[reach(t, s, comps, i, j)][comps[j] as int].field_serializer->0 as int,
    decreases j - i,
{
    let u = t[s][comps[i] as int].field_serializer->0 as int;
    if i < j {
        lemma_reach_step(t, u, comps, i + 1, j, last);
        assert(reach(t, s, comps, i, j + 1) == reach(t, u, comps, i + 1, j + 1));
    } else if j < last {
        assert(reach(t, u, comps, i + 1, j + 1) == u);
    }
}

/// The hashes down to level `j` are those down to level `j - 1` and the hash of the field chosen
/// at level `j`.
proof fn lemma_hashes_push(t: Seq<Seq<FlattenedSerializerField>>, s: int, comps: Seq<i32>, i: int, j: int, last: int)
    requires
        path_leads(t, s, comps, i, last),
        i < j <= last,
    ensures
        path_hashes(t, s, comps, i, j) == path_hashes(t, s, comps, i, j - 1).push(
            t[reach(t, s, comps, i, j)][comps[j] as int].var_name_hash,
        ),
        path_hashes(t, s, comps, i, j - 1).len() == j - i,
    decreases j - i,
{
    let f = t[s][comps[i] as int];
    let u = f.field_serializer->0 as int;
    if i + 1 == j {
        assert(path_leads(t, u, comps, j, last));
        assert(path_hashes(t, u, comps, j, j) == seq![t[u][comps[j] as int].var_name_hash]);
        assert(path_hashes(t, s, comps, i, j) =~= seq![f.var_name_hash].push(
            t[u][comps[j] as int].var_name_hash,
        ));
    } else {
        lemma_hashes_push(t, u, comps, i + 1, j, last);
        assert(path_hashes(t, s, comps, i, j) =~= path_hashes(t, s, comps, i, j - 1).push(
            t[reach(t, s, comps, i, j)][comps[j] as int].var_name_hash,
        ));
    }
}

/// Adding one more hash to a key adds it in.
proof fn lemma_key_of_push(hs: Seq<u64>, h: u64)
    requires
        hs.len() >= 1,
    ensures
        key_of_hashes(hs.push(h)) == fx_add(key_of_hashes(hs), h),
{
    assert(hs.push(h).drop_last() =~= hs);
}

/// The key of a path whose fields are named `names` (level by level) is the key that
/// `make_field_key` gives for those names: entity field values are found by it.
pub proof fn lemma_path_key_is_field_key(
    t: Seq<Seq<FlattenedSerializerField>>,
    s: int,
    comps: Seq<i32>,
    last: int,
    names: Seq<Seq<u8>>,
)
    requires
        path_leads(t, s, comps, 0, last),
        names.len() == last + 1,
        forall|i: int| 0 <= i <= last ==> #[trigger] path_hashes(t, s, comps, 0, last)[i] == fx_hash_bytes(names[i]),
    ensures
        key_of_hashes(path_hashes(t, s, comps, 0, last)) == field_key(names),
{
    let hs = path_hashes(t, s, comps, 0, last);
    if last > 0 {
        lemma_hashes_push(t, s, comps, 0, last, last);
    } else {
        assert(hs == seq![t[s][comps[0] as int].var_name_hash]);
    }
    lemma_key_of_hashes(hs, names);
}

/// Keys over equal hashes are equal.
proof fn lemma_key_of_hashes(hs: Seq<u64>, names: Seq<Seq<u8>>)
    requires
        hs.len() == names.len(),
        hs.len() >= 1,
        forall|i: int| 0 <= i < hs.len() ==> #[trigger] hs[i] == fx_hash_bytes(names[i]),
    ensures
        key_of_hashes(hs) == field_key(names),
    decreases hs.len(),
{
    if hs.len() > 1 {
        assert forall|i: int| 0 <= i < hs.drop_last().len() implies #[trigger] hs.drop_last()[i]
            == fx_hash_bytes(names.drop_last()[i]) by {
            assert(hs.drop_last()[i] == hs[i]);
        }
        lemma_key_of_hashes(hs.drop_last(), names.drop_last());
    }
}

/// Why the serializers could not be built.
#[derive(Debug)]
pub enum Error {
    /// The length in front of the serializers message could not be read.
    Varint(varint::Error),
    /// A field's declared type gives no metadata.
    FieldMetadata(fieldmetadata::Error),
}

/// Where the serializers message starts in the data of a send-tables command: after the varint
/// that gives its length.
pub fn serializers_msg_start(data: &[u8]) -> (r: Result<usize, Error>)
    requires
        !reads_sixth_byte(data@, 0),
    ensures
        match uvarint32_at(data@, 0) {
            Ok((_, c)) => r == Ok::<usize, Error>((c + 1) as usize),
            Err(e) => r matches Err(Error::Varint(x)) && x == e,
        },
{
    match read_uvarint32(data, 0) {
        Ok((_, count)) => Ok(count + 1),
        Err(e) => Err(Error::Varint(e)),
    }
}

/// `e` is the error for the metadata `m`: the unknown array length name that stops it.
pub open spec fn metadata_error_is(m: Result<FieldMetadata, Option<Seq<char>>>, e: Error) -> bool {
    match m {
        Err(Some(name)) => e matches Error::FieldMetadata(fieldmetadata::Error::UnknownArrayLengthIdent(x))
            && x@ == name,
        Err(None) => e matches Error::FieldMetadata(fieldmetadata::Error::FieldDecoder),
        Ok(_) => false,
    }
}

/// Message field `v` exists, the symbols it names exist, and its declared type is ASCII text
/// that parses.
pub open spec fn proto_field_ok(msg: &FlattenedSerializerMsg, v: i32) -> bool {
    &&& 0 <= v < msg.fields@.len()
    &&& msg.fields@[v as int].var_type_sym matches Some(t) && sym_ok(msg, t)
    &&& msg.fields@[v as int].var_name_sym matches Some(n) && sym_ok(msg, n)
    &&& msg.fields@[v as int].field_serializer_name_sym matches Some(n) ==> sym_ok(msg, n)
    &&& msg.fields@[v as int].var_encoder_sym matches Some(n) ==> sym_ok(msg, n)
    &&& is_ascii_chars(var_type_text(msg, v))
    &&& parse_any_spec(encode_utf8(var_type_text(msg, v)), var_type_text(msg, v).len() as int) is Some
}

/// The message has no more fields than an `i32` index can name, every serializer of it names
/// an existing symbol, and every field it lists is well formed.
pub open spec fn msg_ok(msg: &FlattenedSerializerMsg) -> bool {
    &&& msg.fields@.len() <= i32::MAX + 1
    &&& forall|k: int| 0 <= k < msg.serializers@.len() ==> {
        &&& (#[trigger] msg.serializers@[k]).serializer_name_sym matches Some(n) && sym_ok(msg, n)
        &&& forall|j: int| 0 <= j < msg.serializers@[k].fields_index@.len() ==> proto_field_ok(msg, #[trigger] msg.serializers@[k].fields_index@[j])
    }
}

/// The metadata that the declared type of message field `v` gives, or why it gives none: the
/// unknown array length name, or `None` where the field's encoding settings do not admit the
/// decoder that its type calls for.
pub open spec fn field_metadata(msg: &FlattenedSerializerMsg, v: i32) -> Result<FieldMetadata, Option<Seq<char>>> {
    let text = var_type_text(msg, v);
    let sd = parsed_decl(encode_utf8(text), text.len() as int);
    match metadata_spec(choose|d: Decl| decl_is(d, sd, text), msg.fields@[v as int].field_serializer_name_sym is Some) {
        Ok(m) => if built_from_settings(m.decoder) && !msg.fields@[v as int].decoder_builds {
            Err(None)
        } else {
            Ok(m)
        },
        Err(name) => Err(Some(name)),
    }
}

/// Message field `v` as a field, with metadata `m` and nested serializer `fs`.
pub open spec fn base_field(msg: &FlattenedSerializerMsg, v: i32, m: FieldMetadata, fs: Option<usize>) -> FlattenedSerializerField {
    let f = msg.fields@[v as int];
    FlattenedSerializerField {
        var_name_hash: sym_hash(msg, f.var_name_sym->0),
        bit_count: f.bit_count,
        encode_flags: f.encode_flags,
        field_serializer_name_hash: opt_sym_hash(msg, f.field_serializer_name_sym),
        field_serializer: fs,
        var_encoder_hash: opt_sym_hash(msg, f.var_encoder_sym),
        metadata: m,
    }
}

/// The element of a variable length array of serializers: nothing but its serializer `fs`.
pub open spec fn element_field(fs: Option<usize>) -> FlattenedSerializerField {
    FlattenedSerializerField {
        var_name_hash: 0,
        bit_count: None,
        encode_flags: None,
        field_serializer_name_hash: None,
        field_serializer: fs,
        var_encoder_hash: None,
        metadata: FieldMetadata { special_descriptor: None, decoder: DecoderKind::Nop },
    }
}

/// Serializer `a` of `t` holds `n` fields, each `f`.
pub open spec fn copies(t: Seq<Seq<FlattenedSerializerField>>, a: int, n: int, f: FlattenedSerializerField) -> bool {
    &&& 0 <= a < t.len()
    &&& t[a].len() == n
    &&& forall|i: int| 0 <= i < n ==> #[trigger] t[a][i] == f
}

/// The number of elements that a variable length array is made with.
pub const VARIABLE_ARRAY_LEN: usize = 128;

/// `f` is message field `v` built against the serializers `t` and the names `names` known
/// then: its serializer is the one its serializer name gives; an array gets a serializer of its
/// elements, each a copy of the field (or, for an array of serializers, each an element of that
/// serializer).
#[verifier::opaque]
pub open spec fn field_built(
    t: Seq<Seq<FlattenedSerializerField>>,
    names: Seq<(u64, usize)>,
    msg: &FlattenedSerializerMsg,
    v: i32,
    f: FlattenedSerializerField,
) -> bool {
    match field_metadata(msg, v) {
        Err(_) => false,
        Ok(m) => {
            let lk = match opt_sym_hash(msg, msg.fields@[v as int].field_serializer_name_sym) {
                Some(h) => lookup(names, h),
                None => None,
            };
            let base = base_field(msg, v, m, lk);
            match m.special_descriptor {
                Some(FieldSpecialDescriptor::Array { length }) => f.field_serializer matches Some(a)
                    && f == base_field(msg, v, m, f.field_serializer) && copies(t, a as int, length as int, base),
                Some(FieldSpecialDescriptor::VariableLengthArray) => f.field_serializer matches Some(a)
                    && f == base_field(msg, v, m, f.field_serializer) && copies(t, a as int, VARIABLE_ARRAY_LEN as int, base),
                Some(FieldSpecialDescriptor::VariableLengthSerializerArray) => f.field_serializer matches Some(a)
                    && f == base_field(msg, v, m, f.field_serializer) && copies(t, a as int, VARIABLE_ARRAY_LEN as int, element_field(lk)),
                _ => f == base,
            }
        },
    }
}

/// Every nested serializer index in `t` is an index of `t`.
pub open spec fn closed(t: Seq<Seq<FlattenedSerializerField>>) -> bool {
    forall|a: int, i: int| 0 <= a < t.len() && 0 <= i < t[a].len() ==> ((#[trigger] t[a][i]).field_serializer matches Some(b) ==> b < t.len())
}

/// A built field's declared type gives metadata.
proof fn lemma_built_metadata_ok(
    t: Seq<Seq<FlattenedSerializerField>>,
    names: Seq<(u64, usize)>,
    msg: &FlattenedSerializerMsg,
    v: i32,
    f: FlattenedSerializerField,
)
    requires
        field_built(t, names, msg, v, f),
    ensures
        field_metadata(msg, v) is Ok,
{
    reveal(field_built);
}

/// The serializer that a built field leads to is the one its serializer name gives among the
/// names known when it was built: a plain field nests it itself; an array nests a serializer of
/// copies of the field (`length` of them, or the variable array capacity), each nesting it; an
/// array of serializers nests a serializer of elements that each nest it.
pub proof fn lemma_built_field_nests_named_serializer(
    t: Seq<Seq<FlattenedSerializerField>>,
    names: Seq<(u64, usize)>,
    msg: &FlattenedSerializerMsg,
    v: i32,
    f: FlattenedSerializerField,
)
    requires
        field_built(t, names, msg, v, f),
    ensures
        ({
            let named = match f.field_serializer_name_hash {
                Some(h) => lookup(names, h),
                None => None,
            };
            match f.metadata.special_descriptor {
                Some(FieldSpecialDescriptor::Array { length }) => f.field_serializer matches Some(a)
                    && 0 <= a < t.len() && t[a as int].len() == length && forall|i: int|
                    0 <= i < length ==> (#[trigger] t[a as int][i]).field_serializer == named
                        && t[a as int][i].var_name_hash == f.var_name_hash && t[a as int][i].metadata
                        == f.metadata,
                Some(FieldSpecialDescriptor::VariableLengthArray) => f.field_serializer matches Some(a)
                    && 0 <= a < t.len() && t[a as int].len() == VARIABLE_ARRAY_LEN && forall|i: int|
                    0 <= i < VARIABLE_ARRAY_LEN ==> (#[trigger] t[a as int][i]).field_serializer == named
                        && t[a as int][i].metadata == f.metadata,
                Some(FieldSpecialDescriptor::VariableLengthSerializerArray) => f.field_serializer matches Some(a)
                    && 0 <= a < t.len() && t[a as int].len() == VARIABLE_ARRAY_LEN && forall|i: int|
                    0 <= i < VARIABLE_ARRAY_LEN ==> (#[trigger] t[a as int][i]).field_serializer == named,
                _ => f.field_serializer == named,
            }
        }),
{
    reveal(field_built);
}

/// A field built against some serializers is built against any that extend them.
proof fn lemma_field_built_extends(
    t1: Seq<Seq<FlattenedSerializerField>>,
    t2: Seq<Seq<FlattenedSerializerField>>,
    names: Seq<(u64, usize)>,
    msg: &FlattenedSerializerMsg,
    v: i32,
    f: FlattenedSerializerField,
)
    requires
        field_built(t1, names, msg, v, f),
        extends(t1, t2),
    ensures
        field_built(t2, names, msg, v, f),
{
    reveal(field_built);
    if let Some(a) = f.field_serializer {
        if 0 <= a < t1.len() {
            assert(t2[a as int] == t1[a as int]);
        }
    }
}

impl FlattenedSerializers {
    /// Adds a serializer of `n` fields, each `f`, and gives its index.
    fn push_copies(&mut self, f: FlattenedSerializerField, n: usize) -> (a: usize)
        ensures
            final(self).names@ == old(self).names@,
            a == old(self).serializers@.len(),
            table_of(final(self)) == table_of(old(self)).push(Seq::new(n as nat, |i: int| f)),
            hashes_of(final(self)) == hashes_of(old(self)).push(0),
    {
        let mut fields: Vec<FlattenedSerializerField> = Vec::new();
        let mut i: usize = 0;
        while i < n
            invariant
                i <= n,
                fields@ == Seq::new(i as nat, |j: int| f),
            decreases n - i,
        {
            fields.push(f);
            i = i + 1;
            proof {
                assert(fields@ =~= Seq::new(i as nat, |j: int| f));
            }
        }
        let a = self.serializers.len();
        self.serializers.push(FlattenedSerializer { serializer_name_hash: 0, fields });
        proof {
            assert(table_of(final(self)) =~= table_of(old(self)).push(Seq::new(n as nat, |i: int| f)));
            assert(hashes_of(final(self)) =~= hashes_of(old(self)).push(0));
        }
        a
    }
}

impl FlattenedSerializers {
    /// Builds message field `v` against the serializers known so far: see [`field_built`].
    fn build_field(&mut self, msg: &FlattenedSerializerMsg, v: i32) -> (r: Result<FlattenedSerializerField, Error>)
        requires
            proto_field_ok(msg, v),
            closed(table_of(old(self))),
            names_in(old(self).names@, old(self).serializers@.len() as int),
        ensures
            final(self).names@ == old(self).names@,
            extends(table_of(old(self)), table_of(final(self))),
            extends(hashes_of(old(self)), hashes_of(final(self))),
            closed(table_of(final(self))),
            match r {
                Ok(f) => field_built(table_of(final(self)), old(self).names@, msg, v, f)
                    && (f.field_serializer matches Some(b) ==> b < table_of(final(self)).len()),
                Err(e) => metadata_error_is(field_metadata(msg, v), e),
            },
    {
        let ghost t0 = table_of(self);
        let ghost h0 = hashes_of(self);
        let pf = msg.fields[v as usize];
        let t_sym = match pf.var_type_sym {
            Some(t) => t,
            None => 0,
        };
        let n_sym = match pf.var_name_sym {
            Some(n) => n,
            None => 0,
        };
        let text: &str = msg.symbols[t_sym as usize].as_str();
        let decl = crate::haste_dota2_deflat::var_type::parse(text);
        let ghost sd = parsed_decl(encode_utf8(text@), text@.len() as int);
        proof {
            let c = choose|d: Decl| decl_is(d, sd, text@);
            assert(decl_is(decl, sd, text@));
            lemma_metadata_of_same_decl(decl, c, sd, text@, pf.field_serializer_name_sym is Some);
        }
        let has_serializer = pf.field_serializer_name_sym.is_some();
        let metadata = match get_field_metadata(&decl, has_serializer, pf.decoder_builds) {
            Ok(m) => m,
            Err(e) => {
                return Err(Error::FieldMetadata(e));
            },
        };
        let var_name_hash = symbol_hash(msg, n_sym);
        let fs_name_hash = opt_symbol_hash(msg, pf.field_serializer_name_sym);
        let var_encoder_hash = opt_symbol_hash(msg, pf.var_encoder_sym);
        let lk = match fs_name_hash {
            Some(h) => self.by_name_hash(h),
            None => None,
        };
        proof {
            if let Some(h) = fs_name_hash {
                lemma_lookup_in(self.names@, h, self.serializers@.len() as int);
            }
        }
        let base = FlattenedSerializerField {
            var_name_hash,
            bit_count: pf.bit_count,
            encode_flags: pf.encode_flags,
            field_serializer_name_hash: fs_name_hash,
            field_serializer: lk,
            var_encoder_hash,
            metadata,
        };
        proof {
            reveal(field_built);
            assert(base == base_field(msg, v, metadata, lk));
        }
        let (element, n) = match metadata.special_descriptor {
            Some(FieldSpecialDescriptor::Array { length }) => (base, length),
            Some(FieldSpecialDescriptor::VariableLengthArray) => (base, VARIABLE_ARRAY_LEN),
            Some(FieldSpecialDescriptor::VariableLengthSerializerArray) => (FlattenedSerializerField {
                var_name_hash: 0,
                bit_count: None,
                encode_flags: None,
                field_serializer_name_hash: None,
                field_serializer: lk,
                var_encoder_hash: None,
                metadata: FieldMetadata::default(),
            }, VARIABLE_ARRAY_LEN),
            _ => {
                proof {
                    assert(extends(t0, table_of(self)));
                    assert(extends(h0, hashes_of(self)));
                }
                return Ok(base);
            },
        };
        let a = self.push_copies(element, n);
        let f = FlattenedSerializerField {
            var_name_hash,
            bit_count: pf.bit_count,
            encode_flags: pf.encode_flags,
            field_serializer_name_hash: fs_name_hash,
            field_serializer: Some(a),
            var_encoder_hash,
            metadata,
        };
        proof {
            let t1 = table_of(self);
            assert(t1[a as int] == Seq::new(n as nat, |i: int| element));
            assert(copies(t1, a as int, n as int, element));
            assert(extends(t0, t1));
            assert(extends(h0, hashes_of(self)));
            assert forall|x: int, i: int| 0 <= x < t1.len() && 0 <= i < t1[x].len() implies
                ((#[trigger] t1[x][i]).field_serializer matches Some(b) ==> b < t1.len()) by {
                if x < t0.len() {
                    assert(t1[x] == t0[x]);
                }
            }
        }
        Ok(f)
    }
}

/// Entry `k` of the names, and the serializer it gives, are serializer `k` of the message,
/// built with the names known before it.
pub open spec fn serializer_built(
    t: Seq<Seq<FlattenedSerializerField>>,
    hashes: Seq<u64>,
    names: Seq<(u64, usize)>,
    msg: &FlattenedSerializerMsg,
    k: int,
) -> bool {
    let ps = msg.serializers@[k];
    let a = names[k].1 as int;
    &&& names[k].0 == sym_hash(msg, ps.serializer_name_sym->0)
    &&& 0 <= a < t.len()
    &&& hashes[a] == names[k].0
    &&& t[a].len() == ps.fields_index@.len()
    &&& forall|j: int| 0 <= j < ps.fields_index@.len() ==> field_built(
        t,
        names.subrange(0, first_use(msg, ps.fields_index@[j])),
        msg,
        ps.fields_index@[j],
        #[trigger] t[a][j],
    )
}

/// The hashes of the names of the serializers.
pub open spec fn hashes_of(sers: &FlattenedSerializers) -> Seq<u64> {
    sers.serializers@.map_values(|s: FlattenedSerializer| s.serializer_name_hash)
}

/// A field kept for message field `v`: built with the names known when a serializer first
/// listed `v`, and nesting only serializers of `t`.
pub open spec fn cached_ok(
    t: Seq<Seq<FlattenedSerializerField>>,
    names: Seq<(u64, usize)>,
    msg: &FlattenedSerializerMsg,
    v: i32,
    f: FlattenedSerializerField,
) -> bool {
    &&& 0 <= first_use(msg, v) <= names.len()
    &&& field_built(t, names.subrange(0, first_use(msg, v)), msg, v, f)
    &&& f.field_serializer matches Some(b) ==> b < t.len()
}

/// The kept fields: one for each message field listed before serializer `k` or in `seen`.
pub open spec fn cache_ok(
    t: Seq<Seq<FlattenedSerializerField>>,
    names: Seq<(u64, usize)>,
    msg: &FlattenedSerializerMsg,
    cache: Seq<Option<FlattenedSerializerField>>,
    k: int,
    seen: Seq<i32>,
) -> bool {
    &&& cache.len() == msg.fields@.len()
    &&& forall|v: int| 0 <= v < cache.len() ==> ((#[trigger] cache[v]) is Some <==> (used_before(msg, v as i32, k) || seen.contains(v as i32)))
    &&& forall|v: int| 0 <= v < cache.len() && (#[trigger] cache[v]) is Some ==> cached_ok(t, names, msg, v as i32, cache[v]->0)
}

/// Serializers `0..k` of the message are built.
pub open spec fn all_built(
    t: Seq<Seq<FlattenedSerializerField>>,
    hashes: Seq<u64>,
    names: Seq<(u64, usize)>,
    msg: &FlattenedSerializerMsg,
    k: int,
) -> bool {
    forall|k2: int| 0 <= k2 < k ==> #[trigger] serializer_built(t, hashes, names, msg, k2)
}

proof fn lemma_built_extends(
    t1: Seq<Seq<FlattenedSerializerField>>,
    t2: Seq<Seq<FlattenedSerializerField>>,
    h1: Seq<u64>,
    h2: Seq<u64>,
    n1: Seq<(u64, usize)>,
    n2: Seq<(u64, usize)>,
    msg: &FlattenedSerializerMsg,
    k: int,
)
    requires
        0 <= k <= n1.len(),
        k <= msg.serializers@.len(),
        all_built(t1, h1, n1, msg, k),
        h1.len() == t1.len(),
        extends(t1, t2),
        extends(h1, h2),
        extends(n1, n2),
    ensures
        all_built(t2, h2, n2, msg, k),
{
    assert forall|k2: int| 0 <= k2 < k implies #[trigger] serializer_built(t2, h2, n2, msg, k2) by {
        assert(serializer_built(t1, h1, n1, msg, k2));
        let ps = msg.serializers@[k2];
        let a = n1[k2].1 as int;
        assert(n2[k2] == n1[k2]);
        assert(t2[a] == t1[a]);
        assert(h2[a] == h1[a]);
        assert forall|j: int| 0 <= j < ps.fields_index@.len() implies field_built(
            t2,
            n2.subrange(0, first_use(msg, ps.fields_index@[j])),
            msg,
            ps.fields_index@[j],
            #[trigger] t2[a][j],
        ) by {
            let v = ps.fields_index@[j];
            assert(ps.fields_index@[j] == v);
            assert(uses(msg, k2, v));
            lemma_first_use(msg, v, k2);
            let fu = first_use(msg, v);
            assert(n2.subrange(0, fu) =~= n1.subrange(0, fu));
            assert(field_built(t1, n1.subrange(0, fu), msg, v, t1[a][j]));
            lemma_field_built_extends(t1, t2, n1.subrange(0, fu), msg, v, t1[a][j]);
        }
    }
}

proof fn lemma_cache_extends(
    t1: Seq<Seq<FlattenedSerializerField>>,
    t2: Seq<Seq<FlattenedSerializerField>>,
    n1: Seq<(u64, usize)>,
    n2: Seq<(u64, usize)>,
    msg: &FlattenedSerializerMsg,
    cache: Seq<Option<FlattenedSerializerField>>,
    k: int,
    seen: Seq<i32>,
)
    requires
        cache_ok(t1, n1, msg, cache, k, seen),
        extends(t1, t2),
        extends(n1, n2),
    ensures
        cache_ok(t2, n2, msg, cache, k, seen),
{
    assert forall|v: int| 0 <= v < cache.len() && (#[trigger] cache[v]) is Some implies cached_ok(t2, n2, msg, v as i32, cache[v]->0) by {
        let fu = first_use(msg, v as i32);
        assert(cached_ok(t1, n1, msg, v as i32, cache[v]->0));
        assert(n2.subrange(0, fu) =~= n1.subrange(0, fu));
        lemma_field_built_extends(t1, t2, n1.subrange(0, fu), msg, v as i32, cache[v]->0);
    }
}

impl FlattenedSerializers {
    /// Builds the serializers of a decoded serializers message, in the message's order: each
    /// field is built once, with the serializers named before the first serializer that lists
    /// it, and shared by every serializer that lists it (see [`field_built`]); each serializer
    /// is then known by the hash of its name. The first field whose declared type gives no
    /// metadata stops it.
    pub fn parse(msg: &FlattenedSerializerMsg) -> (r: Result<FlattenedSerializers, Error>)
        requires
            msg_ok(msg),
        ensures
            match r {
                Ok(out) => {
                    &&& closed(table_of(&out))
                    &&& out.names@.len() == msg.serializers@.len()
                    &&& all_built(table_of(&out), hashes_of(&out), out.names@, msg, msg.serializers@.len() as int)
                },
                Err(e) => exists|k: int, j: int|
                    0 <= k < msg.serializers@.len() && 0 <= j < msg.serializers@[k].fields_index@.len()
                        && metadata_error_is(#[trigger] field_metadata(msg, msg.serializers@[k].fields_index@[j]), e) && forall|k2: int, j2: int|
                        0 <= k2 < msg.serializers@.len() && 0 <= j2 < msg.serializers@[k2].fields_index@.len()
                            && listed_before(k2, j2, k, j) ==> #[trigger] field_metadata(
                            msg,
                            msg.serializers@[k2].fields_index@[j2],
                        ) is Ok,
            },
    {
        let mut out = FlattenedSerializers { serializers: Vec::new(), names: Vec::new() };
        let mut cache: Vec<Option<FlattenedSerializerField>> = Vec::new();
        let mut c: usize = 0;
        while c < msg.fields.len()
            invariant
                c <= msg.fields@.len(),
                cache@.len() == c,
                forall|v: int| 0 <= v < c ==> (#[trigger] cache@[v]) is None,
            decreases msg.fields@.len() - c,
        {
            cache.push(None);
            c = c + 1;
        }
        proof {
            assert forall|v: int| 0 <= v < cache@.len() implies ((#[trigger] cache@[v]) is Some <==> (used_before(msg, v as i32, 0) || Seq::<i32>::empty().contains(v as i32))) by {
                assert(!used_before(msg, v as i32, 0));
            }
        }
        let mut k: usize = 0;
        while k < msg.serializers.len()
            invariant
                msg_ok(msg),
                k <= msg.serializers@.len(),
                out.names@.len() == k,
                closed(table_of(&out)),
                names_in(out.names@, out.serializers@.len() as int),
                cache_ok(table_of(&out), out.names@, msg, cache@, k as int, Seq::empty()),
                all_built(table_of(&out), hashes_of(&out), out.names@, msg, k as int),
            decreases msg.serializers@.len() - k,
        {
            let ps = &msg.serializers[k];
            proof {
                assert(msg.serializers@[k as int] == *ps);
            }
            let name_sym = match ps.serializer_name_sym {
                Some(n) => n,
                None => 0,
            };
            let name_hash = symbol_hash(msg, name_sym);
            let mut fields: Vec<FlattenedSerializerField> = Vec::new();
            let mut j: usize = 0;
            proof {
                assert(ps.fields_index@.subrange(0, 0) =~= Seq::<i32>::empty());
            }
            while j < ps.fields_index.len()
                invariant
                    msg_ok(msg),
                    msg.fields@.len() <= i32::MAX + 1,
                    k < msg.serializers@.len(),
                    msg.serializers@[k as int] == *ps,
                    j <= ps.fields_index@.len(),
                    out.names@.len() == k,
                    closed(table_of(&out)),
                    names_in(out.names@, out.serializers@.len() as int),
                    cache_ok(table_of(&out), out.names@, msg, cache@, k as int, ps.fields_index@.subrange(0, j as int)),
                    all_built(table_of(&out), hashes_of(&out), out.names@, msg, k as int),
                    fields@.len() == j,
                    forall|jj: int| 0 <= jj < j ==> #[trigger] cached_ok(table_of(&out), out.names@, msg, ps.fields_index@[jj], fields@[jj]),
                decreases ps.fields_index@.len() - j,
            {
                let v = ps.fields_index[j];
                proof {
                    assert(proto_field_ok(msg, msg.serializers@[k as int].fields_index@[j as int]));
                    assert(uses(msg, k as int, v)) by {
                        assert(ps.fields_index@[j as int] == v);
                    }
                    lemma_first_use(msg, v, k as int);
                }
                let ghost t0 = table_of(&out);
                let ghost h0 = hashes_of(&out);
                let ghost n0 = out.names@;
                let ghost c0 = cache@;
                let f = match cache[v as usize] {
                    Some(f) => f,
                    None => {
                        let f = match out.build_field(msg, v) {
                            Ok(f) => f,
                            Err(e) => {
                                proof {
                                    assert(0 <= k < msg.serializers@.len() && 0 <= j < msg.serializers@[k as int].fields_index@.len());
                                    assert forall|k2: int, j2: int|
                                        0 <= k2 < msg.serializers@.len() && 0 <= j2 < msg.serializers@[k2].fields_index@.len()
                                            && listed_before(k2, j2, k as int, j as int) implies #[trigger] field_metadata(
                                            msg,
                                            msg.serializers@[k2].fields_index@[j2],
                                        ) is Ok by {
                                        let v2 = msg.serializers@[k2].fields_index@[j2];
                                        let fu = first_use(msg, v2);
                                        if k2 < k {
                                            assert(serializer_built(t0, h0, n0, msg, k2));
                                            let a = n0[k2].1 as int;
                                            lemma_built_metadata_ok(t0, n0.subrange(0, fu), msg, v2, t0[a][j2]);
                                        } else {
                                            assert(cached_ok(t0, n0, msg, ps.fields_index@[j2], fields@[j2]));
                                            lemma_built_metadata_ok(t0, n0.subrange(0, fu), msg, v2, fields@[j2]);
                                        }
                                    }
                                }
                                return Err(e);
                            },
                        };
                        proof {
                            assert(!used_before(msg, v, k as int));
                            assert(first_use(msg, v) == k);
                            assert(n0.subrange(0, k as int) =~= n0);
                            lemma_cache_extends(t0, table_of(&out), n0, out.names@, msg, cache@, k as int, ps.fields_index@.subrange(0, j as int));
                            lemma_built_extends(t0, table_of(&out), h0, hashes_of(&out), n0, out.names@, msg, k as int);
                            assert forall|jj: int| 0 <= jj < j implies #[trigger] cached_ok(table_of(&out), out.names@, msg, ps.fields_index@[jj], fields@[jj]) by {
                                let fu = first_use(msg, ps.fields_index@[jj]);
                                assert(cached_ok(t0, n0, msg, ps.fields_index@[jj], fields@[jj]));
                                lemma_field_built_extends(t0, table_of(&out), n0.subrange(0, fu), msg, ps.fields_index@[jj], fields@[jj]);
                            }
                        }
                        cache.set(v as usize, Some(f));
                        f
                    },
                };
                proof {
                    let t1 = table_of(&out);
                    let n1 = out.names@;
                    let seen1 = ps.fields_index@.subrange(0, j + 1);
                    assert(cached_ok(t1, n1, msg, v, f)) by {
                        if c0[v as int] is Some {
                            assert(cached_ok(t0, n0, msg, v, f));
                        } else {
                            assert(n1.subrange(0, k as int) =~= n1);
                        }
                    }
                    assert forall|x: int| 0 <= x < cache@.len() implies ((#[trigger] cache@[x]) is Some <==> (used_before(msg, x as i32, k as int) || seen1.contains(x as i32))) by {
                        lemma_prefix_contains_step(ps.fields_index@, j as int, x as i32);
                        assert(ps.fields_index@[j as int] == v);
                    }
                    assert forall|x: int| 0 <= x < cache@.len() && (#[trigger] cache@[x]) is Some implies cached_ok(t1, n1, msg, x as i32, cache@[x]->0) by {
                        if x != v as int {
                            assert(cache@[x] == c0[x]);
                        }
                    }
                }
                let ghost fs0 = fields@;
                fields.push(f);
                j = j + 1;
                proof {
                    assert forall|jj: int| 0 <= jj < j implies #[trigger] cached_ok(table_of(&out), out.names@, msg, ps.fields_index@[jj], fields@[jj]) by {
                        if jj < j - 1 {
                            assert(fields@[jj] == fs0[jj]);
                        }
                    }
                }
            }
            let ghost t0 = table_of(&out);
            let ghost h0 = hashes_of(&out);
            let ghost n0 = out.names@;
            let ghost fs = fields@;
            let a = out.serializers.len();
            out.serializers.push(FlattenedSerializer { serializer_name_hash: name_hash, fields });
            out.names.push((name_hash, a));
            proof {
                let t1 = table_of(&out);
                let h1 = hashes_of(&out);
                let n1 = out.names@;
                assert(t1 =~= t0.push(fs));
                assert(h1 =~= h0.push(name_hash));
                assert(n1 =~= n0.push((name_hash, a)));
                assert(extends(t0, t1));
                assert(extends(h0, h1));
                assert(extends(n0, n1));
                assert(ps.fields_index@.subrange(0, ps.fields_index@.len() as int) =~= ps.fields_index@);
                lemma_built_extends(t0, t1, h0, h1, n0, n1, msg, k as int);
                lemma_cache_extends(t0, t1, n0, n1, msg, cache@, k as int, ps.fields_index@);
                assert(serializer_built(t1, h1, n1, msg, k as int)) by {
                    assert forall|j2: int| 0 <= j2 < ps.fields_index@.len() implies field_built(
                        t1,
                        n1.subrange(0, first_use(msg, ps.fields_index@[j2])),
                        msg,
                        ps.fields_index@[j2],
                        #[trigger] t1[a as int][j2],
                    ) by {
                        let v = ps.fields_index@[j2];
                        let fu = first_use(msg, v);
                        assert(cached_ok(t0, n0, msg, v, fs[j2]));
                        assert(n1.subrange(0, fu) =~= n0.subrange(0, fu));
                        lemma_field_built_extends(t0, t1, n0.subrange(0, fu), msg, v, fs[j2]);
                    }
                }
                assert(all_built(t1, h1, n1, msg, k + 1));
                assert forall|x: int, i: int| 0 <= x < t1.len() && 0 <= i < t1[x].len() implies
                    ((#[trigger] t1[x][i]).field_serializer matches Some(b) ==> b < t1.len()) by {
                    if x < t0.len() {
                        assert(t1[x] == t0[x]);
                    } else {
                        assert(cached_ok(t0, n0, msg, ps.fields_index@[i], fs[i]));
                    }
                }
                assert forall|v: int| 0 <= v < cache@.len() implies ((#[trigger] cache@[v]) is Some <==> (used_before(msg, v as i32, k + 1) || Seq::<i32>::empty().contains(v as i32))) by {
                    lemma_used_before_step(msg, v as i32, k as int);
                }
                assert(names_in(n1, t1.len() as int));
            }
            k = k + 1;
        }
        Ok(out)
    }
}

} // verus!
