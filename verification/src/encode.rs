//! Spec-level encoders for the decoded model, and the round-trip laws:
//! re-encoding what the decoders produced reproduces exactly the bytes
//! they consumed.
//!
//! The decode is byte-faithful everywhere except one spot: a wire boolean
//! is decoded as `byte != 0`, so a boolean stored as any byte other than
//! 0 or 1 re-encodes differently. The round-trip laws therefore exclude
//! boolean-typed values; every other construct round-trips exactly.

use vstd::prelude::*;

use crate::errors::Error;
use crate::javatype::{
    jtype_of_tag, sparse_java_value, sparse_typed_value, tag_of_jtype, JavaType, JavaValue,
};
use crate::record::{
    constant_step, id_step, instant_field_step, sparse_class_dump, sparse_constant,
    sparse_instant_field, sparse_native_object, sparse_object, sparse_static_field, sparse_subtag,
    sparse_subtags, static_field_step, value_step, Constant, InstantField, NativeObject, Object,
    StaticField, SubTagView,
};
use crate::snapshot::{sparse_record, sparse_records, RecordView};
use crate::wire::{be_u16_at, be_u32_at, be_u64_at, id_at, le_u32_at, le_u64_at, sparse_n};

verus! {

/// The two big-endian bytes of a `u16`.
pub open spec fn enc_be16(v: u16) -> Seq<u8> {
    seq![(v >> 8) as u8, v as u8]
}

/// The four big-endian bytes of a `u32`.
pub open spec fn enc_be32(v: u32) -> Seq<u8> {
    seq![(v >> 24) as u8, (v >> 16) as u8, (v >> 8) as u8, v as u8]
}

/// The eight big-endian bytes of a `u64`.
pub open spec fn enc_be64(v: u64) -> Seq<u8> {
    seq![
        (v >> 56) as u8,
        (v >> 48) as u8,
        (v >> 40) as u8,
        (v >> 32) as u8,
        (v >> 24) as u8,
        (v >> 16) as u8,
        (v >> 8) as u8,
        v as u8,
    ]
}

/// The four little-endian bytes of a `u32`.
pub open spec fn enc_le32(v: u32) -> Seq<u8> {
    seq![v as u8, (v >> 8) as u8, (v >> 16) as u8, (v >> 24) as u8]
}

/// The eight little-endian bytes of a `u64`.
pub open spec fn enc_le64(v: u64) -> Seq<u8> {
    seq![
        v as u8,
        (v >> 8) as u8,
        (v >> 16) as u8,
        (v >> 24) as u8,
        (v >> 32) as u8,
        (v >> 40) as u8,
        (v >> 48) as u8,
        (v >> 56) as u8,
    ]
}

/// An object identifier at session width `w`: `w` bytes little-endian.
pub open spec fn enc_id(v: u64, w: int) -> Seq<u8> {
    if w == 4 {
        enc_le32(v as u32)
    } else {
        enc_le64(v)
    }
}

/// A big-endian `u16` re-encodes to the two bytes it was decoded from.
pub proof fn lemma_be16_roundtrip(b: Seq<u8>, p: int)
    requires
        0 <= p,
        p + 2 <= b.len(),
    ensures
        enc_be16(be_u16_at(b, p)) == b.subrange(p, p + 2),
{
    let x0 = b[p];
    let x1 = b[p + 1];
    let v = be_u16_at(b, p);
    assert(((((x0 as u16) << 8) | (x1 as u16)) >> 8) as u8 == x0 && (((x0 as u16) << 8) | (
    x1 as u16)) as u8 == x1) by (bit_vector);
    assert(enc_be16(v) =~= b.subrange(p, p + 2));
}

/// A big-endian `u32` re-encodes to the four bytes it was decoded from.
pub proof fn lemma_be32_roundtrip(b: Seq<u8>, p: int)
    requires
        0 <= p,
        p + 4 <= b.len(),
    ensures
        enc_be32(be_u32_at(b, p)) == b.subrange(p, p + 4),
{
    let x0 = b[p];
    let x1 = b[p + 1];
    let x2 = b[p + 2];
    let x3 = b[p + 3];
    let v = be_u32_at(b, p);
    assert({
        let y = ((x0 as u32) << 24) | ((x1 as u32) << 16) | ((x2 as u32) << 8) | (x3 as u32);
        (y >> 24) as u8 == x0 && (y >> 16) as u8 == x1 && (y >> 8) as u8 == x2 && y as u8 == x3
    }) by (bit_vector);
    assert(enc_be32(v) =~= b.subrange(p, p + 4));
}

/// A big-endian `u64` re-encodes to the eight bytes it was decoded from.
pub proof fn lemma_be64_roundtrip(b: Seq<u8>, p: int)
    requires
        0 <= p,
        p + 8 <= b.len(),
    ensures
        enc_be64(be_u64_at(b, p)) == b.subrange(p, p + 8),
{
    let x0 = b[p];
    let x1 = b[p + 1];
    let x2 = b[p + 2];
    let x3 = b[p + 3];
    let x4 = b[p + 4];
    let x5 = b[p + 5];
    let x6 = b[p + 6];
    let x7 = b[p + 7];
    let v = be_u64_at(b, p);
    assert({
        let y = ((x0 as u64) << 56) | ((x1 as u64) << 48) | ((x2 as u64) << 40) | ((x3
            as u64) << 32) | ((x4 as u64) << 24) | ((x5 as u64) << 16) | ((x6 as u64) << 8) | (
        x7 as u64);
        (y >> 56) as u8 == x0 && (y >> 48) as u8 == x1 && (y >> 40) as u8 == x2 && (y >> 32) as u8
            == x3 && (y >> 24) as u8 == x4 && (y >> 16) as u8 == x5 && (y >> 8) as u8 == x6 && y
            as u8 == x7
    }) by (bit_vector);
    assert(enc_be64(v) =~= b.subrange(p, p + 8));
}

/// A little-endian `u32` re-encodes to the four bytes it was decoded
/// from.
pub proof fn lemma_le32_roundtrip(b: Seq<u8>, p: int)
    requires
        0 <= p,
        p + 4 <= b.len(),
    ensures
        enc_le32(le_u32_at(b, p)) == b.subrange(p, p + 4),
{
    let x0 = b[p];
    let x1 = b[p + 1];
    let x2 = b[p + 2];
    let x3 = b[p + 3];
    let v = le_u32_at(b, p);
    assert({
        let y = (x0 as u32) | ((x1 as u32) << 8) | ((x2 as u32) << 16) | ((x3 as u32) << 24);
        y as u8 == x0 && (y >> 8) as u8 == x1 && (y >> 16) as u8 == x2 && (y >> 24) as u8 == x3
    }) by (bit_vector);
    assert(enc_le32(v) =~= b.subrange(p, p + 4));
}

/// A little-endian `u64` re-encodes to the eight bytes it was decoded
/// from.
pub proof fn lemma_le64_roundtrip(b: Seq<u8>, p: int)
    requires
        0 <= p,
        p + 8 <= b.len(),
    ensures
        enc_le64(le_u64_at(b, p)) == b.subrange(p, p + 8),
{
    let x0 = b[p];
    let x1 = b[p + 1];
    let x2 = b[p + 2];
    let x3 = b[p + 3];
    let x4 = b[p + 4];
    let x5 = b[p + 5];
    let x6 = b[p + 6];
    let x7 = b[p + 7];
    let v = le_u64_at(b, p);
    assert({
        let y = (x0 as u64) | ((x1 as u64) << 8) | ((x2 as u64) << 16) | ((x3 as u64) << 24) | ((
        x4 as u64) << 32) | ((x5 as u64) << 40) | ((x6 as u64) << 48) | ((x7 as u64) << 56);
        y as u8 == x0 && (y >> 8) as u8 == x1 && (y >> 16) as u8 == x2 && (y >> 24) as u8 == x3 && (
        y >> 32) as u8 == x4 && (y >> 40) as u8 == x5 && (y >> 48) as u8 == x6 && (y >> 56) as u8
            == x7
    }) by (bit_vector);
    assert(enc_le64(v) =~= b.subrange(p, p + 8));
}

/// An identifier re-encodes to the `w` bytes it was decoded from.
pub proof fn lemma_id_roundtrip(b: Seq<u8>, p: int, w: int)
    requires
        0 <= p,
        w == 4 || w == 8,
        p + w <= b.len(),
    ensures
        enc_id(id_at(b, p, w), w) == b.subrange(p, p + w),
{
    if w == 4 {
        lemma_le32_roundtrip(b, p);
        assert(enc_le32((le_u32_at(b, p) as u64) as u32) == enc_le32(le_u32_at(b, p)));
    } else {
        lemma_le64_roundtrip(b, p);
    }
}

/// The field type a decoded value carries.
pub open spec fn jtype_of_value(v: JavaValue) -> JavaType {
    match v {
        JavaValue::Object(_) => JavaType::Object,
        JavaValue::Boolean(_) => JavaType::Boolean,
        JavaValue::Char(_) => JavaType::Char,
        JavaValue::Float(_) => JavaType::Float,
        JavaValue::Double(_) => JavaType::Double,
        JavaValue::Byte(_) => JavaType::Byte,
        JavaValue::Short(_) => JavaType::Short,
        JavaValue::Int(_) => JavaType::Int,
        JavaValue::Long(_) => JavaType::Long,
    }
}

/// The wire bytes of one value, without its type tag. A boolean encodes
/// canonically as 0 or 1.
pub open spec fn enc_java_value(v: JavaValue) -> Seq<u8> {
    match v {
        JavaValue::Object(x) => enc_be32(x),
        JavaValue::Boolean(x) => seq![
            if x {
                1u8
            } else {
                0u8
            },
        ],
        JavaValue::Char(x) => enc_be16(x),
        JavaValue::Float(x) => enc_le32(x),
        JavaValue::Double(x) => enc_le64(x),
        JavaValue::Byte(x) => seq![x as u8],
        JavaValue::Short(x) => enc_be16(x as u16),
        JavaValue::Int(x) => enc_be32(x as u32),
        JavaValue::Long(x) => enc_be64(x as u64),
    }
}

/// The wire bytes of one type tag followed by one value of that type.
pub open spec fn enc_typed_value(v: JavaValue) -> Seq<u8> {
    seq![tag_of_jtype(jtype_of_value(v))] + enc_java_value(v)
}

/// Adjacent subranges of one buffer concatenate to the spanning subrange.
pub proof fn lemma_subrange_join(b: Seq<u8>, p: int, m: int, q: int)
    requires
        0 <= p <= m <= q <= b.len(),
    ensures
        b.subrange(p, m) + b.subrange(m, q) == b.subrange(p, q),
{
    assert(b.subrange(p, m) + b.subrange(m, q) =~= b.subrange(p, q));
}

/// A decoded non-boolean value re-encodes to the bytes it was decoded
/// from.
pub proof fn lemma_java_value_roundtrip(b: Seq<u8>, p: int, ty: JavaType)
    requires
        0 <= p <= b.len(),
        sparse_java_value(b, p, ty) is Ok,
        ty != JavaType::Boolean,
    ensures
        ({
            let (v, q) = sparse_java_value(b, p, ty)->Ok_0;
            p <= q <= b.len() && jtype_of_value(v) == ty && enc_java_value(v) == b.subrange(p, q)
        }),
{
    match ty {
        JavaType::Object => lemma_be32_roundtrip(b, p),
        JavaType::Boolean => {},
        JavaType::Char => lemma_be16_roundtrip(b, p),
        JavaType::Float => lemma_le32_roundtrip(b, p),
        JavaType::Double => lemma_le64_roundtrip(b, p),
        JavaType::Byte => {
            let x = b[p];
            assert((x as i8) as u8 == x) by (bit_vector);
            assert(seq![(b[p] as i8) as u8] =~= b.subrange(p, p + 1));
        },
        JavaType::Short => {
            let x = be_u16_at(b, p);
            assert((x as i16) as u16 == x) by (bit_vector);
            lemma_be16_roundtrip(b, p);
        },
        JavaType::Int => {
            let x = be_u32_at(b, p);
            assert((x as i32) as u32 == x) by (bit_vector);
            lemma_be32_roundtrip(b, p);
        },
        JavaType::Long => {
            let x = be_u64_at(b, p);
            assert((x as i64) as u64 == x) by (bit_vector);
            lemma_be64_roundtrip(b, p);
        },
    }
}

/// A decoded non-boolean tagged value re-encodes, tag byte included, to
/// the bytes it was decoded from.
pub proof fn lemma_typed_value_roundtrip(b: Seq<u8>, p: int)
    requires
        0 <= p <= b.len(),
        sparse_typed_value(b, p) is Ok,
        !(sparse_typed_value(b, p)->Ok_0.0 is Boolean),
    ensures
        ({
            let (v, q) = sparse_typed_value(b, p)->Ok_0;
            p < q <= b.len() && enc_typed_value(v) == b.subrange(p, q)
        }),
{
    let tag = b[p];
    let ty = jtype_of_tag(tag)->0;
    let (v, q) = sparse_java_value(b, p + 1, ty)->Ok_0;
    if ty == JavaType::Boolean {
        assert(v is Boolean);
    }
    lemma_java_value_roundtrip(b, p + 1, ty);
    assert(tag_of_jtype(ty) == tag);
    assert(seq![tag] =~= b.subrange(p, p + 1));
    lemma_subrange_join(b, p, p + 1, q);
}

/// The wire bytes of a run of values, front to back.
pub open spec fn enc_all<A>(s: Seq<A>, enc1: spec_fn(A) -> Seq<u8>) -> Seq<u8>
    decreases s.len(),
{
    if s.len() == 0 {
        Seq::empty()
    } else {
        enc1(s[0]) + enc_all(s.drop_first(), enc1)
    }
}

/// A run of decoded values re-encodes to the bytes it was decoded from,
/// provided each value in it does (`ok1` names the values whose
/// re-encoding is byte-faithful).
pub proof fn lemma_sparse_n_roundtrip<A>(
    b: Seq<u8>,
    step: spec_fn(int) -> Result<(A, int), Error>,
    enc1: spec_fn(A) -> Seq<u8>,
    ok1: spec_fn(A) -> bool,
    p: int,
    n: int,
)
    requires
        0 <= p <= b.len(),
        sparse_n(step, p, n) is Ok,
        forall|pp: int|
            0 <= pp <= b.len() && (#[trigger] step(pp)) is Ok && ok1(step(pp)->Ok_0.0) ==> {
                let (x, qq) = step(pp)->Ok_0;
                pp <= qq <= b.len() && enc1(x) == b.subrange(pp, qq)
            },
        forall|i: int|
            0 <= i < sparse_n(step, p, n)->Ok_0.0.len() ==> ok1(
                #[trigger] sparse_n(step, p, n)->Ok_0.0[i],
            ),
    ensures
        ({
            let (s, q) = sparse_n(step, p, n)->Ok_0;
            p <= q <= b.len() && s.len() == (if n >= 0 {
                n
            } else {
                0
            }) && enc_all(s, enc1) == b.subrange(p, q)
        }),
    decreases n,
{
    let (s, q) = sparse_n(step, p, n)->Ok_0;
    if n <= 0 {
        assert(enc_all(s, enc1) =~= b.subrange(p, q));
    } else {
        let (x, q1) = step(p)->Ok_0;
        let (s1, q2) = sparse_n(step, q1, n - 1)->Ok_0;
        assert(s == seq![x] + s1);
        assert(s[0] == x);
        assert forall|i: int| 0 <= i < s1.len() implies ok1(#[trigger] s1[i]) by {
            assert(s1[i] == s[i + 1]);
        }
        lemma_sparse_n_roundtrip(b, step, enc1, ok1, q1, n - 1);
        assert(s.drop_first() =~= s1);
        lemma_subrange_join(b, p, q1, q2);
    }
}

/// The wire bytes of one constant-pool entry.
pub open spec fn enc_constant(c: Constant) -> Seq<u8> {
    enc_be16(c.constant_pool_index) + enc_typed_value(c.java_value)
}

/// The wire bytes of one static field.
pub open spec fn enc_static_field(f: StaticField, w: int) -> Seq<u8> {
    enc_id(f.name_string_id, w) + enc_typed_value(f.java_value)
}

/// The wire bytes of one instance-field declaration.
pub open spec fn enc_instant_field(f: InstantField, w: int) -> Seq<u8> {
    enc_id(f.name_string_id, w) + seq![tag_of_jtype(f.java_type)]
}

/// The wire bytes of one frame-bearing root body.
pub open spec fn enc_object(o: Object, w: int) -> Seq<u8> {
    enc_id(o.object_id, w) + enc_be32(o.thread_serial_number) + enc_be32(
        o.frame_number_in_stack_trace as u32,
    )
}

/// The wire bytes of one thread-bearing root body.
pub open spec fn enc_native_object(o: NativeObject, w: int) -> Seq<u8> {
    enc_id(o.object_id, w) + enc_be32(o.thread_serial_number)
}

/// A decoded constant-pool entry with a non-boolean value re-encodes to
/// the bytes it was decoded from.
pub proof fn lemma_constant_roundtrip(b: Seq<u8>, p: int)
    requires
        0 <= p <= b.len(),
        sparse_constant(b, p) is Ok,
        !(sparse_constant(b, p)->Ok_0.0.java_value is Boolean),
    ensures
        ({
            let (c, q) = sparse_constant(b, p)->Ok_0;
            p <= q <= b.len() && enc_constant(c) == b.subrange(p, q)
        }),
{
    let (v, q) = sparse_typed_value(b, p + 2)->Ok_0;
    lemma_be16_roundtrip(b, p);
    lemma_typed_value_roundtrip(b, p + 2);
    lemma_subrange_join(b, p, p + 2, q);
}

/// A decoded static field with a non-boolean value re-encodes to the
/// bytes it was decoded from.
pub proof fn lemma_static_field_roundtrip(b: Seq<u8>, p: int, w: int)
    requires
        0 <= p <= b.len(),
        w == 4 || w == 8,
        sparse_static_field(b, p, w) is Ok,
        !(sparse_static_field(b, p, w)->Ok_0.0.java_value is Boolean),
    ensures
        ({
            let (f, q) = sparse_static_field(b, p, w)->Ok_0;
            p <= q <= b.len() && enc_static_field(f, w) == b.subrange(p, q)
        }),
{
    let (v, q) = sparse_typed_value(b, p + w)->Ok_0;
    lemma_id_roundtrip(b, p, w);
    lemma_typed_value_roundtrip(b, p + w);
    lemma_subrange_join(b, p, p + w, q);
}

/// A decoded instance-field declaration re-encodes to the bytes it was
/// decoded from.
pub proof fn lemma_instant_field_roundtrip(b: Seq<u8>, p: int, w: int)
    requires
        0 <= p <= b.len(),
        w == 4 || w == 8,
        sparse_instant_field(b, p, w) is Ok,
    ensures
        ({
            let (f, q) = sparse_instant_field(b, p, w)->Ok_0;
            p <= q <= b.len() && enc_instant_field(f, w) == b.subrange(p, q)
        }),
{
    lemma_id_roundtrip(b, p, w);
    let tag = b[p + w];
    let ty = jtype_of_tag(tag)->0;
    assert(tag_of_jtype(ty) == tag);
    assert(seq![tag] =~= b.subrange(p + w, p + w + 1));
    lemma_subrange_join(b, p, p + w, p + w + 1);
}

/// A decoded frame-bearing root body re-encodes to the bytes it was
/// decoded from.
pub proof fn lemma_object_roundtrip(b: Seq<u8>, p: int, w: int)
    requires
        0 <= p <= b.len(),
        w == 4 || w == 8,
        sparse_object(b, p, w) is Ok,
    ensures
        ({
            let (o, q) = sparse_object(b, p, w)->Ok_0;
            p <= q <= b.len() && enc_object(o, w) == b.subrange(p, q)
        }),
{
    lemma_id_roundtrip(b, p, w);
    lemma_be32_roundtrip(b, p + w);
    let x = be_u32_at(b, p + w + 4);
    assert((x as i32) as u32 == x) by (bit_vector);
    lemma_be32_roundtrip(b, p + w + 4);
    lemma_subrange_join(b, p, p + w, p + w + 4);
    lemma_subrange_join(b, p, p + w + 4, p + w + 8);
}

/// A decoded thread-bearing root body re-encodes to the bytes it was
/// decoded from.
pub proof fn lemma_native_object_roundtrip(b: Seq<u8>, p: int, w: int)
    requires
        0 <= p <= b.len(),
        w == 4 || w == 8,
        sparse_native_object(b, p, w) is Ok,
    ensures
        ({
            let (o, q) = sparse_native_object(b, p, w)->Ok_0;
            p <= q <= b.len() && enc_native_object(o, w) == b.subrange(p, q)
        }),
{
    lemma_id_roundtrip(b, p, w);
    lemma_be32_roundtrip(b, p + w);
    lemma_subrange_join(b, p, p + w, p + w + 4);
}

/// The entry encoder a constant-pool run repeats.
pub open spec fn enc_constant_fn() -> spec_fn(Constant) -> Seq<u8> {
    |c: Constant| enc_constant(c)
}

/// The entry encoder a static-field run repeats.
pub open spec fn enc_static_field_fn(w: int) -> spec_fn(StaticField) -> Seq<u8> {
    |f: StaticField| enc_static_field(f, w)
}

/// The entry encoder an instance-field run repeats.
pub open spec fn enc_instant_field_fn(w: int) -> spec_fn(InstantField) -> Seq<u8> {
    |f: InstantField| enc_instant_field(f, w)
}

/// The entry encoder an identifier run repeats.
pub open spec fn enc_id_fn(w: int) -> spec_fn(u64) -> Seq<u8> {
    |v: u64| enc_id(v, w)
}

/// The entry encoder a primitive-value run repeats.
pub open spec fn enc_value_fn() -> spec_fn(JavaValue) -> Seq<u8> {
    |v: JavaValue| enc_java_value(v)
}

/// Entries whose value is not a wire boolean: the one construct whose
/// decode is not byte-faithful.
pub open spec fn ok_constant_fn() -> spec_fn(Constant) -> bool {
    |c: Constant| !(c.java_value is Boolean)
}

/// Entries whose value is not a wire boolean.
pub open spec fn ok_static_field_fn() -> spec_fn(StaticField) -> bool {
    |f: StaticField| !(f.java_value is Boolean)
}

/// The always-true entry condition, for runs whose decode is always
/// byte-faithful.
pub open spec fn ok_any_fn<A>() -> spec_fn(A) -> bool {
    |x: A| true
}

/// No boolean-typed value occurs anywhere in the sub-record.
pub open spec fn no_boolean_values(st: SubTagView) -> bool {
    match st {
        SubTagView::ClassDump { constants, static_fields, .. } => (forall|i: int|
            0 <= i < constants.len() ==> !((#[trigger] constants[i]).java_value is Boolean))
            && (forall|i: int|
            0 <= i < static_fields.len() ==> !((#[trigger] static_fields[i]).java_value
                is Boolean)),
        SubTagView::PrimitiveArrayDump { element_type, .. } => element_type != JavaType::Boolean,
        _ => true,
    }
}

/// The wire bytes of a class-dump body (after its sub-tag byte).
pub open spec fn enc_class_dump_body(st: SubTagView, w: int) -> Seq<u8>
    recommends
        st is ClassDump,
{
    match st {
        SubTagView::ClassDump {
            class_object_id,
            stack_trace_serial_number,
            super_class_object_id,
            class_loader_object_id,
            signers_object_id,
            protection_domain_object_id,
            instance_size,
            constants,
            static_fields,
            instant_fields,
        } => enc_id(class_object_id, w) + enc_be32(stack_trace_serial_number) + enc_id(
            super_class_object_id,
            w,
        ) + enc_id(class_loader_object_id, w) + enc_id(signers_object_id, w) + enc_id(
            protection_domain_object_id,
            w,
        ) + enc_be32(instance_size) + enc_be16(constants.len() as u16) + enc_all(
            constants,
            enc_constant_fn(),
        ) + enc_be16(static_fields.len() as u16) + enc_all(static_fields, enc_static_field_fn(w))
            + enc_be16(instant_fields.len() as u16) + enc_all(
            instant_fields,
            enc_instant_field_fn(w),
        ),
        _ => Seq::empty(),
    }
}

/// The wire bytes of one whole sub-record, sub-tag byte included.
pub open spec fn enc_subtag(st: SubTagView, w: int) -> Seq<u8> {
    match st {
        SubTagView::RootUnknown(id) => seq![0xFFu8] + enc_id(id, w),
        SubTagView::RootJniGlobal { object_id, jni_global_ref_id } => seq![0x01u8] + enc_id(
            object_id,
            w,
        ) + enc_id(jni_global_ref_id, w),
        SubTagView::RootJniLocal(o) => seq![0x02u8] + enc_object(o, w),
        SubTagView::RootJavaFrame(o) => seq![0x03u8] + enc_object(o, w),
        SubTagView::RootNativeStack(o) => seq![0x04u8] + enc_native_object(o, w),
        SubTagView::RootStickyClass(id) => seq![0x05u8] + enc_id(id, w),
        SubTagView::RootThreadBlock(o) => seq![0x06u8] + enc_native_object(o, w),
        SubTagView::RootMonitorUsed(id) => seq![0x07u8] + enc_id(id, w),
        SubTagView::RootThreadObject(o) => seq![0x08u8] + enc_object(o, w),
        SubTagView::RootInternedString(id) => seq![0x89u8] + enc_id(id, w),
        SubTagView::RootFinalizing(id) => seq![0x8Au8] + enc_id(id, w),
        SubTagView::RootDebugger(id) => seq![0x8Bu8] + enc_id(id, w),
        SubTagView::RootReferenceCleanup(id) => seq![0x8Cu8] + enc_id(id, w),
        SubTagView::RootVmInternal(id) => seq![0x8Du8] + enc_id(id, w),
        SubTagView::RootJniMonitor(id) => seq![0x8Eu8] + enc_id(id, w),
        SubTagView::HeapUnreachable(id) => seq![0x90u8] + enc_id(id, w),
        SubTagView::ClassDump { .. } => seq![0x20u8] + enc_class_dump_body(st, w),
        SubTagView::InstanceDump {
            object_id,
            stack_trace_serial_number,
            class_object_id,
            instance_field_values,
        } => seq![0x21u8] + enc_id(object_id, w) + enc_be32(stack_trace_serial_number) + enc_id(
            class_object_id,
            w,
        ) + enc_be32(instance_field_values.len() as u32) + instance_field_values,
        SubTagView::ObjectArrayDump {
            array_object_id,
            stack_trace_serial_number,
            array_class_object_id,
            elements,
        } => seq![0x22u8] + enc_id(array_object_id, w) + enc_be32(stack_trace_serial_number)
            + enc_be32(elements.len() as u32) + enc_id(array_class_object_id, w) + enc_all(
            elements,
            enc_id_fn(w),
        ),
        SubTagView::PrimitiveArrayDump {
            array_object_id,
            stack_trace_serial_number,
            element_type,
            elements,
        } => seq![0x23u8] + enc_id(array_object_id, w) + enc_be32(stack_trace_serial_number)
            + enc_be32(elements.len() as u32) + seq![tag_of_jtype(element_type)] + enc_all(
            elements,
            enc_value_fn(),
        ),
    }
}

/// A decoded class-dump body whose values hold no wire boolean re-encodes
/// to the bytes it was decoded from.
#[verifier::rlimit(100)]
proof fn lemma_class_dump_roundtrip(b: Seq<u8>, p: int, w: int)
    requires
        0 <= p <= b.len(),
        w == 4 || w == 8,
        sparse_class_dump(b, p, w) is Ok,
        no_boolean_values(sparse_class_dump(b, p, w)->Ok_0.0),
    ensures
        ({
            let (st, q) = sparse_class_dump(b, p, w)->Ok_0;
            p <= q <= b.len() && enc_class_dump_body(st, w) == b.subrange(p, q)
        }),
{
    let (st, q) = sparse_class_dump(b, p, w)->Ok_0;
    let p1 = p + w;
    let p2 = p1 + 4;
    let p3 = p2 + w;
    let p4 = p3 + w;
    let p5 = p4 + w;
    let p6 = p5 + w;
    let p7 = p6 + 4;
    let p8 = p7 + 2;
    let ccount = be_u16_at(b, p7);
    let (constants, p9) = sparse_n(constant_step(b), p8, ccount as int)->Ok_0;
    let p10 = p9 + 2;
    let scount = be_u16_at(b, p9);
    let (static_fields, p11) = sparse_n(static_field_step(b, w), p10, scount as int)->Ok_0;
    let p12 = p11 + 2;
    let icount = be_u16_at(b, p11);
    let (instant_fields, p13) = sparse_n(instant_field_step(b, w), p12, icount as int)->Ok_0;

    lemma_id_roundtrip(b, p, w);
    lemma_be32_roundtrip(b, p1);
    lemma_id_roundtrip(b, p2, w);
    lemma_id_roundtrip(b, p3, w);
    lemma_id_roundtrip(b, p4, w);
    lemma_id_roundtrip(b, p5, w);
    lemma_be32_roundtrip(b, p6);
    lemma_be16_roundtrip(b, p7);

    assert forall|pp: int|
        0 <= pp <= b.len() && (#[trigger] constant_step(b)(pp)) is Ok && ok_constant_fn()(
            constant_step(b)(pp)->Ok_0.0,
        ) implies {
        let (x, qq) = constant_step(b)(pp)->Ok_0;
        pp <= qq <= b.len() && enc_constant_fn()(x) == b.subrange(pp, qq)
    } by {
        lemma_constant_roundtrip(b, pp);
    }
    lemma_sparse_n_roundtrip(b, constant_step(b), enc_constant_fn(), ok_constant_fn(), p8,
        ccount as int);
    assert(constants.len() as u16 == ccount);

    lemma_be16_roundtrip(b, p9);
    assert forall|pp: int|
        0 <= pp <= b.len() && (#[trigger] static_field_step(b, w)(pp)) is Ok && ok_static_field_fn()(
            static_field_step(b, w)(pp)->Ok_0.0,
        ) implies {
        let (x, qq) = static_field_step(b, w)(pp)->Ok_0;
        pp <= qq <= b.len() && enc_static_field_fn(w)(x) == b.subrange(pp, qq)
    } by {
        lemma_static_field_roundtrip(b, pp, w);
    }
    lemma_sparse_n_roundtrip(b, static_field_step(b, w), enc_static_field_fn(w),
        ok_static_field_fn(), p10, scount as int);
    assert(static_fields.len() as u16 == scount);

    lemma_be16_roundtrip(b, p11);
    assert forall|pp: int|
        0 <= pp <= b.len() && (#[trigger] instant_field_step(b, w)(pp)) is Ok && ok_any_fn::<
            InstantField,
        >()(instant_field_step(b, w)(pp)->Ok_0.0) implies {
        let (x, qq) = instant_field_step(b, w)(pp)->Ok_0;
        pp <= qq <= b.len() && enc_instant_field_fn(w)(x) == b.subrange(pp, qq)
    } by {
        lemma_instant_field_roundtrip(b, pp, w);
    }
    lemma_sparse_n_roundtrip(b, instant_field_step(b, w), enc_instant_field_fn(w), ok_any_fn::<
        InstantField,
    >(), p12, icount as int);
    assert(instant_fields.len() as u16 == icount);

    lemma_subrange_join(b, p, p1, p2);
    lemma_subrange_join(b, p, p2, p3);
    lemma_subrange_join(b, p, p3, p4);
    lemma_subrange_join(b, p, p4, p5);
    lemma_subrange_join(b, p, p5, p6);
    lemma_subrange_join(b, p, p6, p7);
    lemma_subrange_join(b, p, p7, p8);
    lemma_subrange_join(b, p, p8, p9);
    lemma_subrange_join(b, p, p9, p10);
    lemma_subrange_join(b, p, p10, p11);
    lemma_subrange_join(b, p, p11, p12);
    lemma_subrange_join(b, p, p12, p13);
}

/// A decoded sub-record that holds no wire boolean re-encodes, sub-tag
/// byte included, to exactly the bytes it was decoded from.
#[verifier::rlimit(100)]
pub proof fn lemma_subtag_roundtrip(b: Seq<u8>, p: int, w: int)
    requires
        0 <= p <= b.len(),
        w == 4 || w == 8,
        sparse_subtag(b, p, w) is Ok,
        no_boolean_values(sparse_subtag(b, p, w)->Ok_0.0),
    ensures
        ({
            let (st, q) = sparse_subtag(b, p, w)->Ok_0;
            p < q <= b.len() && enc_subtag(st, w) == b.subrange(p, q)
        }),
{
    let (st, q) = sparse_subtag(b, p, w)->Ok_0;
    let tag = b[p];
    let p1 = p + 1;
    assert(seq![tag] =~= b.subrange(p, p1));
    if tag == 0xFF || tag == 0x05 || tag == 0x07 || tag == 0x89 || tag == 0x8A || tag == 0x8B
        || tag == 0x8C || tag == 0x8D || tag == 0x8E || tag == 0x90 {
        lemma_id_roundtrip(b, p1, w);
        lemma_subrange_join(b, p, p1, p1 + w);
    } else if tag == 0x01 {
        lemma_id_roundtrip(b, p1, w);
        lemma_id_roundtrip(b, p1 + w, w);
        lemma_subrange_join(b, p, p1, p1 + w);
        lemma_subrange_join(b, p, p1 + w, p1 + w + w);
    } else if tag == 0x02 || tag == 0x03 || tag == 0x08 {
        lemma_object_roundtrip(b, p1, w);
        lemma_subrange_join(b, p, p1, q);
    } else if tag == 0x04 || tag == 0x06 {
        lemma_native_object_roundtrip(b, p1, w);
        lemma_subrange_join(b, p, p1, q);
    } else if tag == 0x20 {
        lemma_class_dump_roundtrip(b, p1, w);
        lemma_subrange_join(b, p, p1, q);
    } else if tag == 0x21 {
        let p2 = p1 + w;
        let p3 = p2 + 4;
        let p4 = p3 + w;
        let p5 = p4 + 4;
        let count = be_u32_at(b, p4);
        lemma_id_roundtrip(b, p1, w);
        lemma_be32_roundtrip(b, p2);
        lemma_id_roundtrip(b, p3, w);
        lemma_be32_roundtrip(b, p4);
        assert(b.subrange(p5, p5 + count as int).len() as u32 == count);
        lemma_subrange_join(b, p, p1, p2);
        lemma_subrange_join(b, p, p2, p3);
        lemma_subrange_join(b, p, p3, p4);
        lemma_subrange_join(b, p, p4, p5);
        lemma_subrange_join(b, p, p5, q);
    } else if tag == 0x22 {
        let p2 = p1 + w;
        let p3 = p2 + 4;
        let p4 = p3 + 4;
        let p5 = p4 + w;
        let count = be_u32_at(b, p3);
        lemma_id_roundtrip(b, p1, w);
        lemma_be32_roundtrip(b, p2);
        lemma_be32_roundtrip(b, p3);
        lemma_id_roundtrip(b, p4, w);
        assert forall|pp: int|
            0 <= pp <= b.len() && (#[trigger] id_step(b, w)(pp)) is Ok && ok_any_fn::<u64>()(
                id_step(b, w)(pp)->Ok_0.0,
            ) implies {
            let (x, qq) = id_step(b, w)(pp)->Ok_0;
            pp <= qq <= b.len() && enc_id_fn(w)(x) == b.subrange(pp, qq)
        } by {
            lemma_id_roundtrip(b, pp, w);
        }
        lemma_sparse_n_roundtrip(b, id_step(b, w), enc_id_fn(w), ok_any_fn::<u64>(), p5,
            count as int);
        let (elements, pe) = sparse_n(id_step(b, w), p5, count as int)->Ok_0;
        assert(elements.len() as u32 == count);
        lemma_subrange_join(b, p, p1, p2);
        lemma_subrange_join(b, p, p2, p3);
        lemma_subrange_join(b, p, p3, p4);
        lemma_subrange_join(b, p, p4, p5);
        lemma_subrange_join(b, p, p5, q);
    } else if tag == 0x23 {
        let p2 = p1 + w;
        let p3 = p2 + 4;
        let p4 = p3 + 4;
        let p5 = p4 + 1;
        let count = be_u32_at(b, p3);
        let ty = jtype_of_tag(b[p4])->0;
        lemma_id_roundtrip(b, p1, w);
        lemma_be32_roundtrip(b, p2);
        lemma_be32_roundtrip(b, p3);
        assert(tag_of_jtype(ty) == b[p4]);
        assert(seq![tag_of_jtype(ty)] =~= b.subrange(p4, p5));
        assert forall|pp: int|
            0 <= pp <= b.len() && (#[trigger] value_step(b, ty)(pp)) is Ok && ok_any_fn::<
                JavaValue,
            >()(value_step(b, ty)(pp)->Ok_0.0) implies {
            let (x, qq) = value_step(b, ty)(pp)->Ok_0;
            pp <= qq <= b.len() && enc_value_fn()(x) == b.subrange(pp, qq)
        } by {
            lemma_java_value_roundtrip(b, pp, ty);
        }
        lemma_sparse_n_roundtrip(b, value_step(b, ty), enc_value_fn(), ok_any_fn::<JavaValue>(),
            p5, count as int);
        let (elements, pe) = sparse_n(value_step(b, ty), p5, count as int)->Ok_0;
        assert(elements.len() as u32 == count);
        lemma_subrange_join(b, p, p1, p2);
        lemma_subrange_join(b, p, p2, p3);
        lemma_subrange_join(b, p, p3, p4);
        lemma_subrange_join(b, p, p4, p5);
        lemma_subrange_join(b, p, p5, q);
    }
}

/// The sub-record encoder a heap-dump run repeats.
pub open spec fn enc_subtag_fn(w: int) -> spec_fn(SubTagView) -> Seq<u8> {
    |st: SubTagView| enc_subtag(st, w)
}

/// No boolean-typed value occurs in any sub-record of the run.
pub open spec fn all_no_boolean(sts: Seq<SubTagView>) -> bool {
    forall|i: int| 0 <= i < sts.len() ==> no_boolean_values(#[trigger] sts[i])
}

/// A decoded heap-dump region whose sub-records hold no wire boolean
/// re-encodes to exactly the bytes it was decoded from, and those bytes
/// are exactly the region's declared budget.
pub proof fn lemma_subtags_roundtrip(b: Seq<u8>, p: int, w: int, budget: int)
    requires
        0 <= p <= b.len(),
        w == 4 || w == 8,
        sparse_subtags(b, p, w, budget) is Ok,
        all_no_boolean(sparse_subtags(b, p, w, budget)->Ok_0.0),
    ensures
        ({
            let (sts, q) = sparse_subtags(b, p, w, budget)->Ok_0;
            p <= q <= b.len() && q - p == budget && enc_all(sts, enc_subtag_fn(w)) == b.subrange(
                p,
                q,
            )
        }),
    decreases budget,
{
    let (sts, q) = sparse_subtags(b, p, w, budget)->Ok_0;
    if budget <= 0 {
        assert(enc_all(sts, enc_subtag_fn(w)) =~= b.subrange(p, q));
    } else {
        let (st, q1) = sparse_subtag(b, p, w)->Ok_0;
        let (rest, q2) = sparse_subtags(b, q1, w, budget - (q1 - p))->Ok_0;
        assert(sts == seq![st] + rest);
        assert(sts[0] == st);
        lemma_subtag_roundtrip(b, p, w);
        assert forall|i: int| 0 <= i < rest.len() implies no_boolean_values(
            #[trigger] rest[i],
        ) by {
            assert(rest[i] == sts[i + 1]);
        }
        assert(all_no_boolean(rest));
        lemma_subtags_roundtrip(b, q1, w, budget - (q1 - p));
        assert(sts.drop_first() =~= rest);
        lemma_subrange_join(b, p, q1, q2);
    }
}

/// No boolean-typed value occurs anywhere in the record.
pub open spec fn record_no_boolean_values(rv: RecordView) -> bool {
    match rv {
        RecordView::HeapDump(sts) => all_no_boolean(sts),
        _ => true,
    }
}

/// The wire bytes of one record body (after the nine-byte tag, timestamp
/// and length prefix).
pub open spec fn enc_record_body(rv: RecordView, w: int) -> Seq<u8> {
    match rv {
        RecordView::StringConst { id, content } => enc_id(id, w) + vstd::utf8::encode_utf8(
            content,
        ),
        RecordView::LoadClass {
            serial_number,
            object_id,
            stack_trace_serial_number,
            class_name_id,
        } => enc_be32(serial_number) + enc_id(object_id, w) + enc_be32(stack_trace_serial_number)
            + enc_id(class_name_id, w),
        RecordView::UnLoadClass(serial_number) => enc_be32(serial_number),
        RecordView::StackFrame {
            id,
            method_name_id,
            method_signature_id,
            source_file_name_id,
            class_serial_number,
            line_no,
        } => enc_id(id, w) + enc_id(method_name_id, w) + enc_id(method_signature_id, w) + enc_id(
            source_file_name_id,
            w,
        ) + enc_be32(class_serial_number) + enc_be32(line_no as u32),
        RecordView::StackTrace { serial_number, thread_serial_number, stack_frame_ids } => (
        enc_be32(serial_number) + enc_be32(thread_serial_number) + enc_be32(
            stack_frame_ids.len() as u32,
        ) + enc_all(stack_frame_ids, enc_id_fn(w))),
        RecordView::HeapDump(sts) => enc_all(sts, enc_subtag_fn(w)),
        RecordView::Unknown { tag, content } => content,
    }
}

/// Byte-for-byte idempotence of decode then encode: a decoded record that
/// holds no wire boolean re-encodes to exactly the bytes it was decoded
/// from. The nine prefix bytes carry the only information the decoded
/// shape does not: the tag byte and the four uninterpreted timestamp
/// bytes; the length field is redundant, being exactly the re-encoded
/// body's length.
#[verifier::rlimit(100)]
pub proof fn lemma_record_roundtrip(b: Seq<u8>, p: int, w: int)
    requires
        0 <= p <= b.len(),
        w == 4 || w == 8,
        sparse_record(b, p, w) is Ok,
        record_no_boolean_values(sparse_record(b, p, w)->Ok_0.0),
    ensures
        ({
            let (rv, q) = sparse_record(b, p, w)->Ok_0;
            p + 9 <= q <= b.len() && b.subrange(p, q) == b.subrange(p, p + 9) + enc_record_body(
                rv,
                w,
            ) && b.subrange(p + 5, p + 9) == enc_be32(((q - p) - 9) as u32)
        }),
{
    let (rv, q) = sparse_record(b, p, w)->Ok_0;
    let tag = b[p];
    let len = be_u32_at(b, p + 5);
    let p3 = p + 9;
    lemma_be32_roundtrip(b, p + 5);
    if tag == crate::constant::TAG_STRING {
        let p4 = p3 + w;
        lemma_id_roundtrip(b, p3, w);
        let sb = b.subrange(p4, p4 + (len as int - w));
        vstd::utf8::decode_utf8_encode_utf8(sb);
        lemma_subrange_join(b, p3, p4, q);
    } else if tag == crate::constant::TAG_LOAD_CLASS {
        let p4 = p3 + 4;
        let p5 = p4 + w;
        let p6 = p5 + 4;
        lemma_be32_roundtrip(b, p3);
        lemma_id_roundtrip(b, p4, w);
        lemma_be32_roundtrip(b, p5);
        lemma_id_roundtrip(b, p6, w);
        lemma_subrange_join(b, p3, p4, p5);
        lemma_subrange_join(b, p3, p5, p6);
        lemma_subrange_join(b, p3, p6, q);
    } else if tag == crate::constant::TAG_UNLOAD_CLASS {
        lemma_be32_roundtrip(b, p3);
    } else if tag == crate::constant::TAG_STACK_FRAME {
        let p4 = p3 + w;
        let p5 = p4 + w;
        let p6 = p5 + w;
        let p7 = p6 + w;
        let p8 = p7 + 4;
        lemma_id_roundtrip(b, p3, w);
        lemma_id_roundtrip(b, p4, w);
        lemma_id_roundtrip(b, p5, w);
        lemma_id_roundtrip(b, p6, w);
        lemma_be32_roundtrip(b, p7);
        let x = be_u32_at(b, p8);
        assert((x as i32) as u32 == x) by (bit_vector);
        lemma_be32_roundtrip(b, p8);
        lemma_subrange_join(b, p3, p4, p5);
        lemma_subrange_join(b, p3, p5, p6);
        lemma_subrange_join(b, p3, p6, p7);
        lemma_subrange_join(b, p3, p7, p8);
        lemma_subrange_join(b, p3, p8, q);
    } else if tag == crate::constant::TAG_STACK_TRACE {
        let p4 = p3 + 4;
        let p5 = p4 + 4;
        let p6 = p5 + 4;
        let count = be_u32_at(b, p5);
        lemma_be32_roundtrip(b, p3);
        lemma_be32_roundtrip(b, p4);
        lemma_be32_roundtrip(b, p5);
        assert forall|pp: int|
            0 <= pp <= b.len() && (#[trigger] id_step(b, w)(pp)) is Ok && ok_any_fn::<u64>()(
                id_step(b, w)(pp)->Ok_0.0,
            ) implies {
            let (x, qq) = id_step(b, w)(pp)->Ok_0;
            pp <= qq <= b.len() && enc_id_fn(w)(x) == b.subrange(pp, qq)
        } by {
            lemma_id_roundtrip(b, pp, w);
        }
        lemma_sparse_n_roundtrip(b, id_step(b, w), enc_id_fn(w), ok_any_fn::<u64>(), p6,
            count as int);
        let (ids, pe) = sparse_n(id_step(b, w), p6, count as int)->Ok_0;
        assert(ids.len() as u32 == count);
        lemma_subrange_join(b, p3, p4, p5);
        lemma_subrange_join(b, p3, p5, p6);
        lemma_subrange_join(b, p3, p6, q);
    } else if tag == crate::constant::TAG_HEAP_DUMP || tag == crate::constant::TAG_HEAP_DUMP_SEGMENT {
        let sts = sparse_subtags(b, p3, w, len as int)->Ok_0.0;
        assert(rv == RecordView::HeapDump(sts));
        assert(record_no_boolean_values(RecordView::HeapDump(sts)));
        assert(all_no_boolean(sts));
        lemma_subtags_roundtrip(b, p3, w, len as int);
    } else {
    }
    lemma_subrange_join(b, p, p3, q);
}

/// No boolean-typed value occurs in any record of the run.
pub open spec fn all_records_no_boolean(rvs: Seq<RecordView>) -> bool {
    forall|i: int| 0 <= i < rvs.len() ==> record_no_boolean_values(#[trigger] rvs[i])
}

/// The wire bytes of a run of records: for each record, its five original
/// tag and timestamp bytes (`heads[i]`), the length of its re-encoded
/// body, and the body itself.
pub open spec fn enc_records(rvs: Seq<RecordView>, heads: Seq<Seq<u8>>, w: int) -> Seq<u8>
    decreases rvs.len(),
{
    if rvs.len() == 0 {
        Seq::empty()
    } else {
        heads[0] + enc_be32(enc_record_body(rvs[0], w).len() as u32) + enc_record_body(rvs[0], w)
            + enc_records(rvs.drop_first(), heads.drop_first(), w)
    }
}

/// Assembles the stream witness for one record in front of an already
/// re-encoded tail.
#[verifier::spinoff_prover]
proof fn lemma_enc_records_cons(
    b: Seq<u8>,
    p: int,
    q1: int,
    rvs: Seq<RecordView>,
    rv: RecordView,
    rest: Seq<RecordView>,
    heads_rest: Seq<Seq<u8>>,
    w: int,
)
    requires
        0 <= p,
        p + 9 <= q1 <= b.len(),
        rvs == seq![rv] + rest,
        b.subrange(p, q1) == b.subrange(p, p + 9) + enc_record_body(rv, w),
        enc_be32(((q1 - p) - 9) as u32) == b.subrange(p + 5, p + 9),
        heads_rest.len() == rest.len(),
        enc_records(rest, heads_rest, w) == b.subrange(q1, b.len() as int),
    ensures
        exists|heads: Seq<Seq<u8>>|
            heads.len() == rvs.len() && #[trigger] enc_records(rvs, heads, w) == b.subrange(
                p,
                b.len() as int,
            ),
{
    let heads = seq![b.subrange(p, p + 5)] + heads_rest;
    let body = enc_record_body(rv, w);
    let combined = b.subrange(p, p + 9) + body;
    assert(b.subrange(p, q1).len() == q1 - p);
    assert(combined.len() == 9 + body.len());
    assert(body.len() == (q1 - p) - 9);
    assert forall|i: int| 0 <= i < body.len() implies body[i] == b[p + 9 + i] by {
        assert(combined[9 + i] == body[i]);
        assert(b.subrange(p, q1)[9 + i] == b[p + 9 + i]);
    }
    assert(body =~= b.subrange(p + 9, q1));
    assert(rvs[0] == rv);
    assert(heads[0] == b.subrange(p, p + 5));
    assert(heads.drop_first() =~= heads_rest);
    assert(rvs.drop_first() =~= rest);
    lemma_subrange_join(b, p, p + 5, p + 9);
    lemma_subrange_join(b, p, p + 9, q1);
    lemma_subrange_join(b, p, q1, b.len() as int);
    assert(enc_records(rvs, heads, w) == b.subrange(p, b.len() as int));
    assert(heads.len() == rvs.len());
}

/// Byte-for-byte idempotence of decode then encode over the whole record
/// stream: re-encoding every decoded record, each with the five tag and
/// timestamp bytes it was decoded from, reproduces the entire remaining
/// buffer exactly.
#[verifier::spinoff_prover]
#[verifier::rlimit(100)]
pub proof fn lemma_records_roundtrip(b: Seq<u8>, p: int, w: int)
    requires
        0 <= p <= b.len(),
        w == 4 || w == 8,
        sparse_records(b, p, w) is Ok,
        all_records_no_boolean(sparse_records(b, p, w)->Ok_0.0),
    ensures
        ({
            let rvs = sparse_records(b, p, w)->Ok_0.0;
            exists|heads: Seq<Seq<u8>>|
                heads.len() == rvs.len() && #[trigger] enc_records(rvs, heads, w) == b.subrange(
                    p,
                    b.len() as int,
                )
        }),
    decreases b.len() - p,
{
    let (rvs, q) = sparse_records(b, p, w)->Ok_0;
    if p >= b.len() {
        let heads = Seq::<Seq<u8>>::empty();
        assert(enc_records(rvs, heads, w) =~= b.subrange(p, b.len() as int));
    } else {
        let (rv, q1) = sparse_record(b, p, w)->Ok_0;
        let (rest, q2) = sparse_records(b, q1, w)->Ok_0;
        assert(rvs == seq![rv] + rest);
        assert(rvs[0] == rv);
        lemma_record_roundtrip(b, p, w);
        assert forall|i: int| 0 <= i < rest.len() implies record_no_boolean_values(
            #[trigger] rest[i],
        ) by {
            assert(rest[i] == rvs[i + 1]);
        }
        assert(all_records_no_boolean(rest));
        lemma_records_roundtrip(b, q1, w);
        let heads_rest = choose|h: Seq<Seq<u8>>|
            h.len() == rest.len() && #[trigger] enc_records(rest, h, w) == b.subrange(
                q1,
                b.len() as int,
            );
        lemma_enc_records_cons(b, p, q1, rvs, rv, rest, heads_rest, w);
    }
}

} // verus!
