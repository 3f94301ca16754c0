//! The decoded record model: heap-dump sub-records and the entry types
//! that class dumps carry, each with the spec-level decoder that its
//! parser is proved against.
//!
//! Sub-records have no individually declared length, so an unrecognized
//! sub-tag is an error, never a skip.

use vstd::prelude::*;

use crate::errors::Error;
use crate::javatype::{
    jtype_of_tag, sparse_java_value, sparse_typed_value, JavaType, JavaValue,
};
use crate::slice::Slice;
use crate::wire::{
    lemma_sparse_n_err, lemma_sparse_n_snoc, sparse_n, sread_bytes, sread_i32, sread_id, sread_u16,
    sread_u32, sread_u8,
};

verus! {

/// A GC root that names an object, its thread, and a stack-frame index.
#[derive(Debug, Copy, Clone, PartialEq, Eq, Structural)]
pub struct Object {
    pub object_id: u64,
    pub thread_serial_number: u32,
    pub frame_number_in_stack_trace: i32,
}

/// A GC root that names an object and its thread.
#[derive(Debug, Copy, Clone, PartialEq, Eq, Structural)]
pub struct NativeObject {
    pub object_id: u64,
    pub thread_serial_number: u32,
}

/// One instance-field declaration of a class dump: a name and a type, with
/// no value (instance values live in the instance dump).
#[derive(Debug, Copy, Clone, PartialEq, Eq, Structural)]
pub struct InstantField {
    pub name_string_id: u64,
    pub java_type: JavaType,
}

/// One static field of a class dump: a name and a typed value.
#[derive(Debug, Copy, Clone, PartialEq, Eq, Structural)]
pub struct StaticField {
    pub name_string_id: u64,
    pub java_value: JavaValue,
}

/// One constant-pool entry of a class dump: an index and a typed value.
#[derive(Debug, Copy, Clone, PartialEq, Eq, Structural)]
pub struct Constant {
    pub constant_pool_index: u16,
    pub java_value: JavaValue,
}

/// An `Object` read at position `p`: identifier, thread serial, signed
/// frame index.
pub open spec fn sparse_object(b: Seq<u8>, p: int, w: int) -> Result<(Object, int), Error>
    recommends
        0 <= p <= b.len(),
{
    match sread_id(b, p, w) {
        Err(e) => Err(e),
        Ok((object_id, p1)) => match sread_u32(b, p1) {
            Err(e) => Err(e),
            Ok((thread_serial_number, p2)) => match sread_i32(b, p2) {
                Err(e) => Err(e),
                Ok((frame_number_in_stack_trace, p3)) => Ok(
                    (Object { object_id, thread_serial_number, frame_number_in_stack_trace }, p3),
                ),
            },
        },
    }
}

/// A `NativeObject` read at position `p`: identifier, thread serial.
pub open spec fn sparse_native_object(b: Seq<u8>, p: int, w: int) -> Result<
    (NativeObject, int),
    Error,
>
    recommends
        0 <= p <= b.len(),
{
    match sread_id(b, p, w) {
        Err(e) => Err(e),
        Ok((object_id, p1)) => match sread_u32(b, p1) {
            Err(e) => Err(e),
            Ok((thread_serial_number, p2)) => Ok(
                (NativeObject { object_id, thread_serial_number }, p2),
            ),
        },
    }
}

/// An `InstantField` read at position `p`: name identifier, type tag.
pub open spec fn sparse_instant_field(b: Seq<u8>, p: int, w: int) -> Result<
    (InstantField, int),
    Error,
>
    recommends
        0 <= p <= b.len(),
{
    match sread_id(b, p, w) {
        Err(e) => Err(e),
        Ok((name_string_id, p1)) => match sread_u8(b, p1) {
            Err(e) => Err(e),
            Ok((t, p2)) => match jtype_of_tag(t) {
                None => Err(Error::UnknownJavaType(t)),
                Some(java_type) => Ok((InstantField { name_string_id, java_type }, p2)),
            },
        },
    }
}

/// A `StaticField` read at position `p`: name identifier, typed value.
pub open spec fn sparse_static_field(b: Seq<u8>, p: int, w: int) -> Result<
    (StaticField, int),
    Error,
>
    recommends
        0 <= p <= b.len(),
{
    match sread_id(b, p, w) {
        Err(e) => Err(e),
        Ok((name_string_id, p1)) => match sparse_typed_value(b, p1) {
            Err(e) => Err(e),
            Ok((java_value, p2)) => Ok((StaticField { name_string_id, java_value }, p2)),
        },
    }
}

/// A `Constant` read at position `p`: pool index, typed value.
pub open spec fn sparse_constant(b: Seq<u8>, p: int) -> Result<(Constant, int), Error>
    recommends
        0 <= p <= b.len(),
{
    match sread_u16(b, p) {
        Err(e) => Err(e),
        Ok((constant_pool_index, p1)) => match sparse_typed_value(b, p1) {
            Err(e) => Err(e),
            Ok((java_value, p2)) => Ok((Constant { constant_pool_index, java_value }, p2)),
        },
    }
}

/// The single-entry decoder that a constant-pool loop repeats.
pub open spec fn constant_step(b: Seq<u8>) -> spec_fn(int) -> Result<(Constant, int), Error> {
    |p: int| sparse_constant(b, p)
}

/// The single-entry decoder that a static-field loop repeats.
pub open spec fn static_field_step(b: Seq<u8>, w: int) -> spec_fn(int) -> Result<
    (StaticField, int),
    Error,
> {
    |p: int| sparse_static_field(b, p, w)
}

/// The single-entry decoder that an instance-field loop repeats.
pub open spec fn instant_field_step(b: Seq<u8>, w: int) -> spec_fn(int) -> Result<
    (InstantField, int),
    Error,
> {
    |p: int| sparse_instant_field(b, p, w)
}

/// The single-entry decoder that an identifier-array loop repeats.
pub open spec fn id_step(b: Seq<u8>, w: int) -> spec_fn(int) -> Result<(u64, int), Error> {
    |p: int| sread_id(b, p, w)
}

/// The single-entry decoder that a primitive-array loop repeats.
pub open spec fn value_step(b: Seq<u8>, ty: JavaType) -> spec_fn(int) -> Result<
    (JavaValue, int),
    Error,
> {
    |p: int| sparse_java_value(b, p, ty)
}

/// One heap-dump sub-record: a GC root, a class layout, an object
/// instance, or an array.
#[derive(Debug, PartialEq)]
pub enum SubTag {
    RootUnknown(u64),
    RootJniGlobal { object_id: u64, jni_global_ref_id: u64 },
    RootJniLocal(Object),
    RootJavaFrame(Object),
    RootNativeStack(NativeObject),
    RootStickyClass(u64),
    RootThreadBlock(NativeObject),
    RootMonitorUsed(u64),
    RootThreadObject(Object),
    RootInternedString(u64),
    RootFinalizing(u64),
    RootDebugger(u64),
    RootReferenceCleanup(u64),
    RootVmInternal(u64),
    RootJniMonitor(u64),
    HeapUnreachable(u64),
    ClassDump {
        class_object_id: u64,
        stack_trace_serial_number: u32,
        super_class_object_id: u64,
        class_loader_object_id: u64,
        signers_object_id: u64,
        protection_domain_object_id: u64,
        instance_size: u32,
        constants: Vec<Constant>,
        static_fields: Vec<StaticField>,
        instant_fields: Vec<InstantField>,
    },
    InstanceDump {
        object_id: u64,
        stack_trace_serial_number: u32,
        class_object_id: u64,
        instance_field_values: Vec<u8>,
    },
    ObjectArrayDump {
        array_object_id: u64,
        stack_trace_serial_number: u32,
        array_class_object_id: u64,
        elements: Vec<u64>,
    },
    PrimitiveArrayDump {
        array_object_id: u64,
        stack_trace_serial_number: u32,
        element_type: JavaType,
        elements: Vec<JavaValue>,
    },
}

/// The mathematical shape of a sub-record: the same variants as `SubTag`
/// with sequences in place of vectors. Spec-level decoding produces these.
pub enum SubTagView {
    RootUnknown(u64),
    RootJniGlobal { object_id: u64, jni_global_ref_id: u64 },
    RootJniLocal(Object),
    RootJavaFrame(Object),
    RootNativeStack(NativeObject),
    RootStickyClass(u64),
    RootThreadBlock(NativeObject),
    RootMonitorUsed(u64),
    RootThreadObject(Object),
    RootInternedString(u64),
    RootFinalizing(u64),
    RootDebugger(u64),
    RootReferenceCleanup(u64),
    RootVmInternal(u64),
    RootJniMonitor(u64),
    HeapUnreachable(u64),
    ClassDump {
        class_object_id: u64,
        stack_trace_serial_number: u32,
        super_class_object_id: u64,
        class_loader_object_id: u64,
        signers_object_id: u64,
        protection_domain_object_id: u64,
        instance_size: u32,
        constants: Seq<Constant>,
        static_fields: Seq<StaticField>,
        instant_fields: Seq<InstantField>,
    },
    InstanceDump {
        object_id: u64,
        stack_trace_serial_number: u32,
        class_object_id: u64,
        instance_field_values: Seq<u8>,
    },
    ObjectArrayDump {
        array_object_id: u64,
        stack_trace_serial_number: u32,
        array_class_object_id: u64,
        elements: Seq<u64>,
    },
    PrimitiveArrayDump {
        array_object_id: u64,
        stack_trace_serial_number: u32,
        element_type: JavaType,
        elements: Seq<JavaValue>,
    },
}

impl View for SubTag {
    type V = SubTagView;

    open spec fn view(&self) -> SubTagView {
        match self {
            SubTag::RootUnknown(id) => SubTagView::RootUnknown(*id),
            SubTag::RootJniGlobal { object_id, jni_global_ref_id } => SubTagView::RootJniGlobal {
                object_id: *object_id,
                jni_global_ref_id: *jni_global_ref_id,
            },
            SubTag::RootJniLocal(o) => SubTagView::RootJniLocal(*o),
            SubTag::RootJavaFrame(o) => SubTagView::RootJavaFrame(*o),
            SubTag::RootNativeStack(o) => SubTagView::RootNativeStack(*o),
            SubTag::RootStickyClass(id) => SubTagView::RootStickyClass(*id),
            SubTag::RootThreadBlock(o) => SubTagView::RootThreadBlock(*o),
            SubTag::RootMonitorUsed(id) => SubTagView::RootMonitorUsed(*id),
            SubTag::RootThreadObject(o) => SubTagView::RootThreadObject(*o),
            SubTag::RootInternedString(id) => SubTagView::RootInternedString(*id),
            SubTag::RootFinalizing(id) => SubTagView::RootFinalizing(*id),
            SubTag::RootDebugger(id) => SubTagView::RootDebugger(*id),
            SubTag::RootReferenceCleanup(id) => SubTagView::RootReferenceCleanup(*id),
            SubTag::RootVmInternal(id) => SubTagView::RootVmInternal(*id),
            SubTag::RootJniMonitor(id) => SubTagView::RootJniMonitor(*id),
            SubTag::HeapUnreachable(id) => SubTagView::HeapUnreachable(*id),
            SubTag::ClassDump {
                class_object_id,
                stack_trace_serial_number,
                super_class_object_id,
                class_loader_object_id,
                signers_object_id,
                protection_domain_object_id,
                instance_size,
                constants,
                static_fields,
                instant_fields,
            } => SubTagView::ClassDump {
                class_object_id: *class_object_id,
                stack_trace_serial_number: *stack_trace_serial_number,
                super_class_object_id: *super_class_object_id,
                class_loader_object_id: *class_loader_object_id,
                signers_object_id: *signers_object_id,
                protection_domain_object_id: *protection_domain_object_id,
                instance_size: *instance_size,
                constants: constants@,
                static_fields: static_fields@,
                instant_fields: instant_fields@,
            },
            SubTag::InstanceDump {
                object_id,
                stack_trace_serial_number,
                class_object_id,
                instance_field_values,
            } => SubTagView::InstanceDump {
                object_id: *object_id,
                stack_trace_serial_number: *stack_trace_serial_number,
                class_object_id: *class_object_id,
                instance_field_values: instance_field_values@,
            },
            SubTag::ObjectArrayDump {
                array_object_id,
                stack_trace_serial_number,
                array_class_object_id,
                elements,
            } => SubTagView::ObjectArrayDump {
                array_object_id: *array_object_id,
                stack_trace_serial_number: *stack_trace_serial_number,
                array_class_object_id: *array_class_object_id,
                elements: elements@,
            },
            SubTag::PrimitiveArrayDump {
                array_object_id,
                stack_trace_serial_number,
                element_type,
                elements,
            } => SubTagView::PrimitiveArrayDump {
                array_object_id: *array_object_id,
                stack_trace_serial_number: *stack_trace_serial_number,
                element_type: *element_type,
                elements: elements@,
            },
        }
    }
}

/// A class-dump body read at position `p` (after the sub-tag byte): the
/// class identifiers and size, then the constant pool, the static fields,
/// and the instance-field declarations, each a counted run.
pub open spec fn sparse_class_dump(b: Seq<u8>, p: int, w: int) -> Result<(SubTagView, int), Error>
    recommends
        0 <= p <= b.len(),
{
    match sread_id(b, p, w) {
        Err(e) => Err(e),
        Ok((class_object_id, p1)) => match sread_u32(b, p1) {
            Err(e) => Err(e),
            Ok((stack_trace_serial_number, p2)) => match sread_id(b, p2, w) {
                Err(e) => Err(e),
                Ok((super_class_object_id, p3)) => match sread_id(b, p3, w) {
                    Err(e) => Err(e),
                    Ok((class_loader_object_id, p4)) => match sread_id(b, p4, w) {
                        Err(e) => Err(e),
                        Ok((signers_object_id, p5)) => match sread_id(b, p5, w) {
                            Err(e) => Err(e),
                            Ok((protection_domain_object_id, p6)) => match sread_u32(b, p6) {
                                Err(e) => Err(e),
                                Ok((instance_size, p7)) => match sread_u16(b, p7) {
                                    Err(e) => Err(e),
                                    Ok((ccount, p8)) => match sparse_n(
                                        constant_step(b),
                                        p8,
                                        ccount as int,
                                    ) {
                                        Err(e) => Err(e),
                                        Ok((constants, p9)) => match sread_u16(b, p9) {
                                            Err(e) => Err(e),
                                            Ok((scount, p10)) => match sparse_n(
                                                static_field_step(b, w),
                                                p10,
                                                scount as int,
                                            ) {
                                                Err(e) => Err(e),
                                                Ok((static_fields, p11)) => match sread_u16(
                                                    b,
                                                    p11,
                                                ) {
                                                    Err(e) => Err(e),
                                                    Ok((icount, p12)) => match sparse_n(
                                                        instant_field_step(b, w),
                                                        p12,
                                                        icount as int,
                                                    ) {
                                                        Err(e) => Err(e),
                                                        Ok((instant_fields, p13)) => Ok(
                                                            (
                                                                SubTagView::ClassDump {
                                                                    class_object_id,
                                                                    stack_trace_serial_number,
                                                                    super_class_object_id,
                                                                    class_loader_object_id,
                                                                    signers_object_id,
                                                                    protection_domain_object_id,
                                                                    instance_size,
                                                                    constants,
                                                                    static_fields,
                                                                    instant_fields,
                                                                },
                                                                p13,
                                                            ),
                                                        ),
                                                    },
                                                },
                                            },
                                        },
                                    },
                                },
                            },
                        },
                    },
                },
            },
        },
    }
}

/// An instance-dump body read at position `p` (after the sub-tag byte):
/// the object, its class, and the raw instance-field bytes, kept opaque.
pub open spec fn sparse_instance_dump(b: Seq<u8>, p: int, w: int) -> Result<
    (SubTagView, int),
    Error,
>
    recommends
        0 <= p <= b.len(),
{
    match sread_id(b, p, w) {
        Err(e) => Err(e),
        Ok((object_id, p1)) => match sread_u32(b, p1) {
            Err(e) => Err(e),
            Ok((stack_trace_serial_number, p2)) => match sread_id(b, p2, w) {
                Err(e) => Err(e),
                Ok((class_object_id, p3)) => match sread_u32(b, p3) {
                    Err(e) => Err(e),
                    Ok((count, p4)) => match sread_bytes(b, p4, count as int) {
                        Err(e) => Err(e),
                        Ok((instance_field_values, p5)) => Ok(
                            (
                                SubTagView::InstanceDump {
                                    object_id,
                                    stack_trace_serial_number,
                                    class_object_id,
                                    instance_field_values,
                                },
                                p5,
                            ),
                        ),
                    },
                },
            },
        },
    }
}

/// An object-array body read at position `p` (after the sub-tag byte):
/// the array object, its class, and a counted run of element identifiers.
pub open spec fn sparse_object_array(b: Seq<u8>, p: int, w: int) -> Result<
    (SubTagView, int),
    Error,
>
    recommends
        0 <= p <= b.len(),
{
    match sread_id(b, p, w) {
        Err(e) => Err(e),
        Ok((array_object_id, p1)) => match sread_u32(b, p1) {
            Err(e) => Err(e),
            Ok((stack_trace_serial_number, p2)) => match sread_u32(b, p2) {
                Err(e) => Err(e),
                Ok((count, p3)) => match sread_id(b, p3, w) {
                    Err(e) => Err(e),
                    Ok((array_class_object_id, p4)) => match sparse_n(
                        id_step(b, w),
                        p4,
                        count as int,
                    ) {
                        Err(e) => Err(e),
                        Ok((elements, p5)) => Ok(
                            (
                                SubTagView::ObjectArrayDump {
                                    array_object_id,
                                    stack_trace_serial_number,
                                    array_class_object_id,
                                    elements,
                                },
                                p5,
                            ),
                        ),
                    },
                },
            },
        },
    }
}

/// A primitive-array body read at position `p` (after the sub-tag byte):
/// the array object, one element-type tag, and a counted run of values of
/// that type.
pub open spec fn sparse_primitive_array(b: Seq<u8>, p: int, w: int) -> Result<
    (SubTagView, int),
    Error,
>
    recommends
        0 <= p <= b.len(),
{
    match sread_id(b, p, w) {
        Err(e) => Err(e),
        Ok((array_object_id, p1)) => match sread_u32(b, p1) {
            Err(e) => Err(e),
            Ok((stack_trace_serial_number, p2)) => match sread_u32(b, p2) {
                Err(e) => Err(e),
                Ok((count, p3)) => match sread_u8(b, p3) {
                    Err(e) => Err(e),
                    Ok((t, p4)) => match jtype_of_tag(t) {
                        None => Err(Error::UnknownJavaType(t)),
                        Some(element_type) => match sparse_n(
                            value_step(b, element_type),
                            p4,
                            count as int,
                        ) {
                            Err(e) => Err(e),
                            Ok((elements, p5)) => Ok(
                                (
                                    SubTagView::PrimitiveArrayDump {
                                        array_object_id,
                                        stack_trace_serial_number,
                                        element_type,
                                        elements,
                                    },
                                    p5,
                                ),
                            ),
                        },
                    },
                },
            },
        },
    }
}

/// One sub-record read at position `p`: the sub-tag byte selects the
/// layout. An unrecognized sub-tag is `UnknownSubTag`: sub-records carry
/// no declared length, so there is no safe way to skip one.
pub open spec fn sparse_subtag(b: Seq<u8>, p: int, w: int) -> Result<(SubTagView, int), Error>
    recommends
        0 <= p <= b.len(),
{
    match sread_u8(b, p) {
        Err(e) => Err(e),
        Ok((tag, p1)) => match tag {
            0xFFu8 => match sread_id(b, p1, w) {
                Err(e) => Err(e),
                Ok((id, p2)) => Ok((SubTagView::RootUnknown(id), p2)),
            },
            0x01u8 => match sread_id(b, p1, w) {
                Err(e) => Err(e),
                Ok((object_id, p2)) => match sread_id(b, p2, w) {
                    Err(e) => Err(e),
                    Ok((jni_global_ref_id, p3)) => Ok(
                        (SubTagView::RootJniGlobal { object_id, jni_global_ref_id }, p3),
                    ),
                },
            },
            0x02u8 => match sparse_object(b, p1, w) {
                Err(e) => Err(e),
                Ok((o, p2)) => Ok((SubTagView::RootJniLocal(o), p2)),
            },
            0x03u8 => match sparse_object(b, p1, w) {
                Err(e) => Err(e),
                Ok((o, p2)) => Ok((SubTagView::RootJavaFrame(o), p2)),
            },
            0x04u8 => match sparse_native_object(b, p1, w) {
                Err(e) => Err(e),
                Ok((o, p2)) => Ok((SubTagView::RootNativeStack(o), p2)),
            },
            0x05u8 => match sread_id(b, p1, w) {
                Err(e) => Err(e),
                Ok((id, p2)) => Ok((SubTagView::RootStickyClass(id), p2)),
            },
            0x06u8 => match sparse_native_object(b, p1, w) {
                Err(e) => Err(e),
                Ok((o, p2)) => Ok((SubTagView::RootThreadBlock(o), p2)),
            },
            0x07u8 => match sread_id(b, p1, w) {
                Err(e) => Err(e),
                Ok((id, p2)) => Ok((SubTagView::RootMonitorUsed(id), p2)),
            },
            0x08u8 => match sparse_object(b, p1, w) {
                Err(e) => Err(e),
                Ok((o, p2)) => Ok((SubTagView::RootThreadObject(o), p2)),
            },
            0x89u8 => match sread_id(b, p1, w) {
                Err(e) => Err(e),
                Ok((id, p2)) => Ok((SubTagView::RootInternedString(id), p2)),
            },
            0x8Au8 => match sread_id(b, p1, w) {
                Err(e) => Err(e),
                Ok((id, p2)) => Ok((SubTagView::RootFinalizing(id), p2)),
            },
            0x8Bu8 => match sread_id(b, p1, w) {
                Err(e) => Err(e),
                Ok((id, p2)) => Ok((SubTagView::RootDebugger(id), p2)),
            },
            0x8Cu8 => match sread_id(b, p1, w) {
                Err(e) => Err(e),
                Ok((id, p2)) => Ok((SubTagView::RootReferenceCleanup(id), p2)),
            },
            0x8Du8 => match sread_id(b, p1, w) {
                Err(e) => Err(e),
                Ok((id, p2)) => Ok((SubTagView::RootVmInternal(id), p2)),
            },
            0x8Eu8 => match sread_id(b, p1, w) {
                Err(e) => Err(e),
                Ok((id, p2)) => Ok((SubTagView::RootJniMonitor(id), p2)),
            },
            0x90u8 => match sread_id(b, p1, w) {
                Err(e) => Err(e),
                Ok((id, p2)) => Ok((SubTagView::HeapUnreachable(id), p2)),
            },
            0x20u8 => sparse_class_dump(b, p1, w),
            0x21u8 => sparse_instance_dump(b, p1, w),
            0x22u8 => sparse_object_array(b, p1, w),
            0x23u8 => sparse_primitive_array(b, p1, w),
            _ => Err(Error::UnknownSubTag(tag)),
        },
    }
}

/// The shapes of a run of sub-records.
pub open spec fn subtag_views(v: Seq<SubTag>) -> Seq<SubTagView> {
    v.map_values(|st: SubTag| st@)
}

/// A run of sub-records filling a byte budget exactly: sub-records are
/// decoded one after another until the budget is spent. A sub-record that
/// oversteps the budget, or a budget that no whole number of sub-records
/// fills, is `LengthMismatch`.
pub open spec fn sparse_subtags(b: Seq<u8>, p: int, w: int, budget: int) -> Result<
    (Seq<SubTagView>, int),
    Error,
>
    recommends
        0 <= p <= b.len(),
    decreases budget,
{
    if budget <= 0 {
        if budget == 0 {
            Ok((Seq::empty(), p))
        } else {
            Err(Error::LengthMismatch)
        }
    } else {
        match sparse_subtag(b, p, w) {
            Err(e) => Err(e),
            Ok((st, q)) => {
                let c: int = q - p;
                if c < 1 || c > budget {
                    Err(Error::LengthMismatch)
                } else {
                    match sparse_subtags(b, q, w, budget - c) {
                        Err(e) => Err(e),
                        Ok((sts, p2)) => Ok((seq![st] + sts, p2)),
                    }
                }
            },
        }
    }
}

/// A heap-dump region of exactly `len` bytes, read from the cursor as a
/// run of sub-records.
#[verifier::loop_isolation(false)]
#[verifier::rlimit(80)]
pub fn parse_subtags(s: &mut Slice, len: u32) -> (r: Result<Vec<SubTag>, Error>)
    requires
        old(s).wf(),
    ensures
        final(s).wf(),
        final(s).bytes() == old(s).bytes(),
        final(s).idw() == old(s).idw(),
        old(s).pos() <= final(s).pos(),
        match sparse_subtags(old(s).bytes(), old(s).pos(), old(s).idw(), len as int) {
            Ok((sts, q)) => r matches Ok(v) && subtag_views(v@) == sts && final(s).pos() == q,
            Err(e) => r == Err::<Vec<SubTag>, Error>(e),
        },
{
    let ghost b: Seq<u8> = old(s).bytes();
    let ghost w: int = old(s).idw();
    let ghost p0: int = old(s).pos();
    let mut ret: Vec<SubTag> = Vec::new();
    let mut count: usize = 0;
    while count < len as usize
        invariant
            s.wf(),
            s.bytes() == b,
            s.idw() == w,
            p0 <= s.pos(),
            count as int == s.pos() - p0,
            count <= len as usize ==> sparse_subtags(b, p0, w, len as int) == (match sparse_subtags(
                b,
                s.pos(),
                w,
                len as int - count as int,
            ) {
                Ok((rest, pe)) => Ok::<(Seq<SubTagView>, int), Error>(
                    (subtag_views(ret@) + rest, pe),
                ),
                Err(e) => Err::<(Seq<SubTagView>, int), Error>(e),
            }),
            count > len as usize ==> sparse_subtags(b, p0, w, len as int) == Err::<
                (Seq<SubTagView>, int),
                Error,
            >(Error::LengthMismatch),
        decreases b.len() - s.pos(),
    {
        let ghost cur: int = s.pos();
        let ghost prev: Seq<SubTag> = ret@;
        let (st, size) = parse_subtag(s)?;
        ret.push(st);
        count = count + size;
        proof {
            assert(subtag_views(ret@) =~= subtag_views(prev).push(st@));
            let budget: int = len as int - (cur - p0);
            let c: int = size as int;
            if c <= budget {
                if sparse_subtags(b, s.pos(), w, budget - c) is Ok {
                    let (rest, pe) = sparse_subtags(b, s.pos(), w, budget - c)->Ok_0;
                    assert(subtag_views(prev) + (seq![st@] + rest) =~= subtag_views(ret@) + rest);
                }
            }
        }
    }
    if count != len as usize {
        return Err(Error::LengthMismatch);
    }
    Ok(ret)
}

impl Object {
    /// One frame-bearing root body, read from the cursor.
    pub fn parse(s: &mut Slice) -> (r: Result<Object, Error>)
        requires
            old(s).wf(),
        ensures
            final(s).wf(),
            final(s).bytes() == old(s).bytes(),
            final(s).idw() == old(s).idw(),
            old(s).pos() <= final(s).pos(),
            match sparse_object(old(s).bytes(), old(s).pos(), old(s).idw()) {
                Ok((v, q)) => r == Ok::<Object, Error>(v) && final(s).pos() == q,
                Err(e) => r == Err::<Object, Error>(e),
            },
    {
        let object_id = s.read_id()?;
        let thread_serial_number = s.read_u32()?;
        let frame_number_in_stack_trace = s.read_i32()?;
        Ok(Object { object_id, thread_serial_number, frame_number_in_stack_trace })
    }
}

impl NativeObject {
    /// One thread-bearing root body, read from the cursor.
    pub fn parse(s: &mut Slice) -> (r: Result<NativeObject, Error>)
        requires
            old(s).wf(),
        ensures
            final(s).wf(),
            final(s).bytes() == old(s).bytes(),
            final(s).idw() == old(s).idw(),
            old(s).pos() <= final(s).pos(),
            match sparse_native_object(old(s).bytes(), old(s).pos(), old(s).idw()) {
                Ok((v, q)) => r == Ok::<NativeObject, Error>(v) && final(s).pos() == q,
                Err(e) => r == Err::<NativeObject, Error>(e),
            },
    {
        let object_id = s.read_id()?;
        let thread_serial_number = s.read_u32()?;
        Ok(NativeObject { object_id, thread_serial_number })
    }
}

impl InstantField {
    /// One instance-field declaration, read from the cursor.
    pub fn parse(s: &mut Slice) -> (r: Result<InstantField, Error>)
        requires
            old(s).wf(),
        ensures
            final(s).wf(),
            final(s).bytes() == old(s).bytes(),
            final(s).idw() == old(s).idw(),
            old(s).pos() <= final(s).pos(),
            match sparse_instant_field(old(s).bytes(), old(s).pos(), old(s).idw()) {
                Ok((v, q)) => r == Ok::<InstantField, Error>(v) && final(s).pos() == q,
                Err(e) => r == Err::<InstantField, Error>(e),
            },
    {
        let name_string_id = s.read_id()?;
        let tag = s.read_u8()?;
        let java_type = JavaType::from_tag(tag)?;
        Ok(InstantField { name_string_id, java_type })
    }
}

impl StaticField {
    /// One static field, read from the cursor.
    pub fn parse(s: &mut Slice) -> (r: Result<StaticField, Error>)
        requires
            old(s).wf(),
        ensures
            final(s).wf(),
            final(s).bytes() == old(s).bytes(),
            final(s).idw() == old(s).idw(),
            old(s).pos() <= final(s).pos(),
            match sparse_static_field(old(s).bytes(), old(s).pos(), old(s).idw()) {
                Ok((v, q)) => r == Ok::<StaticField, Error>(v) && final(s).pos() == q,
                Err(e) => r == Err::<StaticField, Error>(e),
            },
    {
        let name_string_id = s.read_id()?;
        let java_value = JavaValue::parse_with_type(s)?;
        Ok(StaticField { name_string_id, java_value })
    }
}

impl Constant {
    /// One constant-pool entry, read from the cursor.
    pub fn parse(s: &mut Slice) -> (r: Result<Constant, Error>)
        requires
            old(s).wf(),
        ensures
            final(s).wf(),
            final(s).bytes() == old(s).bytes(),
            final(s).idw() == old(s).idw(),
            old(s).pos() <= final(s).pos(),
            match sparse_constant(old(s).bytes(), old(s).pos()) {
                Ok((v, q)) => r == Ok::<Constant, Error>(v) && final(s).pos() == q,
                Err(e) => r == Err::<Constant, Error>(e),
            },
    {
        let constant_pool_index = s.read_u16()?;
        let java_value = JavaValue::parse_with_type(s)?;
        Ok(Constant { constant_pool_index, java_value })
    }
}

/// One class-dump body, read from the cursor. Its three counted runs are
/// decoded by loops proved against `sparse_n`.
#[verifier::loop_isolation(false)]
#[verifier::rlimit(60)]
fn parse_class_dump(s: &mut Slice) -> (r: Result<SubTag, Error>)
    requires
        old(s).wf(),
    ensures
        final(s).wf(),
        final(s).bytes() == old(s).bytes(),
        final(s).idw() == old(s).idw(),
        old(s).pos() <= final(s).pos(),
        match sparse_class_dump(old(s).bytes(), old(s).pos(), old(s).idw()) {
            Ok((v, q)) => r matches Ok(st) && st@ == v && final(s).pos() == q,
            Err(e) => r == Err::<SubTag, Error>(e),
        },
{
    let ghost b: Seq<u8> = old(s).bytes();
    let ghost w: int = old(s).idw();
    let class_object_id = s.read_id()?;
    let stack_trace_serial_number = s.read_u32()?;
    let super_class_object_id = s.read_id()?;
    let class_loader_object_id = s.read_id()?;
    let signers_object_id = s.read_id()?;
    let protection_domain_object_id = s.read_id()?;
    let instance_size = s.read_u32()?;

    let ccount = s.read_u16()?;
    let ghost pc: int = s.pos();
    let mut constants: Vec<Constant> = Vec::new();
    let mut i: u16 = 0;
    while i < ccount
        invariant
            s.wf(),
            s.bytes() == b,
            s.idw() == w,
            i <= ccount,
            pc <= s.pos(),
            constants@.len() == i as int,
            sparse_n(constant_step(b), pc, i as int) == Ok::<(Seq<Constant>, int), Error>(
                (constants@, s.pos()),
            ),
        decreases ccount as int - i as int,
    {
        let ghost q: int = s.pos();
        match Constant::parse(s) {
            Ok(c) => {
                proof {
                    lemma_sparse_n_snoc(constant_step(b), pc, i as int, constants@, q);
                }
                constants.push(c);
            },
            Err(e) => {
                proof {
                    lemma_sparse_n_err(
                        constant_step(b),
                        pc,
                        i as int,
                        ccount as int,
                        constants@,
                        q,
                        e,
                    );
                }
                return Err(e);
            },
        }
        i = i + 1;
    }

    let scount = s.read_u16()?;
    let ghost ps: int = s.pos();
    let mut static_fields: Vec<StaticField> = Vec::new();
    let mut i: u16 = 0;
    while i < scount
        invariant
            s.wf(),
            s.bytes() == b,
            s.idw() == w,
            i <= scount,
            ps <= s.pos(),
            static_fields@.len() == i as int,
            sparse_n(static_field_step(b, w), ps, i as int) == Ok::<(Seq<StaticField>, int), Error>(
                (static_fields@, s.pos()),
            ),
        decreases scount as int - i as int,
    {
        let ghost q: int = s.pos();
        match StaticField::parse(s) {
            Ok(f) => {
                proof {
                    lemma_sparse_n_snoc(static_field_step(b, w), ps, i as int, static_fields@, q);
                }
                static_fields.push(f);
            },
            Err(e) => {
                proof {
                    lemma_sparse_n_err(
                        static_field_step(b, w),
                        ps,
                        i as int,
                        scount as int,
                        static_fields@,
                        q,
                        e,
                    );
                }
                return Err(e);
            },
        }
        i = i + 1;
    }

    let icount = s.read_u16()?;
    let ghost pi: int = s.pos();
    let mut instant_fields: Vec<InstantField> = Vec::new();
    let mut i: u16 = 0;
    while i < icount
        invariant
            s.wf(),
            s.bytes() == b,
            s.idw() == w,
            i <= icount,
            pi <= s.pos(),
            instant_fields@.len() == i as int,
            sparse_n(instant_field_step(b, w), pi, i as int) == Ok::<
                (Seq<InstantField>, int),
                Error,
            >((instant_fields@, s.pos())),
        decreases icount as int - i as int,
    {
        let ghost q: int = s.pos();
        match InstantField::parse(s) {
            Ok(f) => {
                proof {
                    lemma_sparse_n_snoc(instant_field_step(b, w), pi, i as int, instant_fields@, q);
                }
                instant_fields.push(f);
            },
            Err(e) => {
                proof {
                    lemma_sparse_n_err(
                        instant_field_step(b, w),
                        pi,
                        i as int,
                        icount as int,
                        instant_fields@,
                        q,
                        e,
                    );
                }
                return Err(e);
            },
        }
        i = i + 1;
    }

    Ok(
        SubTag::ClassDump {
            class_object_id,
            stack_trace_serial_number,
            super_class_object_id,
            class_loader_object_id,
            signers_object_id,
            protection_domain_object_id,
            instance_size,
            constants,
            static_fields,
            instant_fields,
        },
    )
}

/// One instance-dump body, read from the cursor: the instance-field bytes
/// are kept raw, since interpreting them needs the class layout.
fn parse_instance_dump(s: &mut Slice) -> (r: Result<SubTag, Error>)
    requires
        old(s).wf(),
    ensures
        final(s).wf(),
        final(s).bytes() == old(s).bytes(),
        final(s).idw() == old(s).idw(),
        old(s).pos() <= final(s).pos(),
        match sparse_instance_dump(old(s).bytes(), old(s).pos(), old(s).idw()) {
            Ok((v, q)) => r matches Ok(st) && st@ == v && final(s).pos() == q,
            Err(e) => r == Err::<SubTag, Error>(e),
        },
{
    let object_id = s.read_id()?;
    let stack_trace_serial_number = s.read_u32()?;
    let class_object_id = s.read_id()?;
    let count = s.read_u32()?;
    let instance_field_values = s.read_u8_array(count as usize)?;
    Ok(
        SubTag::InstanceDump {
            object_id,
            stack_trace_serial_number,
            class_object_id,
            instance_field_values,
        },
    )
}

/// One object-array body, read from the cursor: a counted run of element
/// identifiers.
#[verifier::loop_isolation(false)]
fn parse_object_array(s: &mut Slice) -> (r: Result<SubTag, Error>)
    requires
        old(s).wf(),
    ensures
        final(s).wf(),
        final(s).bytes() == old(s).bytes(),
        final(s).idw() == old(s).idw(),
        old(s).pos() <= final(s).pos(),
        match sparse_object_array(old(s).bytes(), old(s).pos(), old(s).idw()) {
            Ok((v, q)) => r matches Ok(st) && st@ == v && final(s).pos() == q,
            Err(e) => r == Err::<SubTag, Error>(e),
        },
{
    let ghost b: Seq<u8> = old(s).bytes();
    let ghost w: int = old(s).idw();
    let array_object_id = s.read_id()?;
    let stack_trace_serial_number = s.read_u32()?;
    let count = s.read_u32()?;
    let array_class_object_id = s.read_id()?;
    let ghost pe: int = s.pos();
    let mut elements: Vec<u64> = Vec::new();
    let mut i: u32 = 0;
    while i < count
        invariant
            s.wf(),
            s.bytes() == b,
            s.idw() == w,
            i <= count,
            pe <= s.pos(),
            elements@.len() == i as int,
            sparse_n(id_step(b, w), pe, i as int) == Ok::<(Seq<u64>, int), Error>(
                (elements@, s.pos()),
            ),
        decreases count as int - i as int,
    {
        let ghost q: int = s.pos();
        match s.read_id() {
            Ok(id) => {
                proof {
                    lemma_sparse_n_snoc(id_step(b, w), pe, i as int, elements@, q);
                }
                elements.push(id);
            },
            Err(e) => {
                proof {
                    lemma_sparse_n_err(id_step(b, w), pe, i as int, count as int, elements@, q, e);
                }
                return Err(e);
            },
        }
        i = i + 1;
    }
    Ok(
        SubTag::ObjectArrayDump {
            array_object_id,
            stack_trace_serial_number,
            array_class_object_id,
            elements,
        },
    )
}

/// One primitive-array body, read from the cursor: a counted run of
/// values of the one element type the body declares.
#[verifier::loop_isolation(false)]
fn parse_primitive_array(s: &mut Slice) -> (r: Result<SubTag, Error>)
    requires
        old(s).wf(),
    ensures
        final(s).wf(),
        final(s).bytes() == old(s).bytes(),
        final(s).idw() == old(s).idw(),
        old(s).pos() <= final(s).pos(),
        match sparse_primitive_array(old(s).bytes(), old(s).pos(), old(s).idw()) {
            Ok((v, q)) => r matches Ok(st) && st@ == v && final(s).pos() == q,
            Err(e) => r == Err::<SubTag, Error>(e),
        },
{
    let ghost b: Seq<u8> = old(s).bytes();
    let ghost w: int = old(s).idw();
    let array_object_id = s.read_id()?;
    let stack_trace_serial_number = s.read_u32()?;
    let count = s.read_u32()?;
    let tag = s.read_u8()?;
    let element_type = JavaType::from_tag(tag)?;
    let ghost pe: int = s.pos();
    let mut elements: Vec<JavaValue> = Vec::new();
    let mut i: u32 = 0;
    while i < count
        invariant
            s.wf(),
            s.bytes() == b,
            s.idw() == w,
            i <= count,
            pe <= s.pos(),
            elements@.len() == i as int,
            sparse_n(value_step(b, element_type), pe, i as int) == Ok::<
                (Seq<JavaValue>, int),
                Error,
            >((elements@, s.pos())),
        decreases count as int - i as int,
    {
        let ghost q: int = s.pos();
        match JavaValue::parse(s, element_type) {
            Ok(v) => {
                proof {
                    lemma_sparse_n_snoc(value_step(b, element_type), pe, i as int, elements@, q);
                }
                elements.push(v);
            },
            Err(e) => {
                proof {
                    lemma_sparse_n_err(
                        value_step(b, element_type),
                        pe,
                        i as int,
                        count as int,
                        elements@,
                        q,
                        e,
                    );
                }
                return Err(e);
            },
        }
        i = i + 1;
    }
    Ok(
        SubTag::PrimitiveArrayDump {
            array_object_id,
            stack_trace_serial_number,
            element_type,
            elements,
        },
    )
}

/// One heap-dump sub-record, read from the cursor, together with the
/// number of bytes it consumed.
pub fn parse_subtag(s: &mut Slice) -> (r: Result<(SubTag, usize), Error>)
    requires
        old(s).wf(),
    ensures
        final(s).wf(),
        final(s).bytes() == old(s).bytes(),
        final(s).idw() == old(s).idw(),
        old(s).pos() <= final(s).pos(),
        match sparse_subtag(old(s).bytes(), old(s).pos(), old(s).idw()) {
            Ok((v, q)) => r matches Ok(t) && t.0@ == v && t.1 as int == q - old(s).pos()
                && final(s).pos() == q && q > old(s).pos(),
            Err(e) => r == Err::<(SubTag, usize), Error>(e),
        },
{
    let before = s.remain();
    let tag = s.read_u8()?;
    let st: SubTag = match tag {
        0xFFu8 => SubTag::RootUnknown(s.read_id()?),
        0x01u8 => {
            let object_id = s.read_id()?;
            let jni_global_ref_id = s.read_id()?;
            SubTag::RootJniGlobal { object_id, jni_global_ref_id }
        },
        0x02u8 => SubTag::RootJniLocal(Object::parse(s)?),
        0x03u8 => SubTag::RootJavaFrame(Object::parse(s)?),
        0x04u8 => SubTag::RootNativeStack(NativeObject::parse(s)?),
        0x05u8 => SubTag::RootStickyClass(s.read_id()?),
        0x06u8 => SubTag::RootThreadBlock(NativeObject::parse(s)?),
        0x07u8 => SubTag::RootMonitorUsed(s.read_id()?),
        0x08u8 => SubTag::RootThreadObject(Object::parse(s)?),
        0x89u8 => SubTag::RootInternedString(s.read_id()?),
        0x8Au8 => SubTag::RootFinalizing(s.read_id()?),
        0x8Bu8 => SubTag::RootDebugger(s.read_id()?),
        0x8Cu8 => SubTag::RootReferenceCleanup(s.read_id()?),
        0x8Du8 => SubTag::RootVmInternal(s.read_id()?),
        0x8Eu8 => SubTag::RootJniMonitor(s.read_id()?),
        0x90u8 => SubTag::HeapUnreachable(s.read_id()?),
        0x20u8 => parse_class_dump(s)?,
        0x21u8 => parse_instance_dump(s)?,
        0x22u8 => parse_object_array(s)?,
        0x23u8 => parse_primitive_array(s)?,
        _ => {
            return Err(Error::UnknownSubTag(tag));
        },
    };
    let after = s.remain();
    Ok((st, before - after))
}

} // verus!
