//! Per-frame instance buffer preparation: turn each entity's host-side
//! instance attribute arrays into the exact byte images of the GPU vertex
//! buffers that the draw phase binds, with a fresh buffer pair per entity per
//! frame, and rebuild the per-frame view bind group.
//!
//! Attribute components are IEEE-754 `f32` values; the core never computes
//! with them, so it carries each as its 32-bit pattern and lays the patterns
//! out little-endian, which is the byte order the GPU consumes.

use vstd::prelude::*;

verus! {

/// Static per-instance attributes: an RGBA color followed by a 2D position
/// offset. Each field is the bit pattern of one `f32` component; the record
/// occupies 24 contiguous bytes in the static vertex buffer.
#[derive(Clone, Copy, Debug, PartialEq, Eq, Structural)]
pub struct StaticInstanceRecord {
    pub color_r: u32,
    pub color_g: u32,
    pub color_b: u32,
    pub color_a: u32,
    pub offset_x: u32,
    pub offset_y: u32,
}

/// Changing per-instance attributes: a 2D scale. Each field is the bit
/// pattern of one `f32` component; the record occupies 8 contiguous bytes in
/// the changing vertex buffer.
#[derive(Clone, Copy, Debug, PartialEq, Eq, Structural)]
pub struct ChangingInstanceRecord {
    pub scale_x: u32,
    pub scale_y: u32,
}

/// An entity's host-side instance attribute arrays. The two arrays run in
/// step: entry `i` of each describes instance `i`, so their lengths agree and
/// that shared length is the entity's instance count.
#[derive(Clone, Debug, PartialEq, Eq)]
pub struct InstanceAttributeSet {
    pub static_records: Vec<StaticInstanceRecord>,
    pub changing_records: Vec<ChangingInstanceRecord>,
}

impl InstanceAttributeSet {
    /// Both arrays describe the same instances, one entry each.
    pub open spec fn wf(self) -> bool {
        self.static_records@.len() == self.changing_records@.len()
    }

    /// Mirror the simulation-side arrays into the render world for this
    /// frame: an element-for-element copy of both arrays.
    pub fn extract_component(&self) -> (out: InstanceAttributeSet)
        ensures
            out.static_records@ == self.static_records@,
            out.changing_records@ == self.changing_records@,
            self.wf() ==> out.wf(),
    {
        let mut static_records: Vec<StaticInstanceRecord> = Vec::new();
        let mut i: usize = 0;
        while i < self.static_records.len()
            invariant
                i <= self.static_records@.len(),
                static_records@ == self.static_records@.take(i as int),
            decreases self.static_records@.len() - i,
        {
            static_records.push(self.static_records[i]);
            proof {
                assert(static_records@ =~= self.static_records@.take(i + 1));
            }
            i = i + 1;
        }
        let mut changing_records: Vec<ChangingInstanceRecord> = Vec::new();
        let mut k: usize = 0;
        while k < self.changing_records.len()
            invariant
                k <= self.changing_records@.len(),
                changing_records@ == self.changing_records@.take(k as int),
            decreases self.changing_records@.len() - k,
        {
            changing_records.push(self.changing_records[k]);
            proof {
                assert(changing_records@ =~= self.changing_records@.take(k + 1));
            }
            k = k + 1;
        }
        proof {
            assert(self.static_records@.take(self.static_records@.len() as int)
                =~= self.static_records@);
            assert(self.changing_records@.take(self.changing_records@.len() as int)
                =~= self.changing_records@);
        }
        InstanceAttributeSet { static_records, changing_records }
    }
}

/// The four bytes of `x` in little-endian order.
pub open spec fn u32_le_bytes(x: u32) -> Seq<u8> {
    seq![
        (x & 0xff) as u8,
        ((x >> 8) & 0xff) as u8,
        ((x >> 16) & 0xff) as u8,
        ((x >> 24) & 0xff) as u8,
    ]
}

/// The word whose little-endian bytes are `b0 b1 b2 b3`.
pub open spec fn u32_from_le_bytes(b0: u8, b1: u8, b2: u8, b3: u8) -> u32 {
    (b0 as u32) | ((b1 as u32) << 8) | ((b2 as u32) << 16) | ((b3 as u32) << 24)
}

/// Reading back the little-endian bytes of a word gives the word.
pub proof fn lemma_u32_le_roundtrip(x: u32)
    ensures
        u32_from_le_bytes(
            (x & 0xff) as u8,
            ((x >> 8) & 0xff) as u8,
            ((x >> 16) & 0xff) as u8,
            ((x >> 24) & 0xff) as u8,
        ) == x,
{
    assert(((x & 0xff) as u8 as u32) | ((((x >> 8) & 0xff) as u8 as u32) << 8)
        | ((((x >> 16) & 0xff) as u8 as u32) << 16) | ((((x >> 24) & 0xff) as u8 as u32) << 24)
        == x) by (bit_vector);
}

/// The 24-byte image of one static record: color components then offset
/// components, each little-endian, no padding.
pub open spec fn static_record_bytes(r: StaticInstanceRecord) -> Seq<u8> {
    u32_le_bytes(r.color_r) + u32_le_bytes(r.color_g) + u32_le_bytes(r.color_b)
        + u32_le_bytes(r.color_a) + u32_le_bytes(r.offset_x) + u32_le_bytes(r.offset_y)
}

/// The 8-byte image of one changing record: the scale components,
/// little-endian, no padding.
pub open spec fn changing_record_bytes(r: ChangingInstanceRecord) -> Seq<u8> {
    u32_le_bytes(r.scale_x) + u32_le_bytes(r.scale_y)
}

/// The byte image of a whole static array: record images concatenated in
/// order.
pub open spec fn static_bytes(rs: Seq<StaticInstanceRecord>) -> Seq<u8>
    decreases rs.len(),
{
    if rs.len() == 0 {
        Seq::empty()
    } else {
        static_bytes(rs.drop_last()) + static_record_bytes(rs.last())
    }
}

/// The byte image of a whole changing array: record images concatenated in
/// order.
pub open spec fn changing_bytes(rs: Seq<ChangingInstanceRecord>) -> Seq<u8>
    decreases rs.len(),
{
    if rs.len() == 0 {
        Seq::empty()
    } else {
        changing_bytes(rs.drop_last()) + changing_record_bytes(rs.last())
    }
}

/// The static buffer holds exactly 24 bytes per record.
pub proof fn lemma_static_bytes_len(rs: Seq<StaticInstanceRecord>)
    ensures
        static_bytes(rs).len() == 24 * rs.len(),
    decreases rs.len(),
{
    if rs.len() > 0 {
        lemma_static_bytes_len(rs.drop_last());
    }
}

/// The changing buffer holds exactly 8 bytes per record.
pub proof fn lemma_changing_bytes_len(rs: Seq<ChangingInstanceRecord>)
    ensures
        changing_bytes(rs).len() == 8 * rs.len(),
    decreases rs.len(),
{
    if rs.len() > 0 {
        lemma_changing_bytes_len(rs.drop_last());
    }
}

/// Law: the buffer image is a plain concatenation — the 24-byte window at
/// position `24 * i` of the static buffer is exactly the image of record `i`.
pub proof fn lemma_static_bytes_window(rs: Seq<StaticInstanceRecord>, i: int)
    requires
        0 <= i < rs.len(),
    ensures
        static_bytes(rs).subrange(24 * i, 24 * i + 24) =~= static_record_bytes(rs[i]),
    decreases rs.len(),
{
    lemma_static_bytes_len(rs);
    lemma_static_bytes_len(rs.drop_last());
    if i == rs.len() - 1 {
        assert(static_bytes(rs) == static_bytes(rs.drop_last()) + static_record_bytes(rs.last()));
    } else {
        lemma_static_bytes_window(rs.drop_last(), i);
        assert(rs.drop_last()[i] == rs[i]);
    }
}

/// Law: the 8-byte window at position `8 * i` of the changing buffer is
/// exactly the image of record `i`.
pub proof fn lemma_changing_bytes_window(rs: Seq<ChangingInstanceRecord>, i: int)
    requires
        0 <= i < rs.len(),
    ensures
        changing_bytes(rs).subrange(8 * i, 8 * i + 8) =~= changing_record_bytes(rs[i]),
    decreases rs.len(),
{
    lemma_changing_bytes_len(rs);
    lemma_changing_bytes_len(rs.drop_last());
    if i == rs.len() - 1 {
        assert(changing_bytes(rs) == changing_bytes(rs.drop_last()) + changing_record_bytes(rs.last()));
    } else {
        lemma_changing_bytes_window(rs.drop_last(), i);
        assert(rs.drop_last()[i] == rs[i]);
    }
}

/// The record whose 24-byte image is `b`.
pub open spec fn decode_static_record(b: Seq<u8>) -> StaticInstanceRecord {
    StaticInstanceRecord {
        color_r: u32_from_le_bytes(b[0], b[1], b[2], b[3]),
        color_g: u32_from_le_bytes(b[4], b[5], b[6], b[7]),
        color_b: u32_from_le_bytes(b[8], b[9], b[10], b[11]),
        color_a: u32_from_le_bytes(b[12], b[13], b[14], b[15]),
        offset_x: u32_from_le_bytes(b[16], b[17], b[18], b[19]),
        offset_y: u32_from_le_bytes(b[20], b[21], b[22], b[23]),
    }
}

/// The record whose 8-byte image is `b`.
pub open spec fn decode_changing_record(b: Seq<u8>) -> ChangingInstanceRecord {
    ChangingInstanceRecord {
        scale_x: u32_from_le_bytes(b[0], b[1], b[2], b[3]),
        scale_y: u32_from_le_bytes(b[4], b[5], b[6], b[7]),
    }
}

/// Law (round trip): raw byte readback of the prepared static buffer recovers
/// every source record exactly — decoding the window of record `i` gives
/// record `i` back.
pub proof fn lemma_static_roundtrip(rs: Seq<StaticInstanceRecord>, i: int)
    requires
        0 <= i < rs.len(),
    ensures
        decode_static_record(static_bytes(rs).subrange(24 * i, 24 * i + 24)) == rs[i],
{
    lemma_static_bytes_window(rs, i);
    lemma_u32_le_roundtrip(rs[i].color_r);
    lemma_u32_le_roundtrip(rs[i].color_g);
    lemma_u32_le_roundtrip(rs[i].color_b);
    lemma_u32_le_roundtrip(rs[i].color_a);
    lemma_u32_le_roundtrip(rs[i].offset_x);
    lemma_u32_le_roundtrip(rs[i].offset_y);
}

/// Law (round trip): raw byte readback of the prepared changing buffer
/// recovers every source record exactly.
pub proof fn lemma_changing_roundtrip(rs: Seq<ChangingInstanceRecord>, i: int)
    requires
        0 <= i < rs.len(),
    ensures
        decode_changing_record(changing_bytes(rs).subrange(8 * i, 8 * i + 8)) == rs[i],
{
    lemma_changing_bytes_window(rs, i);
    lemma_u32_le_roundtrip(rs[i].scale_x);
    lemma_u32_le_roundtrip(rs[i].scale_y);
}

/// Append the little-endian bytes of `x`.
fn push_u32_le(out: &mut Vec<u8>, x: u32)
    ensures
        final(out)@ == old(out)@ + u32_le_bytes(x),
{
    out.push((x & 0xff) as u8);
    out.push(((x >> 8) & 0xff) as u8);
    out.push(((x >> 16) & 0xff) as u8);
    out.push(((x >> 24) & 0xff) as u8);
    proof {
        assert(out@ =~= old(out)@ + u32_le_bytes(x));
    }
}

/// Serialize a static array into the byte image its GPU buffer is created
/// from.
pub fn encode_static_records(records: &Vec<StaticInstanceRecord>) -> (bytes: Vec<u8>)
    ensures
        bytes@ == static_bytes(records@),
        bytes@.len() == 24 * records@.len(),
{
    let mut bytes: Vec<u8> = Vec::new();
    let n = records.len();
    let mut i: usize = 0;
    while i < n
        invariant
            n == records@.len(),
            i <= n,
            bytes@ == static_bytes(records@.take(i as int)),
        decreases n - i,
    {
        let r = records[i];
        push_u32_le(&mut bytes, r.color_r);
        push_u32_le(&mut bytes, r.color_g);
        push_u32_le(&mut bytes, r.color_b);
        push_u32_le(&mut bytes, r.color_a);
        push_u32_le(&mut bytes, r.offset_x);
        push_u32_le(&mut bytes, r.offset_y);
        proof {
            let taken = records@.take(i + 1);
            assert(taken.drop_last() =~= records@.take(i as int));
            assert(taken.last() == records@[i as int]);
            assert(bytes@ =~= static_bytes(taken.drop_last()) + static_record_bytes(taken.last()));
        }
        i = i + 1;
    }
    proof {
        assert(records@.take(n as int) =~= records@);
        lemma_static_bytes_len(records@);
    }
    bytes
}

/// Serialize a changing array into the byte image its GPU buffer is created
/// from.
pub fn encode_changing_records(records: &Vec<ChangingInstanceRecord>) -> (bytes: Vec<u8>)
    ensures
        bytes@ == changing_bytes(records@),
        bytes@.len() == 8 * records@.len(),
{
    let mut bytes: Vec<u8> = Vec::new();
    let n = records.len();
    let mut i: usize = 0;
    while i < n
        invariant
            n == records@.len(),
            i <= n,
            bytes@ == changing_bytes(records@.take(i as int)),
        decreases n - i,
    {
        let r = records[i];
        push_u32_le(&mut bytes, r.scale_x);
        push_u32_le(&mut bytes, r.scale_y);
        proof {
            let taken = records@.take(i + 1);
            assert(taken.drop_last() =~= records@.take(i as int));
            assert(taken.last() == records@[i as int]);
            assert(bytes@ =~= changing_bytes(taken.drop_last()) + changing_record_bytes(taken.last()));
        }
        i = i + 1;
    }
    proof {
        assert(records@.take(n as int) =~= records@);
        lemma_changing_bytes_len(records@);
    }
    bytes
}

/// An entity's freshly prepared GPU instance buffer pair for one frame: the
/// device handle and exact byte image of the static and the changing vertex
/// buffer, and the instance count both encode.
#[derive(Clone, Debug, PartialEq, Eq)]
pub struct GpuInstanceBuffers {
    pub static_buffer_id: u64,
    pub static_bytes: Vec<u8>,
    pub changing_buffer_id: u64,
    pub changing_bytes: Vec<u8>,
    pub count: u32,
}

/// Build one entity's buffer pair: a 24-byte-per-instance static buffer and
/// an 8-byte-per-instance changing buffer, under the two fresh device buffer
/// handles the caller allocated for this frame.
pub fn prepare_entity_buffers(
    set: &InstanceAttributeSet,
    static_buffer_id: u64,
    changing_buffer_id: u64,
) -> (out: GpuInstanceBuffers)
    requires
        set.wf(),
        set.static_records@.len() <= u32::MAX,
    ensures
        out.count == set.static_records@.len(),
        out.static_buffer_id == static_buffer_id,
        out.changing_buffer_id == changing_buffer_id,
        out.static_bytes@ == static_bytes(set.static_records@),
        out.changing_bytes@ == changing_bytes(set.changing_records@),
        out.static_bytes@.len() == 24 * out.count,
        out.changing_bytes@.len() == 8 * out.count,
{
    let count = set.static_records.len() as u32;
    let static_image = encode_static_records(&set.static_records);
    let changing_image = encode_changing_records(&set.changing_records);
    GpuInstanceBuffers {
        static_buffer_id,
        static_bytes: static_image,
        changing_buffer_id,
        changing_bytes: changing_image,
        count,
    }
}

/// Prepare every entity that carries an attribute set, unconditionally and
/// fresh for this frame: entity `i` of the input gets the buffer pair built
/// from its arrays, under the consecutive device handles `first_buffer_id +
/// 2 * i` and `first_buffer_id + 2 * i + 1`, replacing whatever a prior frame
/// attached. No diffing: both arrays are re-uploaded in full even if
/// unchanged.
pub fn prepare_instance_buffers(
    entities: &Vec<(u64, InstanceAttributeSet)>,
    first_buffer_id: u64,
) -> (out: Vec<(u64, GpuInstanceBuffers)>)
    requires
        forall|i: int| 0 <= i < entities@.len() ==> (#[trigger] entities@[i].1).wf(),
        forall|i: int| 0 <= i < entities@.len()
            ==> (#[trigger] entities@[i].1).static_records@.len() <= u32::MAX,
        first_buffer_id + 2 * entities@.len() <= u64::MAX,
    ensures
        out@.len() == entities@.len(),
        forall|i: int| 0 <= i < out@.len() ==> (#[trigger] out@[i]).0 == entities@[i].0,
        forall|i: int| 0 <= i < out@.len()
            ==> (#[trigger] out@[i]).1.count == entities@[i].1.static_records@.len(),
        forall|i: int| 0 <= i < out@.len()
            ==> (#[trigger] out@[i]).1.static_bytes@ == static_bytes(entities@[i].1.static_records@),
        forall|i: int| 0 <= i < out@.len()
            ==> (#[trigger] out@[i]).1.changing_bytes@ == changing_bytes(
                entities@[i].1.changing_records@,
            ),
        forall|i: int| 0 <= i < out@.len()
            ==> (#[trigger] out@[i]).1.static_buffer_id == first_buffer_id + 2 * i,
        forall|i: int| 0 <= i < out@.len()
            ==> (#[trigger] out@[i]).1.changing_buffer_id == first_buffer_id + 2 * i + 1,
{
    let mut out: Vec<(u64, GpuInstanceBuffers)> = Vec::new();
    let n = entities.len();
    let mut i: usize = 0;
    while i < n
        invariant
            n == entities@.len(),
            i <= n,
            out@.len() == i,
            first_buffer_id + 2 * n <= u64::MAX,
            forall|k: int| 0 <= k < entities@.len() ==> (#[trigger] entities@[k].1).wf(),
            forall|k: int| 0 <= k < entities@.len()
                ==> (#[trigger] entities@[k].1).static_records@.len() <= u32::MAX,
            forall|k: int| 0 <= k < i ==> (#[trigger] out@[k]).0 == entities@[k].0,
            forall|k: int| 0 <= k < i
                ==> (#[trigger] out@[k]).1.count == entities@[k].1.static_records@.len(),
            forall|k: int| 0 <= k < i
                ==> (#[trigger] out@[k]).1.static_bytes@ == static_bytes(
                    entities@[k].1.static_records@,
                ),
            forall|k: int| 0 <= k < i
                ==> (#[trigger] out@[k]).1.changing_bytes@ == changing_bytes(
                    entities@[k].1.changing_records@,
                ),
            forall|k: int| 0 <= k < i
                ==> (#[trigger] out@[k]).1.static_buffer_id == first_buffer_id + 2 * k,
            forall|k: int| 0 <= k < i
                ==> (#[trigger] out@[k]).1.changing_buffer_id == first_buffer_id + 2 * k + 1,
        decreases n - i,
    {
        let (entity, set) = &entities[i];
        let static_id = first_buffer_id + 2 * (i as u64);
        let changing_id = static_id + 1;
        let buffers = prepare_entity_buffers(set, static_id, changing_id);
        out.push((*entity, buffers));
        i = i + 1;
    }
    out
}

/// The per-frame GPU binding of the view uniform buffer.
#[derive(Clone, Copy, Debug, PartialEq, Eq, Structural)]
pub struct BindGroup {
    pub uniform_buffer: u64,
}

/// The single slot holding the current frame's view bind group. One writer
/// per frame (the prepare phase); the draw phase only reads it.
#[derive(Clone, Copy, Debug, PartialEq, Eq, Structural)]
pub struct InstanceBuffer {
    pub view_bind_group: Option<BindGroup>,
}

impl InstanceBuffer {
    /// Before the first prepare phase no bind group exists.
    pub fn new() -> (r: Self)
        ensures
            r.view_bind_group is None,
    {
        InstanceBuffer { view_bind_group: None }
    }

    /// Rebuild the view bind group for this frame if the view uniform buffer
    /// is available, wrapping that buffer and replacing the stored binding;
    /// leave the previous binding untouched otherwise. Best-effort: never
    /// blocks, never fails.
    pub fn prepare_view_bind_group(&mut self, view_uniform_buffer: Option<u64>)
        ensures
            (view_uniform_buffer matches Some(b)
                ==> final(self).view_bind_group == Some(BindGroup { uniform_buffer: b })),
            view_uniform_buffer is None ==> final(self).view_bind_group == old(self).view_bind_group,
    {
        if let Some(buffer) = view_uniform_buffer {
            self.view_bind_group = Some(BindGroup { uniform_buffer: buffer });
        }
    }
}

} // verus!
