//! Image flattening: turning the loadable segments of a linked executable
//! container into one contiguous byte buffer with a single base load address,
//! zero-filling the gaps between segments.

use vstd::prelude::*;

verus! {

/// Program-header type tag of a loadable segment.
pub const SEGMENT_KIND_LOAD: u32 = 1;

/// One entry of the executable container's program header table, reduced to
/// the fields the flattener reads.
#[derive(Clone, Copy, Debug, PartialEq, Eq, Structural)]
pub struct Segment {
    /// Program-header type tag (`SEGMENT_KIND_LOAD` marks a loadable segment).
    pub kind: u32,
    /// Offset of the segment's bytes in the container file.
    pub file_offset: u64,
    /// Number of bytes the segment occupies in the container file.
    pub file_size: u64,
    /// Physical address at which the segment is to be loaded.
    pub physical_address: u64,
}

/// The flattener's output: one contiguous byte buffer and its load address.
#[derive(Debug, PartialEq, Eq)]
pub struct FlatImage {
    pub bytes: Vec<u8>,
    pub base_address: u32,
}

/// Why an image could not be flattened.
#[derive(Clone, Copy, Debug, PartialEq, Eq, Structural)]
pub enum ImageError {
    /// The container could not be parsed, or a loadable segment lies outside
    /// the file, overlaps its predecessor, or reaches past the 32-bit address
    /// space.
    MalformedContainer,
    /// No loadable segment with a non-zero file size exists: nothing to flash.
    Empty,
}

/// A segment that the flattener keeps: loadable and non-empty in the file.
pub open spec fn is_load(s: Segment) -> bool {
    s.kind == SEGMENT_KIND_LOAD && s.file_size > 0
}

/// The qualifying segments of a program header table, in table order.
pub open spec fn load_segments(segs: Seq<Segment>) -> Seq<Segment>
    decreases segs.len(),
{
    if segs.len() == 0 {
        Seq::empty()
    } else if is_load(segs.last()) {
        load_segments(segs.drop_last()).push(segs.last())
    } else {
        load_segments(segs.drop_last())
    }
}

/// One past the last physical address a segment covers.
pub open spec fn seg_end(s: Segment) -> int {
    s.physical_address + s.file_size
}

/// The segment's file range lies inside the container bytes.
pub open spec fn seg_in_file(buf: Seq<u8>, s: Segment) -> bool {
    s.file_offset + s.file_size <= buf.len()
}

/// The bytes a segment contributes, read from the container file.
pub open spec fn seg_bytes(buf: Seq<u8>, s: Segment) -> Seq<u8> {
    buf.subrange(s.file_offset as int, s.file_offset + s.file_size)
}

/// A run of zero bytes, as inserted into gaps between segments.
pub open spec fn zero_bytes(n: int) -> Seq<u8> {
    Seq::new(n as nat, |i: int| 0u8)
}

/// The conditions under which a qualifying-segment sequence can be flattened:
/// every segment's bytes lie inside the container, every segment ends inside
/// the 32-bit address space, and the segments appear in non-decreasing,
/// non-overlapping address order.
pub open spec fn segs_wf(buf: Seq<u8>, q: Seq<Segment>) -> bool {
    &&& forall|i: int|
        0 <= i < q.len() ==> seg_in_file(buf, #[trigger] q[i]) && seg_end(q[i]) <= u32::MAX
    &&& forall|i: int|
        0 <= i && i + 1 < q.len() ==> seg_end(#[trigger] q[i]) <= q[i + 1].physical_address
}

/// The flattened bytes of a qualifying-segment sequence: each segment's file
/// bytes in order, with the gap to its predecessor's end zero-filled.
pub open spec fn flat_bytes(buf: Seq<u8>, q: Seq<Segment>) -> Seq<u8>
    decreases q.len(),
{
    if q.len() == 0 {
        Seq::empty()
    } else if q.len() == 1 {
        seg_bytes(buf, q[0])
    } else {
        flat_bytes(buf, q.drop_last()) + zero_bytes(
            q.last().physical_address - seg_end(q[q.len() - 2]),
        ) + seg_bytes(buf, q.last())
    }
}

/// What flattening a program header table yields: the flattened bytes and the
/// first qualifying segment's physical address, or the error owed.
pub open spec fn flatten_result(buf: Seq<u8>, all: Seq<Segment>) -> Result<
    (Seq<u8>, u32),
    ImageError,
> {
    let q = load_segments(all);
    if q.len() == 0 {
        Result::Err(ImageError::Empty)
    } else if !segs_wf(buf, q) {
        Result::Err(ImageError::MalformedContainer)
    } else {
        Result::Ok((flat_bytes(buf, q), q[0].physical_address as u32))
    }
}

/// Every segment that `load_segments` keeps qualifies.
pub proof fn lemma_load_segments_all_load(segs: Seq<Segment>)
    ensures
        forall|i: int|
            0 <= i < load_segments(segs).len() ==> is_load(#[trigger] load_segments(segs)[i]),
    decreases segs.len(),
{
    if segs.len() > 0 {
        lemma_load_segments_all_load(segs.drop_last());
        let q0 = load_segments(segs.drop_last());
        if is_load(segs.last()) {
            assert forall|i: int| 0 <= i < load_segments(segs).len() implies is_load(
                load_segments(segs)[i],
            ) by {
                if i < q0.len() {
                    assert(load_segments(segs)[i] == q0[i]);
                } else {
                    assert(load_segments(segs)[i] == segs.last());
                }
            }
        }
    }
}

/// Unfolds one step of `flat_bytes` along a prefix of the segment sequence.
proof fn lemma_flat_bytes_step(buf: Seq<u8>, q: Seq<Segment>, j: int)
    requires
        0 <= j < q.len(),
    ensures
        flat_bytes(buf, q.take(j + 1)) == if j == 0 {
            seg_bytes(buf, q[0])
        } else {
            flat_bytes(buf, q.take(j)) + zero_bytes(q[j].physical_address - seg_end(q[j - 1]))
                + seg_bytes(buf, q[j])
        },
{
    let pre = q.take(j + 1);
    assert(pre.last() == q[j]);
    assert(pre.drop_last() =~= q.take(j));
    if j > 0 {
        assert(pre[j - 1] == q[j - 1]);
    }
}

/// Flattens the qualifying segments of a program header table over the
/// container bytes they index into.
#[verifier::rlimit(60)]
pub fn flatten_segments(buffer: &Vec<u8>, segments: &Vec<Segment>) -> (r: Result<
    FlatImage,
    ImageError,
>)
    ensures
        match flatten_result(buffer@, segments@) {
            Result::Ok(p) => r matches Result::Ok(f) && f.bytes@ == p.0 && f.base_address == p.1,
            Result::Err(e) => r matches Result::Err(e2) && e2 == e,
        },
{
    let loads = filter_load_segments(segments);
    proof {
        lemma_load_segments_all_load(segments@);
    }
    if loads.len() == 0 {
        return Result::Err(ImageError::Empty);
    }
    let ghost q = load_segments(segments@);
    let base: u64 = loads[0].physical_address;
    let mut data: Vec<u8> = Vec::new();
    let mut last_end: u64 = 0;
    let mut j: usize = 0;
    #[verifier::loop_isolation(false)]
    while j < loads.len()
        invariant
            j <= loads@.len(),
            forall|k: int|
                0 <= k < j ==> seg_in_file(buffer@, #[trigger] q[k]) && seg_end(q[k]) <= u32::MAX,
            forall|k: int| 0 <= k && k + 1 < j ==> seg_end(#[trigger] q[k]) <= q[k + 1].physical_address,
            j > 0 ==> last_end == seg_end(q[j - 1]),
            data@ == flat_bytes(buffer@, q.take(j as int)),
        decreases loads@.len() - j,
    {
        let s = loads[j];
        if s.file_size > buffer.len() as u64 || s.file_offset > buffer.len() as u64 - s.file_size {
            return Result::Err(ImageError::MalformedContainer);
        }
        if s.file_size > 0xFFFF_FFFF || s.physical_address > 0xFFFF_FFFF - s.file_size {
            return Result::Err(ImageError::MalformedContainer);
        }
        if j > 0 && s.physical_address < last_end {
            return Result::Err(ImageError::MalformedContainer);
        }
        let gap: u64 = if j > 0 {
            s.physical_address - last_end
        } else {
            0
        };
        append_segment(&mut data, buffer, s, gap);
        proof {
            lemma_flat_bytes_step(buffer@, q, j as int);
            if j == 0 {
                assert(data@ =~= flat_bytes(buffer@, q.take(1)));
            }
        }
        last_end = s.physical_address + s.file_size;
        j = j + 1;
    }
    proof {
        assert(q.take(q.len() as int) =~= q);
    }
    Result::Ok(FlatImage { bytes: data, base_address: base as u32 })
}

/// Appends the zero-filled gap to a segment's predecessor and then the
/// segment's file bytes to the accumulating flat buffer.
fn append_segment(data: &mut Vec<u8>, buffer: &Vec<u8>, s: Segment, gap: u64)
    requires
        seg_in_file(buffer@, s),
    ensures
        final(data)@ == old(data)@ + zero_bytes(gap as int) + seg_bytes(buffer@, s),
{
    let ghost data_at_entry = data@;
    let mut g: u64 = 0;
    #[verifier::loop_isolation(false)]
    while g < gap
        invariant
            g <= gap,
            data@ == data_at_entry + zero_bytes(g as int),
        decreases gap - g,
    {
        data.push(0u8);
        proof {
            assert(data@ =~= data_at_entry + zero_bytes(g + 1));
        }
        g = g + 1;
    }
    let ghost data_after_gap = data@;
    let blen: usize = buffer.len();
    let off: usize = s.file_offset as usize;
    let len: usize = s.file_size as usize;
    let mut t: usize = 0;
    #[verifier::loop_isolation(false)]
    while t < len
        invariant
            t <= len,
            off + len <= blen,
            data@ == data_after_gap + buffer@.subrange(off as int, off + t),
        decreases len - t,
    {
        data.push(buffer[off + t]);
        proof {
            assert(data@ =~= data_after_gap + buffer@.subrange(off as int, off + t + 1));
        }
        t = t + 1;
    }
    proof {
        assert(data@ =~= old(data)@ + zero_bytes(gap as int) + seg_bytes(buffer@, s));
    }
}

/// The program header table of an executable container, or `None` where the
/// container does not parse. Both are functions of the container bytes alone.
pub uninterp spec fn elf_program_table(b: Seq<u8>) -> Option<Seq<Segment>>;

/// Relies on `goblin::elf::Elf::parse`: whether a container parses, and the
/// program header table it carries, depend on the input bytes alone; each
/// table entry's `p_type`, `p_offset`, `p_filesz` and `p_paddr` are copied out
/// unchanged, in table order.
#[verifier::external_body]
fn parse_program_table(buffer: &Vec<u8>) -> (r: Result<Vec<Segment>, ImageError>)
    ensures
        match r {
            Result::Ok(segs) => elf_program_table(buffer@) == Option::Some(segs@),
            Result::Err(e) => elf_program_table(buffer@) is None && e
                == ImageError::MalformedContainer,
        },
{
    match goblin::elf::Elf::parse(buffer.as_slice()) {
        Ok(elf) => Ok(
            elf.program_headers.iter().map(
                |ph| Segment {
                    kind: ph.p_type,
                    file_offset: ph.p_offset,
                    file_size: ph.p_filesz,
                    physical_address: ph.p_paddr,
                },
            ).collect(),
        ),
        Err(_) => Err(ImageError::MalformedContainer),
    }
}

/// Parses an executable container and flattens its loadable segments into one
/// contiguous binary with a base load address.
pub fn elf_to_bin(buffer: &Vec<u8>) -> (r: Result<FlatImage, ImageError>)
    ensures
        match elf_program_table(buffer@) {
            Option::None => r matches Result::Err(e) && e == ImageError::MalformedContainer,
            Option::Some(t) => match flatten_result(buffer@, t) {
                Result::Ok(p) => r matches Result::Ok(f) && f.bytes@ == p.0 && f.base_address
                    == p.1,
                Result::Err(e) => r matches Result::Err(e2) && e2 == e,
            },
        },
{
    match parse_program_table(buffer) {
        Result::Ok(segments) => flatten_segments(buffer, &segments),
        Result::Err(e) => Result::Err(e),
    }
}

/// Flattening is deterministic: the flattened bytes and the base address are a
/// function of the container bytes and the segment table alone, so any two
/// outcomes of flattening the same input are equal.
pub proof fn lemma_flatten_deterministic(
    buf: Seq<u8>,
    segs: Seq<Segment>,
    r1: Result<(Seq<u8>, u32), ImageError>,
    r2: Result<(Seq<u8>, u32), ImageError>,
)
    requires
        r1 == flatten_result(buf, segs),
        r2 == flatten_result(buf, segs),
    ensures
        r1 == r2,
{
}

/// Flattening a single qualifying segment yields exactly that segment's file
/// bytes, and the base address is its physical address.
pub proof fn lemma_single_segment_identity(buf: Seq<u8>, s: Segment)
    requires
        is_load(s),
        seg_in_file(buf, s),
        seg_end(s) <= u32::MAX,
    ensures
        flatten_result(buf, seq![s]) matches Result::Ok(p) && p.0 == seg_bytes(buf, s) && p.0.len()
            == s.file_size && p.1 == s.physical_address as u32,
{
    let t = seq![s];
    assert(load_segments(Seq::<Segment>::empty()) == Seq::<Segment>::empty());
    assert(t.drop_last() =~= Seq::<Segment>::empty());
    assert(load_segments(t) =~= t);
}

/// Two qualifying segments with a gap flatten to the first segment's bytes,
/// then exactly the gap's width of zero bytes, then the second segment's
/// bytes, and nothing else.
pub proof fn lemma_gap_zero_fill(buf: Seq<u8>, a: Segment, b: Segment)
    requires
        is_load(a),
        is_load(b),
        seg_in_file(buf, a),
        seg_in_file(buf, b),
        seg_end(a) <= b.physical_address,
        seg_end(a) <= u32::MAX,
        seg_end(b) <= u32::MAX,
    ensures
        flatten_result(buf, seq![a, b]) matches Result::Ok(p) && p.0 == seg_bytes(buf, a)
            + zero_bytes(b.physical_address - seg_end(a)) + seg_bytes(buf, b) && p.1
            == a.physical_address as u32,
{
    let t = seq![a, b];
    assert(load_segments(Seq::<Segment>::empty()) == Seq::<Segment>::empty());
    assert(t.drop_last() =~= seq![a]);
    assert(seq![a].drop_last() =~= Seq::<Segment>::empty());
    assert(load_segments(seq![a]) =~= seq![a]);
    assert(load_segments(t) =~= t);
    assert(t.take(1) =~= seq![a]);
    assert(flat_bytes(buf, t) == flat_bytes(buf, seq![a]) + zero_bytes(
        b.physical_address - seg_end(a),
    ) + seg_bytes(buf, b));
}

/// Keeps the qualifying segments of a table, preserving table order.
fn filter_load_segments(segments: &Vec<Segment>) -> (r: Vec<Segment>)
    ensures
        r@ == load_segments(segments@),
{
    let mut loads: Vec<Segment> = Vec::new();
    let mut i: usize = 0;
    #[verifier::loop_isolation(false)]
    while i < segments.len()
        invariant
            i <= segments@.len(),
            loads@ == load_segments(segments@.take(i as int)),
        decreases segments@.len() - i,
    {
        let s = segments[i];
        proof {
            assert(segments@.take(i + 1).drop_last() =~= segments@.take(i as int));
        }
        if s.kind == SEGMENT_KIND_LOAD && s.file_size > 0 {
            loads.push(s);
        }
        i = i + 1;
    }
    proof {
        assert(segments@.take(segments@.len() as int) =~= segments@);
    }
    loads
}

} // verus!
