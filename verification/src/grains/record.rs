//! The raw file-access record as the kernel side emits it: a process-name
//! buffer, an event identifier, and path segments from the leaf up to the
//! root, all in one fixed layout.

use vstd::bytes::*;
use vstd::prelude::*;
use vstd::slice::*;

verus! {

/// The sizes that fix the layout of a raw record. A record is, without
/// padding: `comm_len` bytes of process name; the event identifier, eight
/// bytes, least significant first; then `depth` path segments, each an inode
/// number in eight bytes, least significant first, and `name_len` bytes of
/// name.
#[derive(Clone, Copy, Debug, PartialEq, Eq)]
pub struct RecordLayout {
    pub comm_len: usize,
    pub name_len: usize,
    pub depth: usize,
}

impl RecordLayout {
    /// The size of one path segment.
    pub open spec fn segment_size(self) -> int {
        8 + self.name_len
    }

    /// The offset of the first path segment.
    pub open spec fn path_offset(self) -> int {
        self.comm_len + 8
    }

    /// The offset of path segment `i`.
    pub open spec fn segment_offset(self, i: int) -> int {
        self.path_offset() + i * self.segment_size()
    }

    /// The size of a whole record.
    pub open spec fn size(self) -> int {
        self.segment_offset(self.depth as int)
    }

    /// The size of a whole record, where a `usize` can hold it.
    pub fn record_size(&self) -> (r: Option<usize>)
        ensures
            match r {
                Some(n) => n == self.size(),
                None => self.size() > usize::MAX,
            },
    {
        let segment = match self.name_len.checked_add(8) {
            Some(s) => s,
            None => {
                proof {
                    if self.depth == 0 {
                    } else {
                        assert(self.depth * self.segment_size() >= self.segment_size())
                            by (nonlinear_arith)
                            requires
                                self.depth >= 1,
                                self.segment_size() >= 0,
                        ;
                    }
                }
                return if self.depth == 0 {
                    self.comm_len.checked_add(8)
                } else {
                    None
                };
            },
        };
        let segments = match self.depth.checked_mul(segment) {
            Some(s) => s,
            None => {
                return None;
            },
        };
        match self.comm_len.checked_add(8) {
            Some(head) => head.checked_add(segments),
            None => None,
        }
    }
}

/// One component of a path: the inode it names and its name in a
/// null-padded buffer.
#[derive(Clone, Debug, PartialEq, Eq)]
pub struct PathSegment {
    pub ino: u64,
    pub name: Vec<u8>,
}

/// A path segment as a mathematical value.
pub struct PathSegmentView {
    pub ino: u64,
    pub name: Seq<u8>,
}

impl View for PathSegment {
    type V = PathSegmentView;

    open spec fn view(&self) -> PathSegmentView {
        PathSegmentView { ino: self.ino, name: self.name@ }
    }
}

/// A raw file-access record, its fields taken apart but not yet decoded.
/// `path` runs from the leaf, the accessed file itself, up to the root.
#[derive(Clone, Debug, PartialEq, Eq)]
pub struct RawFileAccess {
    pub comm: Vec<u8>,
    pub id: u64,
    pub path: Vec<PathSegment>,
}

/// A raw record as a mathematical value.
pub struct RawFileAccessView {
    pub comm: Seq<u8>,
    pub id: u64,
    pub path: Seq<PathSegmentView>,
}

impl View for RawFileAccess {
    type V = RawFileAccessView;

    open spec fn view(&self) -> RawFileAccessView {
        RawFileAccessView {
            comm: self.comm@,
            id: self.id,
            path: Seq::new(self.path@.len(), |i: int| self.path@[i]@),
        }
    }
}

/// The path segment that starts at offset `at` of `bytes`.
pub open spec fn segment_at(bytes: Seq<u8>, at: int, name_len: int) -> PathSegmentView {
    PathSegmentView {
        ino: spec_u64_from_le_bytes(bytes.subrange(at, at + 8)),
        name: bytes.subrange(at + 8, at + 8 + name_len),
    }
}

/// The record that the first `layout.size()` bytes of `bytes` hold.
pub open spec fn parsed(bytes: Seq<u8>, layout: RecordLayout) -> RawFileAccessView {
    RawFileAccessView {
        comm: bytes.subrange(0, layout.comm_len as int),
        id: spec_u64_from_le_bytes(
            bytes.subrange(layout.comm_len as int, layout.comm_len + 8),
        ),
        path: Seq::new(
            layout.depth as nat,
            |i: int| segment_at(bytes, layout.segment_offset(i), layout.name_len as int),
        ),
    }
}

/// Segment `i + 1` starts where segment `i` ends, and every segment of a
/// record lies within the record.
pub proof fn lemma_segment_offsets(layout: RecordLayout, i: int)
    requires
        0 <= i < layout.depth,
    ensures
        layout.segment_offset(i + 1) == layout.segment_offset(i) + layout.segment_size(),
        layout.path_offset() <= layout.segment_offset(i),
        layout.segment_offset(i + 1) <= layout.size(),
{
    let s = layout.segment_size();
    let d = layout.depth as int;
    assert((i + 1) * s == i * s + s) by (nonlinear_arith);
    assert(0 <= i * s) by (nonlinear_arith)
        requires
            0 <= i,
            0 <= s,
    ;
    assert((i + 1) * s <= d * s) by (nonlinear_arith)
        requires
            i + 1 <= d,
            0 <= s,
    ;
}

/// A record is read from the first `layout.size()` bytes alone: buffers that
/// agree there hold the same record, whatever follows.
pub proof fn lemma_parsed_reads_the_record_only(a: Seq<u8>, b: Seq<u8>, layout: RecordLayout)
    requires
        layout.size() <= a.len(),
        layout.size() <= b.len(),
        a.take(layout.size()) == b.take(layout.size()),
    ensures
        parsed(a, layout) == parsed(b, layout),
{
    let size = layout.size();
    assert forall|i: int| 0 <= i < size implies a[i] == b[i] by {
        assert(a.take(size)[i] == b.take(size)[i]);
    }
    assert(0 <= layout.depth * layout.segment_size()) by (nonlinear_arith)
        requires
            0 <= layout.depth,
            0 <= layout.segment_size(),
    ;
    assert(a.subrange(0, layout.comm_len as int) =~= b.subrange(0, layout.comm_len as int));
    assert(a.subrange(layout.comm_len as int, layout.comm_len + 8) =~= b.subrange(
        layout.comm_len as int,
        layout.comm_len + 8,
    ));
    assert forall|i: int| 0 <= i < layout.depth implies segment_at(
        a,
        layout.segment_offset(i),
        layout.name_len as int,
    ) == segment_at(b, layout.segment_offset(i), layout.name_len as int) by {
        lemma_segment_offsets(layout, i);
        let at = layout.segment_offset(i);
        assert(a.subrange(at, at + 8) =~= b.subrange(at, at + 8));
        assert(a.subrange(at + 8, at + 8 + layout.name_len) =~= b.subrange(
            at + 8,
            at + 8 + layout.name_len,
        ));
    }
    assert(parsed(a, layout).path =~= parsed(b, layout).path);
}

impl RawFileAccess {
    /// Takes a raw record apart. The record is read from the front of
    /// `bytes`; what follows it is ignored. A buffer shorter than one record
    /// is refused, and nothing is read from it.
    pub fn parse(bytes: &[u8], layout: &RecordLayout) -> (r: Option<RawFileAccess>)
        ensures
            r is Some <==> layout.size() <= bytes@.len(),
            r matches Some(raw) ==> raw@ == parsed(bytes@, *layout),
    {
        let len = bytes.len();
        let size = match layout.record_size() {
            Some(n) => n,
            None => {
                return None;
            },
        };
        if len < size {
            return None;
        }
        let comm = slice_to_vec(slice_subrange(bytes, 0, layout.comm_len));
        let id = u64_from_le_bytes(slice_subrange(bytes, layout.comm_len, layout.comm_len + 8));
        let mut path: Vec<PathSegment> = Vec::new();
        let mut at: usize = layout.comm_len + 8;
        let mut i: usize = 0;
        while i < layout.depth
            invariant
                i <= layout.depth,
                size == layout.size(),
                size <= bytes@.len(),
                at == layout.segment_offset(i as int),
                at <= size,
                path@.len() == i,
                forall|j: int|
                    0 <= j < i ==> (#[trigger] path@[j])@ == segment_at(
                        bytes@,
                        layout.segment_offset(j),
                        layout.name_len as int,
                    ),
            decreases layout.depth - i,
        {
            proof {
                lemma_segment_offsets(*layout, i as int);
            }
            let ino = u64_from_le_bytes(slice_subrange(bytes, at, at + 8));
            let name = slice_to_vec(slice_subrange(bytes, at + 8, at + 8 + layout.name_len));
            path.push(PathSegment { ino, name });
            at = at + 8 + layout.name_len;
            i += 1;
        }
        let raw = RawFileAccess { comm, id, path };
        assert(raw@.path =~= parsed(bytes@, *layout).path);
        Some(raw)
    }
}

} // verus!
