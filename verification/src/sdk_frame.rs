//! The SDK XML fragmentation envelope carried inside `SdkCmd` / `SdkReply`
//! frames: `<total_len:u32le><offset:u32le><xml chunk>`.

use vstd::prelude::*;
use crate::error::ProtoError;
use crate::le::{u32_le, le32_at, lemma_u32_roundtrip, put_u32_le, put_slice, slice_to_vec};

verus! {

/// Bytes in the fragment header: total_len (u32) + offset (u32).
pub const HEADER_BYTES: usize = 8;

/// One SDK XML fragment: the envelope header plus this fragment's XML bytes.
#[derive(Debug, Clone, PartialEq, Eq)]
pub struct SdkFragment {
    pub total_len: u32,
    pub offset: u32,
    pub xml_chunk: Vec<u8>,
}

/// A fragment as plain values: `(total_len, offset, chunk)`.
pub type FragmentView = (u32, u32, Seq<u8>);

impl View for SdkFragment {
    type V = FragmentView;

    open spec fn view(&self) -> FragmentView {
        (self.total_len, self.offset, self.xml_chunk@)
    }
}

/// The payload bytes of a fragment.
pub open spec fn fragment_bytes(f: FragmentView) -> Seq<u8> {
    u32_le(f.0) + u32_le(f.1) + f.2
}

impl SdkFragment {
    /// Parse the payload of an SDK frame into a fragment.
    pub fn parse(payload: &[u8]) -> (res: Result<SdkFragment, ProtoError>)
        ensures
            payload@.len() < 8 ==> res == Err::<SdkFragment, ProtoError>(
                ProtoError::ShortFrame { expected: 8, got: payload@.len() as usize },
            ),
            payload@.len() >= 8 ==> (res matches Ok(f) && f@ == (
                le32_at(payload@, 0),
                le32_at(payload@, 4),
                payload@.subrange(8, payload@.len() as int),
            )),
    {
        if payload.len() < HEADER_BYTES {
            return Err(ProtoError::ShortFrame { expected: HEADER_BYTES, got: payload.len() });
        }
        let total_len = (payload[0] as u32) | ((payload[1] as u32) << 8) | ((payload[2] as u32)
            << 16) | ((payload[3] as u32) << 24);
        let offset = (payload[4] as u32) | ((payload[5] as u32) << 8) | ((payload[6] as u32)
            << 16) | ((payload[7] as u32) << 24);
        let xml_chunk = slice_to_vec(payload, HEADER_BYTES, payload.len());
        Ok(SdkFragment { total_len, offset, xml_chunk })
    }

    /// Serialize this fragment into an SDK frame payload.
    pub fn encode(&self) -> (out: Vec<u8>)
        ensures
            out@ == fragment_bytes(self@),
    {
        let mut buf: Vec<u8> = Vec::new();
        put_u32_le(&mut buf, self.total_len);
        put_u32_le(&mut buf, self.offset);
        put_slice(&mut buf, self.xml_chunk.as_slice());
        buf
    }
}

/// Parsing an encoded fragment gives the same fragment back.
pub proof fn lemma_fragment_roundtrip(f: FragmentView)
    ensures
        fragment_bytes(f).len() >= 8,
        le32_at(fragment_bytes(f), 0) == f.0,
        le32_at(fragment_bytes(f), 4) == f.1,
        fragment_bytes(f).subrange(8, fragment_bytes(f).len() as int) == f.2,
{
    lemma_u32_roundtrip(f.0);
    lemma_u32_roundtrip(f.1);
    let b = fragment_bytes(f);
    assert(b.subrange(8, b.len() as int) =~= f.2);
}

/// Reassembly state as plain values: `(declared total length, bytes so far)`.
pub type ReassemblyView = (u32, Seq<u8>);

/// The outcome of one push as plain values.
pub type PushOutcome = Result<Option<Seq<u8>>, ProtoError>;

/// What one push does to the reassembly state, and what it returns.
pub open spec fn push_step(s: ReassemblyView, f: FragmentView) -> (ReassemblyView, PushOutcome) {
    let total = if s.1.len() == 0 { f.0 } else { s.0 };
    let expected = s.1.len();
    if f.1 != expected {
        ((total, s.1), Err(ProtoError::FragmentGap { expected: expected as u32, got: f.1 }))
    } else if f.1 + f.2.len() > f.0 {
        (
            (total, s.1),
            Err(ProtoError::FragmentOverflow { total: f.0, offset: f.1, chunk: f.2.len() as usize }),
        )
    } else if s.1.len() + f.2.len() == total {
        ((0, Seq::empty()), Ok(Some(s.1 + f.2)))
    } else {
        ((total, s.1 + f.2), Ok(None))
    }
}

/// Accumulates SDK fragments into a complete XML payload.
#[derive(Debug)]
pub struct SdkReassembler {
    total_len: u32,
    buf: Vec<u8>,
}

impl View for SdkReassembler {
    type V = ReassemblyView;

    closed spec fn view(&self) -> ReassemblyView {
        (self.total_len, self.buf@)
    }
}

/// The plain-value form of a push's result.
pub open spec fn push_result_view(r: Result<Option<Vec<u8>>, ProtoError>) -> PushOutcome {
    match r {
        Ok(Some(v)) => Ok(Some(v@)),
        Ok(None) => Ok(None),
        Err(e) => Err(e),
    }
}

impl SdkReassembler {
    /// The buffered bytes never exceed what a `u32` offset can name.
    pub open spec fn wf(&self) -> bool {
        self@.1.len() <= u32::MAX
    }

    /// A fresh reassembler with no message in progress.
    pub fn new() -> (r: SdkReassembler)
        ensures
            r@ == (0u32, Seq::<u8>::empty()),
            r.wf(),
    {
        SdkReassembler { total_len: 0, buf: Vec::new() }
    }

    /// Feed one fragment. Returns `Some(xml)` once the whole message has
    /// arrived, then resets for the next message.
    pub fn push(&mut self, frag: SdkFragment) -> (res: Result<Option<Vec<u8>>, ProtoError>)
        requires
            old(self).wf(),
        ensures
            final(self).wf(),
            (final(self)@, push_result_view(res)) == push_step(old(self)@, frag@),
    {
        if self.buf.len() == 0 {
            self.total_len = frag.total_len;
        }
        let expected = self.buf.len() as u32;
        if frag.offset != expected {
            return Err(ProtoError::FragmentGap { expected, got: frag.offset });
        }
        let chunk_len = frag.xml_chunk.len();
        if frag.offset > frag.total_len || chunk_len as u64 > (frag.total_len - frag.offset) as u64 {
            return Err(ProtoError::FragmentOverflow {
                total: frag.total_len,
                offset: frag.offset,
                chunk: chunk_len,
            });
        }
        let ghost before = self.buf@;
        let mut chunk = frag.xml_chunk;
        self.buf.append(&mut chunk);
        assert(self.buf@ == before + frag.xml_chunk@);
        if self.buf.len() as u32 == self.total_len {
            let mut complete: Vec<u8> = Vec::new();
            std::mem::swap(&mut complete, &mut self.buf);
            self.total_len = 0;
            assert(self.buf@ == Seq::<u8>::empty());
            return Ok(Some(complete));
        }
        Ok(None)
    }
}

/// Run a sequence of pushes from state `s`, collecting each push's outcome.
pub open spec fn run_pushes(s: ReassemblyView, frags: Seq<FragmentView>) -> (
    ReassemblyView,
    Seq<PushOutcome>,
)
    decreases frags.len(),
{
    if frags.len() == 0 {
        (s, Seq::empty())
    } else {
        let (s1, r) = push_step(s, frags[0]);
        let (s2, rs) = run_pushes(s1, frags.drop_first());
        (s2, seq![r] + rs)
    }
}

/// How many fragments an `len`-byte document is split into at `size` bytes
/// each: at least one, so an empty document still travels as one fragment.
pub open spec fn fragment_count(len: nat, size: nat) -> nat {
    if len == 0 {
        1
    } else {
        ((len + size - 1) / size as int) as nat
    }
}

/// Fragment `i` of `xml` split at `size` bytes.
pub open spec fn fragment_at(xml: Seq<u8>, size: nat, i: int) -> FragmentView {
    let start = i * size;
    let end = if start + size <= xml.len() { start + size } else { xml.len() as int };
    (xml.len() as u32, start as u32, xml.subrange(start, end))
}

/// The fragments `xml` is sent as.
pub open spec fn fragments_of(xml: Seq<u8>, size: nat) -> Seq<FragmentView> {
    Seq::new(fragment_count(xml.len(), size), |i: int| fragment_at(xml, size, i))
}

/// Split an XML document into `SdkCmd` fragments of at most `frag_size` bytes
/// (a size of 0 is taken as 1). An empty document still yields one fragment.
pub fn fragment_xml(xml: &[u8], frag_size: usize) -> (res: Result<Vec<SdkFragment>, ProtoError>)
    ensures
        xml@.len() > u32::MAX ==> res == Err::<Vec<SdkFragment>, ProtoError>(
            ProtoError::FrameTooLarge(xml@.len() as usize),
        ),
        xml@.len() <= u32::MAX ==> (res matches Ok(v) && v@.map_values(|f: SdkFragment| f@)
            == fragments_of(xml@, if frag_size == 0 { 1 } else { frag_size as nat })),
{
    if xml.len() > 0xffff_ffff {
        return Err(ProtoError::FrameTooLarge(xml.len()));
    }
    let total_len = xml.len() as u32;
    let size: usize = if frag_size == 0 { 1 } else { frag_size };
    let ghost sz = size as nat;
    let ghost count = fragment_count(xml@.len(), sz);
    let mut out: Vec<SdkFragment> = Vec::new();
    let mut offset: usize = 0;
    let mut i: usize = 0;
    proof {
        lemma_fragment_index(xml@.len(), sz, 0);
    }
    loop
        invariant_except_break
            offset < xml@.len() || i == 0,
            offset == i * sz,
            i <= offset || i == 0,
        invariant
            sz == size as nat,
            size >= 1,
            count == fragment_count(xml@.len(), sz),
            xml@.len() <= u32::MAX,
            total_len == xml@.len(),
            offset <= i * sz,
            i <= count,
            offset <= xml@.len(),
            out@.len() == i,
            forall|j: int| 0 <= j < i ==> #[trigger] out@[j]@ == fragment_at(xml@, sz, j),
        ensures
            out@.len() == count,
            forall|j: int| 0 <= j < count ==> #[trigger] out@[j]@ == fragment_at(xml@, sz, j),
        decreases xml@.len() - offset,
    {
        proof {
            lemma_fragment_index(xml@.len(), sz, i as int);
        }
        assert(i <= offset) by (nonlinear_arith) requires offset == i * sz, sz >= 1, i >= 0;
        let end: usize = if size <= xml.len() - offset { offset + size } else { xml.len() };
        let chunk = slice_to_vec(xml, offset, end);
        let frag = SdkFragment { total_len, offset: offset as u32, xml_chunk: chunk };
        assert(frag@ == fragment_at(xml@, sz, i as int));
        out.push(frag);
        let ghost old_i = i as int;
        offset = end;
        i = i + 1;
        proof {
            assert(offset <= (i as int) * sz) by (nonlinear_arith)
                requires end <= old_i * sz + sz, offset == end, i == old_i + 1;
            lemma_fragment_index(xml@.len(), sz, i as int);
            lemma_fragment_index(xml@.len(), sz, old_i);
        }
        if offset >= xml.len() {
            break;
        }
        proof {
            assert(offset == (i as int) * sz) by (nonlinear_arith)
                requires offset == old_i * sz + sz, i == old_i + 1;
        }
    }
    assert(out@.map_values(|f: SdkFragment| f@) =~= fragments_of(xml@, sz));
    Ok(out)
}

/// Fragment `j` exists exactly when it is the first one or starts inside the document.
proof fn lemma_fragment_index(len: nat, size: nat, j: int)
    requires
        size >= 1,
    ensures
        fragment_count(len, size) >= 1,
        (0 <= j < fragment_count(len, size)) <==> (j == 0 || (0 < j && j * size < len)),
{
    if len > 0 {
        let d = (len - 1) / (size as int);
        let m = (len - 1) % (size as int);
        assert(len - 1 == d * size + m && 0 <= m < size) by (nonlinear_arith)
            requires size >= 1, d == (len - 1) / (size as int), m == (len - 1) % (size as int), len >= 1;
        assert((len + size - 1) / (size as int) == d + 1) by (nonlinear_arith)
            requires len - 1 == d * size + m, 0 <= m < size, size >= 1;
        if j > d {
            assert(j * size >= d * size + size) by (nonlinear_arith)
                requires j >= d + 1, size >= 1;
        } else if j >= 0 {
            assert(j * size <= d * size) by (nonlinear_arith)
                requires j <= d, size >= 1, j >= 0;
        }
    }
}

/// The reassembly state just before fragment `k` of `xml` is pushed.
pub open spec fn state_before(xml: Seq<u8>, size: nat, k: int, t: u32) -> ReassemblyView {
    if k == 0 {
        (t, Seq::empty())
    } else {
        (xml.len() as u32, xml.subrange(0, k * size))
    }
}

/// The outcomes of pushing fragments `k..n`: nothing until the last, which
/// yields the whole document.
pub open spec fn expected_outcomes(xml: Seq<u8>, n: nat, k: int) -> Seq<PushOutcome> {
    Seq::new((n - k) as nat, |j: int| if k + j == n - 1 { Ok(Some(xml)) } else { Ok(None) })
}

proof fn lemma_run_from(xml: Seq<u8>, size: nat, k: int, t: u32)
    requires
        size >= 1,
        xml.len() <= u32::MAX,
        0 <= k <= fragment_count(xml.len(), size),
    ensures
        run_pushes(state_before(xml, size, k, t), fragments_of(xml, size).skip(k)) == (
            if k == fragment_count(xml.len(), size) { state_before(xml, size, k, t) } else {
                (0u32, Seq::<u8>::empty())
            },
            expected_outcomes(xml, fragment_count(xml.len(), size), k),
        ),
    decreases fragment_count(xml.len(), size) - k,
{
    let n = fragment_count(xml.len(), size);
    let frags = fragments_of(xml, size);
    if k == n {
        assert(frags.skip(k) =~= Seq::<FragmentView>::empty());
        assert(expected_outcomes(xml, n, k) =~= Seq::<PushOutcome>::empty());
    } else {
        lemma_fragment_index(xml.len(), size, k);
        lemma_fragment_index(xml.len(), size, k + 1);
        let f = frags[k];
        assert(frags.skip(k)[0] == f);
        assert(frags.skip(k).drop_first() =~= frags.skip(k + 1));
        let st = state_before(xml, size, k, t);
        let start = k * size;
        assert(start <= xml.len()) by (nonlinear_arith)
            requires k == 0 || k * size < xml.len(), start == k * size, size >= 1, k >= 0;
        assert(k == 0 ==> start == 0);
        if k > 0 {
            assert(start > 0) by (nonlinear_arith)
                requires k > 0, size >= 1, start == k * size;
        }
        assert(st.1.len() == start);
        let end = if start + size <= xml.len() { start + size } else { xml.len() as int };
        assert(f == (xml.len() as u32, start as u32, xml.subrange(start, end)));
        assert((k + 1) * size == start + size) by (nonlinear_arith)
            requires start == k * size;
        let (s1, r) = push_step(st, f);
        if k == n - 1 {
            assert(end == xml.len());
            assert(st.1 + f.2 =~= xml);
            assert(r == Ok::<Option<Seq<u8>>, ProtoError>(Some(xml)));
            assert(s1 == (0u32, Seq::<u8>::empty()));
            assert(frags.skip(k + 1) =~= Seq::<FragmentView>::empty());
            assert(expected_outcomes(xml, n, k + 1) =~= Seq::<PushOutcome>::empty());
        } else {
            assert(end == start + size);
            assert(st.1 + f.2 =~= xml.subrange(0, (k + 1) * size));
            assert(r == Ok::<Option<Seq<u8>>, ProtoError>(None));
            assert(s1 == state_before(xml, size, k + 1, t));
            lemma_run_from(xml, size, k + 1, t);
        }
        assert(expected_outcomes(xml, n, k) =~= seq![r] + expected_outcomes(xml, n, k + 1));
        let rest = run_pushes(s1, frags.skip(k + 1));
        assert(run_pushes(st, frags.skip(k)) == (rest.0, seq![r] + rest.1));
    }
}

/// Reassembly undoes fragmentation: pushing the fragments of `xml`, in
/// order, into a reassembler with nothing buffered completes exactly at the
/// last fragment, yields `xml` itself, and leaves the reassembler empty.
pub proof fn lemma_reassemble_fragments(xml: Seq<u8>, size: nat, t: u32)
    requires
        size >= 1,
        xml.len() <= u32::MAX,
    ensures
        run_pushes((t, Seq::empty()), fragments_of(xml, size)) == (
            (0u32, Seq::<u8>::empty()),
            expected_outcomes(xml, fragment_count(xml.len(), size), 0),
        ),
{
    lemma_fragment_index(xml.len(), size, 0);
    assert(fragments_of(xml, size).skip(0) =~= fragments_of(xml, size));
    lemma_run_from(xml, size, 0, t);
}

} // verus!
