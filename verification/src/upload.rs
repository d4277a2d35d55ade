//! The decisions of a chunked, MD5-verified, resume-capable file upload.
//!
//! The transfer runs `FileStartAsk` → `FileContentAsk`* → `FileEndAsk`. The
//! application drives the socket and the file; the functions here decide,
//! from each reply, where the transfer resumes, whether a chunk is accepted,
//! re-sent or the upload fails, and whether the final check passed.

use vstd::prelude::*;
use crate::error::{Error, UploadStage};
use crate::file::{FileContentReply, FileEndReply, FileStartReply};
use crate::fmt::{ascii_lower, eq_ignore_ascii_case, eq_ignore_ascii_case_spec};

verus! {

/// Progress for an in-flight upload, reported once per acknowledged chunk.
#[derive(Debug, Clone, Copy, PartialEq, Eq, Structural)]
pub struct UploadProgress {
    /// Bytes the device has acknowledged so far (starts at the resume offset).
    pub bytes_sent: u64,
    /// Total file size in bytes.
    pub total_bytes: u64,
}

impl UploadProgress {
    /// Whether the final chunk has been acknowledged.
    pub fn is_complete(&self) -> (b: bool)
        ensures
            b == (self.bytes_sent >= self.total_bytes),
    {
        self.bytes_sent >= self.total_bytes
    }
}

/// The firmware's coarse type tag for an extension, ignoring ASCII case.
pub open spec fn file_type_text(ext: Seq<char>) -> Seq<char> {
    if is_one_of(ext, seq!["png"@, "jpg"@, "jpeg"@, "bmp"@, "gif"@]) {
        "image"@
    } else if is_one_of(ext, seq!["mp4"@, "avi"@, "mov"@, "mkv"@, "flv"@]) {
        "video"@
    } else {
        "file"@
    }
}

/// `ext` equals one of `names`, ignoring ASCII case.
pub open spec fn is_one_of(ext: Seq<char>, names: Seq<Seq<char>>) -> bool {
    exists|i: int| 0 <= i < names.len() && eq_ignore_ascii_case_spec(ext, #[trigger] names[i])
}

/// `ext` equals `name`, ignoring ASCII case.
pub open spec fn same_ext(ext: Seq<char>, name: Seq<char>) -> bool {
    ext.len() == name.len() && forall|i: int| 0 <= i < ext.len() ==> ascii_lower(#[trigger] ext[i]) == name[i]
}

/// The type tag of an extension: `mp4`, `avi`, `mov`, `mkv` and `flv` in any
/// ASCII case are videos; `png`, `jpg`, `jpeg`, `bmp` and `gif` in any ASCII
/// case are images; everything else is a plain file.
pub proof fn lemma_file_type_tags(ext: Seq<char>)
    ensures
        same_ext(ext, "mp4"@) || same_ext(ext, "avi"@) || same_ext(ext, "mov"@) || same_ext(ext, "mkv"@)
            || same_ext(ext, "flv"@) ==> file_type_text(ext) == "video"@,
        same_ext(ext, "png"@) || same_ext(ext, "jpg"@) || same_ext(ext, "jpeg"@) || same_ext(ext, "bmp"@)
            || same_ext(ext, "gif"@) ==> file_type_text(ext) == "image"@,
        !(same_ext(ext, "mp4"@) || same_ext(ext, "avi"@) || same_ext(ext, "mov"@) || same_ext(ext, "mkv"@)
            || same_ext(ext, "flv"@) || same_ext(ext, "png"@) || same_ext(ext, "jpg"@) || same_ext(ext, "jpeg"@)
            || same_ext(ext, "bmp"@) || same_ext(ext, "gif"@)) ==> file_type_text(ext) == "file"@,
{
    reveal_strlit("mp4");
    reveal_strlit("avi");
    reveal_strlit("mov");
    reveal_strlit("mkv");
    reveal_strlit("flv");
    reveal_strlit("png");
    reveal_strlit("jpg");
    reveal_strlit("jpeg");
    reveal_strlit("bmp");
    reveal_strlit("gif");
    let images = seq!["png"@, "jpg"@, "jpeg"@, "bmp"@, "gif"@];
    let videos = seq!["mp4"@, "avi"@, "mov"@, "mkv"@, "flv"@];
    assert forall|n: Seq<char>| images.contains(n) || videos.contains(n) implies
        (eq_ignore_ascii_case_spec(ext, n) <==> same_ext(ext, n)) by {
        assert(forall|i: int| 0 <= i < n.len() ==> ascii_lower(#[trigger] n[i]) == n[i]);
    }
    assert(images[0] == "png"@ && images[1] == "jpg"@ && images[2] == "jpeg"@ && images[3] == "bmp"@ && images[4] == "gif"@);
    assert(videos[0] == "mp4"@ && videos[1] == "avi"@ && videos[2] == "mov"@ && videos[3] == "mkv"@ && videos[4] == "flv"@);
    assert(images.contains("png"@) && images.contains("jpg"@) && images.contains("jpeg"@) && images.contains("bmp"@) && images.contains("gif"@));
    assert(videos.contains("mp4"@) && videos.contains("avi"@) && videos.contains("mov"@) && videos.contains("mkv"@) && videos.contains("flv"@));
    // A video extension matches no image name: they differ at a letter.
    assert forall|v: Seq<char>, m: Seq<char>| videos.contains(v) && images.contains(m) && same_ext(ext, v) implies
        !same_ext(ext, m) by {
        if same_ext(ext, m) {
            assert(ascii_lower(ext[0]) == v[0] && ascii_lower(ext[0]) == m[0]);
            assert(ascii_lower(ext[1]) == v[1] && ascii_lower(ext[1]) == m[1]);
        }
    }
    if is_one_of(ext, images) {
        let i = choose|i: int| 0 <= i < images.len() && eq_ignore_ascii_case_spec(ext, #[trigger] images[i]);
        assert(images.contains(images[i]));
    }
    if is_one_of(ext, videos) {
        let i = choose|i: int| 0 <= i < videos.len() && eq_ignore_ascii_case_spec(ext, #[trigger] videos[i]);
        assert(videos.contains(videos[i]));
    }
}

fn matches_any(ext: &str, names: &[&str]) -> (b: bool)
    ensures
        b == is_one_of(ext@, names@.map_values(|n: &str| n@)),
{
    let ghost ns = names@.map_values(|n: &str| n@);
    let mut i: usize = 0;
    while i < names.len()
        invariant
            i <= names@.len(),
            ns == names@.map_values(|n: &str| n@),
            forall|j: int| 0 <= j < i ==> !eq_ignore_ascii_case_spec(ext@, #[trigger] ns[j]),
        decreases names@.len() - i,
    {
        if eq_ignore_ascii_case(ext, names[i]) {
            assert(ns[i as int] == names@[i as int]@);
            return true;
        }
        i = i + 1;
    }
    false
}

/// Map a file extension (without the dot; empty when the name has none) to
/// the firmware's coarse type tag, ignoring ASCII case.
pub fn file_type_for_extension(ext: &str) -> (t: String)
    ensures
        t@ == file_type_text(ext@),
{
    let images = ["png", "jpg", "jpeg", "bmp", "gif"];
    let videos = ["mp4", "avi", "mov", "mkv", "flv"];
    proof {
        assert(images@.map_values(|n: &str| n@) =~= seq!["png"@, "jpg"@, "jpeg"@, "bmp"@, "gif"@]);
        assert(videos@.map_values(|n: &str| n@) =~= seq!["mp4"@, "avi"@, "mov"@, "mkv"@, "flv"@]);
    }
    if matches_any(ext, &images) {
        String::from_str("image")
    } else if matches_any(ext, &videos) {
        String::from_str("video")
    } else {
        String::from_str("file")
    }
}

/// Where the transfer resumes after the start reply: a non-zero result is
/// a start-stage rejection; otherwise the device's offset, capped at the
/// file size.
pub fn resume_offset(reply: &FileStartReply, size: u64) -> (res: Result<u64, Error>)
    ensures
        reply.result != 0 ==> (res matches Err(Error::Upload { stage, code }) && stage == UploadStage::Start
            && code == reply.result),
        reply.result == 0 ==> res == Ok::<u64, Error>(
            if reply.resume_offset < size { reply.resume_offset } else { size },
        ),
{
    if reply.result != 0 {
        return Err(Error::Upload { stage: UploadStage::Start, code: reply.result });
    }
    if reply.resume_offset < size {
        Ok(reply.resume_offset)
    } else {
        Ok(size)
    }
}

/// What a content reply means for the chunk just sent.
pub enum ChunkVerdict {
    /// The device took the chunk.
    Accepted,
    /// Re-send the chunk; this is the given attempt number.
    Retry(u32),
    /// Retries are exhausted: the upload fails at the content stage.
    Rejected(Error),
}

/// Judge a content reply: a zero result accepts the chunk; a non-zero one
/// retries it while fewer than `retries` retries have been made, and after
/// that fails the upload with the device's code.
pub fn chunk_verdict(reply: &FileContentReply, attempt: u32, retries: u32) -> (v: ChunkVerdict)
    ensures
        reply.result == 0 ==> v is Accepted,
        reply.result != 0 && attempt < retries ==> v == ChunkVerdict::Retry((attempt + 1) as u32),
        reply.result != 0 && attempt >= retries ==> (v matches ChunkVerdict::Rejected(Error::Upload { stage, code })
            && stage == UploadStage::Content && code == reply.result),
{
    if reply.result == 0 {
        ChunkVerdict::Accepted
    } else if attempt >= retries {
        ChunkVerdict::Rejected(Error::Upload { stage: UploadStage::Content, code: reply.result })
    } else {
        ChunkVerdict::Retry(attempt + 1)
    }
}

/// Judge the end reply: a non-zero result fails the upload at the end stage.
pub fn end_verdict(reply: &FileEndReply) -> (res: Result<(), Error>)
    ensures
        reply.result == 0 ==> res is Ok,
        reply.result != 0 ==> (res matches Err(Error::Upload { stage, code }) && stage == UploadStage::End
            && code == reply.result),
{
    if reply.result != 0 {
        Err(Error::Upload { stage: UploadStage::End, code: reply.result })
    } else {
        Ok(())
    }
}

/// The read size for upload chunks: the configured size, at least one byte.
pub fn chunk_len(configured: usize) -> (n: usize)
    ensures
        n == if configured == 0 { 1 } else { configured },
{
    if configured == 0 {
        1
    } else {
        configured
    }
}

/// Where an upload stands.
#[derive(Debug, Clone, Copy, PartialEq, Eq, Structural)]
pub enum UploadPhase {
    /// `FileStartAsk` sent; its reply is awaited.
    Starting,
    /// Between chunks: the next one starts at `offset`.
    Reading { offset: u64 },
    /// The `len`-byte chunk at `offset` is out; `attempt` re-sends so far.
    Sending { offset: u64, len: u64, attempt: u32 },
    /// `FileEndAsk` sent; its reply is awaited.
    Ending,
    /// Nothing more to do.
    Done,
}

/// What the driver of an upload does next.
#[derive(Debug)]
pub enum UploadAction {
    /// Report this progress to the caller, then ask for the next step.
    Report(UploadProgress),
    /// Read the next chunk from the file at `offset` and hand over its length.
    Read { offset: u64 },
    /// Send `FileContentAsk` with the chunk just read, at `offset`.
    SendChunk { offset: u64 },
    /// Send `FileEndAsk`.
    SendEnd,
    /// Stop with this device rejection; the connection is still in step.
    Fail(Error),
    /// The device confirmed the whole file.
    Finish,
}

/// The upload of a `size`-byte file whose chunks may be re-sent `retries`
/// times: the decisions of the `FileStartAsk` → `FileContentAsk`* →
/// `FileEndAsk` exchange, one event at a time.
pub struct Upload {
    pub size: u64,
    pub retries: u32,
    pub phase: UploadPhase,
}

/// After the start reply: rejected, or reading from the device's offset
/// capped at the file size, which is reported first.
pub open spec fn start_step(size: u64, result: u16, resume: u64) -> (UploadPhase, UploadAction) {
    if result != 0 {
        (UploadPhase::Done, UploadAction::Fail(Error::Upload { stage: UploadStage::Start, code: result }))
    } else {
        let offset = if resume < size { resume } else { size };
        (UploadPhase::Reading { offset }, UploadAction::Report(UploadProgress { bytes_sent: offset, total_bytes: size }))
    }
}

/// Between chunks: read another while the offset is short of the size, else
/// finish with the end check.
pub open spec fn next_step(size: u64, offset: u64) -> (UploadPhase, UploadAction) {
    if offset < size {
        (UploadPhase::Reading { offset }, UploadAction::Read { offset })
    } else {
        (UploadPhase::Ending, UploadAction::SendEnd)
    }
}

/// After a read of `n` bytes: an empty read (the file shrank) goes to the end
/// check; otherwise the chunk is sent.
pub open spec fn read_step(offset: u64, n: u64) -> (UploadPhase, UploadAction) {
    if n == 0 {
        (UploadPhase::Ending, UploadAction::SendEnd)
    } else {
        (UploadPhase::Sending { offset, len: n, attempt: 0 }, UploadAction::SendChunk { offset })
    }
}

/// After a content reply: an accepted chunk advances the offset and is
/// reported; a rejected one is re-sent while re-sends remain, and fails the
/// upload after that.
pub open spec fn content_step(size: u64, retries: u32, offset: u64, len: u64, attempt: u32, result: u16) -> (UploadPhase, UploadAction) {
    if result == 0 {
        let next = (offset + len) as u64;
        (UploadPhase::Reading { offset: next }, UploadAction::Report(UploadProgress { bytes_sent: next, total_bytes: size }))
    } else if attempt < retries {
        (UploadPhase::Sending { offset, len, attempt: (attempt + 1) as u32 }, UploadAction::SendChunk { offset })
    } else {
        (UploadPhase::Done, UploadAction::Fail(Error::Upload { stage: UploadStage::Content, code: result }))
    }
}

/// After the end reply: rejected, or finished.
pub open spec fn end_step(result: u16) -> (UploadPhase, UploadAction) {
    if result != 0 {
        (UploadPhase::Done, UploadAction::Fail(Error::Upload { stage: UploadStage::End, code: result }))
    } else {
        (UploadPhase::Done, UploadAction::Finish)
    }
}

impl Upload {
    /// An upload that has just sent `FileStartAsk`.
    pub fn new(size: u64, retries: u32) -> (u: Upload)
        ensures
            u.size == size,
            u.retries == retries,
            u.phase == UploadPhase::Starting,
    {
        Upload { size, retries, phase: UploadPhase::Starting }
    }

    /// The start reply arrived.
    pub fn on_start_reply(&mut self, reply: &FileStartReply) -> (a: UploadAction)
        requires
            old(self).phase == UploadPhase::Starting,
        ensures
            final(self).size == old(self).size,
            final(self).retries == old(self).retries,
            (final(self).phase, a) == start_step(old(self).size, reply.result, reply.resume_offset),
    {
        match resume_offset(reply, self.size) {
            Ok(offset) => {
                self.phase = UploadPhase::Reading { offset };
                UploadAction::Report(UploadProgress { bytes_sent: offset, total_bytes: self.size })
            },
            Err(e) => {
                self.phase = UploadPhase::Done;
                UploadAction::Fail(e)
            },
        }
    }

    /// Decide the step after a report.
    pub fn next(&mut self) -> (a: UploadAction)
        requires
            old(self).phase is Reading,
        ensures
            final(self).size == old(self).size,
            final(self).retries == old(self).retries,
            (final(self).phase, a) == next_step(old(self).size, old(self).phase->Reading_offset),
    {
        let offset = match self.phase {
            UploadPhase::Reading { offset } => offset,
            _ => 0,
        };
        if offset < self.size {
            UploadAction::Read { offset }
        } else {
            self.phase = UploadPhase::Ending;
            UploadAction::SendEnd
        }
    }

    /// The chunk read for the current offset holds `n` bytes.
    pub fn on_read(&mut self, n: u64) -> (a: UploadAction)
        requires
            old(self).phase is Reading,
            old(self).phase->Reading_offset + n <= u64::MAX,
        ensures
            final(self).size == old(self).size,
            final(self).retries == old(self).retries,
            (final(self).phase, a) == read_step(old(self).phase->Reading_offset, n),
            final(self).phase matches UploadPhase::Sending { offset, len, .. } ==> offset + len <= u64::MAX,
    {
        let offset = match self.phase {
            UploadPhase::Reading { offset } => offset,
            _ => 0,
        };
        if n == 0 {
            self.phase = UploadPhase::Ending;
            UploadAction::SendEnd
        } else {
            self.phase = UploadPhase::Sending { offset, len: n, attempt: 0 };
            UploadAction::SendChunk { offset }
        }
    }

    /// The device answered the chunk last sent.
    pub fn on_content_reply(&mut self, reply: &FileContentReply) -> (a: UploadAction)
        requires
            old(self).phase matches UploadPhase::Sending { offset, len, .. } && offset + len <= u64::MAX,
        ensures
            final(self).size == old(self).size,
            final(self).retries == old(self).retries,
            (final(self).phase, a) == content_step(
                old(self).size,
                old(self).retries,
                old(self).phase->Sending_offset,
                old(self).phase->Sending_len,
                old(self).phase->Sending_attempt,
                reply.result,
            ),
    {
        let (offset, len, attempt) = match self.phase {
            UploadPhase::Sending { offset, len, attempt } => (offset, len, attempt),
            _ => (0, 0, 0),
        };
        match chunk_verdict(reply, attempt, self.retries) {
            ChunkVerdict::Accepted => {
                let next = offset + len;
                self.phase = UploadPhase::Reading { offset: next };
                UploadAction::Report(UploadProgress { bytes_sent: next, total_bytes: self.size })
            },
            ChunkVerdict::Retry(again) => {
                self.phase = UploadPhase::Sending { offset, len, attempt: again };
                UploadAction::SendChunk { offset }
            },
            ChunkVerdict::Rejected(e) => {
                self.phase = UploadPhase::Done;
                UploadAction::Fail(e)
            },
        }
    }

    /// The end reply arrived.
    pub fn on_end_reply(&mut self, reply: &FileEndReply) -> (a: UploadAction)
        requires
            old(self).phase == UploadPhase::Ending,
        ensures
            final(self).size == old(self).size,
            final(self).retries == old(self).retries,
            (final(self).phase, a) == end_step(reply.result),
    {
        self.phase = UploadPhase::Done;
        match end_verdict(reply) {
            Ok(()) => UploadAction::Finish,
            Err(e) => UploadAction::Fail(e),
        }
    }
}

/// The phase after `k` rejections of the chunk in flight.
pub open spec fn after_rejections(size: u64, retries: u32, phase: UploadPhase, code: u16, k: nat) -> UploadPhase
    decreases k,
{
    if k == 0 {
        phase
    } else {
        match after_rejections(size, retries, phase, code, (k - 1) as nat) {
            UploadPhase::Sending { offset, len, attempt } => content_step(size, retries, offset, len, attempt, code).0,
            other => other,
        }
    }
}

/// A chunk is sent at most `retries + 1` times: under steady rejection it is
/// re-sent after each of the first `retries` rejections, and the next one
/// fails the upload at the content stage.
pub proof fn lemma_retries_bounded(size: u64, retries: u32, offset: u64, len: u64, code: u16, k: nat)
    requires
        code != 0,
        k <= retries,
    ensures
        after_rejections(size, retries, UploadPhase::Sending { offset, len, attempt: 0 }, code, k)
            == (UploadPhase::Sending { offset, len, attempt: k as u32 }),
        content_step(size, retries, offset, len, retries, code)
            == (UploadPhase::Done, UploadAction::Fail(Error::Upload { stage: UploadStage::Content, code })),
    decreases k,
{
    if k > 0 {
        lemma_retries_bounded(size, retries, offset, len, code, (k - 1) as nat);
    }
}

/// An accepted chunk moves the offset forward by its length and reports
/// exactly that much sent.
pub proof fn lemma_accept_advances(size: u64, retries: u32, offset: u64, len: u64, attempt: u32)
    requires
        offset + len <= u64::MAX,
    ensures
        content_step(size, retries, offset, len, attempt, 0)
            == (UploadPhase::Reading { offset: (offset + len) as u64 }, UploadAction::Report(
            UploadProgress { bytes_sent: (offset + len) as u64, total_bytes: size },
        )),
        offset <= content_step(size, retries, offset, len, attempt, 0).0->Reading_offset,
{
}

} // verus!
