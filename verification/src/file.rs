//! File-transfer frame payloads (`FileStartAsk` … `FileEndReply`): the binary
//! bodies of the file-upload frames. All integers are little-endian; a string
//! is a `u16le` byte length followed by its UTF-8 bytes.

use vstd::prelude::*;
use vstd::utf8::{valid_utf8, decode_utf8, encode_utf8};
use crate::error::ProtoError;
use crate::le::{u16_le, u32_le, u64_le, le16_at, le32_at, le64_at, lemma_u16_roundtrip,
    lemma_u32_roundtrip, lemma_u64_roundtrip, put_u16_le, put_u32_le, put_u64_le, put_slice,
    slice_to_vec};

verus! {

/// Raw MD5 digest length carried by the start/end frames.
pub const MD5_LEN: usize = 16;

/// `String::from_utf8` on the bytes of a frame string. The error message is
/// the standard library's text for the failure, which is not stated here.
#[verifier::external_body]
pub(crate) fn string_from_utf8(bytes: Vec<u8>) -> (res: Result<String, String>)
    ensures
        res is Ok <==> valid_utf8(bytes@),
        res matches Ok(s) ==> s@ == decode_utf8(bytes@),
{
    String::from_utf8(bytes).map_err(|e| e.to_string())
}

/// Why a field could not be read.
pub enum FieldError {
    /// Fewer bytes remained than the field needs.
    Short { expected: usize, got: usize },
    /// A string field's bytes were not UTF-8.
    NotUtf8,
}

/// Reading `n` bytes at `pos` of `b`: the position after them, or the shortfall.
pub open spec fn read_n(b: Seq<u8>, pos: nat, n: nat) -> Result<nat, FieldError> {
    if pos + n > b.len() {
        Err(FieldError::Short { expected: n as usize, got: (b.len() - pos) as usize })
    } else {
        Ok(pos + n)
    }
}

/// Reading a `u16le`-prefixed UTF-8 string at `pos`: the text and the
/// position after it.
pub open spec fn read_string(b: Seq<u8>, pos: nat) -> Result<(Seq<char>, nat), FieldError> {
    match read_n(b, pos, 2) {
        Err(e) => Err(e),
        Ok(p1) => {
            let len = le16_at(b, pos as int) as nat;
            match read_n(b, p1, len) {
                Err(e) => Err(e),
                Ok(p2) => {
                    let bytes = b.subrange(p1 as int, p2 as int);
                    if valid_utf8(bytes) {
                        Ok((decode_utf8(bytes), p2))
                    } else {
                        Err(FieldError::NotUtf8)
                    }
                },
            }
        },
    }
}

/// The error a failed field read is reported as.
pub open spec fn reports(e: ProtoError, f: FieldError) -> bool {
    match f {
        FieldError::Short { expected, got } => e == ProtoError::ShortFrame { expected, got },
        FieldError::NotUtf8 => e is Xml,
    }
}

/// The wire form of a string field: `u16le` byte length, then the UTF-8 bytes.
pub open spec fn string_field(s: Seq<char>) -> Seq<u8> {
    u16_le(encode_utf8(s).len() as u16) + encode_utf8(s)
}

/// A little-endian cursor over a frame payload that errors, rather than
/// panics, when a field runs past the end of the buffer.
struct FieldReader<'a> {
    buf: &'a [u8],
    pos: usize,
}

impl<'a> FieldReader<'a> {
    fn new(buf: &'a [u8]) -> (r: FieldReader<'a>)
        ensures
            r.buf@ == buf@,
            r.pos == 0,
    {
        FieldReader { buf, pos: 0 }
    }

    /// Take `n` bytes, or fail if fewer remain.
    fn take(&mut self, n: usize) -> (res: Result<Vec<u8>, ProtoError>)
        requires
            old(self).pos <= old(self).buf@.len(),
        ensures
            final(self).buf@ == old(self).buf@,
            final(self).pos <= final(self).buf@.len(),
            match read_n(old(self).buf@, old(self).pos as nat, n as nat) {
                Ok(p) => res matches Ok(v) && v@ == old(self).buf@.subrange(old(self).pos as int, p as int)
                    && final(self).pos == p,
                Err(f) => res matches Err(e) && reports(e, f) && final(self).pos == old(self).pos,
            },
    {
        let end = match self.pos.checked_add(n) {
            Some(e) => e,
            None => {
                return Err(ProtoError::ShortFrame {
                    expected: n,
                    got: self.buf.len().saturating_sub(self.pos),
                });
            },
        };
        if end > self.buf.len() {
            return Err(ProtoError::ShortFrame { expected: n, got: self.buf.len() - self.pos });
        }
        let slice = slice_to_vec(self.buf, self.pos, end);
        self.pos = end;
        Ok(slice)
    }

    fn u16(&mut self) -> (res: Result<u16, ProtoError>)
        requires
            old(self).pos <= old(self).buf@.len(),
        ensures
            final(self).buf@ == old(self).buf@,
            final(self).pos <= final(self).buf@.len(),
            match read_n(old(self).buf@, old(self).pos as nat, 2) {
                Ok(p) => res == Ok::<u16, ProtoError>(le16_at(old(self).buf@, old(self).pos as int))
                    && final(self).pos == p,
                Err(f) => res matches Err(e) && reports(e, f),
            },
    {
        let b = match self.take(2) {
            Ok(b) => b,
            Err(e) => return Err(e),
        };
        Ok((b[0] as u16) | ((b[1] as u16) << 8))
    }

    fn u32(&mut self) -> (res: Result<u32, ProtoError>)
        requires
            old(self).pos <= old(self).buf@.len(),
        ensures
            final(self).buf@ == old(self).buf@,
            final(self).pos <= final(self).buf@.len(),
            match read_n(old(self).buf@, old(self).pos as nat, 4) {
                Ok(p) => res == Ok::<u32, ProtoError>(le32_at(old(self).buf@, old(self).pos as int))
                    && final(self).pos == p,
                Err(f) => res matches Err(e) && reports(e, f),
            },
    {
        let b = match self.take(4) {
            Ok(b) => b,
            Err(e) => return Err(e),
        };
        Ok((b[0] as u32) | ((b[1] as u32) << 8) | ((b[2] as u32) << 16) | ((b[3] as u32) << 24))
    }

    fn u64(&mut self) -> (res: Result<u64, ProtoError>)
        requires
            old(self).pos <= old(self).buf@.len(),
        ensures
            final(self).buf@ == old(self).buf@,
            final(self).pos <= final(self).buf@.len(),
            match read_n(old(self).buf@, old(self).pos as nat, 8) {
                Ok(p) => res == Ok::<u64, ProtoError>(le64_at(old(self).buf@, old(self).pos as int))
                    && final(self).pos == p,
                Err(f) => res matches Err(e) && reports(e, f),
            },
    {
        let b = match self.take(8) {
            Ok(b) => b,
            Err(e) => return Err(e),
        };
        let lo = (b[0] as u32) | ((b[1] as u32) << 8) | ((b[2] as u32) << 16) | ((b[3] as u32)
            << 24);
        let hi = (b[4] as u32) | ((b[5] as u32) << 8) | ((b[6] as u32) << 16) | ((b[7] as u32)
            << 24);
        Ok((lo as u64) | ((hi as u64) << 32))
    }

    fn md5(&mut self) -> (res: Result<[u8; 16], ProtoError>)
        requires
            old(self).pos <= old(self).buf@.len(),
        ensures
            final(self).buf@ == old(self).buf@,
            final(self).pos <= final(self).buf@.len(),
            match read_n(old(self).buf@, old(self).pos as nat, 16) {
                Ok(p) => res matches Ok(d) && d@ == old(self).buf@.subrange(old(self).pos as int, p as int)
                    && final(self).pos == p,
                Err(f) => res matches Err(e) && reports(e, f),
            },
    {
        let b = match self.take(MD5_LEN) {
            Ok(b) => b,
            Err(e) => return Err(e),
        };
        let out: [u8; 16] = [b[0], b[1], b[2], b[3], b[4], b[5], b[6], b[7], b[8], b[9], b[10],
            b[11], b[12], b[13], b[14], b[15]];
        assert(out@ =~= b@);
        Ok(out)
    }

    /// A `u16le` length followed by that many UTF-8 bytes.
    fn string(&mut self) -> (res: Result<String, ProtoError>)
        requires
            old(self).pos <= old(self).buf@.len(),
        ensures
            final(self).buf@ == old(self).buf@,
            final(self).pos <= final(self).buf@.len(),
            match read_string(old(self).buf@, old(self).pos as nat) {
                Ok((s, p)) => res matches Ok(t) && t@ == s && final(self).pos == p,
                Err(f) => res matches Err(e) && reports(e, f),
            },
    {
        let len = match self.u16() {
            Ok(l) => l,
            Err(e) => return Err(e),
        };
        let bytes = match self.take(len as usize) {
            Ok(b) => b,
            Err(e) => return Err(e),
        };
        match string_from_utf8(bytes) {
            Ok(s) => Ok(s),
            Err(msg) => {
                let mut m = String::from_str("file frame string not utf-8: ");
                m.append(msg.as_str());
                Err(ProtoError::Xml(m))
            },
        }
    }
}

/// Append a `u16le`-prefixed UTF-8 string, rejecting one too long for the prefix.
fn put_string(buf: &mut Vec<u8>, s: &str) -> (res: Result<(), ProtoError>)
    ensures
        encode_utf8(s@).len() > 0xffff ==> res == Err::<(), ProtoError>(
            ProtoError::FrameTooLarge(encode_utf8(s@).len() as usize),
        ) && final(buf)@ == old(buf)@,
        encode_utf8(s@).len() <= 0xffff ==> res is Ok && final(buf)@ == old(buf)@ + string_field(s@),
{
    let bytes = s.as_bytes();
    if bytes.len() > 0xffff {
        return Err(ProtoError::FrameTooLarge(bytes.len()));
    }
    put_u16_le(buf, bytes.len() as u16);
    put_slice(buf, bytes);
    assert(buf@ =~= old(buf)@ + string_field(s@));
    Ok(())
}

/// `FileStartAsk`: announce a transfer. The device replies with the offset it
/// already holds so an interrupted upload can resume.
#[derive(Debug, Clone, PartialEq, Eq)]
pub struct FileStartAsk {
    pub name: String,
    pub file_type: String,
    pub size: u64,
    pub md5: [u8; 16],
}

/// A start ask as plain values: `(name, file_type, size, md5)`.
pub type FileStartAskView = (Seq<char>, Seq<char>, u64, Seq<u8>);

impl View for FileStartAsk {
    type V = FileStartAskView;

    open spec fn view(&self) -> FileStartAskView {
        (self.name@, self.file_type@, self.size, self.md5@)
    }
}

/// The wire form of a start ask, or the error for a string too long for its prefix.
pub open spec fn start_ask_bytes(a: FileStartAskView) -> Result<Seq<u8>, ProtoError> {
    if encode_utf8(a.0).len() > 0xffff {
        Err(ProtoError::FrameTooLarge(encode_utf8(a.0).len() as usize))
    } else if encode_utf8(a.1).len() > 0xffff {
        Err(ProtoError::FrameTooLarge(encode_utf8(a.1).len() as usize))
    } else {
        Ok(string_field(a.0) + string_field(a.1) + u64_le(a.2) + a.3)
    }
}

/// What parsing a start-ask payload gives.
pub open spec fn start_ask_parse(b: Seq<u8>) -> Result<FileStartAskView, FieldError> {
    match read_string(b, 0) {
        Err(e) => Err(e),
        Ok((name, p1)) => match read_string(b, p1) {
            Err(e) => Err(e),
            Ok((ty, p2)) => match read_n(b, p2, 8) {
                Err(e) => Err(e),
                Ok(p3) => match read_n(b, p3, 16) {
                    Err(e) => Err(e),
                    Ok(p4) => Ok((name, ty, le64_at(b, p2 as int), b.subrange(p3 as int, p4 as int))),
                },
            },
        },
    }
}

impl FileStartAsk {
    pub fn encode(&self) -> (res: Result<Vec<u8>, ProtoError>)
        ensures
            match start_ask_bytes(self@) {
                Ok(b) => res matches Ok(v) && v@ == b,
                Err(e) => res == Err::<Vec<u8>, ProtoError>(e),
            },
    {
        let mut buf: Vec<u8> = Vec::new();
        match put_string(&mut buf, self.name.as_str()) {
            Ok(()) => {},
            Err(e) => return Err(e),
        }
        match put_string(&mut buf, self.file_type.as_str()) {
            Ok(()) => {},
            Err(e) => return Err(e),
        }
        put_u64_le(&mut buf, self.size);
        put_slice(&mut buf, self.md5.as_slice());
        Ok(buf)
    }

    pub fn parse(payload: &[u8]) -> (res: Result<FileStartAsk, ProtoError>)
        ensures
            match start_ask_parse(payload@) {
                Ok(a) => res matches Ok(r) && r@ == a,
                Err(f) => res matches Err(e) && reports(e, f),
            },
    {
        let mut r = FieldReader::new(payload);
        let name = match r.string() {
            Ok(s) => s,
            Err(e) => return Err(e),
        };
        let file_type = match r.string() {
            Ok(s) => s,
            Err(e) => return Err(e),
        };
        let size = match r.u64() {
            Ok(v) => v,
            Err(e) => return Err(e),
        };
        let md5 = match r.md5() {
            Ok(v) => v,
            Err(e) => return Err(e),
        };
        Ok(FileStartAsk { name, file_type, size, md5 })
    }
}

/// `FileStartReply`: the device's acceptance and resume point.
#[derive(Debug, Clone, Copy, PartialEq, Eq, Structural)]
pub struct FileStartReply {
    pub result: u16,
    pub resume_offset: u64,
}

/// What parsing a `u16` then a `u64` gives: the two values, or the shortfall.
pub open spec fn u16_u64_parse(b: Seq<u8>) -> Result<(u16, u64), FieldError> {
    match read_n(b, 0, 2) {
        Err(e) => Err(e),
        Ok(p1) => match read_n(b, p1, 8) {
            Err(e) => Err(e),
            Ok(p2) => Ok((le16_at(b, 0), le64_at(b, 2))),
        },
    }
}

impl FileStartReply {
    pub fn encode(&self) -> (v: Vec<u8>)
        ensures
            v@ == u16_le(self.result) + u64_le(self.resume_offset),
    {
        let mut buf: Vec<u8> = Vec::new();
        put_u16_le(&mut buf, self.result);
        put_u64_le(&mut buf, self.resume_offset);
        buf
    }

    pub fn parse(payload: &[u8]) -> (res: Result<FileStartReply, ProtoError>)
        ensures
            match u16_u64_parse(payload@) {
                Ok((a, b)) => res == Ok::<FileStartReply, ProtoError>(
                    FileStartReply { result: a, resume_offset: b },
                ),
                Err(f) => res matches Err(e) && reports(e, f),
            },
    {
        let mut r = FieldReader::new(payload);
        let result = match r.u16() {
            Ok(v) => v,
            Err(e) => return Err(e),
        };
        let resume_offset = match r.u64() {
            Ok(v) => v,
            Err(e) => return Err(e),
        };
        Ok(FileStartReply { result, resume_offset })
    }
}

/// `FileContentAsk`: one chunk of file bytes at `offset`.
#[derive(Debug, Clone, PartialEq, Eq)]
pub struct FileContentAsk {
    pub offset: u64,
    pub data: Vec<u8>,
}

/// What parsing a content ask gives: `(offset, data)`, or the shortfall.
pub open spec fn content_ask_parse(b: Seq<u8>) -> Result<(u64, Seq<u8>), FieldError> {
    match read_n(b, 0, 8) {
        Err(e) => Err(e),
        Ok(p1) => match read_n(b, p1, 4) {
            Err(e) => Err(e),
            Ok(p2) => match read_n(b, p2, le32_at(b, 8) as nat) {
                Err(e) => Err(e),
                Ok(p3) => Ok((le64_at(b, 0), b.subrange(12, p3 as int))),
            },
        },
    }
}

impl FileContentAsk {
    pub fn encode(&self) -> (res: Result<Vec<u8>, ProtoError>)
        ensures
            self.data@.len() > u32::MAX ==> res == Err::<Vec<u8>, ProtoError>(
                ProtoError::FrameTooLarge(self.data@.len() as usize),
            ),
            self.data@.len() <= u32::MAX ==> (res matches Ok(v) && v@ == u64_le(self.offset)
                + u32_le(self.data@.len() as u32) + self.data@),
    {
        if self.data.len() > 0xffff_ffff {
            return Err(ProtoError::FrameTooLarge(self.data.len()));
        }
        let mut buf: Vec<u8> = Vec::new();
        put_u64_le(&mut buf, self.offset);
        put_u32_le(&mut buf, self.data.len() as u32);
        put_slice(&mut buf, self.data.as_slice());
        Ok(buf)
    }

    pub fn parse(payload: &[u8]) -> (res: Result<FileContentAsk, ProtoError>)
        ensures
            match content_ask_parse(payload@) {
                Ok((o, d)) => res matches Ok(a) && a.offset == o && a.data@ == d,
                Err(f) => res matches Err(e) && reports(e, f),
            },
    {
        let mut r = FieldReader::new(payload);
        let offset = match r.u64() {
            Ok(v) => v,
            Err(e) => return Err(e),
        };
        let len = match r.u32() {
            Ok(v) => v,
            Err(e) => return Err(e),
        };
        let data = match r.take(len as usize) {
            Ok(d) => d,
            Err(e) => return Err(e),
        };
        Ok(FileContentAsk { offset, data })
    }
}

/// `FileContentReply`: acknowledgement plus the device's running byte count.
/// A non-zero `result` is retryable.
#[derive(Debug, Clone, Copy, PartialEq, Eq, Structural)]
pub struct FileContentReply {
    pub result: u16,
    pub received: u64,
}

impl FileContentReply {
    pub fn encode(&self) -> (v: Vec<u8>)
        ensures
            v@ == u16_le(self.result) + u64_le(self.received),
    {
        let mut buf: Vec<u8> = Vec::new();
        put_u16_le(&mut buf, self.result);
        put_u64_le(&mut buf, self.received);
        buf
    }

    pub fn parse(payload: &[u8]) -> (res: Result<FileContentReply, ProtoError>)
        ensures
            match u16_u64_parse(payload@) {
                Ok((a, b)) => res == Ok::<FileContentReply, ProtoError>(
                    FileContentReply { result: a, received: b },
                ),
                Err(f) => res matches Err(e) && reports(e, f),
            },
    {
        let mut r = FieldReader::new(payload);
        let result = match r.u16() {
            Ok(v) => v,
            Err(e) => return Err(e),
        };
        let received = match r.u64() {
            Ok(v) => v,
            Err(e) => return Err(e),
        };
        Ok(FileContentReply { result, received })
    }
}

/// `FileEndAsk`: the whole-file MD5 for a final integrity check.
#[derive(Debug, Clone, Copy, PartialEq, Eq)]
pub struct FileEndAsk {
    pub md5: [u8; 16],
}

impl FileEndAsk {
    pub fn encode(&self) -> (v: Vec<u8>)
        ensures
            v@ == self.md5@,
    {
        let mut buf: Vec<u8> = Vec::new();
        put_slice(&mut buf, self.md5.as_slice());
        buf
    }

    pub fn parse(payload: &[u8]) -> (res: Result<FileEndAsk, ProtoError>)
        ensures
            match read_n(payload@, 0, 16) {
                Ok(p) => res matches Ok(a) && a.md5@ == payload@.subrange(0, 16),
                Err(f) => res matches Err(e) && reports(e, f),
            },
    {
        let mut r = FieldReader::new(payload);
        match r.md5() {
            Ok(md5) => Ok(FileEndAsk { md5 }),
            Err(e) => Err(e),
        }
    }
}

/// `FileEndReply`: the device's final accept/reject.
#[derive(Debug, Clone, Copy, PartialEq, Eq, Structural)]
pub struct FileEndReply {
    pub result: u16,
}

impl FileEndReply {
    pub fn encode(&self) -> (v: Vec<u8>)
        ensures
            v@ == u16_le(self.result),
    {
        let mut buf: Vec<u8> = Vec::new();
        put_u16_le(&mut buf, self.result);
        buf
    }

    pub fn parse(payload: &[u8]) -> (res: Result<FileEndReply, ProtoError>)
        ensures
            match read_n(payload@, 0, 2) {
                Ok(p) => res == Ok::<FileEndReply, ProtoError>(
                    FileEndReply { result: le16_at(payload@, 0) },
                ),
                Err(f) => res matches Err(e) && reports(e, f),
            },
    {
        let mut r = FieldReader::new(payload);
        match r.u16() {
            Ok(result) => Ok(FileEndReply { result }),
            Err(e) => Err(e),
        }
    }
}

proof fn lemma_read_string_field(s: Seq<char>, pre: Seq<u8>, rest: Seq<u8>)
    requires
        encode_utf8(s).len() <= 0xffff,
    ensures
        read_string(pre + string_field(s) + rest, pre.len()) == Ok::<(Seq<char>, nat), FieldError>(
            (s, pre.len() + string_field(s).len()),
        ),
{
    let e = encode_utf8(s);
    let b = pre + string_field(s) + rest;
    let p = pre.len() as int;
    lemma_u16_roundtrip(e.len() as u16);
    assert(le16_at(b, p) == e.len());
    assert(b.subrange(p + 2, p + 2 + e.len()) =~= e);
    vstd::utf8::encode_utf8_valid_utf8(s);
    vstd::utf8::encode_utf8_decode_utf8(s);
}

/// Parsing an encoded start ask gives the same ask back.
pub proof fn lemma_start_ask_roundtrip(a: FileStartAskView)
    requires
        start_ask_bytes(a) is Ok,
        a.3.len() == 16,
    ensures
        start_ask_parse(start_ask_bytes(a)->Ok_0) == Ok::<FileStartAskView, FieldError>(a),
{
    let b = start_ask_bytes(a)->Ok_0;
    let f0 = string_field(a.0);
    let f1 = string_field(a.1);
    let tail = u64_le(a.2) + a.3;
    assert(b =~= Seq::<u8>::empty() + f0 + (f1 + tail));
    lemma_read_string_field(a.0, Seq::<u8>::empty(), f1 + tail);
    assert(b =~= f0 + f1 + tail);
    lemma_read_string_field(a.1, f0, tail);
    lemma_u64_roundtrip(a.2);
    let p2: int = f0.len() as int + f1.len() as int;
    assert(b.subrange(p2, p2 + 8) =~= u64_le(a.2));
    assert(le64_at(b, p2) == le64_at(u64_le(a.2), 0));
    assert(b.subrange(p2 + 8, p2 + 24) =~= a.3);
}

/// Parsing the bytes of a `u16` then a `u64` gives both values back; this is
/// the start-reply and content-reply round trip.
pub proof fn lemma_u16_u64_roundtrip(x: u16, y: u64)
    ensures
        u16_u64_parse(u16_le(x) + u64_le(y)) == Ok::<(u16, u64), FieldError>((x, y)),
{
    let b = u16_le(x) + u64_le(y);
    lemma_u16_roundtrip(x);
    lemma_u64_roundtrip(y);
    assert(b.subrange(2, 10) =~= u64_le(y));
    assert(le64_at(b, 2) == le64_at(u64_le(y), 0));
}

/// Parsing an encoded content ask gives the same offset and data back.
pub proof fn lemma_content_ask_roundtrip(offset: u64, data: Seq<u8>)
    requires
        data.len() <= u32::MAX,
    ensures
        content_ask_parse(u64_le(offset) + u32_le(data.len() as u32) + data) == Ok::<
            (u64, Seq<u8>),
            FieldError,
        >((offset, data)),
{
    let b = u64_le(offset) + u32_le(data.len() as u32) + data;
    lemma_u64_roundtrip(offset);
    lemma_u32_roundtrip(data.len() as u32);
    assert(le32_at(b, 8) == data.len());
    assert(b.subrange(12, 12 + data.len() as int) =~= data);
}

/// Parsing an encoded end ask or end reply gives the same value back.
pub proof fn lemma_end_frames_roundtrip(md5: Seq<u8>, result: u16)
    requires
        md5.len() == 16,
    ensures
        read_n(md5, 0, 16) == Ok::<nat, FieldError>(16),
        md5.subrange(0, 16) == md5,
        read_n(u16_le(result), 0, 2) == Ok::<nat, FieldError>(2),
        le16_at(u16_le(result), 0) == result,
{
    assert(md5.subrange(0, 16) =~= md5);
    lemma_u16_roundtrip(result);
}

} // verus!
