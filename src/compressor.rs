//! Compressors and the CRC-32 tee in front of them.
use vstd::prelude::*;

use std::io::Write;

use flate2::write::DeflateEncoder;

use crate::format::push_bytes;
use crate::ZipError;

verus! {

/// The CRC-32 (ZIP polynomial) reached by resuming from `crc` over `data`.
pub uninterp spec fn crc32_update(crc: u32, data: Seq<u8>) -> u32;

/// The CRC-32 of `data` as a ZIP entry records it: zero for no data.
pub open spec fn zip_crc(data: Seq<u8>) -> u32 {
    if data.len() == 0 {
        0
    } else {
        crc32_update(0, data)
    }
}

/// Relies on crc32fast::Hasher: resumed from `crc` with `new_with_initial` and
/// fed `data`, it yields a CRC that depends on these two alone. The state is
/// the running CRC itself: feeding nothing leaves it unchanged, and resuming
/// from the CRC of `a` continues the CRC of `a` followed by `data`.
#[verifier::external_body]
fn crc32_resume(crc: u32, data: &[u8]) -> (r: u32)
    ensures
        r == crc32_update(crc, data@),
        data@.len() == 0 ==> r == crc,
        forall|a: Seq<u8>|
            #![trigger crc32_update(0u32, a)]
            crc32_update(0u32, a) == crc ==> r == crc32_update(0u32, a + data@),
{
    let mut hasher = crc32fast::Hasher::new_with_initial(crc);
    hasher.update(data);
    hasher.finalize()
}

/// flate2's DeflateEncoder writing into a byte buffer, held as an opaque value:
/// nothing of its state is modelled.
#[verifier::external_body]
struct DeflateStream {
    encoder: DeflateEncoder<Vec<u8>>,
}

/// Relies on flate2's DeflateEncoder::new: a raw DEFLATE stream (no zlib
/// header) into an empty buffer. flate2's zlib-rs backend asserts a level of
/// at most 9 (its miniz_oxide backend, at most 10).
#[verifier::external_body]
fn deflate_encoder(level: u32) -> DeflateStream
    requires
        level <= 9,
{
    DeflateStream { encoder: DeflateEncoder::new(Vec::new(), flate2::Compression::new(level)) }
}

/// Relies on flate2's `Write` impl for DeflateEncoder: `true` when all of `buf`
/// was taken in.
#[verifier::external_body]
fn deflate_write(stream: &mut DeflateStream, buf: &[u8]) -> bool {
    stream.encoder.write_all(buf).is_ok()
}

/// Relies on DeflateEncoder::get_mut: takes the compressed bytes produced so
/// far out of the encoder's buffer.
#[verifier::external_body]
fn deflate_take_output(stream: &mut DeflateStream) -> Vec<u8> {
    std::mem::take(stream.encoder.get_mut())
}

/// Relies on DeflateEncoder::finish: closes the stream and hands back the
/// bytes not yet taken out.
#[verifier::external_body]
fn deflate_finish(stream: DeflateStream) -> Option<Vec<u8>> {
    stream.encoder.finish().ok()
}

/// Configuration of the stored (uncompressed) method.
#[derive(Debug, Clone, Copy)]
pub struct StoreConfig;

/// Configuration of the deflate method: a level from 0 to 9.
#[derive(Debug, Clone, Copy)]
pub struct DeflateConfig {
    level: u32,
}

impl DeflateConfig {
    #[verifier::type_invariant]
    spec fn inv(self) -> bool {
        self.level <= 9
    }

    pub closed spec fn spec_level(self) -> u32 {
        self.level
    }

    pub fn new(level: u32) -> (r: DeflateConfig)
        requires
            level <= 9,
        ensures
            r.spec_level() == level,
    {
        DeflateConfig { level }
    }

    /// Level 0: no compression.
    pub fn none() -> (r: DeflateConfig)
        ensures
            r.spec_level() == 0,
    {
        DeflateConfig { level: 0 }
    }

    /// Level 1: fastest.
    pub fn fast() -> (r: DeflateConfig)
        ensures
            r.spec_level() == 1,
    {
        DeflateConfig { level: 1 }
    }

    /// Level 9: smallest output.
    pub fn best() -> (r: DeflateConfig)
        ensures
            r.spec_level() == 9,
    {
        DeflateConfig { level: 9 }
    }

    pub fn level(&self) -> (r: u32)
        ensures
            r == self.spec_level(),
            r <= 9,
    {
        proof {
            use_type_invariant(self);
        }
        self.level
    }
}

impl Default for DeflateConfig {
    /// Level 6.
    fn default() -> (r: DeflateConfig)
        ensures
            r.spec_level() == 6,
    {
        DeflateConfig { level: 6 }
    }
}

/// The method an entry is compressed with.
#[derive(Debug, Clone, Copy)]
pub enum CompressorConfig {
    Store(StoreConfig),
    Deflate(DeflateConfig),
}

/// A stored entry: bytes pass through unchanged.
pub struct Store {
    written: u64,
}

/// A deflated entry.
pub struct Deflate {
    inner: DeflateStream,
    level: u32,
    written: u64,
}

/// A running compressor of one entry.
pub enum Compressor {
    Store(Store),
    Deflate(Deflate),
}

/// Sizes of a closed entry.
#[derive(Debug, Clone, Copy, PartialEq, Eq, Structural)]
pub struct EntryData {
    pub uncompressed_size: u64,
    pub compressed_size: u64,
}

/// Whether `out` begins with `prefix`.
pub open spec fn extends(out: Seq<u8>, prefix: Seq<u8>) -> bool {
    prefix.len() <= out.len() && out.subrange(0, prefix.len() as int) == prefix
}

impl Compressor {
    /// Number of uncompressed bytes taken in.
    pub closed spec fn total_in(&self) -> u64 {
        match self {
            Compressor::Store(s) => s.written,
            Compressor::Deflate(d) => d.written,
        }
    }

    pub open spec fn is_store(&self) -> bool {
        self is Store
    }

    /// The deflate level the stream was opened with; 0 for a stored entry.
    pub closed spec fn level(&self) -> u32 {
        match self {
            Compressor::Store(_) => 0,
            Compressor::Deflate(d) => d.level,
        }
    }

    pub fn new(config: CompressorConfig) -> (r: Compressor)
        ensures
            r.total_in() == 0,
            r.is_store() <==> config is Store,
            config is Deflate ==> r.level() == config->Deflate_0.spec_level(),
    {
        match config {
            CompressorConfig::Store(_) => Compressor::Store(Store { written: 0 }),
            CompressorConfig::Deflate(c) => {
                let level = c.level();
                Compressor::Deflate(
                    Deflate { inner: deflate_encoder(level), level, written: 0 },
                )
            },
        }
    }

    /// The ZIP method code: 0 for stored, 8 for deflate.
    pub fn compression_id(&self) -> (r: u16)
        ensures
            r == (if self.is_store() { 0u16 } else { 8u16 }),
    {
        match self {
            Compressor::Store(_) => 0,
            Compressor::Deflate(_) => 8,
        }
    }

    /// Takes in `buf` and returns the compressed bytes it produces. A stored
    /// entry returns `buf` itself and never fails.
    pub fn write_all(&mut self, buf: &[u8]) -> (r: Result<Vec<u8>, ZipError>)
        requires
            old(self).total_in() + buf@.len() <= u64::MAX,
        ensures
            final(self).is_store() == old(self).is_store(),
            final(self).level() == old(self).level(),
            r is Ok ==> final(self).total_in() == old(self).total_in() + buf@.len(),
            r is Err ==> r == Err::<Vec<u8>, ZipError>(ZipError::CompressorFailure)
                && final(self).total_in() == old(self).total_in(),
            old(self).is_store() ==> r is Ok && r->Ok_0@ == buf@,
    {
        match self {
            Compressor::Store(s) => {
                let mut copy: Vec<u8> = Vec::new();
                push_bytes(&mut copy, buf);
                assert(copy@ =~= buf@);
                s.written = s.written + buf.len() as u64;
                Ok(copy)
            },
            Compressor::Deflate(d) => {
                if !deflate_write(&mut d.inner, buf) {
                    return Err(ZipError::CompressorFailure);
                }
                let produced = deflate_take_output(&mut d.inner);
                d.written = d.written + buf.len() as u64;
                Ok(produced)
            },
        }
    }

    /// Closes the stream; returns the number of bytes taken in and the last
    /// compressed bytes. A stored entry has no last bytes and cannot fail.
    pub fn finish(self) -> (r: Result<(u64, Vec<u8>), ZipError>)
        ensures
            r is Ok ==> r->Ok_0.0 == self.total_in(),
            r is Err ==> r == Err::<(u64, Vec<u8>), ZipError>(ZipError::CompressorFailure),
            self.is_store() ==> r is Ok && r->Ok_0.1@ == Seq::<u8>::empty(),
    {
        match self {
            Compressor::Store(s) => Ok((s.written, Vec::new())),
            Compressor::Deflate(d) => {
                match deflate_finish(d.inner) {
                    Some(rest) => Ok((d.written, rest)),
                    None => Err(ZipError::CompressorFailure),
                }
            },
        }
    }
}

/// Feeds every byte through a running CRC-32 before handing it to the
/// compressor, so the checksum covers the uncompressed data.
pub struct HashWriteWrapper {
    inner: Compressor,
    crc: u32,
    chunks: Ghost<Seq<Seq<u8>>>,
    data: Ghost<Seq<u8>>,
}

impl HashWriteWrapper {
    /// The chunks taken in so far, in order.
    pub closed spec fn chunks(&self) -> Seq<Seq<u8>> {
        self.chunks@
    }

    /// All bytes taken in so far.
    pub closed spec fn data(&self) -> Seq<u8> {
        self.data@
    }

    pub closed spec fn is_store(&self) -> bool {
        self.inner.is_store()
    }

    /// The deflate level of the compressor; 0 for a stored entry.
    pub closed spec fn level(&self) -> u32 {
        self.inner.level()
    }


    pub closed spec fn wf(&self) -> bool {
        &&& self.crc == zip_crc(self.data@)
        &&& self.inner.total_in() == self.data@.len()
    }

    pub fn new(inner: Compressor) -> (r: HashWriteWrapper)
        requires
            inner.total_in() == 0,
        ensures
            r.wf(),
            r.level() == inner.level(),
            r.chunks() == Seq::<Seq<u8>>::empty(),
            r.data() == Seq::<u8>::empty(),
            r.is_store() == inner.is_store(),
    {
        HashWriteWrapper { inner, crc: 0, chunks: Ghost(Seq::empty()), data: Ghost(Seq::empty()) }
    }

    pub fn compression_id(&self) -> (r: u16)
        ensures
            r == (if self.is_store() { 0u16 } else { 8u16 }),
    {
        self.inner.compression_id()
    }

    /// Hashes `buf`, then compresses it; returns the compressed bytes.
    pub fn write_all(&mut self, buf: &[u8]) -> (r: Result<Vec<u8>, ZipError>)
        requires
            old(self).wf(),
            old(self).data().len() + buf@.len() <= u64::MAX,
        ensures
            final(self).wf(),
            final(self).is_store() == old(self).is_store(),
            final(self).level() == old(self).level(),
            r is Ok ==> {
                &&& final(self).chunks() == old(self).chunks().push(buf@)
                &&& final(self).data() == old(self).data() + buf@
            },
            r is Err ==> {
                &&& r == Err::<Vec<u8>, ZipError>(ZipError::CompressorFailure)
                &&& final(self).chunks() == old(self).chunks()
                &&& final(self).data() == old(self).data()
            },
            old(self).is_store() ==> r is Ok && r->Ok_0@ == buf@,
    {
        let crc = crc32_resume(self.crc, buf);
        let r = self.inner.write_all(buf);
        if r.is_ok() {
            self.crc = crc;
            proof {
                if self.data@.len() == 0 {
                    assert(self.data@ + buf@ =~= buf@);
                } else {
                    assert(crc32_update(0u32, self.data@) == old(self).crc);
                }
                self.chunks@ = self.chunks@.push(buf@);
                self.data@ = self.data@ + buf@;
            }
        }
        r
    }

    /// Closes the compressor; returns the CRC-32 of the data, the number of
    /// bytes taken in, and the last compressed bytes.
    pub fn finish(self) -> (r: Result<(u32, u64, Vec<u8>), ZipError>)
        requires
            self.wf(),
        ensures
            r is Ok ==> r->Ok_0.0 == zip_crc(self.data()) && r->Ok_0.1
                == self.data().len(),
            r is Err ==> r == Err::<(u32, u64, Vec<u8>), ZipError>(ZipError::CompressorFailure),
            self.is_store() ==> r is Ok && r->Ok_0.2@ == Seq::<u8>::empty(),
    {
        let crc = self.crc;
        match self.inner.finish() {
            Ok((n, rest)) => Ok((crc, n, rest)),
            Err(e) => Err(e),
        }
    }
}

} // verus!
