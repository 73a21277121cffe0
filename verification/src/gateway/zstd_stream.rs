//! zstd-stream decompression.
//!
//! Frames are not independent, and this is the easiest thing to get wrong. The
//! whole connection is a single stream whose dictionary keeps growing across
//! frames, so the decoder must live as long as the connection and be rebuilt
//! on reconnect.
//!
//! ```text
//!   WS frames: [ ─── ][ ─ ][ ───── ][ ── ]
//!   zstd:      └────────── one stream ──────────┘
//!   JSON:      { … }  { …    …  }   { … }{ … }
//!                ↑ the boundaries do not line up ↑
//! ```
//!
//! So one frame may complete no JSON (an empty result) or several, and the
//! caller reads whatever comes back as a sequence of them.

use std::io::Write;
use vstd::prelude::*;

verus! {

/// The decoder of the `zstd` crate, writing into memory.
#[verifier::external_body]
pub struct Decoder {
    inner: zstd::stream::write::Decoder<'static, Vec<u8>>,
}

/// The bytes that a decoder has been fed.
pub uninterp spec fn zstd_fed(d: Decoder) -> Seq<u8>;

/// What the start of a zstd stream decompresses to, as far as it is complete.
pub uninterp spec fn zstd_plain(fed: Seq<u8>) -> Seq<u8>;

/// What a decoder has against being fed a chunk next; `None` where it takes it.
pub uninterp spec fn zstd_refusal(d: Decoder, chunk: Seq<u8>) -> Option<Seq<char>>;

/// `Decoder::new` of the `zstd` crate: a decoder that has been fed nothing. It
/// is always had: a new context is reset and given an empty dictionary, and
/// neither has a way to fail.
#[verifier::external_body]
fn new_decoder() -> (r: Result<Decoder, String>)
    ensures
        r is Ok,
        r matches Ok(d) ==> zstd_fed(d) == Seq::<u8>::empty(),
{
    match zstd::stream::write::Decoder::new(Vec::new()) {
        Ok(inner) => Ok(Decoder { inner }),
        Err(e) => Err(e.to_string()),
    }
}

/// `write_all`, `flush` and `get_mut` of the `zstd` crate's decoder: it is fed
/// the chunk, and gives out what the chunk completed. Whether it takes a chunk,
/// and its complaint where it does not, rests on the decoder as it stands and
/// on the chunk; what becomes of a decoder that refused is not said.
#[verifier::external_body]
fn feed(d: &mut Decoder, chunk: &[u8]) -> (r: Result<Vec<u8>, String>)
    ensures
        match r {
            Ok(out) => zstd_refusal(*old(d), chunk@) is None && zstd_fed(*final(d)) == zstd_fed(
                *old(d),
            ) + chunk@ && zstd_plain(zstd_fed(*final(d))) == zstd_plain(zstd_fed(*old(d))) + out@,
            Err(e) => zstd_refusal(*old(d), chunk@) == Some(e@),
        },
{
    match d.inner.write_all(chunk) {
        Ok(_) => match d.inner.flush() {
            Ok(_) => Ok(std::mem::take(d.inner.get_mut())),
            Err(e) => Err(e.to_string()),
        },
        Err(e) => Err(e.to_string()),
    }
}

/// The bytes are no zstd stream; the decoder says why.
#[derive(Debug, Clone, PartialEq, Eq)]
pub struct BadStream(pub String);

/// One connection's decoder. Rebuild it on reconnect.
pub struct ZstdStream {
    decoder: Decoder,
}

impl ZstdStream {
    /// What has been fed in so far.
    pub closed spec fn fed(self) -> Seq<u8> {
        zstd_fed(self.decoder)
    }

    /// What the stream has against a chunk, where it does not take it.
    pub closed spec fn refusal(self, chunk: Seq<u8>) -> Option<Seq<char>> {
        zstd_refusal(self.decoder, chunk)
    }

    /// Whether the stream takes a chunk.
    pub open spec fn takes(self, chunk: Seq<u8>) -> bool {
        self.refusal(chunk) is None
    }

    /// A stream at its start.
    pub fn new() -> (r: Result<ZstdStream, BadStream>)
        ensures
            r is Ok,
            r matches Ok(s) ==> s.fed() == Seq::<u8>::empty(),
    {
        match new_decoder() {
            Ok(decoder) => Ok(ZstdStream { decoder }),
            Err(e) => Err(BadStream(e)),
        }
    }

    /// Feeds one frame in and takes out whatever completed.
    ///
    /// Empty is not an error: that frame did not finish a message, and the
    /// next one will.
    pub fn push(&mut self, chunk: &[u8]) -> (r: Result<Vec<u8>, BadStream>)
        ensures
            r is Ok == old(self).takes(chunk@),
            match r {
                Ok(out) => final(self).fed() == old(self).fed() + chunk@ && zstd_plain(
                    final(self).fed(),
                ) == zstd_plain(old(self).fed()) + out@,
                Err(e) => old(self).refusal(chunk@) == Some(e.0@),
            },
    {
        match feed(&mut self.decoder, chunk) {
            Ok(out) => Ok(out),
            Err(e) => Err(BadStream(e)),
        }
    }
}

/// All the chunks behind one another.
pub open spec fn joined(chunks: Seq<Seq<u8>>) -> Seq<u8>
    decreases chunks.len(),
{
    if chunks.len() == 0 {
        seq![]
    } else {
        joined(chunks.drop_last()) + chunks.last()
    }
}

/// What a stream has given out when each chunk gave out its part.
pub open spec fn gives(fed: Seq<u8>, chunks: Seq<Seq<u8>>, outs: Seq<Seq<u8>>) -> bool
    decreases chunks.len(),
{
    chunks.len() == outs.len() && (chunks.len() == 0 || (gives(
        fed,
        chunks.drop_last(),
        outs.drop_last(),
    ) && zstd_plain(fed + joined(chunks)) == zstd_plain(fed + joined(chunks.drop_last()))
        + outs.last()))
}

/// Where the frames are cut does not matter: a stream that was fed the same
/// bytes in any chunks has given out the same bytes in all.
pub proof fn frames_do_not_matter(
    fed: Seq<u8>,
    chunks: Seq<Seq<u8>>,
    outs: Seq<Seq<u8>>,
    others: Seq<Seq<u8>>,
    other_outs: Seq<Seq<u8>>,
)
    requires
        gives(fed, chunks, outs),
        gives(fed, others, other_outs),
        joined(chunks) == joined(others),
    ensures
        joined(outs) == joined(other_outs),
{
    lemma_given(fed, chunks, outs);
    lemma_given(fed, others, other_outs);
    let before = zstd_plain(fed).len();
    let all = zstd_plain(fed + joined(chunks));
    assert(joined(outs) =~= all.skip(before as int));
    assert(joined(other_outs) =~= all.skip(before as int));
}

proof fn lemma_given(fed: Seq<u8>, chunks: Seq<Seq<u8>>, outs: Seq<Seq<u8>>)
    requires
        gives(fed, chunks, outs),
    ensures
        zstd_plain(fed + joined(chunks)) == zstd_plain(fed) + joined(outs),
    decreases chunks.len(),
{
    if chunks.len() == 0 {
        assert(fed + joined(chunks) =~= fed);
        assert(zstd_plain(fed) + joined(outs) =~= zstd_plain(fed));
    } else {
        lemma_given(fed, chunks.drop_last(), outs.drop_last());
        assert(zstd_plain(fed) + joined(outs.drop_last()) + outs.last() =~= zstd_plain(fed)
            + joined(outs));
    }
}

} // verus!
