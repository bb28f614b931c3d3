//! The shape of the audio the realtime endpoint wants: 16 kHz mono `i16`, sent in
//! chunks of 100 ms. The conversion of device audio to that rate works on floating-point
//! samples and stands outside this library; what it produces is cut into chunks here.

use vstd::prelude::*;

verus! {

/// The sample rate the model wants.
pub const TARGET_RATE: u32 = 16_000;

/// 100 ms at 16 kHz: the chunk size the realtime API examples use.
pub const CHUNK_SAMPLES: usize = 1600;

/// Takes the first full chunk off the front of `pcm`, or leaves `pcm` as it is and
/// returns `None` where it holds less than a chunk. Taking chunks until `None` and then
/// the rest hands every sample on exactly once, in order.
pub fn take_chunk(pcm: &mut Vec<i16>) -> (r: Option<Vec<i16>>)
    ensures
        old(pcm)@.len() < CHUNK_SAMPLES ==> r is None && final(pcm)@ == old(pcm)@,
        old(pcm)@.len() >= CHUNK_SAMPLES ==> (r matches Some(chunk) && chunk@.len()
            == CHUNK_SAMPLES && chunk@ + final(pcm)@ == old(pcm)@),
{
    if pcm.len() < CHUNK_SAMPLES {
        return None;
    }
    let mut rest = pcm.split_off(CHUNK_SAMPLES);
    std::mem::swap(pcm, &mut rest);
    assert(rest@ + pcm@ =~= old(pcm)@);
    Some(rest)
}

/// What a paced stream does next with the samples it has decoded.
pub enum NextChunk {
    /// Fewer than a chunk is ready: decode more first.
    NeedMore,
    /// A chunk is ready but the user stopped: end the stream.
    Stop,
    /// Send this chunk.
    Send(Vec<i16>),
}

/// The next step of streaming decoded samples chunk by chunk: with a chunk ready, the
/// stream ends if the user stopped and otherwise sends that chunk (taken off the front of
/// `pcm`); with less than a chunk, it decodes more.
pub fn next_chunk(stopping: bool, pcm: &mut Vec<i16>) -> (r: NextChunk)
    ensures
        old(pcm)@.len() < CHUNK_SAMPLES ==> r is NeedMore && final(pcm)@ == old(pcm)@,
        old(pcm)@.len() >= CHUNK_SAMPLES && stopping ==> r is Stop && final(pcm)@ == old(pcm)@,
        old(pcm)@.len() >= CHUNK_SAMPLES && !stopping ==> (r matches NextChunk::Send(chunk)
            && chunk@.len() == CHUNK_SAMPLES && chunk@ + final(pcm)@ == old(pcm)@),
{
    if pcm.len() < CHUNK_SAMPLES {
        return NextChunk::NeedMore;
    }
    if stopping {
        return NextChunk::Stop;
    }
    match take_chunk(pcm) {
        Some(chunk) => NextChunk::Send(chunk),
        None => NextChunk::NeedMore,
    }
}

/// The samples left after the last whole chunk, taken out of `pcm`, so that the tail of
/// a stream is sent rather than silently dropped; `None` where nothing is left.
pub fn take_rest(pcm: &mut Vec<i16>) -> (r: Option<Vec<i16>>)
    ensures
        old(pcm)@.len() == 0 ==> r is None && final(pcm)@ == old(pcm)@,
        old(pcm)@.len() > 0 ==> (r matches Some(rest) && rest@ == old(pcm)@),
        old(pcm)@.len() > 0 ==> final(pcm)@.len() == 0,
{
    if pcm.len() == 0 {
        return None;
    }
    let rest = pcm.split_off(0);
    Some(rest)
}

} // verus!
