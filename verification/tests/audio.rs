use realingo::audio::{describe, is_loopback_kind, split_device_id, MIC, SYS};
use realingo::pcm::{pcm_from_le_bytes, pcm_to_le_bytes, peak_magnitude};
use realingo::resample::{next_chunk, take_chunk, take_rest, NextChunk, CHUNK_SAMPLES};

#[test]
fn device_ids_read_back_as_kind_and_backend_id() {
    let d = describe(SYS, "wasapi:{0.0.0}|x", "Speakers".into());
    assert_eq!(d.id, "sys|wasapi:{0.0.0}|x");
    assert!(d.loopback);
    let (kind, id) = split_device_id(&d.id).unwrap();
    assert_eq!((kind.as_str(), id.as_str()), ("sys", "wasapi:{0.0.0}|x"));
    assert!(is_loopback_kind(&kind));
    assert!(!describe(MIC, "hw:0", "Mic".into()).loopback);
    assert!(split_device_id("no separator").is_none());
}

#[test]
fn samples_survive_the_byte_round_trip() {
    let pcm = [0i16, 1, -1, 32767, -32768, 256, -257];
    let bytes = pcm_to_le_bytes(&pcm);
    assert_eq!(bytes.len(), 14);
    assert_eq!(&bytes[..6], &[0, 0, 1, 0, 0xff, 0xff]);
    assert_eq!(pcm_from_le_bytes(&bytes), pcm.to_vec());
    // An odd trailing byte is not a sample.
    assert_eq!(pcm_from_le_bytes(&[1, 0, 7]), vec![1]);
}

#[test]
fn peak_is_the_largest_magnitude() {
    assert_eq!(peak_magnitude(&[3, -7, 5]), 7);
    assert_eq!(peak_magnitude(&[-32768, 32767]), 32768);
    assert_eq!(peak_magnitude(&[]), 0);
}

#[test]
fn chunks_are_cut_in_order_and_the_rest_stays() {
    let mut pcm: Vec<i16> = (0..(2 * CHUNK_SAMPLES + 5) as i32).map(|i| i as i16).collect();
    let a = take_chunk(&mut pcm).unwrap();
    let b = take_chunk(&mut pcm).unwrap();
    assert_eq!(a.len(), CHUNK_SAMPLES);
    assert_eq!(a[0], 0);
    assert_eq!(b[0], CHUNK_SAMPLES as i16);
    assert_eq!(pcm.len(), 5);
    assert!(take_chunk(&mut pcm).is_none());
    assert_eq!(pcm.len(), 5);
}

#[test]
fn a_paced_stream_stops_only_with_a_chunk_ready_and_sends_its_tail() {
    let mut pcm: Vec<i16> = vec![7; CHUNK_SAMPLES + 3];
    assert!(matches!(next_chunk(true, &mut pcm), NextChunk::Stop));
    assert_eq!(pcm.len(), CHUNK_SAMPLES + 3);
    assert!(matches!(next_chunk(false, &mut pcm), NextChunk::Send(c) if c.len() == CHUNK_SAMPLES));
    assert!(matches!(next_chunk(true, &mut pcm), NextChunk::NeedMore));
    assert_eq!(take_rest(&mut pcm), Some(vec![7, 7, 7]));
    assert!(pcm.is_empty());
    assert_eq!(take_rest(&mut pcm), None);
}
