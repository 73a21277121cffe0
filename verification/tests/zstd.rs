//! One compressed stream over many frames.

use std::io::Write;

use gumicord::gateway::zstd_stream::ZstdStream;

fn stream() -> ZstdStream {
    match ZstdStream::new() {
        Ok(s) => s,
        Err(e) => panic!("{e:?}"),
    }
}

fn compressed(body: &[u8]) -> Vec<u8> {
    let mut e = zstd::stream::write::Encoder::new(Vec::new(), 0).expect("符号化器を作れない");
    e.write_all(body).unwrap();
    e.finish().unwrap()
}

/// A stream split anywhere still reassembles; this is the whole point.
#[test]
fn a_stream_split_across_frames_still_decodes() {
    let plain = br#"{"op":10,"d":{"heartbeat_interval":41250}}{"op":11}"#;

    // One byte at a time: the worst possible split must still work.
    let mut stream = stream();
    let mut out = Vec::new();
    for byte in &compressed(plain) {
        out.extend(stream.push(&[*byte]).expect("解凍に失敗した"));
    }

    assert_eq!(out, plain);
}

/// Mid-frame gives an empty result, which is not an error.
#[test]
fn an_incomplete_frame_yields_nothing_rather_than_an_error() {
    let mut stream = stream();
    // A zstd frame header alone yields nothing.
    let first = stream.push(&compressed(&[b'x'; 4096])[..4]).expect("誤りにはならない");
    assert!(first.is_empty());
}

/// Rebuild on reconnect; a new stream through an old decoder breaks.
#[test]
fn a_fresh_stream_is_needed_for_a_fresh_connection() {
    let mut first = stream();
    assert_eq!(first.push(&compressed(b"first")).unwrap(), b"first");

    // Rebuilt, it reads the next stream.
    let mut second = stream();
    assert_eq!(second.push(&compressed(b"second")).unwrap(), b"second");
}

/// However the frames are cut, the same bytes come out.
#[test]
fn the_cuts_do_not_matter() {
    let body: Vec<u8> = (0..20_000u32).flat_map(|i| (i / 7).to_le_bytes()).collect();
    let packed = compressed(&body);
    for step in [1, 3, 17, 256, 5_000, packed.len()] {
        let mut s = stream();
        let mut out = Vec::new();
        for chunk in packed.chunks(step) {
            out.extend(s.push(chunk).unwrap());
        }
        assert_eq!(out, body, "cut every {step} bytes");
    }
}

/// What has come out depends on what went in so far, not on how it was cut.
#[test]
fn each_prefix_gives_out_the_same() {
    let noise: Vec<u8> = (0..70_000u64)
        .map(|i| {
            let x = (i + 1).wrapping_mul(0x9e37_79b9_7f4a_7c15);
            ((x ^ (x >> 29)) >> 17) as u8
        })
        .collect();
    let text: Vec<u8> = (0..9_000u32).flat_map(|i| format!("{{\"n\":{}}}", i % 97).into_bytes()).collect();
    let same = vec![b'x'; 300_000];
    for body in [noise, text, same] {
        let mut packed = compressed(&body);
        // A second frame behind the first.
        packed.extend(compressed(b"behind"));

        let mut by_byte = vec![0usize];
        let mut s = stream();
        for byte in &packed {
            let more = s.push(&[*byte]).unwrap().len();
            by_byte.push(by_byte[by_byte.len() - 1] + more);
        }
        for step in [2, 7, 100, 1_024, 4_099, 65_536, packed.len()] {
            let mut s = stream();
            let (mut fed, mut given) = (0, 0);
            for chunk in packed.chunks(step) {
                given += s.push(chunk).unwrap().len();
                fed += chunk.len();
                assert_eq!(given, by_byte[fed], "{fed} bytes in cuts of {step}");
            }
        }
    }
}
