use casimir::codec::{segment, CodecError, Reassembler};

fn packet(b0: u8, b1: u8, len: usize) -> Vec<u8> {
    let mut p = vec![b0, b1, if len <= 255 { len as u8 } else { 255 }];
    for i in 0..len {
        p.push((i % 251) as u8);
    }
    p
}

fn read_back(segments: &[Vec<u8>]) -> Vec<Vec<u8>> {
    let mut reader = Reassembler::new();
    let mut out = Vec::new();
    for s in segments {
        let header = [s[0], s[1], s[2]];
        let payload = s[3..].to_vec();
        if let Some(p) = reader.push(header, &payload).unwrap() {
            out.push(p);
        }
    }
    out
}

#[test]
fn round_trip_keeps_short_packets() {
    for len in [0usize, 1, 3, 254, 255] {
        let p = packet(0x40, 0x03, len);
        let out = read_back(&segment(&p));
        assert_eq!(out, vec![p]);
    }
}

#[test]
fn round_trip_keeps_payload_of_long_packets() {
    for len in [256usize, 510, 511, 512, 1000, 65535] {
        let p = packet(0x20, 0x02, len);
        let out = read_back(&segment(&p));
        assert_eq!(out.len(), 1);
        let r = &out[0];
        assert_eq!(r.len(), p.len());
        assert_eq!(r[0], 0x20);
        assert_eq!(r[1], 0x02);
        assert_eq!(&r[3..], &p[3..]);
        let last = len - 255 * ((len + 254) / 255 - 1);
        assert_eq!(r[2] as usize, last);
    }
}

#[test]
fn segmentation_boundaries() {
    for (len, count) in [(254usize, 1usize), (255, 1), (256, 2), (510, 2), (511, 3), (512, 3), (1000, 4)] {
        let p = packet(0x40, 0x01, len);
        let segs = segment(&p);
        assert_eq!(segs.len(), count, "payload of {} bytes", len);
        for (i, s) in segs.iter().enumerate() {
            assert!(s.len() <= 258);
            let incomplete = s[0] & 0x10 != 0;
            assert_eq!(incomplete, i + 1 < count);
            assert_eq!(s[0] & 0xef, 0x40);
            assert_eq!(s[1], 0x01);
            assert_eq!(s[2] as usize, s.len() - 3);
        }
    }
}

#[test]
fn empty_payload_is_one_segment() {
    let segs = segment(&vec![0x20, 0x01, 0x00]);
    assert_eq!(segs, vec![vec![0x20, 0x01, 0x00]]);
}

#[test]
fn segmented_write_of_300_bytes() {
    let p = packet(0x40, 0x01, 300);
    let segs = segment(&p);
    assert_eq!(segs.len(), 2);
    assert_eq!(segs[0].len(), 258);
    assert_eq!(&segs[0][..3], &[0x50, 0x01, 255]);
    assert_eq!(segs[1].len(), 48);
    assert_eq!(&segs[1][..3], &[0x40, 0x01, 45]);
    assert_eq!(&segs[0][3..], &p[3..258]);
    assert_eq!(&segs[1][3..], &p[258..]);
}

#[test]
fn segmentation_clears_a_set_boundary_flag() {
    let segs = segment(&vec![0x30, 0x05, 0x01, 0xaa]);
    assert_eq!(segs, vec![vec![0x20, 0x05, 0x01, 0xaa]]);
}

#[test]
fn reassembly_rejects_reserved_message_type() {
    let mut reader = Reassembler::new();
    assert_eq!(reader.push([0x80, 0x00, 0x00], &vec![]), Err(CodecError::InvalidMessageType));
}

#[test]
fn reassembly_rejects_wrong_payload_length() {
    let mut reader = Reassembler::new();
    assert_eq!(reader.push([0x20, 0x00, 0x02], &vec![1]), Err(CodecError::PayloadLengthMismatch));
}

#[test]
fn reassembly_rejects_mismatched_continuation() {
    let mut reader = Reassembler::new();
    assert_eq!(reader.push([0x30, 0x02, 0x01], &vec![1]), Ok(None));
    assert_eq!(reader.push([0x20, 0x03, 0x01], &vec![2]), Err(CodecError::HeaderMismatch));
    // The reader is idle again after an error.
    assert_eq!(reader.push([0x20, 0x03, 0x01], &vec![2]), Ok(Some(vec![0x20, 0x03, 0x01, 2])));
}

#[test]
fn reassembly_joins_segments() {
    let mut reader = Reassembler::new();
    assert_eq!(reader.push([0x30, 0x02, 0x02], &vec![1, 2]), Ok(None));
    assert_eq!(reader.push([0x30, 0x02, 0x01], &vec![3]), Ok(None));
    assert_eq!(reader.push([0x20, 0x02, 0x01], &vec![4]), Ok(Some(vec![0x20, 0x02, 0x01, 1, 2, 3, 4])));
}
