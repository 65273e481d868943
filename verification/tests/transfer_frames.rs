use seat_sync::content::ContentKind;
use seat_sync::transfer::{chunk_header, file_frames, frame, total_chunks, CHUNK_SZ};

/// Splits a frame as a client does: length, header, payload.
fn split(frame: &[u8]) -> (serde_json::Value, Vec<u8>) {
    let length = u32::from_be_bytes([frame[0], frame[1], frame[2], frame[3]]) as usize;
    let header = std::str::from_utf8(&frame[4..4 + length]).expect("the header is UTF-8");
    let value = serde_json::from_str(header).expect("the header is JSON");
    (value, frame[4 + length..].to_vec())
}

fn pattern(len: usize) -> Vec<u8> {
    (0..len).map(|i| (i * 31 % 251) as u8).collect()
}

#[test]
fn chunk_size_is_64_kib() {
    assert_eq!(CHUNK_SZ, 65_536);
    assert_eq!(CHUNK_SZ, 64 * 1024);
}

#[test]
fn total_chunks_rounds_up() {
    assert_eq!(total_chunks(0), 0);
    assert_eq!(total_chunks(1), 1);
    assert_eq!(total_chunks(65_535), 1);
    assert_eq!(total_chunks(65_536), 1);
    assert_eq!(total_chunks(65_537), 2);
    assert_eq!(total_chunks(131_072), 2);
    assert_eq!(total_chunks(150_000), 3);
    assert_eq!(total_chunks(usize::MAX), usize::MAX / 65_536 + 1);
}

#[test]
fn file_of_150000_bytes_goes_in_three_frames() {
    let data = pattern(150_000);
    let frames = file_frames("r1", ContentKind::Patch, &data).expect("the headers fit");
    assert_eq!(frames.len(), 3);
    let mut joined = Vec::new();
    for (i, frame) in frames.iter().enumerate() {
        let (header, payload) = split(frame);
        assert_eq!(header["type"], "file_chunk");
        assert_eq!(header["id"], "r1");
        assert_eq!(header["fileType"], "patch");
        assert_eq!(header["isLast"], serde_json::Value::Bool(i == 2));
        assert_eq!(header.as_object().unwrap().len(), 4);
        assert_eq!(payload.len(), if i < 2 { 65_536 } else { 150_000 - 2 * 65_536 });
        joined.extend_from_slice(&payload);
    }
    assert_eq!(joined, data);
}

#[test]
fn frame_layout_is_length_header_chunk() {
    let frames = file_frames("s1", ContentKind::Sheet, &[1, 2, 3]).unwrap();
    assert_eq!(frames.len(), 1);
    let header = r#"{"type":"file_chunk","id":"s1","fileType":"sheet","isLast":true}"#;
    let mut expected = (header.len() as u32).to_be_bytes().to_vec();
    expected.extend_from_slice(header.as_bytes());
    expected.extend_from_slice(&[1, 2, 3]);
    assert_eq!(frames[0], expected);
}

#[test]
fn empty_file_has_no_frames() {
    assert_eq!(file_frames("r1", ContentKind::Patch, &[]), Some(vec![]));
}

#[test]
fn file_of_exactly_one_chunk_has_one_last_frame() {
    let data = pattern(65_536);
    let frames = file_frames("x", ContentKind::Patch, &data).unwrap();
    assert_eq!(frames.len(), 1);
    let (header, payload) = split(&frames[0]);
    assert_eq!(header["isLast"], true);
    assert_eq!(payload, data);
}

#[test]
fn file_of_two_full_chunks_has_two_frames() {
    let data = pattern(131_072);
    let frames = file_frames("x", ContentKind::Sheet, &data).unwrap();
    assert_eq!(frames.len(), 2);
    let (first, first_payload) = split(&frames[0]);
    let (second, second_payload) = split(&frames[1]);
    assert_eq!(first["isLast"], false);
    assert_eq!(second["isLast"], true);
    assert_eq!(first["fileType"], "sheet");
    assert_eq!(first_payload, &data[..65_536]);
    assert_eq!(second_payload, &data[65_536..]);
}

#[test]
fn one_byte_past_a_chunk_makes_a_frame_of_one_byte() {
    let data = pattern(65_537);
    let frames = file_frames("x", ContentKind::Patch, &data).unwrap();
    assert_eq!(frames.len(), 2);
    let (_, payload) = split(&frames[1]);
    assert_eq!(payload, vec![data[65_536]]);
}

#[test]
fn header_quotes_the_id_as_serde_json_does() {
    let id = "a \"quoted\" \\ id\nwith ünïcode";
    let header = chunk_header(id, ContentKind::Patch, false);
    let quoted = serde_json::Value::String(id.to_string()).to_string();
    assert_ne!(quoted, id);
    assert_eq!(
        header,
        format!("{{\"type\":\"file_chunk\",\"id\":{},\"fileType\":\"patch\",\"isLast\":false}}", quoted)
    );
    let value: serde_json::Value = serde_json::from_str(&header).unwrap();
    assert_eq!(value["id"], id);
    let frames = file_frames(id, ContentKind::Patch, &[7]).unwrap();
    let (value, payload) = split(&frames[0]);
    assert_eq!(value["id"], id);
    assert_eq!(payload, vec![7]);
}

#[test]
fn header_length_counts_bytes_not_characters() {
    let header = chunk_header("é", ContentKind::Sheet, true);
    let built = frame(&header, &[]).unwrap();
    assert_eq!(&built[..4], &(header.len() as u32).to_be_bytes());
    assert_eq!(header.len(), header.chars().count() + 1);
    assert_eq!(built.len(), 4 + header.len());
}

#[test]
fn frame_writes_the_length_big_endian() {
    let header = "h".repeat(0x0102_03);
    let built = frame(&header, &[9, 9]).unwrap();
    assert_eq!(&built[..4], &[0x00, 0x01, 0x02, 0x03]);
    assert_eq!(built.len(), 4 + 0x0102_03 + 2);
    assert_eq!(&built[4 + 0x0102_03..], &[9, 9]);
    let built = frame("", &[5]).unwrap();
    assert_eq!(built, vec![0, 0, 0, 0, 5]);
}

#[test]
fn long_identifiers_still_get_frames() {
    let id = "\u{1}\"\\é".repeat(5_000);
    let frames = file_frames(&id, ContentKind::Patch, &pattern(70_000)).expect("the headers fit");
    assert_eq!(frames.len(), 2);
    for frame in &frames {
        let (header, _) = split(frame);
        assert_eq!(header["id"], id.as_str());
    }
    let header = chunk_header(&id, ContentKind::Sheet, false);
    assert!(header.len() <= 6 * id.len() + 246);
    let worst = chunk_header(&"\u{1}".repeat(100), ContentKind::Sheet, false);
    assert!(worst.len() <= 6 * 100 + 246);
    assert!(worst.len() >= 6 * 100);
}
