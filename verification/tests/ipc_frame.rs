use ghostwire::ipc::frame::{decode_frame_header, read_message, write_message, FrameError, MAX_FRAME_SIZE};

fn json_bytes(fields: &[(&str, serde_json::Value)]) -> Vec<u8> {
    let mut map = serde_json::Map::new();
    for (k, v) in fields {
        map.insert(k.to_string(), v.clone());
    }
    serde_json::to_vec(&serde_json::Value::Object(map)).unwrap()
}

fn decoded(buf: &[u8]) -> serde_json::Value {
    let (payload, used) = read_message(buf).unwrap();
    assert_eq!(used, buf.len());
    serde_json::from_slice(&payload).unwrap()
}

#[test]
fn roundtrip_request() {
    // Request::Connect, as the service's JSON encoding writes it.
    let req = json_bytes(&[
        ("type", serde_json::Value::String("connect".into())),
        ("config_path", serde_json::Value::String("test.conf.age".into())),
        ("slot", serde_json::Value::String("r1".into())),
        ("pin", serde_json::Value::String("123456".into())),
    ]);
    let mut buf = Vec::new();
    write_message(&mut buf, &req).unwrap();
    let decoded = decoded(&buf);
    assert_eq!(decoded["type"], "connect");
}

#[test]
fn roundtrip_response() {
    let resp = json_bytes(&[("type", serde_json::Value::String("pong".into()))]);
    let mut buf = Vec::new();
    write_message(&mut buf, &resp).unwrap();
    let decoded = decoded(&buf);
    assert_eq!(decoded["type"], "pong");
}

#[test]
fn roundtrip_error() {
    let resp = json_bytes(&[
        ("type", serde_json::Value::String("error".into())),
        ("message", serde_json::Value::String("quelque chose a raté".into())),
    ]);
    let mut buf = Vec::new();
    write_message(&mut buf, &resp).unwrap();
    let decoded = decoded(&buf);
    assert_eq!(decoded["type"], "error");
    assert_eq!(decoded["message"], "quelque chose a raté");
}

#[test]
fn frame_layout_is_little_endian_length() {
    let mut buf = vec![9u8];
    write_message(&mut buf, b"abc").unwrap();
    assert_eq!(buf, vec![9, 3, 0, 0, 0, b'a', b'b', b'c']);
    let payload = vec![7u8; 300];
    let mut buf = Vec::new();
    write_message(&mut buf, &payload).unwrap();
    assert_eq!(&buf[..4], &[44, 1, 0, 0]);
}

#[test]
fn frame_read_leaves_the_rest() {
    let mut buf = Vec::new();
    write_message(&mut buf, b"first").unwrap();
    write_message(&mut buf, b"second").unwrap();
    let (p1, n1) = read_message(&buf).unwrap();
    assert_eq!(p1, b"first");
    let (p2, n2) = read_message(&buf[n1..]).unwrap();
    assert_eq!(p2, b"second");
    assert_eq!(n1 + n2, buf.len());
}

#[test]
fn frame_limits() {
    let big = vec![0u8; MAX_FRAME_SIZE as usize + 1];
    let mut buf = vec![1u8, 2];
    assert_eq!(write_message(&mut buf, &big), Err(FrameError::TooLarge { len: 65537 }));
    assert_eq!(buf, vec![1u8, 2]);
    let max = vec![0u8; MAX_FRAME_SIZE as usize];
    let mut buf = Vec::new();
    assert!(write_message(&mut buf, &max).is_ok());
    assert_eq!(read_message(&buf).unwrap().0.len(), 65536);

    assert_eq!(decode_frame_header([0x01, 0x00, 0x01, 0x00]), Err(FrameError::TooLarge { len: 65537 }));
    assert_eq!(decode_frame_header([0, 0, 0, 0]), Err(FrameError::Empty));
    assert_eq!(decode_frame_header([0, 0, 1, 0]), Ok(65536));
    assert_eq!(read_message(&[1, 0, 0]), Err(FrameError::ShortHeader));
    assert_eq!(read_message(&[0, 0, 0, 0]), Err(FrameError::Empty));
    assert_eq!(read_message(&[3, 0, 0, 0, 1, 2]), Err(FrameError::ShortPayload));
    assert_eq!(read_message(&[0xff, 0xff, 0xff, 0xff]), Err(FrameError::TooLarge { len: u32::MAX }));
}
