use terrahub::radio::framing::{encode_uart_datagram, UartFrameDecoder, MAX_UART_FRAME};
use terrahub::radio::RadioError;

#[test]
fn encode_decode_round_trip() {
    let frame = vec![0x01, 0x02, 0x03, 0x04];
    let datagram = encode_uart_datagram(&frame).unwrap();
    assert_eq!(&datagram[0..2], &4u16.to_le_bytes());
    let mut dec = UartFrameDecoder::new();
    let out = dec.push(&datagram).unwrap();
    assert_eq!(out, vec![frame]);
}

#[test]
fn split_across_reads() {
    let frame = b"abcdefgh".to_vec();
    let datagram = encode_uart_datagram(&frame).unwrap();
    let mut dec = UartFrameDecoder::new();
    assert!(dec.push(&datagram[..3]).unwrap().is_empty());
    let out = dec.push(&datagram[3..]).unwrap();
    assert_eq!(out, vec![frame]);
}

#[test]
fn two_frames_one_chunk() {
    let a = encode_uart_datagram(b"aa").unwrap();
    let b = encode_uart_datagram(b"bbbb").unwrap();
    let mut chunk = a;
    chunk.extend_from_slice(&b);
    let mut dec = UartFrameDecoder::new();
    let out = dec.push(&chunk).unwrap();
    assert_eq!(out, vec![b"aa".to_vec(), b"bbbb".to_vec()]);
}

#[test]
fn encode_rejects_empty_frame() {
    match encode_uart_datagram(&[]) {
        Err(RadioError::Io(m)) => assert_eq!(m, "empty TerraLink frame"),
        other => panic!("unexpected {:?}", other),
    }
}

#[test]
fn encode_rejects_oversize_frame() {
    let frame = vec![7u8; 215];
    match encode_uart_datagram(&frame) {
        Err(RadioError::Io(m)) => assert_eq!(m, "frame too large for UART: 215 > 214"),
        other => panic!("unexpected {:?}", other),
    }
    let frame = vec![7u8; 1000];
    match encode_uart_datagram(&frame) {
        Err(RadioError::Io(m)) => assert_eq!(m, "frame too large for UART: 1000 > 214"),
        other => panic!("unexpected {:?}", other),
    }
}

#[test]
fn encode_largest_frame() {
    let frame = vec![9u8; MAX_UART_FRAME];
    let d = encode_uart_datagram(&frame).unwrap();
    assert_eq!(d.len(), 216);
    assert_eq!(d[0], 214);
    assert_eq!(d[1], 0);
    assert_eq!(&d[2..], &frame[..]);
    let mut dec = UartFrameDecoder::new();
    assert_eq!(dec.push(&d).unwrap(), vec![frame]);
    assert_eq!(dec.buffered_len(), 0);
}

#[test]
fn decoder_resyncs_on_bad_length() {
    // 0x0000 and then 0x0200 (512) are refused one byte at a time; then "ab".
    let mut dec = UartFrameDecoder::new();
    let out = dec.push(&[0, 0, 2, 0, b'a', b'b']).unwrap();
    assert_eq!(out, vec![b"ab".to_vec()]);
    assert_eq!(dec.buffered_len(), 0);
}

#[test]
fn decoder_holds_incomplete_frame() {
    let mut dec = UartFrameDecoder::new();
    assert!(dec.push(&[3, 0, b'x']).unwrap().is_empty());
    assert_eq!(dec.buffered_len(), 3);
    assert!(dec.push(&[b'y']).unwrap().is_empty());
    assert_eq!(dec.buffered_len(), 4);
    let out = dec.push(&[b'z', 1]).unwrap();
    assert_eq!(out, vec![b"xyz".to_vec()]);
    assert_eq!(dec.buffered_len(), 1);
}

#[test]
fn decoder_byte_by_byte_matches_one_read() {
    let mut stream = encode_uart_datagram(b"hello").unwrap();
    stream.extend_from_slice(&encode_uart_datagram(b"w").unwrap());
    stream.push(5);
    let mut whole = UartFrameDecoder::new();
    let all = whole.push(&stream).unwrap();
    let mut bytewise = UartFrameDecoder::new();
    let mut got = Vec::new();
    for b in &stream {
        got.extend(bytewise.push(&[*b]).unwrap());
    }
    assert_eq!(all, got);
    assert_eq!(all, vec![b"hello".to_vec(), b"w".to_vec()]);
    assert_eq!(whole.buffered_len(), bytewise.buffered_len());
    assert_eq!(whole.buffered_len(), 1);
}

#[test]
fn decoder_empty_input() {
    let mut dec = UartFrameDecoder::new();
    assert!(dec.push(&[]).unwrap().is_empty());
    assert_eq!(dec.buffered_len(), 0);
}
