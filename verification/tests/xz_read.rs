use car::xz::bufread::XzError;
use car::xz::read::{XzDecoder, XzEncoder};
use rand::{thread_rng, Rng};

fn drain_encoder(c: &mut XzEncoder, out: &mut Vec<u8>) {
    let mut chunk = vec![0u8; 4096];
    loop {
        let n = c.read(&mut chunk).unwrap();
        if n == 0 {
            return;
        }
        out.extend_from_slice(&chunk[..n]);
    }
}

fn drain_decoder(d: &mut XzDecoder, out: &mut Vec<u8>) {
    let mut chunk = vec![0u8; 4096];
    loop {
        let n = d.read(&mut chunk).unwrap();
        if n == 0 {
            return;
        }
        out.extend_from_slice(&chunk[..n]);
    }
}

fn round_trip(v: Vec<u8>) -> bool {
    let mut r = XzEncoder::new(v.clone(), 6).unwrap();
    let mut packed = Vec::new();
    drain_encoder(&mut r, &mut packed);
    let mut r = XzDecoder::new(packed).unwrap();
    let mut v2 = Vec::new();
    drain_decoder(&mut r, &mut v2);
    v == v2
}

#[test]
fn smoke() {
    let m: &[u8] = &[1, 2, 3, 4, 5, 6, 7, 8];
    let mut c = XzEncoder::new(m.to_vec(), 6).unwrap();
    let mut data = vec![];
    drain_encoder(&mut c, &mut data);
    let mut d = XzDecoder::new(data).unwrap();
    let mut data2 = Vec::new();
    drain_decoder(&mut d, &mut data2);
    assert_eq!(data2, m);
}

#[test]
fn smoke2() {
    let m: &[u8] = &[1, 2, 3, 4, 5, 6, 7, 8];
    let mut c = XzEncoder::new(m.to_vec(), 6).unwrap();
    let mut packed = vec![];
    drain_encoder(&mut c, &mut packed);
    let mut d = XzDecoder::new(packed).unwrap();
    let mut data = vec![];
    drain_decoder(&mut d, &mut data);
    assert_eq!(data, [1, 2, 3, 4, 5, 6, 7, 8]);
}

#[test]
fn smoke3() {
    let m = vec![3u8; 128 * 1024 + 1];
    let mut c = XzEncoder::new(m.clone(), 6).unwrap();
    let mut packed = vec![];
    drain_encoder(&mut c, &mut packed);
    let mut d = XzDecoder::new(packed).unwrap();
    let mut data = vec![];
    drain_decoder(&mut d, &mut data);
    assert!(data == &m[..]);
}

#[test]
fn self_terminating() {
    let m = vec![3u8; 128 * 1024 + 1];
    let mut c = XzEncoder::new(m.clone(), 6).unwrap();

    let mut result = Vec::new();
    drain_encoder(&mut c, &mut result);

    let mut rng = thread_rng();
    let mut v = Vec::new();
    for _ in 0..1024 {
        let b: u8 = rng.gen();
        v.push(b);
    }
    for _ in 0..200 {
        result.extend(v.iter().map(|x| *x));
    }

    let mut d = XzDecoder::new(result).unwrap();
    let mut data = vec![0u8; m.len()];
    assert!(d.read(&mut data).unwrap() == m.len());
    assert!(data == &m[..]);
}

#[test]
fn zero_length_read_at_eof() {
    let m = Vec::new();
    let mut c = XzEncoder::new(m, 6).unwrap();

    let mut result = Vec::new();
    drain_encoder(&mut c, &mut result);

    let mut d = XzDecoder::new(result).unwrap();
    let mut data = Vec::new();
    assert!(d.read(&mut data).unwrap() == 0);
}

#[test]
fn zero_length_read_with_data() {
    let m = vec![3u8; 128 * 1024 + 1];
    let mut c = XzEncoder::new(m, 6).unwrap();

    let mut result = Vec::new();
    drain_encoder(&mut c, &mut result);

    let mut d = XzDecoder::new(result).unwrap();
    let mut data = Vec::new();
    assert!(d.read(&mut data).unwrap() == 0);
}

#[test]
fn qc() {
    quickcheck::quickcheck(round_trip as fn(Vec<u8>) -> bool);
}

fn packed(data: &[u8]) -> Vec<u8> {
    let mut c = XzEncoder::new(data.to_vec(), 6).unwrap();
    let mut out = Vec::new();
    drain_encoder(&mut c, &mut out);
    out
}

fn decode(stream: Vec<u8>) -> Result<Vec<u8>, XzError> {
    let mut d = XzDecoder::new(stream).unwrap();
    let mut out = Vec::new();
    let mut chunk = vec![0u8; 4096];
    loop {
        let n = d.read(&mut chunk)?;
        if n == 0 {
            return Ok(out);
        }
        out.extend_from_slice(&chunk[..n]);
    }
}

#[test]
fn stream_starts_with_the_xz_magic() {
    let p = packed(b"abc");
    assert_eq!(&p[..6], &[0xFD, 0x37, 0x7A, 0x58, 0x5A, 0x00]);
}

#[test]
fn cut_stream_is_truncated() {
    let data = vec![5u8; 10_000];
    let mut p = packed(&data);
    let n = p.len();
    p.truncate(n - 5);
    assert_eq!(decode(p), Err(XzError::Truncated));
    let mut p = packed(&data);
    p.truncate(20);
    assert_eq!(decode(p), Err(XzError::Truncated));
    assert_eq!(decode(Vec::new()), Err(XzError::Truncated));
}

#[test]
fn flipped_byte_is_a_data_error() {
    let data = vec![5u8; 10_000];
    let mut p = packed(&data);
    let n = p.len();
    p[n / 2] ^= 0x40;
    assert_eq!(decode(p), Err(XzError::Data));
}

#[test]
fn flipped_check_byte_is_a_data_error() {
    let data = b"short and sweet".to_vec();
    let mut p = packed(&data);
    // The stream ends with a twelve byte footer; the check of the block
    // comes before the index and the footer.
    let n = p.len();
    p[n - 12 - 9] ^= 0x01;
    assert!(decode(p).is_err());
}

#[test]
fn other_bytes_are_a_format_error() {
    assert_eq!(
        decode(b"this is no xz stream at all, not even close".to_vec()),
        Err(XzError::Format)
    );
}

#[test]
fn level_out_of_range_is_refused() {
    assert!(matches!(XzEncoder::new(vec![1, 2, 3], 10), Err(XzError::Options)));
    assert!(XzEncoder::new(vec![1, 2, 3], 9).is_ok());
    assert!(XzEncoder::new(vec![1, 2, 3], 0).is_ok());
}

#[test]
fn counters_follow_the_bytes() {
    let data = vec![9u8; 50_000];
    let mut c = XzEncoder::new(data.clone(), 3).unwrap();
    assert_eq!(c.total_in(), 0);
    assert_eq!(c.total_out(), 0);
    let mut out = Vec::new();
    drain_encoder(&mut c, &mut out);
    assert_eq!(c.total_in(), 50_000);
    assert_eq!(c.total_out(), out.len() as u64);
    assert_eq!(c.get_ref(), &data);
    assert_eq!(c.into_inner(), data);

    let mut d = XzDecoder::new(out.clone()).unwrap();
    let mut back = Vec::new();
    drain_decoder(&mut d, &mut back);
    assert_eq!(d.total_out(), 50_000);
    assert_eq!(d.total_in(), out.len() as u64);
    assert_eq!(d.get_mut().len(), out.len());
    assert_eq!(d.into_inner(), out);
}

#[test]
fn buffered_encoder_and_decoder() {
    use_bufread();
}

fn use_bufread() {
    let data = b"through the buffered types".to_vec();
    let src = car::source::Source::new(data.clone());
    let mut e = car::xz::bufread::XzEncoder::new(src, 6).unwrap();
    let mut p = Vec::new();
    let mut chunk = [0u8; 64];
    loop {
        let n = e.read(&mut chunk).unwrap();
        if n == 0 {
            break;
        }
        p.extend_from_slice(&chunk[..n]);
    }
    assert_eq!(e.get_ref().pos, data.len());
    assert_eq!(e.total_in(), data.len() as u64);
    let mut d = car::xz::bufread::XzDecoder::new(car::source::Source::new(p.clone())).unwrap();
    let mut back = Vec::new();
    loop {
        let n = d.read(&mut chunk).unwrap();
        if n == 0 {
            break;
        }
        back.extend_from_slice(&chunk[..n]);
    }
    assert_eq!(back, data);
    assert_eq!(d.get_mut().pos, p.len());
    assert_eq!(d.into_inner().into_inner(), p);
    assert_eq!(e.into_inner().into_inner(), data);
}
