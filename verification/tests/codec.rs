use postcard_infomem::from_bytes;
use postcard_infomem::from_bytes_magic;
use postcard_infomem::from_seq;
use postcard_infomem::from_seq_magic;
use postcard_infomem::from_seq_magic_deferred;
use postcard_infomem::to_allocvec;
use postcard_infomem::to_allocvec_tagged;
use postcard_infomem::to_stdvec_magic;
use postcard_infomem::to_slice_magic;
use postcard_infomem::Error;
use postcard_infomem::FetchSource;
use postcard_infomem::InfoMem;
use postcard_infomem::InfoStr;
use postcard_infomem::SequentialRead;
use postcard_infomem::SequentialReadError;

fn seq_src(v: Vec<u8>) -> FetchSource<impl Fn(usize) -> Result<u8, SequentialReadError>> {
    let n = v.len();
    FetchSource::new(0, n, move |addr: usize| {
        if addr < v.len() {
            Ok(v[addr])
        } else {
            Err(SequentialReadError)
        }
    })
}

fn drain(mut src: FetchSource<impl Fn(usize) -> Result<u8, SequentialReadError>>) -> Vec<u8> {
    let mut out = Vec::new();
    while let Ok(b) = src.sequential_read() {
        out.push(b);
    }
    out
}

#[test]
fn test_magic_ser() {
    let im: InfoMem<Vec<u8>> = InfoMem::default();

    let ser = to_stdvec_magic(&im);

    assert_eq!(&ser[0..4], &[b'P', b'I', b'M', 0x80]);
}

#[test]
fn test_magic_deser() {
    let im: InfoMem<Vec<u8>> = InfoMem::default();

    let ser = to_stdvec_magic(&im);
    let de: InfoMem<Vec<u8>> = from_bytes_magic(&ser).unwrap();

    assert_eq!(im, de);
}

#[test]
fn test_magic_deser_with_data_before() {
    let im: InfoMem<Vec<u8>> = InfoMem::default();
    let mut all_data = vec![0, 1, 2, 3, 4];

    let ser = to_stdvec_magic(&im);
    all_data.extend(ser);

    let de: InfoMem<Vec<u8>> = from_bytes_magic(&all_data).unwrap();

    assert_eq!(im, de);
}

#[test]
fn test_magic_deser_with_partial_header_before() {
    let im: InfoMem<Vec<u8>> = InfoMem::default();
    let mut all_data = vec![b'P', b'I'];

    let ser = to_stdvec_magic(&im);
    all_data.extend(ser);

    let de: InfoMem<Vec<u8>> = from_bytes_magic(&all_data).unwrap();

    assert_eq!(im, de);
}

#[test]
fn test_magic_ok_header_bad_data() {
    let bad_data = [b'P', b'I', b'M', 0x80, 0x00, 0x01, 0x00, 0xff];

    let err = from_bytes_magic::<Vec<u8>>(&bad_data).unwrap_err();

    assert_eq!(err, Error::InvalidDiscriminant);
}

#[test]
fn test_magic_bad_header_bad_data() {
    // Replace 0x00 with 0x80 for a legal header.
    let bad_data = [b'P', b'I', b'M', 0x00, 0x80, 0x00, 0x01, 0x00, 0xff];
    let err = from_bytes_magic::<Vec<u8>>(&bad_data).unwrap_err();

    assert_eq!(err, Error::SourceExhausted);
}

#[test]
fn round_trip_default() {
    let im: InfoMem<Vec<u8>> = InfoMem::default();

    let ser = to_allocvec(&im);
    let de: InfoMem<Vec<u8>> = from_bytes(&ser).unwrap();

    assert_eq!(im, de);
}

#[test]
fn round_trip_default_with_user_payload() {
    let mut im: InfoMem<Vec<u8>> = InfoMem::default();
    let payload = [0, 1, 2, 3, 4];
    im.user = Some(payload.to_vec());

    let ser = to_allocvec(&im);
    let de: InfoMem<Vec<u8>> = from_bytes(&ser).unwrap();

    assert_eq!(im, de);
}

#[test]
fn test_seq_deser() {
    let mut im: InfoMem<Vec<u8>> = InfoMem::default();
    im.user = Some(b"test data".to_vec());

    let buf = vec![0; 127];
    let ser = to_stdvec_magic(&im);
    let (im_de, buf) = from_seq_magic::<_, Vec<u8>>(seq_src(ser), buf).unwrap();

    assert_eq!(im, im_de);
    assert_eq!(&buf[0..9], b"test data");
}

#[test]
fn test_seq_deser_no_room() {
    let mut im: InfoMem<Vec<u8>> = InfoMem::default();
    im.user = Some(b"test data".to_vec());

    let buf = vec![0; 5];
    let ser = to_stdvec_magic(&im);
    let err = from_seq_magic::<_, Vec<u8>>(seq_src(ser), buf).unwrap_err();

    assert_eq!(err, Error::BufferTooSmall);
}

#[test]
fn seq_test_range_sequential_read_slice_equiv() {
    let im: InfoMem<Vec<u8>> = InfoMem::default();
    let ser = to_stdvec_magic(&im);

    let seq_reader = seq_src(ser.clone());
    let collected_range = drain(seq_reader);

    assert_eq!(ser, collected_range);
}

#[test]
fn seq_test_deser_user_payload_deferred() {
    let mut im: InfoMem<Vec<u8>> = InfoMem::default();
    im.app.name = Some(InfoStr::Borrowed("test_deser_user_payload_deferred"));
    im.user = Some(b"test data".to_vec());

    let buf = vec![0; 64];
    let ser = to_stdvec_magic(&im);

    let (im_de, rest, buf) = from_seq_magic_deferred(seq_src(ser), buf).unwrap();
    assert!(im_de.user.is_some());
    assert_eq!(&buf[0..32], b"test_deser_user_payload_deferred");

    let user_data = drain(rest);
    assert_eq!(user_data, b"test data");
}

#[test]
fn test_deser_user_payload_serialized_deferred() {
    let mut im: InfoMem<Vec<u8>> = InfoMem::default();
    im.app.name = Some(InfoStr::Borrowed("test_deser_user_payload_deferred"));
    im.user = Some(to_allocvec_tagged(0xff, b"test data".as_ref()));

    let buf = vec![0; 64];
    let user_buf = vec![0; 64];
    let ser = to_stdvec_magic(&im);

    let (im_de, rest, buf) = from_seq_magic_deferred(seq_src(ser), buf).unwrap();
    assert!(im_de.user.is_some());
    assert_eq!(&buf[0..32], b"test_deser_user_payload_deferred");

    let (tag, data, user_buf) = from_seq(rest, user_buf).unwrap();
    assert_eq!((tag, data.as_slice()), (0xff, b"test data".as_ref()));
    assert_eq!(&user_buf[0..9], b"test data");
}

#[test]
fn truncated_record_after_header_fails_cleanly() {
    // A valid header and one byte of an incomplete record.
    let data = [0x50, 0x49, 0x4d, 0x80, 0x00];

    let err = from_bytes_magic::<Vec<u8>>(&data).unwrap_err();

    assert_eq!(err, Error::SourceExhausted);
}

#[test]
fn sentinel_self_overlap_locates_header() {
    // P,I,P,I,M,0x80: the matcher must not discard the second P.
    let im: InfoMem<Vec<u8>> = InfoMem::default();
    let mut data = vec![0x50, 0x49];
    data.extend(to_stdvec_magic(&im));

    let de: InfoMem<Vec<u8>> = from_bytes_magic(&data).unwrap();

    assert_eq!(im, de);
}

#[test]
fn header_never_appears_fails_exhausted() {
    let data = [0x01, 0x02, 0x03, 0x04, 0x05, 0x06];

    let err = from_bytes_magic::<Vec<u8>>(&data).unwrap_err();

    assert_eq!(err, Error::SourceExhausted);
}

#[test]
fn invalid_utf8_in_string_field_is_malformed() {
    // Fixed version 0.0.0 with no tags, then app name present with one
    // invalid UTF-8 byte.
    let data = [
        0x50, 0x49, 0x4d, 0x80, // header
        0x00, 0x00, 0x00, 0x00, 0x00, // schema version 0.0.0, no tags
        0x01, 0x01, 0xff, // name present, one byte, invalid UTF-8
    ];

    let err = from_bytes_magic::<Vec<u8>>(&data).unwrap_err();

    assert_eq!(err, Error::MalformedValue);
}

#[test]
fn overlong_varint_is_malformed() {
    let mut data = vec![0x50, 0x49, 0x4d, 0x80];
    // Ten continuation groups exceed the width of the schema major version.
    data.extend([0x80, 0x80, 0x80, 0x80, 0x80, 0x80, 0x80, 0x80, 0x80, 0x02]);

    let err = from_bytes_magic::<Vec<u8>>(&data).unwrap_err();

    assert_eq!(err, Error::MalformedValue);
}

#[test]
fn varint_length_boundary() {
    let mut im: InfoMem<Vec<u8>> = InfoMem::default();
    im.version = postcard_infomem::Semver {
        major: 127,
        minor: 128,
        patch: 0,
        pre: None,
        build: None,
    };

    let ser = to_allocvec(&im);

    // 127 fits one byte; 128 takes a continuation group.
    assert_eq!(ser[0], 0x7f);
    assert_eq!(&ser[1..3], &[0x80, 0x01]);
}

#[test]
fn to_slice_magic_writes_in_place_or_fails() {
    let im: InfoMem<Vec<u8>> = InfoMem::default();
    let ser = to_stdvec_magic(&im);

    let mut buf = vec![0xaa; 64];
    let n = to_slice_magic(&im, &mut buf).unwrap();
    assert_eq!(n, ser.len());
    assert_eq!(&buf[0..n], ser.as_slice());
    assert!(buf[n..].iter().all(|b| *b == 0xaa));

    let mut small = vec![0u8; 3];
    let err = to_slice_magic(&im, &mut small).unwrap_err();
    assert_eq!(err, Error::BufferTooSmall);
    assert_eq!(small, vec![0u8; 3]);
}

#[test]
fn slice_and_fetch_sources_decode_identically() {
    let mut im: InfoMem<Vec<u8>> = InfoMem::default();
    im.app.name = Some(InfoStr::Borrowed("equivalence"));
    im.user = Some(vec![9, 8, 7]);

    let ser = to_stdvec_magic(&im);
    let by_slice: InfoMem<Vec<u8>> = from_bytes_magic(&ser).unwrap();
    let (by_fetch, _buf) = from_seq_magic::<_, Vec<u8>>(seq_src(ser), vec![0; 64]).unwrap();

    assert_eq!(by_slice, by_fetch);
}

#[test]
fn deferred_decode_matches_direct_decode() {
    let mut im: InfoMem<Vec<u8>> = InfoMem::default();
    im.app.name = Some(InfoStr::Borrowed("deferred"));
    im.user = Some(b"opaque payload".to_vec());

    let ser = to_stdvec_magic(&im);
    let direct: InfoMem<Vec<u8>> = from_bytes_magic(&ser).unwrap();
    let (fixed, rest, _buf) = from_seq_magic_deferred(seq_src(ser), vec![0; 64]).unwrap();

    assert_eq!(direct.version, fixed.version);
    assert_eq!(direct.app, fixed.app);
    assert_eq!(direct.rustc, fixed.rustc);
    assert_eq!(direct.user.as_deref(), Some(b"opaque payload".as_ref()));
    assert_eq!(drain(rest), b"opaque payload");
}

#[test]
fn continuation_before_any_decode_is_not_resumable() {
    let data = [0x50, 0x49, 0x4d, 0x80, 0x00];
    let magic = postcard_infomem::Magic::new(postcard_infomem::SliceSource::new(&data));

    match magic.try_into_inner() {
        Ok(_) => panic!("an unscanned wrapper must not hand out a continuation"),
        Err(err) => assert_eq!(err, Error::NotResumable),
    }
}
