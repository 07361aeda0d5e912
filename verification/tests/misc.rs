use postcard_infomem::extract_short_git_string;
use postcard_infomem::from_bytes_magic;
use postcard_infomem::generate_from_values;
use postcard_infomem::info_bytes;
use postcard_infomem::to_allocvec;
use postcard_infomem::to_stdvec_magic;
use postcard_infomem::BuildDate;
use postcard_infomem::Channel;
use postcard_infomem::EnvConfig;
use postcard_infomem::EnvError;
use postcard_infomem::InfoMem;
use postcard_infomem::InfoMemPtr;
use postcard_infomem::InfoStr;
use postcard_infomem::RustcMeta;
use postcard_infomem::Semver;
use postcard_infomem::SequentialRead;
use postcard_infomem::SequentialReadError;
use postcard_infomem::WriterConfig;

#[test]
fn infostr_compares_by_characters() {
    let borrowed = InfoStr::from_borrowed("same text");
    let owned = InfoStr::from_string(String::from("same text"));
    let other = InfoStr::from_borrowed("other text");

    assert_eq!(borrowed, owned);
    assert_ne!(borrowed, other);
    assert_eq!(owned.as_str(), "same text");
}

#[test]
fn semver_parses_full_version() {
    let v = Semver::try_from_text("1.2.3-alpha.1+build5").unwrap();

    assert_eq!(v.major, 1);
    assert_eq!(v.minor, 2);
    assert_eq!(v.patch, 3);
    assert_eq!(v.pre.as_ref().unwrap().as_str(), "alpha.1");
    assert_eq!(v.build.as_ref().unwrap().as_str(), "build5");
}

#[test]
fn semver_parses_plain_version_without_tags() {
    let v = Semver::try_from_text("4.5.6").unwrap();

    assert_eq!((v.major, v.minor, v.patch), (4, 5, 6));
    assert!(v.pre.is_none());
    assert!(v.build.is_none());
}

#[test]
fn semver_rejects_nonsense() {
    let e = Semver::try_from_text("not a version").unwrap_err();
    assert!(!e.message().is_empty());
}

#[test]
fn this_version_is_the_crate_version() {
    let v = Semver::this_version();
    assert_eq!((v.major, v.minor, v.patch), (0, 1, 0));
    assert!(v.pre.is_none());
    assert!(v.build.is_none());
}

#[test]
fn extract_short_git_finds_parenthesized_hash() {
    let s = String::from("rustc 1.70.0 (90c541806 2023-05-31)");
    assert_eq!(extract_short_git_string(s).as_deref(), Some("90c541806"));

    let no_paren = String::from("rustc 1.70.0");
    assert!(extract_short_git_string(no_paren).is_none());
}

#[test]
fn full_record_round_trips_through_magic() {
    let mut im: InfoMem<Vec<u8>> = InfoMem::default();
    im.app.name = Some(InfoStr::from_borrowed("naïve app — ünïcode"));
    im.app.version = Some(Semver { major: 2, minor: 0, patch: 1, pre: None, build: None });
    im.app.git = Some(InfoStr::from_borrowed("deadbeef"));
    im.app.build_date = Some(BuildDate {
        year: 2024,
        month: 6,
        day: 30,
        hour: 23,
        minute: 59,
        second: 58,
        offset_west: true,
        offset_minutes: 300,
    });
    im.rustc.version = Some(Semver { major: 1, minor: 70, patch: 0, pre: None, build: None });
    im.rustc.llvm_version = Some(Semver { major: 16, minor: 0, patch: 0, pre: None, build: None });
    im.rustc.channel = Some(Channel::Stable);
    im.rustc.git = Some(InfoStr::from_borrowed("90c541806"));
    im.rustc.host = Some(InfoStr::from_borrowed("x86_64-unknown-linux-gnu"));
    im.user = Some(vec![]);

    let ser = to_stdvec_magic(&im);
    let de: InfoMem<Vec<u8>> = from_bytes_magic(&ser).unwrap();

    assert_eq!(im, de);
}

#[test]
fn channel_discriminant_out_of_range_is_invalid() {
    let mut im: InfoMem<Vec<u8>> = InfoMem::default();
    im.rustc.channel = Some(Channel::Stable);
    let mut ser = to_stdvec_magic(&im);

    // The channel tag is the third byte from the end of the fixed part:
    // tag, then two absent strings, then the absent payload flag.
    let n = ser.len();
    assert_eq!(ser[n - 4], 3);
    ser[n - 4] = 4;
    let err = from_bytes_magic::<Vec<u8>>(&ser).unwrap_err();
    assert_eq!(err, postcard_infomem::Error::InvalidDiscriminant);
}

#[test]
fn generate_from_values_applies_flags_and_fallbacks() {
    let cfg = EnvConfig::none().set_app_name(true).set_app_git(true);
    let im = generate_from_values(
        &cfg,
        Some(String::from("demo")),
        None,
        None,
        None,
        None,
    )
    .unwrap();

    assert_eq!(im.app.name.as_ref().unwrap().as_str(), "demo");
    assert_eq!(im.app.git.as_ref().unwrap().as_str(), "unknown");
    assert!(im.app.version.is_none());
    assert!(im.user.is_none());
}

#[test]
fn generate_from_values_demands_wanted_fields() {
    let cfg = EnvConfig::none().set_app_name(true);
    let err = generate_from_values(&cfg, None, None, None, None, None).unwrap_err();
    assert_eq!(err, EnvError::MissingName);

    let cfg = EnvConfig::none().set_app_version(true);
    let err = generate_from_values(&cfg, None, Some("oops"), None, None, None).unwrap_err();
    assert_eq!(err, EnvError::InvalidVersion);

    let cfg = EnvConfig::none().set_rustc_channel(true);
    let err = generate_from_values(&cfg, None, None, None, None, None).unwrap_err();
    assert_eq!(err, EnvError::MissingRustc);
}

#[test]
fn generate_from_values_populates_toolchain() {
    let cfg = EnvConfig::default().set_app_name(false).set_app_version(false).set_app_git(
        false,
    ).set_app_date(false);
    let meta = RustcMeta {
        version: Semver { major: 1, minor: 70, patch: 0, pre: None, build: None },
        llvm_version: None,
        short_version_string: String::from("rustc 1.70.0 (90c541806 2023-05-31)"),
        host: String::from("x86_64-unknown-linux-gnu"),
        channel: Channel::Stable,
    };
    let im = generate_from_values(&cfg, None, None, None, None, Some(meta)).unwrap();

    assert_eq!(im.rustc.git.as_ref().unwrap().as_str(), "90c541806");
    assert_eq!(im.rustc.host.as_ref().unwrap().as_str(), "x86_64-unknown-linux-gnu");
    assert_eq!(im.rustc.channel, Some(Channel::Stable));
}

#[test]
fn info_bytes_honours_header_flag() {
    let im: InfoMem<Vec<u8>> = InfoMem::default();

    let with_header = info_bytes(&im, &WriterConfig::default());
    let without = info_bytes(&im, &WriterConfig::default().set_header(false));

    assert_eq!(&with_header[0..4], &[b'P', b'I', b'M', 0x80]);
    assert_eq!(&with_header[4..], without.as_slice());
    assert_eq!(without, to_allocvec(&im));
}

#[test]
fn lib_test_range_sequential_read_slice_equiv() {
    let im: InfoMem<Vec<u8>> = InfoMem::default();
    let im_ser = to_stdvec_magic(&im);

    let data = im_ser.clone();
    let mut range = InfoMemPtr::new(0, im_ser.len()).sequential_read(move |addr| {
        if addr < data.len() {
            Ok(data[addr])
        } else {
            Err(SequentialReadError)
        }
    });

    let mut collected_range = Vec::new();
    while let Ok(b) = range.sequential_read() {
        collected_range.push(b);
    }

    assert_eq!(im_ser, collected_range);
}

#[test]
fn lib_test_deser_user_payload_deferred() {
    let mut im: InfoMem<Vec<u8>> = InfoMem::default();
    im.user = Some(b"device payload".to_vec());

    let ser = to_stdvec_magic(&im);
    let data = ser.clone();
    let src = InfoMemPtr::new(0, ser.len()).sequential_read(move |addr| {
        if addr < data.len() {
            Ok(data[addr])
        } else {
            Err(SequentialReadError)
        }
    });

    let (im_de, mut rest, _buf) =
        postcard_infomem::from_seq_magic_deferred(src, vec![0; 64]).unwrap();
    assert!(im_de.user.is_some());
    let marker = im_de.user.unwrap();
    assert_eq!(marker.position(), ser.len() - b"device payload".len());

    let mut payload = Vec::new();
    while let Ok(b) = rest.sequential_read() {
        payload.push(b);
    }
    assert_eq!(payload, b"device payload");
}
