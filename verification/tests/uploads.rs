use kurou::uploads::{
    check_waveform, sanitize_filename, upload_handler, voice_meta, DurationHeader, HeaderText, UploadParams,
    UploadReply, UploadStore, MAX_UPLOAD_BYTES, SECOND,
};

fn store() -> UploadStore {
    UploadStore::new(600 * SECOND)
}

fn named(filename: &str) -> UploadParams {
    UploadParams { filename: filename.to_owned() }
}

#[test]
fn put_once_taken_once() {
    let mut store = store();
    let id = store.put("a.png".to_owned(), vec![1, 2, 3], None, None, 0);
    let other = store.put("b.png".to_owned(), vec![4], Some(9), Some("w".to_owned()), 0);
    assert_ne!(id, other);
    assert_eq!(id.len(), 32);
    assert!(id.chars().all(|c| c.is_ascii_hexdigit()));
    let upload = store.take(&id, 599 * SECOND).unwrap();
    assert_eq!((upload.filename.as_str(), upload.data), ("a.png", vec![1, 2, 3]));
    assert!(store.take(&id, 599 * SECOND).is_none());
    let second = store.take(&other, 599 * SECOND).unwrap();
    assert_eq!((second.duration_bits, second.waveform.as_deref()), (Some(9), Some("w")));
}

#[test]
fn uploads_expire() {
    let mut store = store();
    store.put_as("x".to_owned(), "a".to_owned(), vec![1], None, None, 0);
    store.put_as("y".to_owned(), "b".to_owned(), vec![2], None, None, SECOND);
    assert!(store.take("x", 600 * SECOND).is_none());
    assert_eq!(store.inner.len(), 1);
    assert!(store.take("y", 600 * SECOND).is_some());
    assert!(store.take("nobody", 0).is_none());
}

#[test]
fn names_are_leaves() {
    assert_eq!(sanitize_filename("/tmp/a\\b/ shot.png "), "shot.png");
    assert_eq!(sanitize_filename("C:\\x\\y.txt"), "y.txt");
    assert_eq!(sanitize_filename("dir/"), "");
    assert_eq!(sanitize_filename("plain"), "plain");
}

#[test]
fn voice_headers_are_checked() {
    let (duration, waveform) =
        voice_meta(DurationHeader::Seconds(1.5f64.to_bits()), HeaderText::Text(" AAEC ".to_owned())).ok().unwrap();
    assert_eq!(duration.map(f64::from_bits), Some(1.5));
    assert_eq!(waveform.as_deref(), Some("AAEC"));
    assert_eq!(voice_meta(DurationHeader::Absent, HeaderText::Absent).ok().unwrap(), (None, None));
    let told = |d: DurationHeader, w: HeaderText| voice_meta(d, w).err().unwrap();
    assert_eq!(
        told(DurationHeader::Malformed, HeaderText::NotAscii),
        "x-kurou-duration must be a positive number of seconds"
    );
    assert_eq!(told(DurationHeader::Absent, HeaderText::NotAscii), "x-kurou-waveform is not ascii");
    assert_eq!(
        told(DurationHeader::Absent, HeaderText::Text("!!".to_owned())),
        "x-kurou-waveform is not valid base64"
    );
    assert_eq!(
        told(DurationHeader::Absent, HeaderText::Text("".to_owned())),
        "x-kurou-waveform decodes to 0 bytes; discord wants 1-256 datapoints"
    );
    assert_eq!(check_waveform(&Ok(vec![0; 256])), None);
    assert_eq!(
        check_waveform(&Ok(vec![0; 257])).as_deref(),
        Some("x-kurou-waveform decodes to 257 bytes; discord wants 1-256 datapoints")
    );
}

#[test]
fn stashed_uploads_can_be_claimed() {
    let mut store = store();
    let reply = upload_handler(
        &mut store,
        &named("dir/voice.ogg"),
        DurationHeader::Seconds(2.0f64.to_bits()),
        HeaderText::Text("AAEC".to_owned()),
        vec![7, 8],
        5,
    );
    match reply {
        UploadReply::Stashed { id, filename, size, expires_in_secs, voice_ready } => {
            assert_eq!((filename.as_str(), size, expires_in_secs, voice_ready), ("voice.ogg", 2, 600, true));
            let upload = store.take(&id, 6).unwrap();
            assert_eq!(upload.data, vec![7, 8]);
            assert_eq!(upload.waveform.as_deref(), Some("AAEC"));
        }
        UploadReply::BadRequest { message } | UploadReply::TooLarge { message } => panic!("{message}"),
    }
}

#[test]
fn refused_uploads_leave_the_store_alone() {
    let mut store = store();
    let mut send = |name: &str, duration: DurationHeader, body: Vec<u8>| match upload_handler(
        &mut store,
        &named(name),
        duration,
        HeaderText::Absent,
        body,
        0,
    ) {
        UploadReply::BadRequest { message } => (400, message),
        UploadReply::TooLarge { message } => (413, message),
        UploadReply::Stashed { voice_ready, .. } => (200, voice_ready.to_string()),
    };
    assert_eq!(
        send("a/", DurationHeader::Absent, vec![1]),
        (400, "filename query param is required".to_owned())
    );
    assert_eq!(send("a", DurationHeader::Absent, Vec::new()), (400, "upload body is empty".to_owned()));
    assert_eq!(
        send("a", DurationHeader::Absent, vec![0; MAX_UPLOAD_BYTES + 1]),
        (413, "upload is 26214401 bytes; the crow's cap is 26214400".to_owned())
    );
    assert_eq!(
        send("a", DurationHeader::Malformed, vec![1]),
        (400, "x-kurou-duration must be a positive number of seconds".to_owned())
    );
    assert_eq!(send("a", DurationHeader::Absent, vec![0; MAX_UPLOAD_BYTES]), (200, "false".to_owned()));
    assert_eq!(store.inner.len(), 1);
}
