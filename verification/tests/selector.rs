use qyoobs_vnc::selector::{decode, encode, CaptureTarget, ProtocolError};

#[test]
fn encode_whole_display() {
    assert_eq!(encode(&CaptureTarget::WholeDisplay), "display");
}

#[test]
fn encode_monitor() {
    assert_eq!(encode(&CaptureTarget::Monitor { id: 3 }), "monitor3");
    assert_eq!(encode(&CaptureTarget::Monitor { id: 0 }), "monitor0");
}

#[test]
fn encode_window() {
    assert_eq!(encode(&CaptureTarget::Window { id: 1715004 }), "window1715004");
    assert_eq!(
        encode(&CaptureTarget::Window { id: u32::MAX }),
        "window4294967295"
    );
}

#[test]
fn decode_round_trips_every_variant() {
    let targets = [
        CaptureTarget::WholeDisplay,
        CaptureTarget::Monitor { id: 0 },
        CaptureTarget::Monitor { id: 17 },
        CaptureTarget::Window { id: 1 },
        CaptureTarget::Window { id: 0x1a2b3c },
        CaptureTarget::Window { id: u32::MAX },
    ];
    for t in targets {
        assert_eq!(decode(&encode(&t)), Ok(t));
    }
}

#[test]
fn decode_tolerates_leading_zeros() {
    assert_eq!(decode("monitor007"), Ok(CaptureTarget::Monitor { id: 7 }));
}

#[test]
fn decode_rejects_unknown_token() {
    assert_eq!(decode(""), Err(ProtocolError::UnknownToken));
    assert_eq!(decode("probe"), Err(ProtocolError::UnknownToken));
    assert_eq!(decode("screen3"), Err(ProtocolError::UnknownToken));
    assert_eq!(decode("displays"), Err(ProtocolError::UnknownToken));
}

#[test]
fn decode_rejects_combined_tokens() {
    assert_eq!(decode("monitor1window2"), Err(ProtocolError::BadNumber));
    assert_eq!(decode("window2monitor1"), Err(ProtocolError::BadNumber));
    assert_eq!(decode("monitor1display"), Err(ProtocolError::BadNumber));
    assert_eq!(decode("windowdisplay"), Err(ProtocolError::BadNumber));
}

#[test]
fn decode_rejects_bad_id_suffix() {
    assert_eq!(decode("monitor"), Err(ProtocolError::BadNumber));
    assert_eq!(decode("window"), Err(ProtocolError::BadNumber));
    assert_eq!(decode("windowx"), Err(ProtocolError::BadNumber));
    assert_eq!(decode("monitor-1"), Err(ProtocolError::BadNumber));
}

#[test]
fn decode_rejects_overflowing_id_suffix() {
    assert_eq!(decode("window4294967296"), Err(ProtocolError::BadNumber));
    assert_eq!(
        decode("monitor99999999999999999999"),
        Err(ProtocolError::BadNumber)
    );
    assert_eq!(decode("window4294967295"), Ok(CaptureTarget::Window { id: u32::MAX }));
}
