use transcode::engine::{DecodeContext, EncodeContext};
use transcode::units::{CompressedUnit, DecodedUnit, PictureHint};

fn unit(pts: i64) -> CompressedUnit {
    CompressedUnit {
        stream_index: 0,
        pts: Some(pts),
        position: 0,
        malformed: false,
        hint: PictureHint::Intra,
    }
}

#[test]
fn decoder_holds_its_latency_back_until_eof() {
    let mut d = DecodeContext::new(2);
    for i in 0..3 {
        d.submit(&unit(i)).unwrap();
    }
    // Three in, latency two: exactly one comes out for now.
    assert_eq!(d.retrieve().unwrap().pts, Some(0));
    assert!(d.retrieve().is_none());
    // End of stream releases the rest, oldest first.
    d.signal_eof();
    assert_eq!(d.retrieve().unwrap().pts, Some(1));
    assert_eq!(d.retrieve().unwrap().pts, Some(2));
    assert!(d.retrieve().is_none());
}

#[test]
fn decoder_rejects_malformed_units() {
    let mut d = DecodeContext::new(0);
    let mut bad = unit(7);
    bad.malformed = true;
    assert!(d.submit(&bad).is_err());
    assert!(d.retrieve().is_none());
    assert!(d.submit(&unit(8)).is_ok());
    assert_eq!(d.retrieve().unwrap().pts, Some(8));
}

#[test]
fn encoder_mirrors_the_decoder() {
    let mut e = EncodeContext::new(1);
    e.submit(&DecodedUnit { pts: Some(3), hint: PictureHint::Unspecified });
    assert!(e.retrieve().is_none());
    e.submit(&DecodedUnit { pts: Some(4), hint: PictureHint::Unspecified });
    assert_eq!(e.retrieve().unwrap().pts, 3);
    e.signal_eof();
    assert_eq!(e.retrieve().unwrap().pts, 4);
    assert!(e.retrieve().is_none());
}
