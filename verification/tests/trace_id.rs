use std::str::FromStr;

use actor_runtime::trace_id::{Base64DecodeError, TraceId, TryFromTraceIdError};

#[test]
fn test_trace_id_serde() {
    let expected_trace_id = TraceId::new([1; 16]);
    let trace_id_json = serde_json::to_string(&expected_trace_id.base64_display()).unwrap();
    assert_eq!(trace_id_json, r#""AQEBAQEBAQEBAQEBAQEBAQ==""#);

    let trace_id = serde_json::from_str::<String>(&trace_id_json)
        .unwrap()
        .parse::<TraceId>()
        .unwrap();
    assert_eq!(trace_id, expected_trace_id,);
}

#[test]
fn test_trace_id_try_from() {
    let expected_trace_id = TraceId::new([1; 16]);
    let trace_id_json = serde_json::to_string(&expected_trace_id.base64_display()).unwrap();
    assert_eq!(trace_id_json, r#""AQEBAQEBAQEBAQEBAQEBAQ==""#);

    let trace_id = serde_json::from_str::<String>(&trace_id_json)
        .unwrap()
        .parse::<TraceId>()
        .unwrap();
    assert_eq!(trace_id, expected_trace_id,);
}

#[test]
fn test_trace_id_from_str() {
    let expected_trace_id = TraceId::new([1; 16]);
    let trace_id: TraceId = "AQEBAQEBAQEBAQEBAQEBAQ==".parse().unwrap();
    assert_eq!(trace_id, expected_trace_id);

    let error = "AQEBAQEBAQEBAQEBAQEBAQEB==".parse::<TraceId>().unwrap_err();
    assert!(matches!(
        error,
        TryFromTraceIdError::InvalidBase64(Base64DecodeError::InvalidLength)
    ));
}

#[test]
fn trace_id_keeps_its_bytes() {
    let bytes: [u8; 16] = [0, 1, 2, 3, 4, 5, 6, 7, 8, 9, 10, 11, 12, 13, 14, 255];
    let trace_id = TraceId::new(bytes);
    assert_eq!(trace_id.as_bytes(), &bytes[..]);
    assert_eq!(trace_id.to_vec(), bytes.to_vec());
    assert_eq!(TraceId::BASE64_LENGTH, 24);
    assert_eq!(trace_id.base64_display(), "AAECAwQFBgcICQoLDA0O/w==");
    assert_eq!(
        TraceId::from_base64("AAECAwQFBgcICQoLDA0O/w=="),
        Ok(trace_id)
    );
    assert_eq!(TraceId::from_str("AAECAwQFBgcICQoLDA0O/w=="), Ok(trace_id));
}

#[test]
fn trace_id_try_from_checks_the_length() {
    assert_eq!(TraceId::try_from(&[7u8; 16][..]), Ok(TraceId::new([7; 16])));
    assert_eq!(
        TraceId::try_from(&[7u8; 15][..]),
        Err(TryFromTraceIdError::InvalidLength(15))
    );
    assert_eq!(
        TraceId::try_from(&[7u8; 17][..]),
        Err(TryFromTraceIdError::InvalidLength(17))
    );
    assert_eq!(
        TraceId::try_from(&[][..]),
        Err(TryFromTraceIdError::InvalidLength(0))
    );
    assert_eq!(TraceId::try_from(vec![3u8; 16]), Ok(TraceId::new([3; 16])));
    assert_eq!(
        TraceId::try_from(vec![3u8; 4]),
        Err(TryFromTraceIdError::InvalidLength(4))
    );
    assert_eq!(TraceId::from_slice(&[5u8; 16]), Ok(TraceId::new([5; 16])));
    assert_eq!(
        TraceId::from_slice(&[5u8; 32]),
        Err(TryFromTraceIdError::InvalidLength(32))
    );
}

#[test]
fn trace_id_from_base64_refuses_bad_text() {
    assert_eq!(
        TraceId::from_base64(""),
        Err(TryFromTraceIdError::InvalidBase64(
            Base64DecodeError::InvalidLength
        ))
    );
    assert_eq!(
        TraceId::from_base64("AQEBAQEBAQEBAQEBAQEB*Q=="),
        Err(TryFromTraceIdError::InvalidBase64(
            Base64DecodeError::InvalidByte(20, b'*')
        ))
    );
    assert_eq!(
        TraceId::from_base64("AQEBAQEBAQEBAQEBAQEBAR=="),
        Err(TryFromTraceIdError::InvalidBase64(
            Base64DecodeError::InvalidLastSymbol(21, b'R')
        ))
    );
    assert_eq!(
        TraceId::from_base64("AQEBAQEBAQEBAQEBAQEBAQEB"),
        Err(TryFromTraceIdError::InvalidLength(18))
    );
    assert_eq!(
        TraceId::from_base64("AQEBAQEBAQEBAQEBAQEBAQE="),
        Err(TryFromTraceIdError::InvalidLength(17))
    );
}

#[test]
fn trace_id_from_decoded_maps_each_outcome() {
    assert_eq!(
        TraceId::from_decoded(Ok(vec![9; 16])),
        Ok(TraceId::new([9; 16]))
    );
    assert_eq!(
        TraceId::from_decoded(Ok(vec![9; 3])),
        Err(TryFromTraceIdError::InvalidLength(3))
    );
    assert_eq!(
        TraceId::from_decoded(Err(Base64DecodeError::InvalidPadding)),
        Err(TryFromTraceIdError::InvalidBase64(
            Base64DecodeError::InvalidPadding
        ))
    );
}
