use chartlet::qr::{DataTooLong, ErrorCorrection, QrCode};

#[test]
fn error_correction_defaults_to_medium() {
    assert_eq!(ErrorCorrection::default(), ErrorCorrection::Medium);
}

#[test]
fn high_level_holds_at_most_1273_bytes() {
    let largest = QrCode::encode_bytes(&[0x42; 1273], ErrorCorrection::High).unwrap();
    assert_eq!(largest.version(), 40);
    assert_eq!(largest.size(), 177);
    assert_eq!(
        QrCode::encode_bytes(&[0x42; 1274], ErrorCorrection::High),
        Err(DataTooLong {
            bytes: 1274,
            max_bytes: 1273
        })
    );
}

#[test]
fn smallest_code_has_21_modules_per_side() {
    let code = QrCode::encode("", ErrorCorrection::High).unwrap();
    assert_eq!(code.version(), 1);
    assert_eq!(code.size(), 21);
    assert!(!code.is_dark(21, 0));
    assert!(!code.is_dark(0, 21));
}

#[test]
fn raw_bytes_encode_like_the_same_text() {
    let text = QrCode::encode("chartlet", ErrorCorrection::Low).unwrap();
    let bytes = QrCode::encode_bytes(b"chartlet", ErrorCorrection::Low).unwrap();
    assert_eq!(text, bytes);
    let binary = QrCode::encode_bytes(&[0xff, 0x00, 0xfe], ErrorCorrection::Quartile).unwrap();
    assert_eq!(binary.version(), 1);
}

#[test]
fn higher_levels_need_larger_codes_for_the_same_text() {
    let text = "a".repeat(100);
    let low = QrCode::encode(&text, ErrorCorrection::Low).unwrap().version();
    let high = QrCode::encode(&text, ErrorCorrection::High).unwrap().version();
    assert!(low < high);
}

#[test]
fn data_too_long_reads_as_a_sentence() {
    let error = DataTooLong {
        bytes: 2954,
        max_bytes: 2953,
    };
    assert_eq!(
        error.to_string(),
        "2954 bytes do not fit into a QR code at this error correction level (at most 2953)"
    );
}

#[test]
fn a_higher_level_never_gives_a_smaller_code() {
    let levels = [
        ErrorCorrection::Low,
        ErrorCorrection::Medium,
        ErrorCorrection::Quartile,
        ErrorCorrection::High,
    ];
    for length in [0, 8, 100, 500, 1273] {
        let text = "a".repeat(length);
        let versions: Vec<u8> = levels
            .iter()
            .map(|level| QrCode::encode(&text, *level).unwrap().version())
            .collect();
        assert!(versions.windows(2).all(|pair| pair[0] <= pair[1]), "{versions:?}");
    }
    assert_eq!(QrCode::encode(&"a".repeat(8), ErrorCorrection::Low).unwrap().version(), 1);
    assert_eq!(QrCode::encode(&"a".repeat(8), ErrorCorrection::High).unwrap().version(), 2);
}
