use backend2::config::{parse_unsigned, Config};

#[test]
fn parses_like_str_parse() {
    assert_eq!(parse_unsigned("3001", 65535), Some(3001));
    assert_eq!(parse_unsigned("+12", 65535), Some(12));
    assert_eq!(parse_unsigned("65535", 65535), Some(65535));
    assert_eq!(parse_unsigned("65536", 65535), None);
    assert_eq!(parse_unsigned("", 100), None);
    assert_eq!(parse_unsigned("+", 100), None);
    assert_eq!(parse_unsigned("-1", 100), None);
    assert_eq!(parse_unsigned("1 ", 100), None);
    assert_eq!(parse_unsigned("007", 100), Some(7));
    assert_eq!(parse_unsigned("4294967295", u32::MAX as u64), Some(4294967295));
    assert_eq!(parse_unsigned("99999999999999999999999", u32::MAX as u64), None);
    for s in ["0", "42", "+7", "1x", "", "+", "18446744073709551615"] {
        assert_eq!(parse_unsigned(s, u64::MAX), s.parse::<u64>().ok());
    }
}

#[test]
fn defaults() {
    let c = Config::from_vars(None, None, None, None, None, None, None);
    assert_eq!(
        c,
        Config {
            port: 3001,
            db: "./db.sqlite".to_string(),
            tile_size: 512,
            limit_input_pixels: None,
            tile_concurency: 4,
            ml_sidecar_url: "http://127.0.0.1:8001".to_string(),
            ml_predict_pad: 128,
        }
    );
}

#[test]
fn set_values() {
    let s = |v: &str| Some(v.to_string());
    let c = Config::from_vars(s("8080"), s("/tmp/x.db"), s("256"), s("1000000"), s("8"), s("http://ml:9000"), s("64"));
    assert_eq!(c.port, 8080);
    assert_eq!(c.db, "/tmp/x.db");
    assert_eq!(c.tile_size, 256);
    assert_eq!(c.limit_input_pixels, Some(1000000));
    assert_eq!(c.tile_concurency, 8);
    assert_eq!(c.ml_sidecar_url, "http://ml:9000");
    assert_eq!(c.ml_predict_pad, 64);
}
