use s3ite::ids::{parse_upload_id, rfc3339_of_unix, upload_id_text};
use s3ite::{base64, hex, md5_digest, repeat_vars};

#[test]
fn repeat_vars_joins_placeholders() {
    assert_eq!(repeat_vars(1), "?");
    assert_eq!(repeat_vars(2), "?,?");
    assert_eq!(repeat_vars(3), "?,?,?");
}

#[test]
fn hex_is_lowercase_two_digits_per_byte() {
    assert_eq!(hex(&[]), "");
    assert_eq!(hex(&[0x00, 0x0f, 0xab, 0xff]), "000fabff");
}

#[test]
fn base64_is_standard_and_padded() {
    assert_eq!(base64(b""), "");
    assert_eq!(base64(b"a"), "YQ==");
    assert_eq!(base64(b"ab"), "YWI=");
    assert_eq!(base64(b"abc"), "YWJj");
}

#[test]
fn md5_of_known_inputs() {
    assert_eq!(hex(&md5_digest(b"")), "d41d8cd98f00b204e9800998ecf8427e");
    assert_eq!(
        hex(&md5_digest("hello world\n你好世界\n".as_bytes())),
        "4a944a9af55168f2e2063907c421b061"
    );
    assert_eq!(base64(&md5_digest(b"")), "1B2M2Y8AsgTpgAmY7PhCfg==");
}

#[test]
fn instants_are_written_as_rfc3339() {
    assert_eq!(rfc3339_of_unix(0).as_deref(), Some("1970-01-01T00:00:00Z"));
    assert_eq!(rfc3339_of_unix(1_700_000_000).as_deref(), Some("2023-11-14T22:13:20Z"));
}

#[test]
fn upload_ids_are_hyphenated_lowercase() {
    let id: Vec<u8> = (0u8..16).map(|i| i * 17).collect();
    assert_eq!(upload_id_text(&id), "00112233-4455-6677-8899-aabbccddeeff");
    assert_eq!(parse_upload_id("00112233-4455-6677-8899-aabbccddeeff"), Some(id));
    assert_eq!(parse_upload_id("not-an-id"), None);
}
