use rakukan::wide::{GUIDExt, Guid, StringExt};

#[test]
fn utf16_with_and_without_nul() {
    assert_eq!("A\u{3042}".to_wide_16(), vec![0x41, 0x3042, 0]);
    assert_eq!("A\u{3042}".to_wide_16_unpadded(), vec![0x41, 0x3042]);
    assert_eq!(String::from("\u{1F600}").to_wide_16_unpadded(), vec![0xD83D, 0xDE00]);
    assert_eq!("".to_wide_16(), vec![0]);
}

#[test]
fn utf16_little_endian_bytes() {
    assert_eq!("A\u{3042}".to_wide(), vec![0x41, 0x00, 0x42, 0x30, 0x00]);
    assert_eq!(String::from("a").to_wide(), vec![0x61, 0x00, 0x00]);
}

#[test]
fn guid_registry_form() {
    let g = Guid {
        data1: 0x1234ABCD,
        data2: 0x0F0E,
        data3: 0x00A1,
        data4: [0x01, 0x23, 0x45, 0x67, 0x89, 0xAB, 0xCD, 0xEF],
    };
    assert_eq!(g.to_guid_string(), "{1234abcd-0f0e-00a1-0123-456789abcdef}");
}
