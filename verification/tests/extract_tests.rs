use binwalk::signatures::common::SignatureResult;
use fwx::extract::{findings_outcome, scan, SignatureHit};

const GZIP_MEMBER: [u8; 44] = [
    0x1f, 0x8b, 0x08, 0x00, 0x00, 0x00, 0x00, 0x00, 0x02, 0xff, 0xcb, 0x48, 0xcd, 0xc9, 0xc9, 0x57,
    0x48, 0xcb, 0x2c, 0xca, 0x2d, 0x4f, 0x2c, 0x4a, 0x55, 0x28, 0xcf, 0x2f, 0xca, 0x49, 0x51, 0xc8,
    0x18, 0x7c, 0x82, 0x00, 0xc9, 0x97, 0xf7, 0xfc, 0xa8, 0x00, 0x00, 0x00,
];

#[test]
fn nothing_to_find_in_zeros() {
    assert!(scan(&[0u8; 256]).is_none());
    assert!(scan(&[]).is_none());
}

#[test]
fn embedded_gzip_is_found_inside_the_image() {
    let mut image = vec![0u8; 64];
    image.extend_from_slice(&GZIP_MEMBER);
    image.extend_from_slice(&[0u8; 64]);
    let hits = scan(&image).expect("the gzip member is a known signature");
    assert!(hits.iter().any(|h| h.offset == 64 && h.name == "gzip"));
    for h in &hits {
        assert!(h.offset + h.size <= image.len());
        assert_eq!(h.offset, h.result.offset);
        assert_eq!(h.size, h.result.size);
    }
    assert!(hits.windows(2).all(|w| w[0].offset <= w[1].offset));
}

fn hit(offset: usize, name: &str) -> SignatureHit {
    SignatureHit {
        offset,
        size: 4,
        name: name.to_string(),
        description: String::new(),
        result: SignatureResult::default(),
    }
}

#[test]
fn outcome_keeps_every_hit() {
    assert!(findings_outcome(Vec::new()).is_none());
    let got = findings_outcome(vec![hit(0, "a"), hit(8, "b"), hit(8, "c")]).unwrap();
    let names: Vec<&str> = got.iter().map(|h| h.name.as_str()).collect();
    assert_eq!(names, vec!["a", "b", "c"]);
    assert_eq!(got[1].offset, 8);
}
