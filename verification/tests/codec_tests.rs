use typst_preview::codec::{decode_pages, encode_header, encode_pages, parse_header, u64_to_dec, Page};
use typst_preview::portable::encode_pages_portable;

#[test]
fn decimal_rendering_is_exact() {
    assert_eq!(u64_to_dec(0), "0");
    assert_eq!(u64_to_dec(7), "7");
    assert_eq!(u64_to_dec(10), "10");
    assert_eq!(u64_to_dec(1234567890), "1234567890");
    assert_eq!(u64_to_dec(u64::MAX), "18446744073709551615");
}

#[test]
fn header_text_is_exact() {
    let header = encode_header(2, 3, 2);
    assert_eq!(header, "{\"page_num\": 2, \"width\": 3, \"height\": 2}");
}

#[test]
fn header_parses_back() {
    let header = encode_header(17, 1190, 1684);
    assert_eq!(parse_header(&header), Some((17, 1190, 1684)));
}

#[test]
fn malformed_headers_are_rejected() {
    assert_eq!(parse_header(""), None);
    assert_eq!(parse_header("{\"page_num\": , \"width\": 1, \"height\": 1}"), None);
    assert_eq!(parse_header("{\"page_num\": 1, \"width\": 1, \"height\": 1"), None);
    assert_eq!(parse_header("{\"page_num\": 1, \"width\": 1, \"height\": 1} "), None);
    assert_eq!(parse_header("{\"page_num\": 9999999999, \"width\": 1, \"height\": 1}"), None);
}

fn page(w: u32, h: u32, fill: u8) -> Page {
    Page { width: w, height: h, data: vec![fill; (w * h * 4) as usize] }
}

#[test]
fn binary_round_trip_reconstructs_pages() {
    let pages = vec![page(2, 1, 10), page(2, 1, 200)];
    let (header, frames) = encode_pages(&pages);
    let decoded = decode_pages(&header, &frames).expect("the encoding must decode");
    assert_eq!(decoded.len(), 2);
    for (i, p) in decoded.iter().enumerate() {
        assert_eq!(p.width, 2);
        assert_eq!(p.height, 1);
        assert_eq!(p.data, frames[i]);
    }
    assert_eq!(decoded[0].data, vec![10; 8]);
    assert_eq!(decoded[1].data, vec![200; 8]);
}

#[test]
fn wrong_frame_size_is_rejected() {
    let pages = vec![page(2, 2, 1)];
    let (header, mut frames) = encode_pages(&pages);
    frames[0].pop();
    assert_eq!(decode_pages(&header, &frames).map(|v| v.len()), None);
}

#[test]
fn wrong_frame_count_is_rejected() {
    let pages = vec![page(1, 1, 1)];
    let (header, mut frames) = encode_pages(&pages);
    frames.push(vec![0; 4]);
    assert!(decode_pages(&header, &frames).is_none());
}

#[test]
fn portable_frame_is_a_json_array_of_png_uris() {
    // One opaque red pixel, premultiplied RGBA.
    let pages = vec![Page { width: 1, height: 1, data: vec![255, 0, 0, 255] }];
    let frame = encode_pages_portable(&pages).expect("a real pixmap must encode");
    // A PNG stream starts with the fixed signature 0x89 P N G ..., whose
    // base64 text starts with iVBOR: the frame really carries PNG output,
    // not the raw pixels.
    assert!(frame.starts_with("[\"data:image/png;base64,iVBOR"));
    assert!(frame.ends_with("\"]"));
    assert!(frame.len() > 50);
}

#[test]
fn portable_rejects_impossible_pages() {
    let pages = vec![Page { width: 0, height: 0, data: vec![] }];
    assert!(encode_pages_portable(&pages).is_none());
}
