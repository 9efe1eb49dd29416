use rs_plugin_mal::mal::{
    build_id_images_url, build_id_url, build_search_images_url, build_search_url,
    encode_query_component, FULL_FIELDS, IMAGE_FIELDS,
};

#[test]
fn image_only_id_url_does_not_include_metadata_fields() {
    let query = build_id_images_url(21);
    assert!(query.contains("main_picture"));
    assert!(query.contains("pictures"));
    assert!(!query.contains("synopsis"));
    assert!(!query.contains("status"));
}

#[test]
fn image_only_search_url_does_not_include_metadata_fields() {
    let query = build_search_images_url("One Piece", false);
    assert!(query.contains("main_picture"));
    assert!(query.contains("pictures"));
    assert!(!query.contains("synopsis"));
    assert!(!query.contains("status"));
    assert!(query.contains("q=One%20Piece"));
    assert!(!query.contains("nsfw=true"));
}

#[test]
fn search_url_includes_nsfw_when_enabled() {
    let query = build_search_url("One Piece", true);
    assert!(query.contains("q=One%20Piece"));
    assert!(query.contains("nsfw=true"));
}

#[test]
fn image_search_url_includes_nsfw_when_enabled() {
    let query = build_search_images_url("One Piece", true);
    assert!(query.contains("q=One%20Piece"));
    assert!(query.contains("nsfw=true"));
}

#[test]
fn id_url_is_exact() {
    assert_eq!(
        build_id_url(21),
        format!("https://api.myanimelist.net/v2/anime/21?fields={}", FULL_FIELDS)
    );
    assert_eq!(
        build_id_images_url(0),
        "https://api.myanimelist.net/v2/anime/0?fields=id,title,main_picture,pictures"
    );
    assert_eq!(
        build_id_url(u64::MAX),
        format!(
            "https://api.myanimelist.net/v2/anime/18446744073709551615?fields={}",
            FULL_FIELDS
        )
    );
}

#[test]
fn search_url_is_exact() {
    assert_eq!(
        build_search_url("One Piece", false),
        format!(
            "https://api.myanimelist.net/v2/anime?q=One%20Piece&limit=25&fields={}",
            FULL_FIELDS
        )
    );
    assert_eq!(
        build_search_images_url("a&b", true),
        format!(
            "https://api.myanimelist.net/v2/anime?q=a%26b&limit=25&nsfw=true&fields={}",
            IMAGE_FIELDS
        )
    );
}

#[test]
fn query_component_encoding() {
    assert_eq!(encode_query_component(""), "");
    assert_eq!(encode_query_component("AZaz09-_.~"), "AZaz09-_.~");
    assert_eq!(encode_query_component(" "), "%20");
    assert_eq!(encode_query_component("a+b=c&d#e%f/g?"), "a%2Bb%3Dc%26d%23e%25f%2Fg%3F");
    assert_eq!(encode_query_component("é"), "%C3%A9");
    assert_eq!(encode_query_component("進撃"), "%E9%80%B2%E6%92%83");
    assert_eq!(encode_query_component("\n\u{7f}"), "%0A%7F");
}

#[test]
fn query_component_encoding_keeps_only_safe_characters() {
    let all: String = (1u32..0x800).filter_map(char::from_u32).collect();
    let encoded = encode_query_component(&all);
    assert!(encoded
        .chars()
        .all(|c| c.is_ascii_alphanumeric() || "-_.~%".contains(c)));
}

fn percent_decode(encoded: &str) -> Option<Vec<u8>> {
    let bytes = encoded.as_bytes();
    let mut out = Vec::new();
    let mut i = 0;
    while i < bytes.len() {
        if bytes[i] == b'%' {
            let hex = std::str::from_utf8(bytes.get(i + 1..i + 3)?).ok()?;
            out.push(u8::from_str_radix(hex, 16).ok()?);
            i += 3;
        } else {
            out.push(bytes[i]);
            i += 1;
        }
    }
    Some(out)
}

#[test]
fn query_component_round_trip() {
    for s in ["", "One Piece", "a%20b", "進撃の巨人", "x+y=z&w", "~._-"] {
        let encoded = encode_query_component(s);
        assert_eq!(percent_decode(&encoded), Some(s.as_bytes().to_vec()), "{s:?}");
    }
}
