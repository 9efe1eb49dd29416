use rs_plugin_mal::lookup::{
    build_http_request, check_status, extract_allow_nsfw, extract_client_id, extract_mal_id,
    fetch_request, parse_bool, plan_lookup, plugin_description, search_nodes, LookupCredential,
    LookupError, LookupQuery, LookupRequest, LookupTitle, MediaFetch,
};
use rs_plugin_mal::mal::{MyAnimeListAnime, MyAnimeListSearchItem, MyAnimeListSearchResponse};

fn serie(name: Option<&str>, mal_id: Option<u64>) -> LookupQuery {
    LookupQuery::Serie(LookupTitle {
        name: name.map(|s| s.to_string()),
        mal_id,
    })
}

fn credential(password: Option<&str>, login: Option<&str>) -> Option<LookupCredential> {
    Some(LookupCredential {
        login: login.map(|s| s.to_string()),
        password: password.map(|s| s.to_string()),
    })
}

fn params(entries: &[(&str, &str)]) -> Option<Vec<(String, String)>> {
    Some(
        entries
            .iter()
            .map(|(k, v)| (k.to_string(), v.to_string()))
            .collect(),
    )
}

#[test]
fn test_lookup_without_credential_returns_401() {
    let input = LookupRequest {
        query: serie(Some("One Piece"), None),
        credential: None,
        params: None,
    };
    let error = plan_lookup(&input).expect_err("Expected 401 error when client ID credential is missing");
    let message = format!("{} {}", error.code(), error.message());
    assert!(
        message.contains("No Client ID provided") || message.contains("401"),
        "Expected missing client ID message/401, got: {message}"
    );
}

#[test]
fn test_lookup_empty_name_returns_404() {
    let input = LookupRequest {
        query: serie(Some(""), None),
        credential: credential(Some("test-client-id"), None),
        params: None,
    };
    let error = plan_lookup(&input).expect_err("Expected 404 error for empty search");
    let message = format!("{} {}", error.code(), error.message());
    assert!(
        message.contains("Not supported") || message.contains("404"),
        "Expected error message to mention 404/Not supported, got: {message}"
    );
}

#[test]
fn other_queries_fetch_nothing_even_without_credential() {
    let input = LookupRequest {
        query: LookupQuery::Other,
        credential: None,
        params: None,
    };
    assert!(matches!(plan_lookup(&input), Ok(MediaFetch::Nothing)));
    assert!(fetch_request(&MediaFetch::Nothing, false).is_none());
}

#[test]
fn mal_id_takes_precedence_over_name() {
    let input = LookupRequest {
        query: LookupQuery::Movie(LookupTitle {
            name: Some("ignored".to_string()),
            mal_id: Some(21),
        }),
        credential: credential(Some(" key "), None),
        params: None,
    };
    assert_eq!(extract_mal_id(&input.query), Some(21));
    match plan_lookup(&input) {
        Ok(MediaFetch::ById { id, client_id }) => {
            assert_eq!(id, 21);
            assert_eq!(client_id, "key");
        }
        other => panic!("unexpected plan {other:?}"),
    }
}

#[test]
fn search_keeps_name_and_nsfw_choice() {
    let input = LookupRequest {
        query: serie(Some(" One Piece "), None),
        credential: credential(None, Some("login-key")),
        params: params(&[("allowNsfwContent", " YES ")]),
    };
    match plan_lookup(&input) {
        Ok(MediaFetch::BySearch {
            search,
            client_id,
            allow_nsfw,
        }) => {
            assert_eq!(search, " One Piece ");
            assert_eq!(client_id, "login-key");
            assert!(allow_nsfw);
        }
        other => panic!("unexpected plan {other:?}"),
    }
}

#[test]
fn blank_password_does_not_fall_back_to_login() {
    let input = LookupRequest {
        query: serie(Some("x"), None),
        credential: credential(Some("   "), Some("login")),
        params: None,
    };
    assert_eq!(extract_client_id(&input), None);
    let error = plan_lookup(&input).unwrap_err();
    assert_eq!(error.code(), 401);
    assert!(matches!(error, LookupError::MissingClientId));
}

#[test]
fn missing_name_is_not_supported() {
    let input = LookupRequest {
        query: serie(None, None),
        credential: credential(Some("k"), None),
        params: None,
    };
    let error = plan_lookup(&input).unwrap_err();
    assert_eq!(error.code(), 404);
    assert_eq!(error.message(), "Not supported");
}

#[test]
fn bool_parsing() {
    for s in ["true", " TRUE ", "1", "yes", "On"] {
        assert_eq!(parse_bool(s), Some(true), "{s}");
    }
    for s in ["false", "0", "No", " off\t"] {
        assert_eq!(parse_bool(s), Some(false), "{s}");
    }
    for s in ["", "maybe", "t", "10"] {
        assert_eq!(parse_bool(s), None, "{s}");
    }
}

#[test]
fn nsfw_setting_key_priority() {
    let mut input = LookupRequest {
        query: serie(Some("x"), None),
        credential: None,
        params: None,
    };
    assert!(!extract_allow_nsfw(&input));
    input.params = params(&[("Allow NSFW content", "true"), ("allow_nsfw_content", "false")]);
    assert!(!extract_allow_nsfw(&input));
    input.params = params(&[("allow_nsfw_content", "garbage"), ("allowNsfwContent", "true")]);
    assert!(!extract_allow_nsfw(&input));
    input.params = params(&[("Allow NSFW content", "on")]);
    assert!(extract_allow_nsfw(&input));
}

#[test]
fn http_request_headers() {
    let request = build_http_request("https://example/x".to_string(), "abc");
    assert_eq!(request.url, "https://example/x");
    assert_eq!(request.method, "GET");
    assert_eq!(
        request.headers,
        vec![
            ("Accept".to_string(), "application/json".to_string()),
            ("X-MAL-CLIENT-ID".to_string(), "abc".to_string()),
        ]
    );
}

#[test]
fn fetch_requests_choose_fields() {
    let by_id = MediaFetch::ById {
        id: 21,
        client_id: "k".to_string(),
    };
    let full = fetch_request(&by_id, false).unwrap();
    let images = fetch_request(&by_id, true).unwrap();
    assert!(full.url.contains("synopsis"));
    assert_eq!(
        images.url,
        "https://api.myanimelist.net/v2/anime/21?fields=id,title,main_picture,pictures"
    );
    let search = MediaFetch::BySearch {
        search: "One Piece".to_string(),
        client_id: "k".to_string(),
        allow_nsfw: true,
    };
    let request = fetch_request(&search, true).unwrap();
    assert!(request.url.contains("q=One%20Piece&limit=25&nsfw=true&fields=id,title"));
}

#[test]
fn status_handling() {
    assert!(check_status(200).is_ok());
    assert!(check_status(299).is_ok());
    let error = check_status(404).unwrap_err();
    assert_eq!(error.code(), 404);
    assert_eq!(error.message(), "HTTP error: 404");
    assert_eq!(check_status(199).unwrap_err().code(), 199);
    assert_eq!(check_status(503).unwrap_err().message(), "HTTP error: 503");
    assert_eq!(LookupError::Parse("bad json".to_string()).code(), 500);
    assert_eq!(LookupError::Request("down".to_string()).message(), "down");
}

fn anime(id: u64) -> MyAnimeListAnime {
    MyAnimeListAnime {
        id,
        title: format!("t{id}"),
        main_picture: None,
        alternative_titles: None,
        start_date: None,
        synopsis: None,
        popularity: None,
        num_episodes: None,
        status: None,
        genres: None,
        studios: None,
        media_type: None,
        rating: None,
        nsfw: None,
        pictures: None,
        trailer_url: None,
        background: None,
    }
}

#[test]
fn search_nodes_keep_order() {
    let response = MyAnimeListSearchResponse {
        data: vec![
            MyAnimeListSearchItem { node: anime(3) },
            MyAnimeListSearchItem { node: anime(1) },
        ],
    };
    let ids: Vec<u64> = search_nodes(response).iter().map(|a| a.id).collect();
    assert_eq!(ids, vec![3, 1]);
}

#[test]
fn declared_plugin() {
    let d = plugin_description();
    assert_eq!(d.name, "myanimelist_metadata");
    assert_eq!(d.version, 2);
    assert_eq!(d.interface_version, 1);
    assert_eq!(d.settings[0].name, "allow_nsfw_content");
    assert_eq!(parse_bool(&d.settings[0].default_text), Some(false));
}
