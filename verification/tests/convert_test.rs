use rs_plugin_common_interfaces::domain::serie::SerieType;
use rs_plugin_mal::convert::{
    alt_names, best_title, build_images, build_params, collect_images, map_status,
    mal_anime_to_images, mal_anime_to_result, metadata_results, year_from_start_date, AnimeStatus,
    ImageKind, ParamValue,
};
use rs_plugin_mal::mal::{
    MyAnimeListAlternativeTitles, MyAnimeListAnime, MyAnimeListGenre, MyAnimeListPicture,
};

fn sample_titles() -> MyAnimeListAlternativeTitles {
    MyAnimeListAlternativeTitles {
        synonyms: vec!["OP".to_string()],
        en: Some("One Piece".to_string()),
        ja: Some("Wan Pisu".to_string()),
    }
}

fn sample_picture(url: &str) -> MyAnimeListPicture {
    MyAnimeListPicture {
        medium: None,
        large: Some(url.to_string()),
    }
}

fn sample_media() -> MyAnimeListAnime {
    MyAnimeListAnime {
        id: 21,
        title: "ONE PIECE".to_string(),
        main_picture: Some(sample_picture("https://cdn.myanimelist.net/poster.jpg")),
        alternative_titles: Some(sample_titles()),
        start_date: Some("1999-10-20".to_string()),
        synopsis: Some("A pirate adventure.".to_string()),
        popularity: Some(10),
        num_episodes: Some(1000),
        status: Some("currently_airing".to_string()),
        genres: Some(vec![MyAnimeListGenre {
            id: None,
            name: "Adventure".to_string(),
        }]),
        studios: None,
        media_type: Some("tv".to_string()),
        rating: Some("pg_13".to_string()),
        nsfw: Some("white".to_string()),
        pictures: Some(vec![sample_picture(
            "https://cdn.myanimelist.net/background.jpg",
        )]),
        trailer_url: Some("https://www.youtube.com/watch?v=example".to_string()),
        background: Some("Some background".to_string()),
    }
}

fn bare_media(title: &str) -> MyAnimeListAnime {
    MyAnimeListAnime {
        id: 5,
        title: title.to_string(),
        main_picture: None,
        alternative_titles: None,
        start_date: None,
        synopsis: None,
        popularity: None,
        num_episodes: None,
        status: None,
        genres: None,
        studios: None,
        media_type: None,
        rating: None,
        nsfw: None,
        pictures: None,
        trailer_url: None,
        background: None,
    }
}

#[test]
fn test_best_title_prefers_english_title() {
    let media = sample_media();
    assert_eq!(best_title(&media), "One Piece");
}

#[test]
fn test_alt_names_excludes_primary() {
    let media = sample_media();
    let alts = alt_names(&media).unwrap();
    assert!(!alts.contains(&"One Piece".to_string()));
    assert!(alts.contains(&"ONE PIECE".to_string()));
    assert!(alts.contains(&"Wan Pisu".to_string()));
    assert!(alts.contains(&"OP".to_string()));
}

#[test]
fn test_status_mapping() {
    assert_eq!(
        map_status(&Some("finished_airing".to_string())),
        Some(AnimeStatus::Ended)
    );
    assert_eq!(
        map_status(&Some("currently_airing".to_string())),
        Some(AnimeStatus::Returning)
    );
    assert_eq!(
        map_status(&Some("not_yet_aired".to_string())),
        Some(AnimeStatus::Planned)
    );
    assert_eq!(map_status(&None), None);
}

#[test]
fn test_images_include_poster_and_backgrounds() {
    let media = sample_media();
    let images = build_images(&media);

    assert_eq!(images.len(), 2);
    assert_eq!(images[0].kind, ImageKind::Poster);
    assert_eq!(images[1].kind, ImageKind::Background);
}

#[test]
fn test_year_from_start_date() {
    let media = sample_media();
    assert_eq!(year_from_start_date(&media.start_date), Some(1999));
}

#[test]
fn best_title_falls_back_on_blank_english_title() {
    let mut media = sample_media();
    media.alternative_titles.as_mut().unwrap().en = Some("  \t".to_string());
    assert_eq!(best_title(&media), "ONE PIECE");
    media.alternative_titles = None;
    assert_eq!(best_title(&media), "ONE PIECE");
}

#[test]
fn alt_names_order_and_dedup() {
    let mut media = sample_media();
    media.alternative_titles = Some(MyAnimeListAlternativeTitles {
        synonyms: vec![
            "OP".to_string(),
            " ".to_string(),
            "One Piece".to_string(),
            "Wan Pisu".to_string(),
            "OP".to_string(),
        ],
        en: Some("One Piece".to_string()),
        ja: Some("Wan Pisu".to_string()),
    });
    assert_eq!(
        alt_names(&media).unwrap(),
        vec!["ONE PIECE".to_string(), "Wan Pisu".to_string(), "OP".to_string()]
    );
    assert_eq!(alt_names(&bare_media("Solo")), None);
}

#[test]
fn unknown_status_and_bad_years() {
    assert_eq!(map_status(&Some("on_hiatus".to_string())), Some(AnimeStatus::Unknown));
    assert_eq!(year_from_start_date(&None), None);
    assert_eq!(year_from_start_date(&Some("2014".to_string())), Some(2014));
    assert_eq!(year_from_start_date(&Some("-10-20".to_string())), None);
    assert_eq!(year_from_start_date(&Some("99999-01".to_string())), None);
    assert_eq!(year_from_start_date(&Some("20x4-01".to_string())), None);
}

#[test]
fn images_skip_repeated_urls_and_prefer_large() {
    let mut media = sample_media();
    media.pictures = Some(vec![
        sample_picture("https://cdn.myanimelist.net/poster.jpg"),
        MyAnimeListPicture {
            medium: Some("https://m.jpg".to_string()),
            large: None,
        },
        MyAnimeListPicture {
            medium: Some("https://m2.jpg".to_string()),
            large: Some("https://l2.jpg".to_string()),
        },
        MyAnimeListPicture {
            medium: None,
            large: None,
        },
        sample_picture("https://m.jpg"),
    ]);
    let images = mal_anime_to_images(&media);
    let urls: Vec<&str> = images.iter().map(|i| i.url.as_str()).collect();
    assert_eq!(
        urls,
        vec!["https://cdn.myanimelist.net/poster.jpg", "https://m.jpg", "https://l2.jpg"]
    );
    assert_eq!(images[0].kind, ImageKind::Poster);
    assert!(images[1..].iter().all(|i| i.kind == ImageKind::Background));
}

#[test]
fn params_in_order() {
    let params = build_params(&sample_media());
    let keys: Vec<&str> = params.iter().map(|(k, _)| k.as_str()).collect();
    assert_eq!(
        keys,
        vec![
            "mal_id", "overview", "background", "genres", "mediaType", "episodes", "popularity",
            "nsfw", "rating", "startDate"
        ]
    );
    assert!(matches!(params[0].1, ParamValue::Number(21)));
    assert!(matches!(&params[3].1, ParamValue::List(l) if l == &vec!["Adventure".to_string()]));
    assert!(matches!(params[5].1, ParamValue::Number(1000)));
    let bare = build_params(&bare_media("x"));
    assert_eq!(bare.len(), 1);
}

#[test]
fn result_of_sample_media() {
    let result = mal_anime_to_result(sample_media());
    assert_eq!(result.serie.id, "mal:21");
    assert_eq!(result.serie.name, "One Piece");
    assert_eq!(result.serie.kind, Some(SerieType::Tv));
    assert_eq!(result.serie.status, Some(AnimeStatus::Returning));
    assert_eq!(result.serie.year, Some(1999));
    assert_eq!(result.serie.myanimelist_manga_id, Some(21));
    assert_eq!(
        result.serie.trailer.as_deref(),
        Some("https://www.youtube.com/watch?v=example")
    );
    assert_eq!(result.images.len(), 2);
}

#[test]
fn serie_kind_comes_from_media_type() {
    let mut media = bare_media("x");
    media.media_type = Some("TV_Special".to_string());
    assert_eq!(mal_anime_to_result(media).serie.kind, Some(SerieType::TvSpecial));
    let mut media = bare_media("x");
    media.media_type = Some("unknown_kind".to_string());
    assert_eq!(
        mal_anime_to_result(media).serie.kind,
        Some(SerieType::Custom("unknown_kind".to_string()))
    );
    assert_eq!(mal_anime_to_result(bare_media("x")).serie.kind, None);
}

#[test]
fn many_results_and_images() {
    let all = vec![sample_media(), bare_media("b")];
    let images = collect_images(&all);
    assert_eq!(images.len(), 2);
    let results = metadata_results(all);
    assert_eq!(results.len(), 2);
    assert_eq!(results[1].serie.id, "mal:5");
    assert_eq!(results[1].serie.name, "b");
}
