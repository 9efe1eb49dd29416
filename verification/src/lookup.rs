//! Deciding what a lookup asks of the API: which client id and NSFW
//! setting apply, whether to fetch by id or by search, the HTTP request to
//! send, and how a reply's status is answered.

use vstd::prelude::*;
use vstd::string::*;
use vstd::utf8::encode_utf8;

use crate::mal::{
    anime_search_url, anime_url, build_id_images_url, build_id_url, build_search_images_url,
    build_search_url, MyAnimeListAnime, MyAnimeListSearchItem, MyAnimeListSearchResponse,
    FULL_FIELDS, IMAGE_FIELDS,
};
use crate::text::{
    ascii_lower_seq, chars_of, decimal, is_blank, is_blank_seq, lower_chars, push_decimal,
    same_chars, trim, trim_end_seq, trim_seq, trim_start_seq,
};

verus! {

/// A title to look up: its name and its MyAnimeList id, where known.
#[derive(Clone, Debug)]
pub struct LookupTitle {
    pub name: Option<String>,
    pub mal_id: Option<u64>,
}

/// What is looked up: a series, a movie, or anything else.
#[derive(Clone, Debug)]
pub enum LookupQuery {
    Serie(LookupTitle),
    Movie(LookupTitle),
    Other,
}

/// The credential given with a lookup.
#[derive(Clone, Debug)]
pub struct LookupCredential {
    pub login: Option<String>,
    pub password: Option<String>,
}

/// A lookup: the query, the credential and the settings given with it.
#[derive(Clone, Debug)]
pub struct LookupRequest {
    pub query: LookupQuery,
    pub credential: Option<LookupCredential>,
    pub params: Option<Vec<(String, String)>>,
}

/// Why a lookup fails.
#[derive(Clone, Debug)]
pub enum LookupError {
    /// No usable client id was given.
    MissingClientId,
    /// A series or movie to search for by a blank name, or by none.
    NotSupported,
    /// The API answered with a status outside 200 to 299.
    HttpStatus(u16),
    /// The reply was not the expected JSON; the parser's message.
    Parse(String),
    /// The request could not be made; the message of its failure.
    Request(String),
}

/// The status code that answers `error`.
pub open spec fn error_code_spec(error: LookupError) -> i32 {
    match error {
        LookupError::MissingClientId => 401,
        LookupError::NotSupported => 404,
        LookupError::HttpStatus(status) => status as i32,
        LookupError::Parse(_) => 500,
        LookupError::Request(_) => 500,
    }
}

/// The message that explains `error`.
pub open spec fn error_message_spec(error: LookupError) -> Seq<char> {
    match error {
        LookupError::MissingClientId => "No Client ID provided"@,
        LookupError::NotSupported => "Not supported"@,
        LookupError::HttpStatus(status) => "HTTP error: "@ + decimal(status as nat),
        LookupError::Parse(message) => message@,
        LookupError::Request(message) => message@,
    }
}

impl LookupError {
    /// The status code that answers this error.
    pub fn code(&self) -> (code: i32)
        ensures
            code == error_code_spec(*self),
    {
        match self {
            LookupError::MissingClientId => 401,
            LookupError::NotSupported => 404,
            LookupError::HttpStatus(status) => *status as i32,
            LookupError::Parse(_) => 500,
            LookupError::Request(_) => 500,
        }
    }

    /// The message that explains this error.
    pub fn message(&self) -> (message: String)
        ensures
            message@ == error_message_spec(*self),
    {
        match self {
            LookupError::MissingClientId => "No Client ID provided".to_owned(),
            LookupError::NotSupported => "Not supported".to_owned(),
            LookupError::HttpStatus(status) => {
                let mut m = "HTTP error: ".to_owned();
                push_decimal(&mut m, *status as u64);
                m
            },
            LookupError::Parse(message) => message.clone(),
            LookupError::Request(message) => message.clone(),
        }
    }
}

/// The MyAnimeList id of the series or movie looked up, where given.
pub open spec fn mal_id_spec(query: LookupQuery) -> Option<u64> {
    match query {
        LookupQuery::Serie(title) => title.mal_id,
        LookupQuery::Movie(title) => title.mal_id,
        LookupQuery::Other => None,
    }
}

/// The MyAnimeList id of the series or movie looked up, where given.
pub fn extract_mal_id(query: &LookupQuery) -> (id: Option<u64>)
    ensures
        id == mal_id_spec(*query),
{
    match query {
        LookupQuery::Serie(title) => title.mal_id,
        LookupQuery::Movie(title) => title.mal_id,
        LookupQuery::Other => None,
    }
}

/// The raw client id of a lookup: the credential's password, or its login
/// when it has no password.
pub open spec fn raw_client_id(lookup: LookupRequest) -> Option<Seq<char>> {
    match lookup.credential {
        Some(credential) => match credential.password {
            Some(password) => Some(password@),
            None => credential.login.deep_view(),
        },
        None => None,
    }
}

/// The client id of a lookup: its raw client id, trimmed, unless that is
/// blank.
pub open spec fn client_id_spec(lookup: LookupRequest) -> Option<Seq<char>> {
    match raw_client_id(lookup) {
        Some(raw) => if is_blank_seq(raw) {
            None
        } else {
            Some(trim_seq(raw))
        },
        None => None,
    }
}

/// The client id of a lookup, as [`client_id_spec`] gives it.
pub fn extract_client_id(lookup: &LookupRequest) -> (id: Option<String>)
    ensures
        id.deep_view() == client_id_spec(*lookup),
{
    let raw: Option<&String> = match &lookup.credential {
        Some(credential) => match &credential.password {
            Some(password) => Some(password),
            None => credential.login.as_ref(),
        },
        None => None,
    };
    match raw {
        Some(value) => {
            let trimmed = trim(value.as_str());
            if trimmed.as_str().is_empty() {
                None
            } else {
                Some(trimmed)
            }
        },
        None => None,
    }
}

/// The boolean a setting's text stands for: after trimming and ASCII
/// lower-casing, `true`, `1`, `yes` or `on` are true and `false`, `0`,
/// `no` or `off` are false.
pub open spec fn parse_bool_spec(value: Seq<char>) -> Option<bool> {
    let t = ascii_lower_seq(trim_seq(value));
    if t == "true"@ || t == "1"@ || t == "yes"@ || t == "on"@ {
        Some(true)
    } else if t == "false"@ || t == "0"@ || t == "no"@ || t == "off"@ {
        Some(false)
    } else {
        None
    }
}

/// Whether the characters `cs` spell `word`.
fn spells(cs: &Vec<char>, word: &str) -> (r: bool)
    ensures
        r == (cs@ == word@),
{
    let w = chars_of(word);
    same_chars(cs.as_slice(), w.as_slice())
}

/// The boolean that `value` stands for, as [`parse_bool_spec`] reads it.
pub fn parse_bool(value: &str) -> (b: Option<bool>)
    ensures
        b == parse_bool_spec(value@),
{
    let trimmed = trim(value);
    let cs = chars_of(trimmed.as_str());
    let t = lower_chars(cs.as_slice());
    if spells(&t, "true") || spells(&t, "1") || spells(&t, "yes") || spells(&t, "on") {
        Some(true)
    } else if spells(&t, "false") || spells(&t, "0") || spells(&t, "no") || spells(&t, "off") {
        Some(false)
    } else {
        None
    }
}

/// The value of the first setting named `key` in `params`.
pub open spec fn param_value(params: Seq<(String, String)>, key: Seq<char>) -> Option<Seq<char>>
    decreases params.len(),
{
    if params.len() == 0 {
        None
    } else if params[0].0@ == key {
        Some(params[0].1@)
    } else {
        param_value(params.drop_first(), key)
    }
}

/// The value of the first setting named `key` in `params`.
fn find_param<'a>(params: &'a Vec<(String, String)>, key: &str) -> (value: Option<&'a String>)
    ensures
        match value {
            Some(v) => param_value(params@, key@) == Some(v@),
            None => param_value(params@, key@) is None,
        },
{
    let k = key.to_owned();
    let mut i: usize = 0;
    assert(params@.subrange(0, params@.len() as int) =~= params@);
    while i < params.len()
        invariant
            i <= params@.len(),
            k@ == key@,
            param_value(params@, key@) == param_value(
                params@.subrange(i as int, params@.len() as int),
                key@,
            ),
        decreases params@.len() - i,
    {
        let ghost rest = params@.subrange(i as int, params@.len() as int);
        if params[i].0 == k {
            return Some(&params[i].1);
        }
        assert(rest.drop_first() =~= params@.subrange(i + 1, params@.len() as int));
        i = i + 1;
    }
    None
}

/// The text of the NSFW setting of a lookup: the value of the first of
/// `allow_nsfw_content`, `allowNsfwContent` and `Allow NSFW content` that
/// is set.
pub open spec fn nsfw_setting(lookup: LookupRequest) -> Option<Seq<char>> {
    match lookup.params {
        Some(params) => match param_value(params@, "allow_nsfw_content"@) {
            Some(v) => Some(v),
            None => match param_value(params@, "allowNsfwContent"@) {
                Some(v) => Some(v),
                None => param_value(params@, "Allow NSFW content"@),
            },
        },
        None => None,
    }
}

/// Whether a lookup allows NSFW content: only when its NSFW setting reads
/// as true.
pub open spec fn allow_nsfw_spec(lookup: LookupRequest) -> bool {
    match nsfw_setting(lookup) {
        Some(v) => parse_bool_spec(v) == Some(true),
        None => false,
    }
}

/// Whether a lookup allows NSFW content, as [`allow_nsfw_spec`] decides.
pub fn extract_allow_nsfw(lookup: &LookupRequest) -> (allow: bool)
    ensures
        allow == allow_nsfw_spec(*lookup),
{
    match &lookup.params {
        Some(params) => {
            let mut found = find_param(params, "allow_nsfw_content");
            if found.is_none() {
                found = find_param(params, "allowNsfwContent");
            }
            if found.is_none() {
                found = find_param(params, "Allow NSFW content");
            }
            match found {
                Some(v) => match parse_bool(v.as_str()) {
                    Some(b) => b,
                    None => false,
                },
                None => false,
            }
        },
        None => false,
    }
}

/// What to fetch for a lookup.
#[derive(Clone, Debug)]
pub enum MediaFetch {
    /// Nothing: the lookup is not for a series or a movie.
    Nothing,
    /// The anime with this MyAnimeList id.
    ById { id: u64, client_id: String },
    /// The anime found by searching for this name.
    BySearch { search: String, client_id: String, allow_nsfw: bool },
}

/// Whether `fetch` is what a lookup asks for: nothing for anything but a
/// series or a movie.
pub open spec fn fetch_matches(lookup: LookupRequest, fetch: MediaFetch) -> bool {
    match lookup.query {
        LookupQuery::Other => fetch is Nothing,
        LookupQuery::Serie(title) => fetch_title_matches(lookup, title, fetch),
        LookupQuery::Movie(title) => fetch_title_matches(lookup, title, fetch),
    }
}

/// What to fetch for the series or movie `title` of a lookup that has a
/// client id: the anime of its id where it has one, else a search for its
/// name, with the lookup's client id and NSFW setting.
pub open spec fn fetch_title_matches(lookup: LookupRequest, title: LookupTitle, fetch: MediaFetch) -> bool {
    match title.mal_id {
        Some(id) => fetch matches MediaFetch::ById { id: i, client_id } && i == id
            && Some(client_id@) == client_id_spec(lookup),
        None => fetch matches MediaFetch::BySearch { search, client_id, allow_nsfw }
            && title.name matches Some(name) && search@ == name@
            && Some(client_id@) == client_id_spec(lookup)
            && allow_nsfw == allow_nsfw_spec(lookup),
    }
}

/// Whether the query is for a series or a movie.
pub open spec fn is_series_or_movie(query: LookupQuery) -> bool {
    query is Serie || query is Movie
}

/// The name searched for by a series or movie query.
pub open spec fn query_name(query: LookupQuery) -> Option<Seq<char>> {
    match query {
        LookupQuery::Serie(title) => title.name.deep_view(),
        LookupQuery::Movie(title) => title.name.deep_view(),
        LookupQuery::Other => None,
    }
}

/// How a lookup fails, where it does: a series or movie lookup without a
/// client id is refused with [`LookupError::MissingClientId`]; one with a
/// client id but neither an id nor a name that is not blank with
/// [`LookupError::NotSupported`].
pub open spec fn plan_error(lookup: LookupRequest) -> Option<LookupError> {
    if !is_series_or_movie(lookup.query) {
        None
    } else if client_id_spec(lookup) is None {
        Some(LookupError::MissingClientId)
    } else if mal_id_spec(lookup.query) is Some {
        None
    } else {
        match query_name(lookup.query) {
            Some(name) => if is_blank_seq(name) {
                Some(LookupError::NotSupported)
            } else {
                None
            },
            None => Some(LookupError::NotSupported),
        }
    }
}

/// For a series or movie lookup with a client id, what is fetched follows
/// the query alone: the anime of its MyAnimeList id whenever it gives one,
/// whatever name it also gives; else, when its name is not blank, a search
/// for that name as given. A lookup for anything else fetches nothing.
pub proof fn lemma_plan_follows_the_query(lookup: LookupRequest)
    ensures
        forall|fetch: MediaFetch|
            #![trigger fetch_matches(lookup, fetch)]
            fetch_matches(lookup, fetch) && is_series_or_movie(lookup.query) && client_id_spec(
                lookup,
            ) is Some && mal_id_spec(lookup.query) is Some ==> (fetch matches MediaFetch::ById {
                id,
                client_id,
            } && id == mal_id_spec(lookup.query)->0 && Some(client_id@) == client_id_spec(lookup)),
        forall|fetch: MediaFetch|
            #![trigger fetch_matches(lookup, fetch)]
            fetch_matches(lookup, fetch) && is_series_or_movie(lookup.query) && client_id_spec(
                lookup,
            ) is Some && mal_id_spec(lookup.query) is None && query_name(lookup.query) is Some
                ==> (fetch matches MediaFetch::BySearch { search, client_id, allow_nsfw } && search@
                == query_name(lookup.query)->0 && Some(client_id@) == client_id_spec(lookup)
                && allow_nsfw == allow_nsfw_spec(lookup)),
        forall|fetch: MediaFetch|
            #![trigger fetch_matches(lookup, fetch)]
            fetch_matches(lookup, fetch) && !is_series_or_movie(lookup.query) ==> fetch is Nothing,
        (is_series_or_movie(lookup.query) && client_id_spec(lookup) is Some && mal_id_spec(
            lookup.query,
        ) is Some) ==> plan_error(lookup) is None,
        (is_series_or_movie(lookup.query) && client_id_spec(lookup) is Some && mal_id_spec(
            lookup.query,
        ) is None && query_name(lookup.query) is Some && !is_blank_seq(
            query_name(lookup.query)->0,
        )) ==> plan_error(lookup) is None,
{
}

/// What to fetch for `lookup`: nothing for anything but a series or a
/// movie; else the anime of its MyAnimeList id, or a search for its name
/// as given, with the lookup's client id and NSFW setting. It fails as
/// [`plan_error`] says.
pub fn plan_lookup(lookup: &LookupRequest) -> (plan: Result<MediaFetch, LookupError>)
    ensures
        match plan {
            Ok(fetch) => plan_error(*lookup) is None && fetch_matches(*lookup, fetch),
            Err(e) => plan_error(*lookup) == Some(e),
        },
        (is_series_or_movie(lookup.query) && client_id_spec(*lookup) is Some && mal_id_spec(
            lookup.query,
        ) is Some) ==> (plan matches Ok(MediaFetch::ById { id, client_id }) && id == mal_id_spec(
            lookup.query,
        )->0 && Some(client_id@) == client_id_spec(*lookup)),
        (is_series_or_movie(lookup.query) && client_id_spec(*lookup) is Some && mal_id_spec(
            lookup.query,
        ) is None && query_name(lookup.query) is Some && !is_blank_seq(
            query_name(lookup.query)->0,
        )) ==> (plan matches Ok(MediaFetch::BySearch { search, client_id, allow_nsfw })
            && search@ == query_name(lookup.query)->0 && Some(client_id@) == client_id_spec(*lookup)
            && allow_nsfw == allow_nsfw_spec(*lookup)),
        !is_series_or_movie(lookup.query) ==> (plan matches Ok(MediaFetch::Nothing)),
        (is_series_or_movie(lookup.query) && client_id_spec(*lookup) is None) ==> (plan matches Err(
            LookupError::MissingClientId,
        )),
        (is_series_or_movie(lookup.query) && client_id_spec(*lookup) is Some && mal_id_spec(
            lookup.query,
        ) is None && (query_name(lookup.query) is None || is_blank_seq(query_name(lookup.query)->0)))
            ==> (plan matches Err(LookupError::NotSupported)),
{
    proof {
        lemma_plan_follows_the_query(*lookup);
    }
    let title = match &lookup.query {
        LookupQuery::Serie(title) => title,
        LookupQuery::Movie(title) => title,
        LookupQuery::Other => {
            return Ok(MediaFetch::Nothing);
        },
    };
    let client_id = match extract_client_id(lookup) {
        Some(id) => id,
        None => {
            return Err(LookupError::MissingClientId);
        },
    };
    let allow_nsfw = extract_allow_nsfw(lookup);
    if let Some(id) = extract_mal_id(&lookup.query) {
        Ok(MediaFetch::ById { id, client_id })
    } else {
        match &title.name {
            Some(name) => {
                if !is_blank(name.as_str()) {
                    Ok(MediaFetch::BySearch { search: name.clone(), client_id, allow_nsfw })
                } else {
                    Err(LookupError::NotSupported)
                }
            },
            None => Err(LookupError::NotSupported),
        }
    }
}

/// A lookup is refused only for a series or a movie, and then with 401
/// when it has no client id and 404 otherwise; lookups for anything else
/// are never refused.
pub proof fn lemma_refusal_codes(lookup: LookupRequest)
    ensures
        plan_error(lookup) is Some ==> is_series_or_movie(lookup.query),
        plan_error(lookup) matches Some(e) ==> (error_code_spec(e) == 401 <==> client_id_spec(
            lookup,
        ) is None),
        plan_error(lookup) matches Some(e) ==> (error_code_spec(e) == 404 <==> client_id_spec(
            lookup,
        ) is Some),
{
}

/// A client id is never blank and never begins or ends with whitespace:
/// trimming it again leaves it as it is.
pub proof fn lemma_client_id_trimmed(lookup: LookupRequest)
    ensures
        client_id_spec(lookup) matches Some(id) ==> id.len() > 0 && trim_seq(id) == id
            && !crate::text::is_unicode_whitespace(id[0])
            && !crate::text::is_unicode_whitespace(id.last()),
{
    if let Some(raw) = raw_client_id(lookup) {
        crate::text::lemma_trim_idempotent(raw);
    }
}

/// An HTTP request to the API.
#[derive(Clone, Debug)]
pub struct ApiRequest {
    pub url: String,
    pub method: String,
    pub headers: Vec<(String, String)>,
}

/// The request as the characters of its URL, its method and its headers.
pub open spec fn request_view(request: ApiRequest) -> (Seq<char>, Seq<char>, Seq<(Seq<char>, Seq<char>)>) {
    (
        request.url@,
        request.method@,
        request.headers@.map_values(|h: (String, String)| (h.0@, h.1@)),
    )
}

/// The request for `url` with the client id `client_id`: a `GET` that
/// accepts JSON and names the client in `X-MAL-CLIENT-ID`; the headers are
/// in the order of their names.
pub open spec fn api_request_spec(url: Seq<char>, client_id: Seq<char>) -> (Seq<char>, Seq<char>, Seq<(Seq<char>, Seq<char>)>) {
    (url, "GET"@, seq![("Accept"@, "application/json"@), ("X-MAL-CLIENT-ID"@, client_id)])
}

/// The request for `url` with the client id `client_id`.
pub fn build_http_request(url: String, client_id: &str) -> (request: ApiRequest)
    ensures
        request_view(request) == api_request_spec(url@, client_id@),
{
    let mut headers: Vec<(String, String)> = Vec::new();
    headers.push(("Accept".to_owned(), "application/json".to_owned()));
    headers.push(("X-MAL-CLIENT-ID".to_owned(), client_id.to_owned()));
    let request = ApiRequest { url, method: "GET".to_owned(), headers };
    assert(request_view(request).2 =~= api_request_spec(url@, client_id@).2);
    request
}

/// The request for the full metadata of anime `id`.
pub fn fetch_by_id(id: u64, client_id: &str) -> (request: ApiRequest)
    ensures
        request_view(request) == api_request_spec(anime_url(id as nat, FULL_FIELDS@), client_id@),
{
    build_http_request(build_id_url(id), client_id)
}

/// The request that searches for `search` with full metadata.
pub fn fetch_by_search(search: &str, client_id: &str, allow_nsfw: bool) -> (request: ApiRequest)
    ensures
        request_view(request) == api_request_spec(
            anime_search_url(search.spec_bytes(), allow_nsfw, FULL_FIELDS@),
            client_id@,
        ),
{
    build_http_request(build_search_url(search, allow_nsfw), client_id)
}

/// The request for the pictures of anime `id`.
pub fn fetch_images_by_id(id: u64, client_id: &str) -> (request: ApiRequest)
    ensures
        request_view(request) == api_request_spec(anime_url(id as nat, IMAGE_FIELDS@), client_id@),
{
    build_http_request(build_id_images_url(id), client_id)
}

/// The request that searches for `search` with pictures only.
pub fn fetch_images_by_search(search: &str, client_id: &str, allow_nsfw: bool) -> (request: ApiRequest)
    ensures
        request_view(request) == api_request_spec(
            anime_search_url(search.spec_bytes(), allow_nsfw, IMAGE_FIELDS@),
            client_id@,
        ),
{
    build_http_request(build_search_images_url(search, allow_nsfw), client_id)
}

/// The request that `fetch` sends, with full metadata or, when `images`,
/// pictures only; none for [`MediaFetch::Nothing`].
pub fn fetch_request(fetch: &MediaFetch, images: bool) -> (request: Option<ApiRequest>)
    ensures
        match *fetch {
            MediaFetch::Nothing => request is None,
            MediaFetch::ById { id, client_id } => request is Some && request_view(request->0)
                == api_request_spec(
                anime_url(id as nat, if images { IMAGE_FIELDS@ } else { FULL_FIELDS@ }),
                client_id@,
            ),
            MediaFetch::BySearch { search, client_id, allow_nsfw } => request is Some
                && request_view(request->0) == api_request_spec(
                anime_search_url(
                    encode_utf8(search@),
                    allow_nsfw,
                    if images { IMAGE_FIELDS@ } else { FULL_FIELDS@ },
                ),
                client_id@,
            ),
        },
{
    match fetch {
        MediaFetch::Nothing => None,
        MediaFetch::ById { id, client_id } => if images {
            Some(fetch_images_by_id(*id, client_id.as_str()))
        } else {
            Some(fetch_by_id(*id, client_id.as_str()))
        },
        MediaFetch::BySearch { search, client_id, allow_nsfw } => if images {
            Some(fetch_images_by_search(search.as_str(), client_id.as_str(), *allow_nsfw))
        } else {
            Some(fetch_by_search(search.as_str(), client_id.as_str(), *allow_nsfw))
        },
    }
}

/// How the status of a reply is answered: a status from 200 to 299 lets
/// the reply be read; any other fails with that status.
pub fn check_status(status: u16) -> (r: Result<(), LookupError>)
    ensures
        match r {
            Ok(()) => 200 <= status < 300,
            Err(e) => !(200 <= status < 300) && e == LookupError::HttpStatus(status),
        },
{
    if status >= 200 && status < 300 {
        Ok(())
    } else {
        Err(LookupError::HttpStatus(status))
    }
}

/// The anime of a page of search results, in order.
pub fn search_nodes(response: MyAnimeListSearchResponse) -> (nodes: Vec<MyAnimeListAnime>)
    ensures
        nodes@ == response.data@.map_values(|item: MyAnimeListSearchItem| item.node),
{
    let mut data = response.data;
    let ghost all = data@.map_values(|item: MyAnimeListSearchItem| item.node);
    let mut nodes: Vec<MyAnimeListAnime> = Vec::new();
    while data.len() > 0
        invariant
            nodes@ + data@.map_values(|item: MyAnimeListSearchItem| item.node) == all,
        decreases data@.len(),
    {
        let ghost before = data@;
        let item = data.remove(0);
        nodes.push(item.node);
        assert(before.map_values(|item: MyAnimeListSearchItem| item.node) =~= seq![item.node]
            + data@.map_values(|item: MyAnimeListSearchItem| item.node));
    }
    assert(data@.map_values(|item: MyAnimeListSearchItem| item.node) =~= Seq::<
        MyAnimeListAnime,
    >::empty());
    assert(nodes@ =~= all);
    nodes
}

/// A setting that the plugin declares: its name, its default text, what it
/// is for, and whether it must be given.
#[derive(Clone, Debug)]
pub struct SettingDescription {
    pub name: String,
    pub default_text: String,
    pub description: String,
    pub required: bool,
}

/// What the plugin declares of itself: it looks up metadata, with a token
/// credential.
#[derive(Clone, Debug)]
pub struct PluginDescription {
    pub name: String,
    pub version: u16,
    pub interface_version: u16,
    pub publisher: String,
    pub description: String,
    pub settings: Vec<SettingDescription>,
}

/// The declaration of the plugin: `myanimelist_metadata`, version 2 of the
/// plugin for version 1 of the interface, by `neckaros`, with one optional
/// text setting, `allow_nsfw_content`, that defaults to `false`.
pub fn plugin_description() -> (d: PluginDescription)
    ensures
        d.name@ == "myanimelist_metadata"@,
        d.version == 2,
        d.interface_version == 1,
        d.publisher@ == "neckaros"@,
        d.description@ == "Look up anime metadata from MyAnimeList"@,
        d.settings@.len() == 1,
        d.settings@[0].name@ == "allow_nsfw_content"@,
        d.settings@[0].default_text@ == "false"@,
        d.settings@[0].description@ == "Allow NSFW content (true/false)"@,
        !d.settings@[0].required,
{
    let mut settings: Vec<SettingDescription> = Vec::new();
    settings.push(
        SettingDescription {
            name: "allow_nsfw_content".to_owned(),
            default_text: "false".to_owned(),
            description: "Allow NSFW content (true/false)".to_owned(),
            required: false,
        },
    );
    PluginDescription {
        name: "myanimelist_metadata".to_owned(),
        version: 2,
        interface_version: 1,
        publisher: "neckaros".to_owned(),
        description: "Look up anime metadata from MyAnimeList".to_owned(),
        settings,
    }
}

/// The setting that the plugin declares is the first one a lookup reads
/// for its NSFW choice, and its default reads as false: a lookup that sets
/// it to its default does not allow NSFW content.
pub proof fn lemma_declared_setting_is_read(lookup: LookupRequest, value: Seq<char>)
    requires
        lookup.params matches Some(params) && param_value(params@, "allow_nsfw_content"@) == Some(
            value,
        ),
    ensures
        nsfw_setting(lookup) == Some(value),
        value == "false"@ ==> !allow_nsfw_spec(lookup),
{
    if value == "false"@ {
        reveal_strlit("false");
        reveal_strlit("true");
        reveal_strlit("1");
        reveal_strlit("yes");
        reveal_strlit("on");
        let t = ascii_lower_seq(trim_seq(value));
        assert(trim_start_seq(value) == value);
        assert(trim_end_seq(value) == value);
        assert(t =~= value);
    }
}

} // verus!
