//! The records of the MyAnimeList v2 API that the lookups read, and the
//! request URLs for fetching an anime by id or by a search term.

use vstd::prelude::*;
use vstd::string::*;

use crate::text::{decimal, push_char, push_decimal};

verus! {

/// One page of search results: the matching anime, best match first.
#[derive(Debug, Clone)]
pub struct MyAnimeListSearchResponse {
    pub data: Vec<MyAnimeListSearchItem>,
}

/// One search result.
#[derive(Debug, Clone)]
pub struct MyAnimeListSearchItem {
    pub node: MyAnimeListAnime,
}

/// An anime record as the API returns it. The mean score, a floating-point
/// number, is not held here: it travels beside the record.
#[derive(Debug, Clone)]
pub struct MyAnimeListAnime {
    pub id: u64,
    pub title: String,
    pub main_picture: Option<MyAnimeListPicture>,
    pub alternative_titles: Option<MyAnimeListAlternativeTitles>,
    pub start_date: Option<String>,
    pub synopsis: Option<String>,
    pub popularity: Option<u64>,
    pub num_episodes: Option<u32>,
    pub status: Option<String>,
    pub genres: Option<Vec<MyAnimeListGenre>>,
    pub studios: Option<Vec<MyAnimeListStudio>>,
    pub media_type: Option<String>,
    pub rating: Option<String>,
    pub nsfw: Option<String>,
    pub pictures: Option<Vec<MyAnimeListPicture>>,
    pub trailer_url: Option<String>,
    pub background: Option<String>,
}

/// A picture in up to two sizes.
#[derive(Debug, Clone)]
pub struct MyAnimeListPicture {
    pub medium: Option<String>,
    pub large: Option<String>,
}

/// The other titles of an anime.
#[derive(Debug, Clone)]
pub struct MyAnimeListAlternativeTitles {
    pub synonyms: Vec<String>,
    pub en: Option<String>,
    pub ja: Option<String>,
}

/// A genre.
#[derive(Debug, Clone)]
pub struct MyAnimeListGenre {
    pub id: Option<u64>,
    pub name: String,
}

/// A studio.
#[derive(Debug, Clone)]
pub struct MyAnimeListStudio {
    pub id: Option<u64>,
    pub name: String,
}

/// The fields requested for a full metadata lookup.
pub const FULL_FIELDS: &'static str =
    "id,title,main_picture,alternative_titles,start_date,synopsis,mean,popularity,num_episodes,status,genres,studios,media_type,rating,nsfw,pictures,trailer_url,background";

/// The fields requested for an image lookup.
pub const IMAGE_FIELDS: &'static str = "id,title,main_picture,pictures";

/// Bytes that stand for themselves in a query component: ASCII letters,
/// digits, `-`, `_`, `.` and `~`.
pub open spec fn is_unreserved_byte(b: u8) -> bool {
    ||| (65 <= b && b <= 90)
    ||| (97 <= b && b <= 122)
    ||| (48 <= b && b <= 57)
    ||| b == 45
    ||| b == 95
    ||| b == 46
    ||| b == 126
}

/// The upper-case hexadecimal digit for `n < 16`.
pub open spec fn hex_upper(n: nat) -> char {
    if n < 10 {
        (n + 48) as char
    } else {
        (n + 55) as char
    }
}

/// One byte of a query component: itself when unreserved, else `%` and its
/// two upper-case hexadecimal digits.
pub open spec fn encode_byte(b: u8) -> Seq<char> {
    if is_unreserved_byte(b) {
        seq![b as char]
    } else {
        seq!['%', hex_upper((b / 16) as nat), hex_upper((b % 16) as nat)]
    }
}

/// The percent-encoding of the bytes `bs`, byte by byte.
pub open spec fn percent_encode(bs: Seq<u8>) -> Seq<char>
    decreases bs.len(),
{
    if bs.len() == 0 {
        Seq::empty()
    } else {
        encode_byte(bs[0]) + percent_encode(bs.drop_first())
    }
}

/// The URL that fetches anime `id` with the given fields.
pub open spec fn anime_url(id: nat, fields: Seq<char>) -> Seq<char> {
    "https://api.myanimelist.net/v2/anime/"@ + decimal(id) + "?fields="@ + fields
}

/// The URL that searches for the UTF-8 bytes `query`, 25 results at most,
/// with the given fields; `nsfw=true` is asked for only when `allow_nsfw`.
pub open spec fn anime_search_url(query: Seq<u8>, allow_nsfw: bool, fields: Seq<char>) -> Seq<
    char,
> {
    "https://api.myanimelist.net/v2/anime?q="@ + percent_encode(query) + "&limit=25"@ + (if allow_nsfw {
        "&nsfw=true"@
    } else {
        Seq::<char>::empty()
    }) + "&fields="@ + fields
}

/// Characters that stand for themselves in a query component.
pub open spec fn is_unreserved_char(c: char) -> bool {
    ||| ('A' <= c && c <= 'Z')
    ||| ('a' <= c && c <= 'z')
    ||| ('0' <= c && c <= '9')
    ||| c == '-'
    ||| c == '_'
    ||| c == '.'
    ||| c == '~'
}

/// The value of a hexadecimal digit, in either case.
pub open spec fn hex_value(c: char) -> Option<nat> {
    if '0' <= c && c <= '9' {
        Some(((c as u32) - 48) as nat)
    } else if 'A' <= c && c <= 'F' {
        Some(((c as u32) - 55) as nat)
    } else if 'a' <= c && c <= 'f' {
        Some(((c as u32) - 87) as nat)
    } else {
        None
    }
}

/// The bytes that the query component `cs` stands for, read left to right:
/// `%` and two hexadecimal digits give one byte, an unreserved character
/// gives itself; anything else makes the component malformed.
pub open spec fn percent_decode(cs: Seq<char>) -> Option<Seq<u8>>
    decreases cs.len(),
{
    if cs.len() == 0 {
        Some(Seq::empty())
    } else if cs[0] == '%' {
        if cs.len() >= 3 && hex_value(cs[1]) is Some && hex_value(cs[2]) is Some {
            match percent_decode(cs.subrange(3, cs.len() as int)) {
                Some(rest) => Some(
                    seq![(hex_value(cs[1])->0 * 16 + hex_value(cs[2])->0) as u8] + rest,
                ),
                None => None,
            }
        } else {
            None
        }
    } else if is_unreserved_char(cs[0]) {
        match percent_decode(cs.drop_first()) {
            Some(rest) => Some(seq![cs[0] as u8] + rest),
            None => None,
        }
    } else {
        None
    }
}

proof fn lemma_hex_round_trip(n: nat)
    requires
        n < 16,
    ensures
        hex_value(hex_upper(n)) == Some(n),
        ('0' <= hex_upper(n) && hex_upper(n) <= '9') || ('A' <= hex_upper(n) && hex_upper(n)
            <= 'F'),
{
}

/// Every character of an encoded query component is an unreserved
/// character or `%`: a search term can never add `&`, `=`, `#`, `+` or a
/// space to the URL it is placed in.
pub proof fn lemma_encoded_query_is_safe(bs: Seq<u8>)
    ensures
        forall|i: int|
            0 <= i < percent_encode(bs).len() ==> is_unreserved_char(#[trigger] percent_encode(bs)[i])
                || percent_encode(bs)[i] == '%',
    decreases bs.len(),
{
    if bs.len() > 0 {
        lemma_encoded_query_is_safe(bs.drop_first());
        let b = bs[0];
        let head = encode_byte(b);
        let tail = percent_encode(bs.drop_first());
        if !is_unreserved_byte(b) {
            lemma_hex_round_trip((b / 16) as nat);
            lemma_hex_round_trip((b % 16) as nat);
        }
        assert forall|i: int| 0 <= i < percent_encode(bs).len() implies is_unreserved_char(
            #[trigger] percent_encode(bs)[i],
        ) || percent_encode(bs)[i] == '%' by {
            if i >= head.len() {
                assert(percent_encode(bs)[i] == tail[i - head.len()]);
            }
        }
    }
}

/// Decoding an encoded query component gives back the bytes that were
/// encoded: the encoding loses nothing of the search term.
pub proof fn lemma_query_round_trip(bs: Seq<u8>)
    ensures
        percent_decode(percent_encode(bs)) == Some(bs),
    decreases bs.len(),
{
    if bs.len() == 0 {
        assert(percent_encode(bs) =~= Seq::<char>::empty());
    } else {
        lemma_query_round_trip(bs.drop_first());
        let b = bs[0];
        let tail = percent_encode(bs.drop_first());
        let cs = percent_encode(bs);
        assert(cs == encode_byte(b) + tail);
        if is_unreserved_byte(b) {
            assert(cs.drop_first() =~= tail);
            assert(cs[0] == b as char);
            assert((b as char) as u8 == b);
            assert(seq![b] + bs.drop_first() =~= bs);
        } else {
            lemma_hex_round_trip((b / 16) as nat);
            lemma_hex_round_trip((b % 16) as nat);
            assert(cs.subrange(3, cs.len() as int) =~= tail);
            assert(((b / 16) as nat * 16 + (b % 16) as nat) as u8 == b);
            assert(seq![b] + bs.drop_first() =~= bs);
        }
    }
}

/// The hexadecimal digit for `n`.
fn hex_digit(n: u8) -> (c: char)
    requires
        n < 16,
    ensures
        c == hex_upper(n as nat),
{
    if n < 10 {
        (n + 48) as char
    } else {
        (n + 55) as char
    }
}

/// The percent-encoding of the UTF-8 bytes of `value`.
pub fn encode_query_component(value: &str) -> (encoded: String)
    ensures
        encoded@ == percent_encode(value.spec_bytes()),
{
    let bytes = value.as_bytes();
    let n = bytes.len();
    let mut encoded = String::new();
    let mut i: usize = 0;
    assert(bytes@.subrange(0, n as int) =~= bytes@);
    while i < n
        invariant
            i <= n == bytes@.len(),
            bytes@ == value.spec_bytes(),
            encoded@ + percent_encode(bytes@.subrange(i as int, n as int)) == percent_encode(
                bytes@,
            ),
        decreases n - i,
    {
        let b = bytes[i];
        let ghost before = encoded@;
        if (65 <= b && b <= 90) || (97 <= b && b <= 122) || (48 <= b && b <= 57) || b == 45 || b
            == 95 || b == 46 || b == 126 {
            push_char(&mut encoded, b as char);
        } else if b == 32 {
            push_char(&mut encoded, '%');
            push_char(&mut encoded, '2');
            push_char(&mut encoded, '0');
        } else {
            push_char(&mut encoded, '%');
            push_char(&mut encoded, hex_digit(b / 16));
            push_char(&mut encoded, hex_digit(b % 16));
        }
        assert(encoded@ =~= before + encode_byte(b));
        let ghost rest = bytes@.subrange(i as int, n as int);
        assert(rest.drop_first() =~= bytes@.subrange(i + 1, n as int));
        assert(before + percent_encode(rest) =~= encoded@ + percent_encode(
            bytes@.subrange(i + 1, n as int),
        ));
        i = i + 1;
    }
    assert(encoded@ + percent_encode(bytes@.subrange(n as int, n as int)) =~= encoded@);
    encoded
}

/// The URL of anime `id` with `fields`.
fn anime_url_with(id: u64, fields: &str) -> (url: String)
    ensures
        url@ == anime_url(id as nat, fields@),
{
    let mut url = String::new();
    url.append("https://api.myanimelist.net/v2/anime/");
    push_decimal(&mut url, id);
    url.append("?fields=");
    url.append(fields);
    url
}

/// The search URL for `search` with `fields`.
fn search_url_with(search: &str, allow_nsfw: bool, fields: &str) -> (url: String)
    ensures
        url@ == anime_search_url(search.spec_bytes(), allow_nsfw, fields@),
{
    let mut url = String::new();
    url.append("https://api.myanimelist.net/v2/anime?q=");
    let query = encode_query_component(search);
    url.append(query.as_str());
    url.append("&limit=25");
    if allow_nsfw {
        url.append("&nsfw=true");
    }
    url.append("&fields=");
    url.append(fields);
    url
}

/// The URL that fetches the full metadata of anime `id`.
pub fn build_id_url(id: u64) -> (url: String)
    ensures
        url@ == anime_url(id as nat, FULL_FIELDS@),
{
    anime_url_with(id, FULL_FIELDS)
}

/// The URL that searches for `search` and fetches full metadata.
pub fn build_search_url(search: &str, allow_nsfw: bool) -> (url: String)
    ensures
        url@ == anime_search_url(search.spec_bytes(), allow_nsfw, FULL_FIELDS@),
{
    search_url_with(search, allow_nsfw, FULL_FIELDS)
}

/// The URL that fetches only the pictures of anime `id`.
pub fn build_id_images_url(id: u64) -> (url: String)
    ensures
        url@ == anime_url(id as nat, IMAGE_FIELDS@),
{
    anime_url_with(id, IMAGE_FIELDS)
}

/// The URL that searches for `search` and fetches only pictures.
pub fn build_search_images_url(search: &str, allow_nsfw: bool) -> (url: String)
    ensures
        url@ == anime_search_url(search.spec_bytes(), allow_nsfw, IMAGE_FIELDS@),
{
    search_url_with(search, allow_nsfw, IMAGE_FIELDS)
}

} // verus!
