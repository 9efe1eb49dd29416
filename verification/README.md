# rs_plugin_mal

A MyAnimeList metadata lookup plugin, with its logic verified in Verus.

- `src/text.rs`: whitespace, trimming, ASCII lower-casing, decimal numbers.
- `src/mal.rs`: the API records, query-component percent-encoding and the request URLs.
- `src/convert.rs`: from API records to lookup results (titles, status, year, images, parameters).
- `src/lookup.rs`: client id and NSFW setting, the fetch plan, HTTP requests and reply status.
- `app/`: the Extism plugin functions, HTTP calls, JSON and the host's interface types.
