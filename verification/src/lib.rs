//! Metadata lookup for anime titles against the MyAnimeList v2 API:
//! request planning, URL building and the conversion of API records
//! into lookup results, each with its contract.

pub mod text;
pub mod mal;
pub mod convert;
pub mod lookup;
