//! Stream addresses of the built-in internet radio stations.

use vstd::prelude::*;
use crate::text::{contains_text, has_substring, same_text};

verus! {

/// The stream address for a station and one of its streams; the empty
/// string for an unknown station.
pub open spec fn station_stream_url(station_id: Seq<char>, stream_id: Seq<char>) -> Seq<char> {
    if station_id == "listen_moe"@ {
        if has_substring(stream_id, "kpop"@) {
            "https://listen.moe/kpop/stream"@
        } else {
            "https://listen.moe/stream"@
        }
    } else if station_id == "j1"@ {
        if stream_id == "J1GOLD"@ {
            "https://jenny.torontocast.com:2000/stream/J1GOLD"@
        } else {
            "https://jenny.torontocast.com:2000/stream/J1HITS"@
        }
    } else if station_id == "doujinstyle"@ {
        "https://streams.radio.co/s5ff57669c/listen"@
    } else if station_id == "vocaloid"@ {
        "https://vocaloid.radioca.st/stream"@
    } else {
        ""@
    }
}

/// Resolves the stream address of `stream_id` on station `station_id`.
pub fn stream_url(station_id: &str, stream_id: &str) -> (url: &'static str)
    ensures
        url@ == station_stream_url(station_id@, stream_id@),
{
    if same_text(station_id, "listen_moe") {
        if contains_text(stream_id, "kpop") {
            "https://listen.moe/kpop/stream"
        } else {
            "https://listen.moe/stream"
        }
    } else if same_text(station_id, "j1") {
        if same_text(stream_id, "J1GOLD") {
            "https://jenny.torontocast.com:2000/stream/J1GOLD"
        } else {
            "https://jenny.torontocast.com:2000/stream/J1HITS"
        }
    } else if same_text(station_id, "doujinstyle") {
        "https://streams.radio.co/s5ff57669c/listen"
    } else if same_text(station_id, "vocaloid") {
        "https://vocaloid.radioca.st/stream"
    } else {
        ""
    }
}

} // verus!
