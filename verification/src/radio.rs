//! The radio page's station list and what clicking a station plays.

use vstd::prelude::*;

verus! {

/// One stream that a station offers.
pub struct RadioStream {
    pub name: &'static str,
    pub id: &'static str,
    pub icon: &'static str,
}

/// A radio station and its streams.
pub struct RadioStation {
    pub name: &'static str,
    pub description: &'static str,
    pub icon: &'static str,
    pub gradient_from: &'static str,
    pub gradient_to: &'static str,
    pub streams: Vec<RadioStream>,
}

/// The stations on the radio page: LISTEN.moe with a J-Pop and a K-Pop
/// stream.
pub fn radio_stations() -> (res: Vec<RadioStation>)
    ensures
        res.len() == 1,
        res[0].name@ == "LISTEN.moe"@,
        res[0].description@ == "Anime and Korean pop music, 24/7."@,
        res[0].icon@ == "fa-solid fa-radio"@,
        res[0].gradient_from@ == "from-pink-600/10"@,
        res[0].gradient_to@ == "to-purple-900/30"@,
        res[0].streams.len() == 2,
        res[0].streams[0].name@ == "J-Pop"@,
        res[0].streams[0].id@ == "listen_moe_jpop"@,
        res[0].streams[0].icon@ == "fa-solid fa-music"@,
        res[0].streams[1].name@ == "K-Pop"@,
        res[0].streams[1].id@ == "listen_moe_kpop"@,
        res[0].streams[1].icon@ == "fa-solid fa-compact-disc"@,
{
    let mut streams: Vec<RadioStream> = Vec::new();
    streams.push(RadioStream { name: "J-Pop", id: "listen_moe_jpop", icon: "fa-solid fa-music" });
    streams.push(
        RadioStream { name: "K-Pop", id: "listen_moe_kpop", icon: "fa-solid fa-compact-disc" },
    );
    let mut stations: Vec<RadioStation> = Vec::new();
    stations.push(
        RadioStation {
            name: "LISTEN.moe",
            description: "Anime and Korean pop music, 24/7.",
            icon: "fa-solid fa-radio",
            gradient_from: "from-pink-600/10",
            gradient_to: "to-purple-900/30",
            streams,
        },
    );
    stations
}

/// The stream that clicking the station itself selects: its first stream,
/// if it has any.
pub fn default_stream_id(station: &RadioStation) -> (res: Option<&'static str>)
    ensures
        station.streams.len() == 0 ==> res is None,
        station.streams.len() > 0 ==> res == Some(station.streams[0].id),
{
    if station.streams.len() == 0 {
        None
    } else {
        Some(station.streams[0].id)
    }
}

/// Whether the station shows a button for each of its streams: it does
/// when it has more than one.
pub fn offers_stream_choice(station: &RadioStation) -> (res: bool)
    ensures
        res == (station.streams.len() > 1),
{
    station.streams.len() > 1
}

} // verus!
