//! The metadata gateway's protocol: a small opcode envelope over JSON
//! text frames, with a server-driven heartbeat and track-update events.
//!
//! The runtime owns the WebSocket; it hands every text frame to these
//! functions and acts on what they return. A frame that does not parse,
//! or carries an unknown opcode or event, is ignored and never ends the
//! session.

use vstd::prelude::*;
use vstd::string::StringExecFns;

use crate::json::{
    field_views, obj_get, parse_json, sp_json, str_to_chars, views, Json, JsonV,
};

verus! {

/// The HELLO opcode: the server's first message, carrying the heartbeat
/// interval.
pub const OP_HELLO: u8 = 0;

/// The DISPATCH opcode: server-pushed events.
pub const OP_DISPATCH: u8 = 1;

/// The client heartbeat opcode (outgoing).
pub const OP_HEARTBEAT: u8 = 9;

/// The heartbeat acknowledgement opcode (incoming, informational).
pub const OP_HEARTBEAT_ACK: u8 = 10;

/// Track info republished to the consumer, one value per track-update
/// event.
#[derive(Debug, Clone)]
pub struct TrackInfo {
    pub artist: String,
    pub title: String,
    pub album_cover: Option<String>,
    pub artist_image: Option<String>,
}

/// Spec-level image of a [`TrackInfo`].
pub struct TrackV {
    pub artist: Seq<char>,
    pub title: Seq<char>,
    pub album_cover: Option<Seq<char>>,
    pub artist_image: Option<Seq<char>>,
}

impl View for TrackInfo {
    type V = TrackV;

    open spec fn view(&self) -> TrackV {
        TrackV {
            artist: self.artist@,
            title: self.title@,
            album_cover: match self.album_cover {
                Some(ref s) => Some(s@),
                None => None,
            },
            artist_image: match self.artist_image {
                Some(ref s) => Some(s@),
                None => None,
            },
        }
    }
}

/// A decoded envelope: the opcode, the optional event type, and the
/// payload (absent payloads read as null).
pub struct EnvelopeV {
    pub op: int,
    pub t: Option<Seq<char>>,
    pub d: JsonV,
}

/// Decode an envelope from a parsed frame: `op` must be an integer
/// opcode in byte range; `t` may be absent, null, or a string; a missing
/// `d` defaults to null. Anything else fails.
pub open spec fn sp_envelope(j: JsonV) -> Option<EnvelopeV> {
    match j {
        JsonV::Obj(fields) => {
            let op = match obj_get(fields, "op"@) {
                Some(JsonV::Int(v)) => if 0 <= v <= 255 {
                    Some(v)
                } else {
                    None
                },
                _ => None,
            };
            let t = match obj_get(fields, "t"@) {
                None => Some(None),
                Some(JsonV::Null) => Some(None),
                Some(JsonV::Str(s)) => Some(Some(s)),
                Some(_) => None,
            };
            let d = match obj_get(fields, "d"@) {
                None => JsonV::Null,
                Some(v) => v,
            };
            match (op, t) {
                (Some(op), Some(t)) => Some(EnvelopeV { op, t, d }),
                _ => None,
            }
        },
        _ => None,
    }
}

/// The heartbeat interval configured by a HELLO frame: present only when
/// the frame parses, carries the HELLO opcode, and its payload holds a
/// nonnegative integer `heartbeat` in milliseconds.
pub open spec fn sp_hello_heartbeat(s: Seq<char>) -> Option<int> {
    match sp_json(s) {
        Some(j) => match sp_envelope(j) {
            Some(env) => {
                if env.op != OP_HELLO {
                    None
                } else {
                    match env.d {
                        JsonV::Obj(df) => match obj_get(df, "heartbeat"@) {
                            Some(JsonV::Int(v)) => if v >= 0 {
                                Some(v)
                            } else {
                                None
                            },
                            _ => None,
                        },
                        _ => None,
                    }
                }
            },
            None => None,
        },
        None => None,
    }
}

/// Compare a parsed key with a literal key.
fn string_eq_lit(a: &String, lit: &str) -> (r: bool)
    ensures
        r == (a@ == lit@),
{
    let b: String = String::from_str(lit);
    a.eq(&b)
}

/// Executable mirror of [`obj_get`] (first match wins).
fn obj_get_exec<'a>(fields: &'a Vec<(String, Json)>, key: &str) -> (r: Option<&'a Json>)
    ensures
        (r is Some) == (obj_get(field_views(fields@), key@) is Some),
        r matches Some(v) ==> obj_get(field_views(fields@), key@) == Some(v@),
{
    let n: usize = fields.len();
    let mut i: usize = 0;
    proof {
        assert(field_views(fields@).skip(0) =~= field_views(fields@));
    }
    while i < n
        invariant
            i <= n == fields@.len(),
            obj_get(field_views(fields@), key@) == obj_get(
                field_views(fields@).skip(i as int),
                key@,
            ),
        decreases n - i,
    {
        proof {
            assert(field_views(fields@).skip(i as int)[0] == (fields@[i as int].0@, fields@[
                i as int].1@));
            assert(field_views(fields@).skip(i as int).skip(1) =~= field_views(fields@).skip(
                i as int + 1,
            ));
        }
        if string_eq_lit(&fields[i].0, key) {
            return Some(&fields[i].1);
        }
        i = i + 1;
    }
    proof {
        assert(field_views(fields@).skip(i as int) =~= Seq::empty());
    }
    None
}

/// Read the heartbeat interval out of the first gateway frame; no
/// heartbeat is configured when the frame is absent or malformed.
pub fn hello_heartbeat(text: &Vec<char>) -> (r: Option<u64>)
    ensures
        match sp_hello_heartbeat(text@) {
            Some(v) => r == Some(v as u64) && v <= i64::MAX,
            None => r is None,
        },
{
    let parsed = parse_json(text);
    let j: Json = match parsed {
        Some(j) => j,
        None => {
            return None;
        },
    };
    let fields: &Vec<(String, Json)> = match &j {
        Json::Obj(fields) => fields,
        _ => {
            return None;
        },
    };
    let op_ok: bool = match obj_get_exec(fields, "op") {
        Some(Json::Int(v)) => 0 <= *v && *v <= 255 && *v == OP_HELLO as i64,
        _ => false,
    };
    let t_ok: bool = match obj_get_exec(fields, "t") {
        None => true,
        Some(Json::Null) => true,
        Some(Json::Str(_)) => true,
        Some(_) => false,
    };
    if !op_ok || !t_ok {
        return None;
    }
    let d = obj_get_exec(fields, "d");
    let df: &Vec<(String, Json)> = match d {
        Some(Json::Obj(df)) => df,
        _ => {
            return None;
        },
    };
    match obj_get_exec(df, "heartbeat") {
        Some(Json::Int(v)) => {
            if *v >= 0 {
                Some(*v as u64)
            } else {
                None
            }
        },
        _ => None,
    }
}

/// A decoded song payload: the optional title, the artists as
/// (name, image) pairs, and the albums as optional images.
pub struct SongV {
    pub title: Option<Seq<char>>,
    pub artists: Seq<(Option<Seq<char>>, Option<Seq<char>>)>,
    pub albums: Seq<Option<Seq<char>>>,
}

/// Decode an optional string field: absent and null both read as no
/// value; a string reads as itself; any other type fails.
pub open spec fn sp_opt_string_field(v: Option<JsonV>) -> Option<Option<Seq<char>>> {
    match v {
        None => Some(None),
        Some(JsonV::Null) => Some(None),
        Some(JsonV::Str(s)) => Some(Some(s)),
        Some(_) => None,
    }
}

/// Decode one artist: an object with optional `name` and `image`.
pub open spec fn sp_artist(v: JsonV) -> Option<(Option<Seq<char>>, Option<Seq<char>>)> {
    match v {
        JsonV::Obj(f) => {
            match (
                sp_opt_string_field(obj_get(f, "name"@)),
                sp_opt_string_field(obj_get(f, "image"@)),
            ) {
                (Some(nm), Some(im)) => Some((nm, im)),
                _ => None,
            }
        },
        _ => None,
    }
}

/// Decode one album: an object with an optional `image`.
pub open spec fn sp_album(v: JsonV) -> Option<Option<Seq<char>>> {
    match v {
        JsonV::Obj(f) => sp_opt_string_field(obj_get(f, "image"@)),
        _ => None,
    }
}

/// Decode an artist list: every element must decode.
pub open spec fn sp_artists(items: Seq<JsonV>) -> Option<
    Seq<(Option<Seq<char>>, Option<Seq<char>>)>,
> {
    if forall|k: int| 0 <= k < items.len() ==> sp_artist(#[trigger] items[k]) is Some {
        Some(Seq::new(items.len(), |k: int| sp_artist(items[k])->Some_0))
    } else {
        None
    }
}

/// Decode an album list: every element must decode.
pub open spec fn sp_albums(items: Seq<JsonV>) -> Option<Seq<Option<Seq<char>>>> {
    if forall|k: int| 0 <= k < items.len() ==> sp_album(#[trigger] items[k]) is Some {
        Some(Seq::new(items.len(), |k: int| sp_album(items[k])->Some_0))
    } else {
        None
    }
}

/// Decode a dispatch payload as a song: the payload must be an object
/// whose `song` field is an object; `title` is an optional string; a
/// missing `artists` or `albums` list defaults to empty, a present one
/// must be an array of decodable entries.
pub open spec fn sp_song(d: JsonV) -> Option<SongV> {
    match d {
        JsonV::Obj(df) => match obj_get(df, "song"@) {
            Some(JsonV::Obj(sf)) => {
                let title = sp_opt_string_field(obj_get(sf, "title"@));
                let artists = match obj_get(sf, "artists"@) {
                    None => Some(Seq::empty()),
                    Some(JsonV::Arr(items)) => sp_artists(items),
                    Some(_) => None,
                };
                let albums = match obj_get(sf, "albums"@) {
                    None => Some(Seq::empty()),
                    Some(JsonV::Arr(items)) => sp_albums(items),
                    Some(_) => None,
                };
                match (title, artists, albums) {
                    (Some(t), Some(ar), Some(al)) => Some(
                        SongV { title: t, artists: ar, albums: al },
                    ),
                    _ => None,
                }
            },
            _ => None,
        },
        _ => None,
    }
}

/// The artists' names, in order, skipping artists without one.
pub open spec fn sp_names(artists: Seq<(Option<Seq<char>>, Option<Seq<char>>)>) -> Seq<
    Seq<char>,
>
    decreases artists.len(),
{
    if artists.len() == 0 {
        Seq::empty()
    } else {
        let rest = sp_names(artists.skip(1));
        match artists[0].0 {
            Some(nm) => seq![nm].add(rest),
            None => rest,
        }
    }
}

/// Join parts with a comma and a space.
pub open spec fn sp_join(parts: Seq<Seq<char>>) -> Seq<char>
    decreases parts.len(),
{
    if parts.len() == 0 {
        Seq::empty()
    } else if parts.len() == 1 {
        parts[0]
    } else {
        parts[0] + ", "@ + sp_join(parts.skip(1))
    }
}

/// The track info a decoded song yields: the title (with its default),
/// the joined artist names (with their default), and the image URLs made
/// of the fixed CDN bases and the returned identifiers.
pub open spec fn sp_track_info(song: SongV) -> TrackV {
    TrackV {
        title: match song.title {
            Some(t) => t,
            None => "unknown title"@,
        },
        artist: if song.artists.len() == 0 {
            "Unknown artist"@
        } else {
            sp_join(sp_names(song.artists))
        },
        album_cover: if song.albums.len() > 0 {
            match song.albums[0] {
                Some(im) => Some("https://cdn.listen.moe/covers/"@ + im),
                None => None,
            }
        } else {
            None
        },
        artist_image: if song.artists.len() > 0 {
            match song.artists[0].1 {
                Some(im) => Some("https://cdn.listen.moe/artists/"@ + im),
                None => None,
            }
        } else {
            None
        },
    }
}

/// Appending an artist appends its name, when it has one.
proof fn lemma_names_snoc(
    artists: Seq<(Option<Seq<char>>, Option<Seq<char>>)>,
    x: (Option<Seq<char>>, Option<Seq<char>>),
)
    ensures
        sp_names(artists.push(x)) == (match x.0 {
            Some(nm) => sp_names(artists).push(nm),
            None => sp_names(artists),
        }),
    decreases artists.len(),
{
    if artists.len() == 0 {
        assert(artists.push(x)[0] == x);
        assert(artists.push(x).skip(1) =~= Seq::empty());
        assert(sp_names(artists.push(x).skip(1)) =~= Seq::<Seq<char>>::empty());
        assert(sp_names(artists) =~= Seq::<Seq<char>>::empty());
        match x.0 {
            Some(nm) => {
                assert(sp_names(artists.push(x)) =~= sp_names(artists).push(nm));
            },
            None => {
                assert(sp_names(artists.push(x)) =~= sp_names(artists));
            },
        }
    } else {
        assert(artists.push(x)[0] == artists[0]);
        assert(artists.push(x).skip(1) =~= artists.skip(1).push(x));
        lemma_names_snoc(artists.skip(1), x);
        match x.0 {
            Some(nm) => {
                match artists[0].0 {
                    Some(nm0) => {
                        assert(sp_names(artists.push(x)) =~= seq![nm0].add(
                            sp_names(artists.skip(1)).push(nm),
                        ));
                        assert(seq![nm0].add(sp_names(artists.skip(1)).push(nm)) =~= seq![
                            nm0,
                        ].add(sp_names(artists.skip(1))).push(nm));
                        assert(sp_names(artists.push(x)) =~= sp_names(artists).push(nm));
                    },
                    None => {
                        assert(sp_names(artists.push(x)) =~= sp_names(artists).push(nm));
                    },
                }
            },
            None => {
                assert(sp_names(artists.push(x)) =~= sp_names(artists));
            },
        }
    }
}

/// Appending a part to a nonempty list appends a separator and the part.
proof fn lemma_join_snoc(parts: Seq<Seq<char>>, p: Seq<char>)
    requires
        parts.len() >= 1,
    ensures
        sp_join(parts.push(p)) == sp_join(parts) + ", "@ + p,
    decreases parts.len(),
{
    if parts.len() == 1 {
        assert(parts.push(p)[0] == parts[0]);
        assert(parts.push(p).skip(1) =~= seq![p]);
        assert(sp_join(seq![p]) == p);
        assert(sp_join(parts.push(p)) =~= sp_join(parts) + ", "@ + p);
    } else {
        assert(parts.push(p)[0] == parts[0]);
        assert(parts.push(p).skip(1) =~= parts.skip(1).push(p));
        lemma_join_snoc(parts.skip(1), p);
        assert(parts[0] + ", "@ + (sp_join(parts.skip(1)) + ", "@ + p) =~= (parts[0] + ", "@
            + sp_join(parts.skip(1))) + ", "@ + p);
        assert(sp_join(parts.push(p)) =~= sp_join(parts) + ", "@ + p);
    }
}

/// Decode an optional string field, cloning the string out.
fn opt_string_field(v: Option<&Json>) -> (r: Option<Option<String>>)
    ensures
        ({
            let sv = sp_opt_string_field(
                match v {
                    Some(j) => Some(j@),
                    None => None,
                },
            );
            match r {
                Some(Some(ref s)) => sv == Some(Some(s@)),
                Some(None) => sv == Some(None::<Seq<char>>),
                None => sv is None,
            }
        }),
{
    match v {
        None => Some(None),
        Some(Json::Null) => Some(None),
        Some(Json::Str(s)) => Some(Some(s.clone())),
        Some(_) => None,
    }
}

/// Extract track info from a dispatch payload; `None` when the payload
/// does not decode as a song.
#[verifier::loop_isolation(false)]
pub fn parse_track_info(d: &Json) -> (r: Option<TrackInfo>)
    ensures
        (r is Some) == (sp_song(d@) is Some),
        r matches Some(info) ==> info@ == sp_track_info(sp_song(d@)->Some_0),
{
    let df: &Vec<(String, Json)> = match d {
        Json::Obj(df) => df,
        _ => {
            return None;
        },
    };
    let sf: &Vec<(String, Json)> = match obj_get_exec(df, "song") {
        Some(Json::Obj(sf)) => sf,
        _ => {
            return None;
        },
    };
    let title: Option<String> = match opt_string_field(obj_get_exec(sf, "title")) {
        Some(t) => t,
        None => {
            return None;
        },
    };
    let mut artists: Vec<(Option<String>, Option<String>)> = Vec::new();
    match obj_get_exec(sf, "artists") {
        None => {},
        Some(Json::Arr(items)) => {
            let n: usize = items.len();
            let mut k: usize = 0;
            while k < n
                invariant
                    k <= n == items@.len(),
                    artists@.len() == k,
                    forall|t: int|
                        0 <= t < k ==> sp_artist(#[trigger] items@[t]@) is Some,
                    forall|t: int|
                        0 <= t < k ==> #[trigger] sp_artist(items@[t]@)->Some_0 == (
                        match artists@[t].0 {
                            Some(ref nm) => Some(nm@),
                            None => None,
                        },
                        match artists@[t].1 {
                            Some(ref im) => Some(im@),
                            None => None,
                        },
                        ),
                decreases n - k,
            {
                let af: &Vec<(String, Json)> = match &items[k] {
                    Json::Obj(af) => af,
                    _ => {
                        proof {
                            assert(sp_artist(items@[k as int]@) is None);
                            assert(views(items@)[k as int] == items@[k as int]@);
                            assert(sp_artists(views(items@)) is None);
                        }
                        return None;
                    },
                };
                let nm: Option<String> = match opt_string_field(obj_get_exec(af, "name")) {
                    Some(nm) => nm,
                    None => {
                        proof {
                            assert(sp_artist(items@[k as int]@) is None);
                            assert(views(items@)[k as int] == items@[k as int]@);
                            assert(sp_artists(views(items@)) is None);
                        }
                        return None;
                    },
                };
                let im: Option<String> = match opt_string_field(obj_get_exec(af, "image")) {
                    Some(im) => im,
                    None => {
                        proof {
                            assert(sp_artist(items@[k as int]@) is None);
                            assert(views(items@)[k as int] == items@[k as int]@);
                            assert(sp_artists(views(items@)) is None);
                        }
                        return None;
                    },
                };
                artists.push((nm, im));
                k = k + 1;
            }
            proof {
                assert(forall|t: int|
                    0 <= t < items@.len() ==> #[trigger] views(items@)[t] == items@[t]@);
                assert(forall|t: int|
                    0 <= t < views(items@).len() ==> sp_artist(
                        #[trigger] views(items@)[t],
                    ) is Some);
                assert(sp_artists(views(items@)) == Some(
                    Seq::new(
                        artists@.len(),
                        |t: int|
                            (
                                match artists@[t].0 {
                                    Some(ref nm) => Some(nm@),
                                    None => None,
                                },
                                match artists@[t].1 {
                                    Some(ref im) => Some(im@),
                                    None => None,
                                },
                            ),
                    ),
                )) by {
                    assert(sp_artists(views(items@))->Some_0 =~= Seq::new(
                        artists@.len(),
                        |t: int|
                            (
                                match artists@[t].0 {
                                    Some(ref nm) => Some(nm@),
                                    None => None,
                                },
                                match artists@[t].1 {
                                    Some(ref im) => Some(im@),
                                    None => None,
                                },
                            ),
                    ));
                }
            }
        },
        Some(_) => {
            return None;
        },
    }
    let mut albums: Vec<Option<String>> = Vec::new();
    match obj_get_exec(sf, "albums") {
        None => {},
        Some(Json::Arr(items)) => {
            let n: usize = items.len();
            let mut k: usize = 0;
            while k < n
                invariant
                    k <= n == items@.len(),
                    albums@.len() == k,
                    forall|t: int|
                        0 <= t < k ==> sp_album(#[trigger] items@[t]@) is Some,
                    forall|t: int|
                        0 <= t < k ==> #[trigger] sp_album(items@[t]@)->Some_0 == (
                        match albums@[t] {
                            Some(ref im) => Some(im@),
                            None => None,
                        }),
                decreases n - k,
            {
                let af: &Vec<(String, Json)> = match &items[k] {
                    Json::Obj(af) => af,
                    _ => {
                        proof {
                            assert(sp_album(items@[k as int]@) is None);
                            assert(views(items@)[k as int] == items@[k as int]@);
                            assert(sp_albums(views(items@)) is None);
                        }
                        return None;
                    },
                };
                let im: Option<String> = match opt_string_field(obj_get_exec(af, "image")) {
                    Some(im) => im,
                    None => {
                        proof {
                            assert(sp_album(items@[k as int]@) is None);
                            assert(views(items@)[k as int] == items@[k as int]@);
                            assert(sp_albums(views(items@)) is None);
                        }
                        return None;
                    },
                };
                albums.push(im);
                k = k + 1;
            }
            proof {
                assert(forall|t: int|
                    0 <= t < items@.len() ==> #[trigger] views(items@)[t] == items@[t]@);
                assert(forall|t: int|
                    0 <= t < views(items@).len() ==> sp_album(
                        #[trigger] views(items@)[t],
                    ) is Some);
                assert(sp_albums(views(items@)) == Some(
                    Seq::new(
                        albums@.len(),
                        |t: int|
                            match albums@[t] {
                                Some(ref im) => Some(im@),
                                None => None,
                            },
                    ),
                )) by {
                    assert(sp_albums(views(items@))->Some_0 =~= Seq::new(
                        albums@.len(),
                        |t: int|
                            match albums@[t] {
                                Some(ref im) => Some(im@),
                                None => None,
                            },
                    ));
                }
            }
        },
        Some(_) => {
            return None;
        },
    }
    Some(build_track_info(title, artists, albums))
}

/// Assemble the published track info from the decoded song parts.
fn build_track_info(
    title: Option<String>,
    artists: Vec<(Option<String>, Option<String>)>,
    albums: Vec<Option<String>>,
) -> (info: TrackInfo)
    ensures
        info@ == sp_track_info(
            SongV {
                title: match title {
                    Some(ref t) => Some(t@),
                    None => None,
                },
                artists: Seq::new(
                    artists@.len(),
                    |t: int|
                        (
                            match artists@[t].0 {
                                Some(ref nm) => Some(nm@),
                                None => None,
                            },
                            match artists@[t].1 {
                                Some(ref im) => Some(im@),
                                None => None,
                            },
                        ),
                ),
                albums: Seq::new(
                    albums@.len(),
                    |t: int|
                        match albums@[t] {
                            Some(ref im) => Some(im@),
                            None => None,
                        },
                ),
            },
        ),
{
    let ghost song = SongV {
        title: match title {
            Some(ref t) => Some(t@),
            None => None,
        },
        artists: Seq::new(
            artists@.len(),
            |t: int|
                (
                    match artists@[t].0 {
                        Some(ref nm) => Some(nm@),
                        None => None,
                    },
                    match artists@[t].1 {
                        Some(ref im) => Some(im@),
                        None => None,
                    },
                ),
        ),
        albums: Seq::new(
            albums@.len(),
            |t: int|
                match albums@[t] {
                    Some(ref im) => Some(im@),
                    None => None,
                },
        ),
    };
    let out_title: String = match title {
        Some(t) => t,
        None => String::from_str("unknown title"),
    };
    let out_artist: String = if artists.len() == 0 {
        String::from_str("Unknown artist")
    } else {
        join_artist_names(&artists, Ghost(song.artists))
    };
    let album_cover: Option<String> = if albums.len() > 0 {
        match &albums[0] {
            Some(im) => Some(
                String::from_str("https://cdn.listen.moe/covers/").concat(im.as_str()),
            ),
            None => None,
        }
    } else {
        None
    };
    let artist_image: Option<String> = if artists.len() > 0 {
        match &artists[0].1 {
            Some(im) => Some(
                String::from_str("https://cdn.listen.moe/artists/").concat(im.as_str()),
            ),
            None => None,
        }
    } else {
        None
    };
    TrackInfo { artist: out_artist, title: out_title, album_cover, artist_image }
}

/// Join the artists' names with a comma and a space.
fn join_artist_names(
    artists: &Vec<(Option<String>, Option<String>)>,
    Ghost(song_artists): Ghost<Seq<(Option<Seq<char>>, Option<Seq<char>>)>>,
) -> (out: String)
    requires
        song_artists.len() == artists@.len(),
        forall|t: int|
            0 <= t < artists@.len() ==> #[trigger] song_artists[t].0 == (
            match artists@[t].0 {
                Some(ref nm) => Some(nm@),
                None => None,
            }),
    ensures
        out@ == sp_join(sp_names(song_artists)),
{
    let n: usize = artists.len();
    let mut out: String = String::new();
    let mut count: usize = 0;
    let mut k: usize = 0;
    while k < n
        invariant
            k <= n == artists@.len(),
            song_artists.len() == artists@.len(),
            forall|t: int|
                0 <= t < artists@.len() ==> #[trigger] song_artists[t].0 == (
                match artists@[t].0 {
                    Some(ref nm) => Some(nm@),
                    None => None,
                }),
            count <= k,
            count == sp_names(song_artists.subrange(0, k as int)).len(),
            out@ == sp_join(sp_names(song_artists.subrange(0, k as int))),
        decreases n - k,
    {
        proof {
            assert(song_artists.subrange(0, k as int + 1) =~= song_artists.subrange(
                0,
                k as int,
            ).push(song_artists[k as int]));
            lemma_names_snoc(song_artists.subrange(0, k as int), song_artists[k as int]);
        }
        match &artists[k].0 {
            Some(nm) => {
                if count > 0 {
                    proof {
                        lemma_join_snoc(sp_names(song_artists.subrange(0, k as int)), nm@);
                    }
                    out.append(", ");
                    out.append(nm.as_str());
                } else {
                    out.append(nm.as_str());
                }
                count = count + 1;
            },
            None => {},
        }
        k = k + 1;
    }
    proof {
        assert(song_artists.subrange(0, n as int) =~= song_artists);
    }
    out
}

/// What the session does with one incoming text frame.
#[derive(Debug)]
pub enum FrameAction {
    /// A track-update dispatch: republish this track info.
    Track(TrackInfo),
    /// A heartbeat acknowledgement: informational only.
    Ack,
    /// Anything else — unknown opcodes or events, undecodable payloads,
    /// malformed JSON: drop the frame and keep the session running.
    Ignore,
}

/// Spec-level image of a [`FrameAction`].
pub enum FrameActionV {
    Track(TrackV),
    Ack,
    Ignore,
}

impl View for FrameAction {
    type V = FrameActionV;

    open spec fn view(&self) -> FrameActionV {
        match self {
            FrameAction::Track(info) => FrameActionV::Track(info@),
            FrameAction::Ack => FrameActionV::Ack,
            FrameAction::Ignore => FrameActionV::Ignore,
        }
    }
}

/// The action one frame causes: an acknowledgement for HEARTBEAT_ACK, a
/// track for a decodable TRACK_UPDATE dispatch, and nothing otherwise.
/// A frame that does not parse never ends the session: it is ignored.
pub open spec fn sp_frame_action(s: Seq<char>) -> FrameActionV {
    match sp_json(s) {
        Some(j) => match sp_envelope(j) {
            Some(env) => {
                if env.op == OP_HEARTBEAT_ACK {
                    FrameActionV::Ack
                } else if env.op == OP_DISPATCH && env.t == Some("TRACK_UPDATE"@) {
                    match sp_song(env.d) {
                        Some(song) => FrameActionV::Track(sp_track_info(song)),
                        None => FrameActionV::Ignore,
                    }
                } else {
                    FrameActionV::Ignore
                }
            },
            None => FrameActionV::Ignore,
        },
        None => FrameActionV::Ignore,
    }
}

/// Malformed JSON on an incoming frame is dropped, never fatal: the
/// session's next frame is handled exactly as if the bad frame had not
/// arrived.
pub proof fn lemma_malformed_frame_ignored(s: Seq<char>)
    requires
        sp_json(s) is None,
    ensures
        sp_frame_action(s) == FrameActionV::Ignore,
{
}

/// Handle one incoming text frame.
pub fn handle_frame(text: &Vec<char>) -> (act: FrameAction)
    ensures
        act@ == sp_frame_action(text@),
{
    let parsed = parse_json(text);
    let j: Json = match parsed {
        Some(j) => j,
        None => {
            return FrameAction::Ignore;
        },
    };
    let fields: &Vec<(String, Json)> = match &j {
        Json::Obj(fields) => fields,
        _ => {
            return FrameAction::Ignore;
        },
    };
    let op: i64 = match obj_get_exec(fields, "op") {
        Some(Json::Int(v)) => {
            if 0 <= *v && *v <= 255 {
                *v
            } else {
                return FrameAction::Ignore;
            }
        },
        _ => {
            return FrameAction::Ignore;
        },
    };
    let t: Option<&String> = match obj_get_exec(fields, "t") {
        None => None,
        Some(Json::Null) => None,
        Some(Json::Str(s)) => Some(s),
        Some(_) => {
            return FrameAction::Ignore;
        },
    };
    if op == OP_HEARTBEAT_ACK as i64 {
        return FrameAction::Ack;
    }
    let is_track_update: bool = match t {
        Some(s) => string_eq_lit(s, "TRACK_UPDATE"),
        None => false,
    };
    if op == OP_DISPATCH as i64 && is_track_update {
        let null_d = Json::Null;
        let dref: &Json = match obj_get_exec(fields, "d") {
            Some(v) => v,
            None => &null_d,
        };
        match parse_track_info(dref) {
            Some(info) => FrameAction::Track(info),
            None => FrameAction::Ignore,
        }
    } else {
        FrameAction::Ignore
    }
}

/// Whether a heartbeat is due: the interval has elapsed since the last
/// one was sent.
pub fn heartbeat_due(now_ms: u64, last_ms: u64, interval_ms: u64) -> (r: bool)
    requires
        last_ms <= now_ms,
    ensures
        r == (now_ms - last_ms >= interval_ms),
{
    now_ms - last_ms >= interval_ms
}

/// The fixed heartbeat payload the client sends once per interval.
pub fn heartbeat_payload() -> (r: &'static str)
    ensures
        r@ == "{\"op\":9}"@,
{
    "{\"op\":9}"
}

/// Whether the session loop connects again after a session ended: a
/// clean close and an error retry alike (after a delay); only a stop
/// request ends the loop.
pub fn retry_after_session(stop_requested: bool) -> (r: bool)
    ensures
        r == !stop_requested,
{
    !stop_requested
}

} // verus!
