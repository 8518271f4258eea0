//! Media player status: how the player tool's status and metadata output
//! become a typed snapshot.

use vstd::prelude::*;
use vstd::string::StringSliceAdditionalSpecFns;
use crate::bytes::{trim_spec, trim_bytes, line_seq, lines_bytes, eq_bytes, copy_range};

verus! {

/// Media player status.
#[derive(Clone, Debug)]
pub struct MediaInfo {
    pub title: Vec<u8>,
    pub artist: Vec<u8>,
    pub album: Vec<u8>,
    pub playing: bool,
    /// Seconds; not reported by the tool invocation used, always zero.
    pub position: u64,
    /// Seconds; not reported by the tool invocation used, always zero.
    pub duration: u64,
}

/// The mathematical shape of a media snapshot.
pub struct MediaInfoV {
    pub title: Seq<u8>,
    pub artist: Seq<u8>,
    pub album: Seq<u8>,
    pub playing: bool,
    pub position: u64,
    pub duration: u64,
}

impl View for MediaInfo {
    type V = MediaInfoV;

    open spec fn view(&self) -> MediaInfoV {
        MediaInfoV {
            title: self.title@,
            artist: self.artist@,
            album: self.album@,
            playing: self.playing,
            position: self.position,
            duration: self.duration,
        }
    }
}

/// What the trimmed status output means: nothing when it is empty or the
/// tool found no player; otherwise whether a player is playing.
pub open spec fn media_status_spec(out: Seq<u8>) -> Option<bool> {
    let t = trim_spec(out);
    if t.len() == 0 || t == "No players found".spec_bytes() {
        None
    } else {
        Some(t == "Playing".spec_bytes())
    }
}

/// Decide from the status output whether any player exists, and if so
/// whether it is playing.
pub fn parse_media_status(out: &[u8]) -> (r: Option<bool>)
    ensures
        r == media_status_spec(out@),
{
    let t = trim_bytes(out);
    if t.len() == 0 || eq_bytes(t.as_slice(), "No players found".as_bytes()) {
        None
    } else {
        Some(eq_bytes(t.as_slice(), "Playing".as_bytes()))
    }
}

/// What the three-line metadata output means: title, artist and album are
/// the first three lines, each empty when its line is missing.
pub open spec fn media_info_spec(playing: bool, meta: Seq<u8>) -> MediaInfoV {
    let ls = line_seq(meta);
    MediaInfoV {
        title: if ls.len() > 0 {
            ls[0]
        } else {
            Seq::empty()
        },
        artist: if ls.len() > 1 {
            ls[1]
        } else {
            Seq::empty()
        },
        album: if ls.len() > 2 {
            ls[2]
        } else {
            Seq::empty()
        },
        playing: playing,
        position: 0,
        duration: 0,
    }
}

/// Build the media snapshot from the playing flag and the metadata output.
pub fn media_from_metadata(playing: bool, meta: &[u8]) -> (r: MediaInfo)
    ensures
        r@ == media_info_spec(playing, meta@),
{
    let ls = lines_bytes(meta);
    proof {
        assert(ls.deep_view().len() == ls@.len());
    }
    let title: Vec<u8> = if ls.len() > 0 {
        proof {
            assert(ls.deep_view()[0] =~= ls@[0]@);
        }
        copy_range(ls[0].as_slice(), 0, ls[0].len())
    } else {
        Vec::new()
    };
    let artist: Vec<u8> = if ls.len() > 1 {
        proof {
            assert(ls.deep_view()[1] =~= ls@[1]@);
        }
        copy_range(ls[1].as_slice(), 0, ls[1].len())
    } else {
        Vec::new()
    };
    let album: Vec<u8> = if ls.len() > 2 {
        proof {
            assert(ls.deep_view()[2] =~= ls@[2]@);
        }
        copy_range(ls[2].as_slice(), 0, ls[2].len())
    } else {
        Vec::new()
    };
    let r = MediaInfo { title, artist, album, playing, position: 0, duration: 0 };
    proof {
        assert(r@.title =~= media_info_spec(playing, meta@).title);
        assert(r@.artist =~= media_info_spec(playing, meta@).artist);
        assert(r@.album =~= media_info_spec(playing, meta@).album);
    }
    r
}

} // verus!
