//! Reading and writing of Standard MIDI Files: the `MThd` header, the `MTrk`
//! track chunks, and the variable-length values and events inside them.
//!
//! Every import works on an in-memory byte slice with an explicit cursor and
//! is specified against a mathematical parse function over the byte sequence;
//! every export appends the exact encoding to a byte vector, or appends
//! nothing and says why.

use vstd::prelude::*;

/// Errors used throughout this crate
pub mod error;
/// SMF Header
pub mod header;
/// Cursor-style reads over an in-memory byte stream
pub mod stream;
/// SMF Track
pub mod track;
/// Stuff for Reading/Creating VLVs
pub mod vlv;

use error::SMFError;
use header::{spec_header_encodable, spec_header_encode, spec_header_import, SMFHeader};
use track::{
    spec_track_encodable, spec_track_encode, spec_track_export_err, spec_track_import, SMFTrack,
    SMFTrackView,
};

verus! {

/// The Primary type for this crate. This is the primary way to Import and
/// Export MIDI Files and manipulate them.
#[derive(Clone, Debug, PartialEq)]
pub struct SMF {
    /// The MThd header of a MIDI File. Contains useful info for reading the
    /// rest.
    pub header: SMFHeader,
    /// The MTrk tracks of a MIDI file. This is where the actual "music" is
    /// held.
    pub tracks: Vec<SMFTrack>,
}

/// The mathematical model of a MIDI file.
pub struct SMFView {
    pub header: SMFHeader,
    pub tracks: Seq<SMFTrackView>,
}

impl View for SMF {
    type V = SMFView;

    open spec fn view(&self) -> SMFView {
        SMFView { header: self.header, tracks: self.tracks@.map_values(|t: SMFTrack| t@) }
    }
}

/// Decoding of `n` track chunks, one after another, starting at `pos`.
pub open spec fn spec_tracks_import(s: Seq<u8>, pos: int, n: int) -> Result<
    (Seq<SMFTrackView>, int),
    SMFError,
>
    decreases (if n <= 0 {
        0int
    } else {
        n
    }),
{
    if n <= 0 {
        Ok((Seq::<SMFTrackView>::empty(), pos))
    } else {
        match spec_track_import(s, pos) {
            Err(e) => Err(e),
            Ok(((length, track_events), npos)) => match spec_tracks_import(s, npos, n - 1) {
                Err(e) => Err(e),
                Ok((rest, end)) => Ok(
                    (seq![SMFTrackView { length, track_events }] + rest, end),
                ),
            },
        }
    }
}

/// Prefixes already decoded tracks onto the outcome of the rest of the
/// stream.
pub open spec fn spec_tracks_prepend(
    prefix: Seq<SMFTrackView>,
    r: Result<(Seq<SMFTrackView>, int), SMFError>,
) -> Result<(Seq<SMFTrackView>, int), SMFError> {
    match r {
        Ok((rest, end)) => Ok((prefix + rest, end)),
        Err(e) => Err(e),
    }
}

/// Decoding of a whole MIDI file at `pos`: the header, then exactly as many
/// track chunks as the header announces.
pub open spec fn spec_smf_import(s: Seq<u8>, pos: int) -> Result<(SMFView, int), SMFError> {
    match spec_header_import(s, pos) {
        Err(e) => Err(e),
        Ok((header, p1)) => match spec_tracks_import(s, p1, header.nb_tracks as int) {
            Err(e) => Err(e),
            Ok((tracks, end)) => Ok((SMFView { header, tracks }, end)),
        },
    }
}

/// True of a file that can be written back out: the announced and actual
/// track counts must agree, the header must be writable, and so must every
/// track.
pub open spec fn spec_smf_encodable(v: SMFView) -> bool {
    &&& v.header.nb_tracks == v.tracks.len()
    &&& spec_header_encodable(v.header)
    &&& forall|i: int| 0 <= i < v.tracks.len() ==> spec_track_encodable(#[trigger] v.tracks[i])
}

/// The bytes that encode a sequence of tracks, one chunk after another.
pub open spec fn spec_tracks_encode(ts: Seq<SMFTrackView>) -> Seq<u8>
    decreases ts.len(),
{
    if ts.len() == 0 {
        Seq::<u8>::empty()
    } else {
        spec_track_encode(ts[0]) + spec_tracks_encode(ts.drop_first())
    }
}

/// The bytes that encode a whole MIDI file: the header, then the tracks.
pub open spec fn spec_smf_encode(v: SMFView) -> Seq<u8>
    recommends
        spec_smf_encodable(v),
{
    spec_header_encode(v.header) + spec_tracks_encode(v.tracks)
}

/// The error with which export refuses a sequence of tracks: that of the
/// first track that cannot be written.
pub open spec fn spec_tracks_export_err(ts: Seq<SMFTrackView>) -> SMFError
    recommends
        exists|i: int| 0 <= i < ts.len() && !spec_track_encodable(ts[i]),
    decreases ts.len(),
{
    if ts.len() == 0 {
        arbitrary()
    } else if !spec_track_encodable(ts[0]) {
        spec_track_export_err(ts[0])
    } else {
        spec_tracks_export_err(ts.drop_first())
    }
}

/// When the tracks before index `i` can all be written and the one at `i`
/// cannot, the sequence's export error is that track's error.
pub proof fn lemma_tracks_export_err_at(ts: Seq<SMFTrackView>, i: int)
    requires
        0 <= i < ts.len(),
        forall|j: int| 0 <= j < i ==> spec_track_encodable(#[trigger] ts[j]),
        !spec_track_encodable(ts[i]),
    ensures
        spec_tracks_export_err(ts) == spec_track_export_err(ts[i]),
    decreases i,
{
    if i > 0 {
        lemma_tracks_export_err_at(ts.drop_first(), i - 1);
    }
}

/// The error with which export refuses a file it cannot write: a track
/// count mismatch, a header that cannot be written, or a track that cannot.
pub open spec fn spec_smf_export_err(v: SMFView) -> SMFError
    recommends
        !spec_smf_encodable(v),
{
    if v.header.nb_tracks != v.tracks.len() {
        SMFError::VecHeaderTracksMismatch(v.header.nb_tracks, v.tracks.len() as usize)
    } else if v.header.length != 6 {
        SMFError::UnexpectedMThdLength(v.header.length)
    } else if v.header.nb_tracks == 0 {
        SMFError::NoTracks
    } else {
        spec_tracks_export_err(v.tracks)
    }
}

impl SMF {
    /// Imports an entire MIDI File from `pos` of the byte stream.
    #[verifier::loop_isolation(false)]
    pub fn import(data: &[u8], pos: usize) -> (res: Result<(SMF, usize), SMFError>)
        ensures
            match res {
                Ok((smf, npos)) => spec_smf_import(data@, pos as int) == Ok::<_, SMFError>(
                    (smf@, npos as int),
                ) && pos < npos <= data@.len(),
                Err(e) => spec_smf_import(data@, pos as int) == Err::<(SMFView, int), _>(e),
            },
    {
        let (header, p1) = SMFHeader::import(data, pos)?;
        let mut tracks: Vec<SMFTrack> = Vec::with_capacity(header.nb_tracks as usize);
        let mut p = p1;
        let mut i: u16 = 0;
        proof {
            assert(tracks@.map_values(|t: SMFTrack| t@) + Seq::<SMFTrackView>::empty() =~= Seq::<
                SMFTrackView,
            >::empty());
        }
        while i < header.nb_tracks
            invariant
                i <= header.nb_tracks,
                p1 <= p <= data@.len(),
                spec_tracks_import(data@, p1 as int, header.nb_tracks as int)
                    == spec_tracks_prepend(
                    tracks@.map_values(|t: SMFTrack| t@),
                    spec_tracks_import(data@, p as int, header.nb_tracks as int - i),
                ),
            decreases header.nb_tracks - i,
        {
            let ghost prefix = tracks@.map_values(|t: SMFTrack| t@);
            let res = SMFTrack::import(data, p);
            let (track, npos) = match res {
                Ok(r) => r,
                Err(e) => {
                    return Err(e);
                },
            };
            tracks.push(track);
            proof {
                let rest = spec_tracks_import(data@, npos as int, header.nb_tracks as int - i - 1);
                match rest {
                    Ok((rest_tracks, end)) => {
                        assert((prefix + seq![track@]) + rest_tracks =~= prefix + (seq![track@]
                            + rest_tracks));
                    },
                    Err(_) => {},
                }
                assert(tracks@.map_values(|t: SMFTrack| t@) =~= prefix + seq![track@]);
                assert(seq![SMFTrackView {
                    length: track@.length,
                    track_events: track@.track_events,
                }] =~= seq![track@]);
            }
            p = npos;
            i = i + 1;
        }
        proof {
            assert(tracks@.map_values(|t: SMFTrack| t@) + Seq::<SMFTrackView>::empty()
                =~= tracks@.map_values(|t: SMFTrack| t@));
        }
        Ok((SMF { header, tracks }, p))
    }

    /// Exports an entire MIDI File by appending it to `out`. On an error
    /// nothing is appended.
    #[verifier::loop_isolation(false)]
    pub fn export(&self, out: &mut Vec<u8>) -> (res: Result<(), SMFError>)
        ensures
            match res {
                Ok(()) => spec_smf_encodable(self@) && final(out)@ == old(out)@ + spec_smf_encode(
                    self@,
                ),
                Err(e) => !spec_smf_encodable(self@) && final(out)@ == old(out)@ && e
                    == spec_smf_export_err(self@),
            },
    {
        if self.header.nb_tracks as usize != self.tracks.len() {
            return Err(SMFError::VecHeaderTracksMismatch(self.header.nb_tracks, self.tracks.len()));
        }
        let mut tmp: Vec<u8> = Vec::new();
        let r = self.header.export(&mut tmp);
        match r {
            Ok(()) => {},
            Err(e) => {
                return Err(e);
            },
        }
        let ghost file_head = tmp@;
        proof {
            assert(self@.tracks.skip(0) =~= self@.tracks);
        }
        let mut i: usize = 0;
        while i < self.tracks.len()
            invariant
                i <= self.tracks@.len(),
                tmp@ + spec_tracks_encode(self@.tracks.skip(i as int)) == file_head
                    + spec_tracks_encode(self@.tracks),
                forall|j: int| 0 <= j < i ==> spec_track_encodable(#[trigger] self@.tracks[j]),
            decreases self.tracks@.len() - i,
        {
            let ghost tmp_before = tmp@;
            let res = self.tracks[i].export(&mut tmp);
            match res {
                Ok(()) => {},
                Err(e) => {
                    proof {
                        lemma_tracks_export_err_at(self@.tracks, i as int);
                    }
                    return Err(e);
                },
            }
            proof {
                let ts = self@.tracks;
                assert(ts.skip(i as int).drop_first() =~= ts.skip(i as int + 1));
                assert(ts.skip(i as int)[0] == ts[i as int]);
                assert(tmp@ + spec_tracks_encode(ts.skip(i as int + 1)) =~= tmp_before + (
                spec_track_encode(ts[i as int]) + spec_tracks_encode(ts.skip(i as int + 1))));
            }
            i = i + 1;
        }
        proof {
            let ts = self@.tracks;
            assert(ts.skip(ts.len() as int) =~= Seq::<SMFTrackView>::empty());
            assert(tmp@ + spec_tracks_encode(ts.skip(ts.len() as int)) =~= tmp@);
            assert(tmp@ =~= file_head + spec_tracks_encode(ts));
        }
        out.append(&mut tmp);
        proof {
            assert(final(out)@ =~= old(out)@ + spec_smf_encode(self@));
        }
        Ok(())
    }
}

} // verus!
