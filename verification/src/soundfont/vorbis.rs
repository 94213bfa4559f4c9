//! Decoding the Ogg/Vorbis sample streams of `.sf3` banks with `lewton`.

use vstd::prelude::*;

use lewton::VorbisError;

verus! {

/// `lewton::VorbisError`, why a stream could not be decoded.
#[verifier::external_type_specification]
#[verifier::external_body]
pub struct ExVorbisError(VorbisError);

/// What `lewton` decodes an Ogg/Vorbis stream into: one entry per audio
/// packet (`OggStreamReader::read_dec_packet_itl`, until it reports the end),
/// each the packet's interleaved 16-bit samples with the absolute granule
/// position of the last page read after it (`get_last_absgp`); or `None`
/// when the stream cannot be decoded. It depends on the stream's bytes alone.
pub uninterp spec fn vorbis_packets(blob: Seq<u8>) -> Option<Seq<(Seq<i16>, Option<u64>)>>;

/// The packet list as a value of the model.
pub open spec fn packets_model(p: Seq<(Vec<i16>, Option<u64>)>) -> Seq<(Seq<i16>, Option<u64>)> {
    p.map_values(|x: (Vec<i16>, Option<u64>)| (x.0@, x.1))
}

/// Runs `lewton`'s Ogg/Vorbis decoder (`OggStreamReader::new`, then
/// `read_dec_packet_itl` until the end of the stream, noting `get_last_absgp`
/// after each packet) over `blob`. The contract names the outcome: it is a
/// function of the bytes alone. The three calls stay together because the
/// stateful `OggStreamReader` cannot be held by verified code. Left unsaid:
/// lewton's decoder has panic sites (index and assertion checks) that its
/// header checks guard in the cases read, but no condition on the bytes is
/// known that rules them all out, so none is required here.
#[verifier::external_body]
fn decode_packets(blob: &[u8]) -> (r: Result<Vec<(Vec<i16>, Option<u64>)>, VorbisError>)
    ensures
        r is Ok <==> vorbis_packets(blob@) is Some,
        r matches Ok(v) ==> packets_model(v@) == vorbis_packets(blob@)->0,
{
    let mut reader = lewton::inside_ogg::OggStreamReader::new(std::io::Cursor::new(blob))?;
    let mut packets = Vec::new();
    while let Some(packet) = reader.read_dec_packet_itl()? {
        packets.push((packet, reader.get_last_absgp()));
    }
    Ok(packets)
}

/// All samples of the packets, one after the other.
pub open spec fn concat_packets(p: Seq<(Seq<i16>, Option<u64>)>) -> Seq<i16>
    decreases p.len(),
{
    if p.len() == 0 {
        seq![]
    } else {
        concat_packets(p.drop_last()) + p.last().0
    }
}

/// The last granule position reported, or `0` when none was.
pub open spec fn final_granule(p: Seq<(Seq<i16>, Option<u64>)>) -> u64
    decreases p.len(),
{
    if p.len() == 0 {
        0
    } else {
        match p.last().1 {
            Some(g) => g,
            None => final_granule(p.drop_last()),
        }
    }
}

/// The PCM of a decoded stream: its packets' samples, cut to the stream's
/// true frame count (the final granule position).
pub open spec fn vorbis_pcm(p: Seq<(Seq<i16>, Option<u64>)>) -> Seq<i16> {
    let all = concat_packets(p);
    if final_granule(p) < all.len() {
        all.take(final_granule(p) as int)
    } else {
        all
    }
}

/// Decodes a single mono Ogg/Vorbis stream into 16-bit PCM.
///
/// Vorbis codes audio in blocks, so decoding the last packet yields more frames
/// than the stream actually contains. The real length is the granule position
/// of the final page, so the accumulated data is truncated to it; without this
/// every sample would carry up to a block of spurious trailing audio. A stream
/// that decodes nothing leaves the frame count at 0 and truncates to empty.
pub fn decode_vorbis(blob: &[u8]) -> (r: Result<Vec<i16>, VorbisError>)
    ensures
        r is Ok <==> vorbis_packets(blob@) is Some,
        r matches Ok(v) ==> v@ == vorbis_pcm(vorbis_packets(blob@)->0),
{
    let packets = match decode_packets(blob) {
        Ok(p) => p,
        Err(e) => return Err(e),
    };
    let ghost model = packets_model(packets@);
    let mut out: Vec<i16> = Vec::new();
    let mut frames: u64 = 0;
    let mut i: usize = 0;
    while i < packets.len()
        invariant
            i <= packets@.len(),
            model == packets_model(packets@),
            out@ == concat_packets(model.take(i as int)),
            frames == final_granule(model.take(i as int)),
        decreases packets@.len() - i,
    {
        let ghost before = out@;
        let packet = &packets[i].0;
        let mut j: usize = 0;
        while j < packet.len()
            invariant
                j <= packet@.len(),
                out@ == before + packet@.take(j as int),
            decreases packet@.len() - j,
        {
            out.push(packet[j]);
            j = j + 1;
            proof {
                assert(packet@.take(j as int) =~= packet@.take(j - 1) + seq![packet@[j - 1]]);
            }
        }
        match packets[i].1 {
            Some(absgp) => {
                frames = absgp;
            },
            None => {},
        }
        proof {
            assert(model.take(i as int + 1).drop_last() =~= model.take(i as int));
            assert(packet@.take(packet@.len() as int) =~= packet@);
        }
        i = i + 1;
    }
    proof {
        assert(model.take(i as int) =~= model);
    }
    if (frames as u128) < (out.len() as u128) {
        out.truncate(frames as usize);
    }
    Ok(out)
}

} // verus!
