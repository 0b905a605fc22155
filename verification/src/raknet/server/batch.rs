//! Framing of outgoing Bedrock packets into game-packet batches.
//!
//! A batch starts with the marker byte 0xfe. Its body is either the
//! length-prefixed packets themselves or their compressed form; compression is
//! done outside this module and handed in as a [`CompressionOutcome`].
use vstd::prelude::*;
use crate::util::buffer::Buffer;
use crate::util::encoding::{
    lemma_var_u32_roundtrip, lemma_var_uint_len, lemma_var_uint_prefix_bounds,
    lemma_var_uint_roundtrip, pow128, var_u32_prefix, var_uint_bytes, var_uint_prefix,
};

verus! {

/// The marker byte that opens every game-packet batch.
pub const BATCH_MARKER: u8 = 0xfe;

/// What became of compressing a batch body.
pub enum CompressionOutcome {
    /// Compression has not been negotiated for the session (or the packet must go out uncompressed).
    Off,
    /// The compressed body.
    Done(Vec<u8>),
    /// Compression was negotiated but failed.
    Failed,
}

/// A packet with its length in front, as a VarUInt.
pub open spec fn length_prefixed(packet: Seq<u8>) -> Seq<u8> {
    var_uint_bytes(packet.len()) + packet
}

/// One packet of a bundle: its length, taken as a 32-bit value, as a VarUInt,
/// then the packet.
pub open spec fn bundle_entry(packet: Seq<u8>) -> Seq<u8> {
    var_uint_bytes((packet.len() as u32) as nat) + packet
}

/// The body of a bundle: each packet in turn as a [`bundle_entry`].
pub open spec fn bundle_body(packets: Seq<Seq<u8>>) -> Seq<u8>
    decreases packets.len(),
{
    if packets.len() == 0 {
        Seq::empty()
    } else {
        bundle_entry(packets[0]) + bundle_body(packets.drop_first())
    }
}

/// The packets of a batch body: a run of 32-bit VarUInt lengths, each followed
/// by that many bytes, up to the end of the body. `None` when the body does
/// not divide that way.
pub open spec fn split_batch_body(body: Seq<u8>) -> Option<Seq<Seq<u8>>>
    decreases body.len(),
{
    if body.len() == 0 {
        Some(Seq::empty())
    } else {
        match var_u32_prefix(body) {
            Some((len, k)) => if k + len <= body.len() {
                proof {
                    lemma_var_uint_prefix_bounds(body, 5);
                }
                match split_batch_body(body.skip(k + len)) {
                    Some(rest) => Some(seq![body.subrange(k as int, k + len)] + rest),
                    None => None,
                }
            } else {
                None
            },
            None => None,
        }
    }
}

/// `packets` in front of the packets of `rest`, when `rest` has any.
pub open spec fn prepend_packets(packets: Seq<Seq<u8>>, rest: Option<Seq<Seq<u8>>>) -> Option<
    Seq<Seq<u8>>,
> {
    match rest {
        Some(r) => Some(packets + r),
        None => None,
    }
}

/// Splits a batch body into its packets; `None` when it does not divide into
/// length-prefixed packets.
pub fn split_batch(body: &[u8]) -> (packets: Option<Vec<Vec<u8>>>)
    ensures
        match packets {
            Some(ps) => split_batch_body(body@) == Some(ps@.map_values(|p: Vec<u8>| p@)),
            None => split_batch_body(body@) is None,
        },
{
    let mut buf = Buffer::from_slice(body);
    let mut packets: Vec<Vec<u8>> = Vec::new();
    assert(packets@.map_values(|p: Vec<u8>| p@) + Seq::<Seq<u8>>::empty() =~= Seq::<Seq<u8>>::empty());
    loop
        invariant
            split_batch_body(body@) == prepend_packets(
                packets@.map_values(|p: Vec<u8>| p@),
                split_batch_body(buf.unread()),
            ),
        decreases buf.unread().len(),
    {
        let ghost u = buf.unread();
        let ghost done = packets@.map_values(|p: Vec<u8>| p@);
        if buf.remaining() == 0 {
            assert(done + Seq::<Seq<u8>>::empty() =~= done);
            return Some(packets);
        }
        proof {
            lemma_var_uint_prefix_bounds(u, 5);
        }
        let len = match buf.read_var_int() {
            Ok(len) => len,
            Err(_) => return None,
        };
        let packet = match buf.read_bytes(len as usize) {
            Ok(p) => p,
            Err(_) => return None,
        };
        proof {
            let k = var_u32_prefix(u).unwrap().1;
            assert(u.skip(k as int).take(len as int) =~= u.subrange(k as int, k + len));
            assert(u.skip(k as int).skip(len as int) =~= u.skip(k + len));
        }
        packets.push(packet);
        proof {
            let k = var_u32_prefix(u).unwrap().1;
            let now = packets@.map_values(|p: Vec<u8>| p@);
            assert(now =~= done.push(u.subrange(k as int, k + len)));
            match split_batch_body(buf.unread()) {
                Some(r) => {
                    assert(done + (seq![u.subrange(k as int, k + len)] + r) =~= now + r);
                },
                None => {},
            }
        }
    }
}

/// Appending a packet to a bundle appends its entry to the body.
pub proof fn lemma_bundle_body_push(packets: Seq<Seq<u8>>, packet: Seq<u8>)
    ensures
        bundle_body(packets.push(packet)) == bundle_body(packets) + bundle_entry(packet),
    decreases packets.len(),
{
    if packets.len() == 0 {
        let one = packets.push(packet);
        assert(one.drop_first() =~= Seq::<Seq<u8>>::empty());
        assert(one[0] == packet);
        assert(bundle_body(one.drop_first()) == Seq::<u8>::empty());
        assert(bundle_body(one) == bundle_entry(packet) + Seq::<u8>::empty());
        assert(bundle_body(one) =~= bundle_entry(packet));
        assert(bundle_body(packets) == Seq::<u8>::empty());
    } else {
        lemma_bundle_body_push(packets.drop_first(), packet);
        assert(packets.push(packet).drop_first() =~= packets.drop_first().push(packet));
        assert(packets.push(packet)[0] == packets[0]);
        assert(bundle_body(packets.push(packet)) =~= bundle_body(packets) + bundle_entry(packet));
    }
}

/// A bundle body splits back into the packets that were bundled, as long as
/// each packet's length fits in 32 bits.
pub proof fn lemma_split_bundle_body(packets: Seq<Seq<u8>>)
    requires
        forall|i: int| 0 <= i < packets.len() ==> #[trigger] packets[i].len() <= u32::MAX,
    ensures
        split_batch_body(bundle_body(packets)) == Some(packets),
    decreases packets.len(),
{
    if packets.len() == 0 {
        assert(Seq::<Seq<u8>>::empty() =~= packets);
    } else {
        let first = packets[0];
        let tail = packets.drop_first();
        assert forall|i: int| 0 <= i < tail.len() implies #[trigger] tail[i].len() <= u32::MAX by {
            assert(tail[i] == packets[i + 1]);
        }
        lemma_split_bundle_body(tail);
        let body = bundle_body(packets);
        let len = first.len();
        assert(((len as u32) as nat) == len);
        let k = var_uint_bytes(len).len();
        lemma_var_u32_roundtrip(len as u32, first + bundle_body(tail));
        assert(body =~= var_uint_bytes(len) + (first + bundle_body(tail)));
        assert(body.subrange(k as int, (k + len) as int) =~= first);
        assert(body.skip((k + len) as int) =~= bundle_body(tail));
        assert(seq![first] + tail =~= packets);
    }
}

/// The batch for one packet: the marker, then the compressed body when
/// compression succeeded, else the length-prefixed packet.
pub open spec fn single_batch_bytes(wrapped: Seq<u8>, compressed: Option<Seq<u8>>) -> Seq<u8> {
    match compressed {
        Some(c) => seq![BATCH_MARKER] + c,
        None => seq![BATCH_MARKER] + wrapped,
    }
}

/// Whether a packet is compressed: only when the session negotiated compression
/// and the packet is not one that must go out uncompressed.
pub open spec fn compression_applies(force_uncompressed: bool, session_compression: Option<bool>) -> bool {
    !force_uncompressed && session_compression == Some(true)
}

/// Decides whether a packet is compressed for a session; a session that is not
/// known gets no compression.
pub fn use_compression(force_uncompressed: bool, session_compression: Option<bool>) -> (c: bool)
    ensures
        c == compression_applies(force_uncompressed, session_compression),
{
    if force_uncompressed {
        false
    } else {
        match session_compression {
            Some(enabled) => enabled,
            None => false,
        }
    }
}

/// Prefixes a packet with its length as a VarUInt.
pub fn wrap_with_length(packet: &[u8]) -> (wrapped: Vec<u8>)
    ensures
        wrapped@ == length_prefixed(packet@),
{
    let mut buf = Buffer::new();
    let _ = buf.write_var_u64(packet.len() as u64);
    assert(buf@ =~= var_uint_bytes(packet@.len()));
    let _ = buf.write_bytes(packet);
    buf.to_vec()
}

/// Concatenates packets, each prefixed by its length (taken as a 32-bit value)
/// as a VarUInt: the body of a bundle batch.
pub fn bundle_payload(packets: &Vec<Vec<u8>>) -> (body: Vec<u8>)
    ensures
        body@ == bundle_body(packets@.map_values(|p: Vec<u8>| p@)),
{
    let ghost models = packets@.map_values(|p: Vec<u8>| p@);
    let mut buf = Buffer::new();
    let mut i: usize = 0;
    while i < packets.len()
        invariant
            i <= packets@.len(),
            models == packets@.map_values(|p: Vec<u8>| p@),
            buf@ == bundle_body(models.take(i as int)),
        decreases packets@.len() - i,
    {
        let packet = &packets[i];
        let ghost before = buf@;
        let _ = buf.write_var_int(packet.len() as u32);
        let _ = buf.write_bytes(packet.as_slice());
        proof {
            assert(models.take(i + 1) =~= models.take(i as int).push(packet@));
            lemma_bundle_body_push(models.take(i as int), packet@);
            assert(buf@ =~= before + bundle_entry(packet@));
        }
        i = i + 1;
    }
    assert(models.take(i as int) =~= models);
    buf.to_vec()
}

/// The batch that carries one packet. A failed compression falls back to the
/// uncompressed length-prefixed packet.
pub fn single_batch(wrapped: &[u8], outcome: &CompressionOutcome) -> (batch: Vec<u8>)
    ensures
        batch@ == single_batch_bytes(
            wrapped@,
            match outcome {
                CompressionOutcome::Done(c) => Some(c@),
                _ => None,
            },
        ),
{
    let mut buf = Buffer::new();
    let _ = buf.write_u8(BATCH_MARKER);
    match outcome {
        CompressionOutcome::Done(c) => {
            let _ = buf.write_bytes(c.as_slice());
        },
        _ => {
            let _ = buf.write_bytes(wrapped);
        },
    }
    buf.to_vec()
}

/// The batch that carries a bundle: the marker, then the compressed body, or
/// the plain body when compression is off. When compression was negotiated but
/// failed, a zero byte ("no compression") goes between the marker and the body.
pub fn bundle_batch(body: &[u8], outcome: &CompressionOutcome) -> (batch: Vec<u8>)
    ensures
        batch@ == match outcome {
            CompressionOutcome::Off => seq![BATCH_MARKER] + body@,
            CompressionOutcome::Done(c) => seq![BATCH_MARKER] + c@,
            CompressionOutcome::Failed => seq![BATCH_MARKER, 0u8] + body@,
        },
{
    let mut buf = Buffer::new();
    let _ = buf.write_u8(BATCH_MARKER);
    match outcome {
        CompressionOutcome::Off => {
            let _ = buf.write_bytes(body);
        },
        CompressionOutcome::Done(c) => {
            let _ = buf.write_bytes(c.as_slice());
        },
        CompressionOutcome::Failed => {
            let _ = buf.write_u8(0);
            assert(seq![BATCH_MARKER] + seq![0u8] =~= seq![BATCH_MARKER, 0u8]);
            let _ = buf.write_bytes(body);
        },
    }
    buf.to_vec()
}

/// A length-prefixed packet reads back as its length followed by the packet:
/// a receiver that reads the VarUInt length and then that many bytes gets the
/// packet that was framed, whatever follows it.
pub proof fn lemma_length_prefixed_roundtrip(packet: Seq<u8>, rest: Seq<u8>)
    requires
        packet.len() < pow128(10),
    ensures
        var_uint_prefix(length_prefixed(packet) + rest, 10) == Some(
            (packet.len(), var_uint_bytes(packet.len()).len()),
        ),
        (length_prefixed(packet) + rest).subrange(
            var_uint_bytes(packet.len()).len() as int,
            (var_uint_bytes(packet.len()).len() + packet.len()) as int,
        ) == packet,
{
    lemma_var_uint_len(packet.len(), 10);
    lemma_var_uint_roundtrip(packet.len(), packet + rest, 10);
    assert(length_prefixed(packet) + rest =~= var_uint_bytes(packet.len()) + (packet + rest));
    assert((length_prefixed(packet) + rest).subrange(
        var_uint_bytes(packet.len()).len() as int,
        (var_uint_bytes(packet.len()).len() + packet.len()) as int,
    ) =~= packet);
}

/// The algorithm byte in front of a DEFLATE-compressed batch body.
pub const ALGO_DEFLATE: u8 = 0x00;

/// The algorithm byte in front of a batch body sent without compression.
pub const ALGO_NONE: u8 = 0xff;

/// What `flate2` produces for `data` as raw DEFLATE (RFC 1951) at its default
/// level into a `Vec`; `None` when the encoder reports an error.
pub uninterp spec fn deflate_raw(data: Seq<u8>) -> Option<Seq<u8>>;

/// What raw DEFLATE `data` decompresses to with `flate2`; `None` when it is not valid DEFLATE.
pub uninterp spec fn inflate_raw(data: Seq<u8>) -> Option<Seq<u8>>;

/// `flate2::write::DeflateEncoder` into a `Vec` at the default level: writes
/// `data` and finishes the stream. Trusted: the encoder's output, or `None`
/// exactly when it reports an error; with a fixed level, a fixed internal
/// buffer and a `Vec` to write into, both depend on `data` alone.
#[verifier::external_body]
fn deflate(data: &[u8]) -> (r: Option<Vec<u8>>)
    ensures
        match r {
            Some(c) => deflate_raw(data@) == Some(c@),
            None => deflate_raw(data@) is None,
        },
{
    let mut encoder = flate2::write::DeflateEncoder::new(Vec::new(), flate2::Compression::default());
    match std::io::Write::write_all(&mut encoder, data) {
        Ok(()) => encoder.finish().ok(),
        Err(_) => None,
    }
}

/// `flate2::read::DeflateDecoder` over `data`, read to the end. Trusted: the
/// decoded bytes, or `None` exactly when the decoder reports an error, which
/// for an in-memory input depends on `data` alone.
#[verifier::external_body]
fn inflate(data: &[u8]) -> (r: Option<Vec<u8>>)
    ensures
        match r {
            Some(d) => inflate_raw(data@) == Some(d@),
            None => inflate_raw(data@) is None,
        },
{
    let mut out = Vec::new();
    match std::io::Read::read_to_end(&mut flate2::read::DeflateDecoder::new(data), &mut out) {
        Ok(_) => Some(out),
        Err(_) => None,
    }
}

/// The compressed form of a batch body, given what DEFLATE made of it: the
/// DEFLATE algorithm byte, then the compressed bytes; `Failed` when DEFLATE failed.
pub fn compressed_body(deflated: Option<Vec<u8>>) -> (outcome: CompressionOutcome)
    ensures
        match deflated {
            Some(c) => outcome matches CompressionOutcome::Done(b) && b@ == seq![ALGO_DEFLATE]
                + c@,
            None => outcome is Failed,
        },
{
    match deflated {
        Some(c) => {
            let mut buf = Buffer::new();
            let _ = buf.write_u8(ALGO_DEFLATE);
            let _ = buf.write_bytes(c.as_slice());
            CompressionOutcome::Done(buf.to_vec())
        },
        None => CompressionOutcome::Failed,
    }
}

/// Compresses a batch body for a session that negotiated compression.
pub fn compress_batch(body: &[u8]) -> (outcome: CompressionOutcome)
    ensures
        outcome_model(outcome) == compressed_model(body@),
{
    compressed_body(deflate(body))
}

/// The view of a [`CompressionOutcome`]: `None` for `Off`, `Some(None)` for
/// `Failed`, `Some(Some(bytes))` for `Done`.
pub open spec fn outcome_model(outcome: CompressionOutcome) -> Option<Option<Seq<u8>>> {
    match outcome {
        CompressionOutcome::Off => None,
        CompressionOutcome::Failed => Some(None),
        CompressionOutcome::Done(b) => Some(Some(b@)),
    }
}

/// What compressing a batch body gives: the DEFLATE algorithm byte and the
/// compressed bytes, or a failure when DEFLATE fails.
pub open spec fn compressed_model(body: Seq<u8>) -> Option<Option<Seq<u8>>> {
    match deflate_raw(body) {
        Some(c) => Some(Some(seq![ALGO_DEFLATE] + c)),
        None => Some(None),
    }
}

/// The batch that carries one packet to a session: length-prefixed, then
/// compressed when compression applies (see [`compression_applies`]); when
/// compression fails the packet goes out uncompressed.
pub open spec fn single_frame(
    packet: Seq<u8>,
    force_uncompressed: bool,
    session_compression: Option<bool>,
) -> Seq<u8> {
    if compression_applies(force_uncompressed, session_compression) {
        match deflate_raw(length_prefixed(packet)) {
            Some(c) => seq![BATCH_MARKER, ALGO_DEFLATE] + c,
            None => seq![BATCH_MARKER] + length_prefixed(packet),
        }
    } else {
        seq![BATCH_MARKER] + length_prefixed(packet)
    }
}

/// The batch that carries several packets to a session: their bundle body,
/// compressed when the session negotiated compression; when compression fails,
/// a zero byte goes before the plain body.
pub open spec fn bundle_frame(packets: Seq<Seq<u8>>, session_compression: Option<bool>) -> Seq<u8> {
    let body = bundle_body(packets);
    if compression_applies(false, session_compression) {
        match deflate_raw(body) {
            Some(c) => seq![BATCH_MARKER, ALGO_DEFLATE] + c,
            None => seq![BATCH_MARKER, 0u8] + body,
        }
    } else {
        seq![BATCH_MARKER] + body
    }
}

/// Frames one packet for a session whose compression state is
/// `session_compression` (`None` when the session is unknown).
pub fn frame_single(packet: &[u8], force_uncompressed: bool, session_compression: Option<bool>) -> (batch:
    Vec<u8>)
    ensures
        batch@ == single_frame(packet@, force_uncompressed, session_compression),
{
    let wrapped = wrap_with_length(packet);
    let outcome = if use_compression(force_uncompressed, session_compression) {
        compress_batch(wrapped.as_slice())
    } else {
        CompressionOutcome::Off
    };
    let batch = single_batch(wrapped.as_slice(), &outcome);
    proof {
        if let CompressionOutcome::Done(b) = outcome {
            assert(seq![BATCH_MARKER] + b@ =~= seq![BATCH_MARKER, ALGO_DEFLATE] + deflate_raw(
                wrapped@,
            ).unwrap());
        }
    }
    batch
}

/// Frames several packets into one batch for a session whose compression state
/// is `session_compression` (`None` when the session is unknown).
pub fn frame_bundle(packets: &Vec<Vec<u8>>, session_compression: Option<bool>) -> (batch: Vec<u8>)
    ensures
        batch@ == bundle_frame(packets@.map_values(|p: Vec<u8>| p@), session_compression),
{
    let body = bundle_payload(packets);
    let outcome = if use_compression(false, session_compression) {
        compress_batch(body.as_slice())
    } else {
        CompressionOutcome::Off
    };
    let batch = bundle_batch(body.as_slice(), &outcome);
    proof {
        if let CompressionOutcome::Done(b) = outcome {
            assert(seq![BATCH_MARKER] + b@ =~= seq![BATCH_MARKER, ALGO_DEFLATE] + deflate_raw(
                body@,
            ).unwrap());
        }
    }
    batch
}

/// A bundle of one packet goes out exactly like that packet on its own,
/// unless compression applies and fails (a failed bundle carries a zero byte
/// that a single packet does not), or the packet's length does not fit in 32
/// bits (a bundle takes its length modulo 2^32).
pub proof fn lemma_bundle_of_one_is_single(packet: Seq<u8>, session_compression: Option<bool>)
    requires
        packet.len() <= u32::MAX,
        !(compression_applies(false, session_compression) && deflate_raw(
            length_prefixed(packet),
        ) is None),
    ensures
        bundle_frame(seq![packet], session_compression) == single_frame(
            packet,
            false,
            session_compression,
        ),
{
    let one = seq![packet];
    assert(one.drop_first() =~= Seq::<Seq<u8>>::empty());
    assert(one[0] == packet);
    assert(bundle_body(one.drop_first()) == Seq::<u8>::empty());
    assert(((packet.len() as u32) as nat) == packet.len());
    assert(bundle_entry(packet) == length_prefixed(packet));
    assert(bundle_body(one) == bundle_entry(packet) + Seq::<u8>::empty());
    assert(bundle_body(one) =~= length_prefixed(packet));
}

/// The body of a received batch from a session that negotiated compression,
/// by its algorithm byte: DEFLATE data is inflated, `ALGO_NONE` data is taken
/// as it is, and a body with another first byte (or none) is taken whole.
/// `None` when DEFLATE data does not inflate.
pub open spec fn decompressed_body(received: Seq<u8>) -> Option<Seq<u8>> {
    if received.len() > 0 && received[0] == ALGO_DEFLATE {
        inflate_raw(received.drop_first())
    } else if received.len() > 0 && received[0] == ALGO_NONE {
        Some(received.drop_first())
    } else {
        Some(received)
    }
}

/// Decompresses the body of a received batch (see [`decompressed_body`]).
pub fn decompress_batch(received: &[u8]) -> (body: Option<Vec<u8>>)
    ensures
        match body {
            Some(b) => decompressed_body(received@) == Some(b@),
            None => decompressed_body(received@) is None,
        },
{
    if received.len() > 0 && received[0] == ALGO_DEFLATE {
        let rest = vstd::slice::slice_subrange(received, 1, received.len());
        assert(rest@ =~= received@.drop_first());
        inflate(rest)
    } else if received.len() > 0 && received[0] == ALGO_NONE {
        let rest = vstd::slice::slice_subrange(received, 1, received.len());
        assert(rest@ =~= received@.drop_first());
        Some(vstd::slice::slice_to_vec(rest))
    } else {
        Some(vstd::slice::slice_to_vec(received))
    }
}

} // verus!
