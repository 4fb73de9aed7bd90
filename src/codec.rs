//! The RaptorQ codec around one block: encoder parameters, the packets the
//! encoder emits, and an incremental decoder.
use vstd::prelude::*;

verus! {

#[verifier::external_type_specification]
#[verifier::external_body]
pub struct ExDecoder(raptorq::Decoder);

/// Largest number of source symbols in one codec source block.
pub const MAX_SOURCE_SYMBOLS_PER_BLOCK: u64 = 56403;

/// Largest number of source blocks the codec's 8-bit field can describe.
pub const MAX_SOURCE_BLOCKS: u64 = 255;

/// Largest repair count per source block: encoding symbol ids are 24-bit and
/// repair symbols are numbered after up to `MAX_SOURCE_SYMBOLS_PER_BLOCK`
/// source symbols.
pub const MAX_REPAIR_SYMBOLS: u64 = 16720813;

/// The 12 serialized encoder parameters that the codec derives for an object
/// of `transfer_length` bytes and packets of at most `max_packet_size` bytes.
pub uninterp spec fn encoder_config(transfer_length: u64, max_packet_size: u16) -> Seq<u8>;

/// The serialized packets (source then repair) the codec emits for `data`.
pub uninterp spec fn encoded_packets(data: Seq<u8>, max_packet_size: u16, repair: u32) -> Seq<Seq<u8>>;

/// The symbol size the codec uses for a maximum packet size: rounded down to
/// a multiple of 8 from 64 bytes on.
pub open spec fn aligned_symbol_size(max_packet_size: int) -> int {
    if max_packet_size >= 64 { max_packet_size - max_packet_size % 8 } else { max_packet_size }
}

/// Largest object the codec can describe with packets of `max_packet_size`.
pub open spec fn codec_limit(max_packet_size: int) -> int {
    MAX_SOURCE_BLOCKS * MAX_SOURCE_SYMBOLS_PER_BLOCK * aligned_symbol_size(max_packet_size)
}

/// Transfer length recorded in serialized encoder parameters (40 bits).
pub open spec fn params_transfer_length(p: Seq<u8>) -> int {
    p[0] * 0x1_0000_0000 + p[1] * 0x100_0000 + p[2] * 0x1_0000 + p[3] * 0x100 + p[4]
}

/// Symbol size recorded in serialized encoder parameters.
pub open spec fn params_symbol_size(p: Seq<u8>) -> int {
    p[6] * 0x100 + p[7]
}

/// Number of source blocks recorded in serialized encoder parameters.
pub open spec fn params_source_blocks(p: Seq<u8>) -> int {
    p[8] as int
}

/// Parameters a decoder can be built from: exactly those the encoder derives
/// for the transfer length and symbol size they record, within the codec's
/// limits.
pub open spec fn decodable_params(p: Seq<u8>) -> bool {
    &&& p.len() == 12
    &&& params_transfer_length(p) > 0
    &&& 0 < params_symbol_size(p)
    &&& params_transfer_length(p) <= codec_limit(params_symbol_size(p))
    &&& p == encoder_config(params_transfer_length(p) as u64, params_symbol_size(p) as u16)
}

/// A packet the decoder for `p` can take: a 4-byte header naming one of its
/// source blocks, then exactly one symbol.
pub open spec fn packet_fits(p: Seq<u8>, packet: Seq<u8>) -> bool {
    &&& packet.len() == 4 + params_symbol_size(p)
    &&& (packet[0] as int) < params_source_blocks(p)
}

/// The codec's parameters for `transfer_length` bytes.
///
/// Relies on `ObjectTransmissionInformation::with_defaults` and its
/// `serialize`: the 12 bytes depend on the two arguments alone. It panics on
/// a zero length or size, and divides by zero once the symbol count it
/// truncates to 32 bits wraps to 0; `requires` leaves those out.
#[verifier::external_body]
fn encoder_parameters(transfer_length: u64, max_packet_size: u16) -> (r: [u8; 12])
    requires
        transfer_length > 0,
        max_packet_size > 0,
        transfer_length <= codec_limit(max_packet_size as int),
    ensures
        r@ == encoder_config(transfer_length, max_packet_size),
{
    raptorq::ObjectTransmissionInformation::with_defaults(transfer_length, max_packet_size).serialize()
}

/// Encodes one block.
///
/// Relies on `raptorq::Encoder::with_defaults(data, max_packet_size)`: its
/// `get_config()` is `ObjectTransmissionInformation::with_defaults` of the
/// data's length, and `get_encoded_packets(repair)`, each packet through
/// `serialize`, depends on the arguments alone. Empty data, a zero packet
/// size, more source blocks than the 8-bit field holds, or repair symbols
/// numbered past the 24-bit symbol id (`PayloadId::new` asserts) are left
/// out. The parameters serialize the length (40 bits), the symbol size
/// rounded down to the alignment (8 from 64 bytes on) and the source block
/// count (at least 1, at most 255 here). Each source block yields its source
/// packets (their number over all blocks is `ceil(len / symbol size)`) and
/// `repair` repair packets; every packet is the 4-byte id (source block
/// first) and one symbol.
#[verifier::external_body]
fn encode_with_defaults(data: &[u8], max_packet_size: u16, repair: u32) -> (r: (
    [u8; 12],
    Vec<Vec<u8>>,
))
    requires
        data@.len() > 0,
        max_packet_size > 0,
        data@.len() <= codec_limit(max_packet_size as int),
        repair <= MAX_REPAIR_SYMBOLS,
    ensures
        r.0@ == encoder_config(data@.len() as u64, max_packet_size),
        r.1.deep_view() == encoded_packets(data@, max_packet_size, repair),
        encoded_shape(r.0@, r.1.deep_view(), data@.len() as int, max_packet_size as int, repair as int),
{
    let encoder = raptorq::Encoder::with_defaults(data, max_packet_size);
    let packets = encoder.get_encoded_packets(repair);
    (encoder.get_config().serialize(), packets.iter().map(|p| p.serialize()).collect())
}

/// Encoder parameters and serialized packets for one block.
pub struct EncodedBlock {
    /// The 12 serialized encoder parameters.
    pub params: Vec<u8>,
    /// The serialized packets, source symbols first.
    pub packets: Vec<Vec<u8>>,
}

/// Packets the codec emits for `size` bytes under parameters `p`: one per
/// source symbol, and `repair` per source block.
pub open spec fn emitted_count(p: Seq<u8>, size: int, repair: int) -> int {
    (size + params_symbol_size(p) - 1) / params_symbol_size(p) + params_source_blocks(p) * repair
}

/// What the encoder's parameters for `size` bytes with packets of at most
/// `max_packet_size` record, and the shape of every packet it emits.
pub open spec fn encoded_shape(p: Seq<u8>, packets: Seq<Seq<u8>>, size: int, max_packet_size: int, repair: int) -> bool {
    &&& p.len() == 12
    &&& params_transfer_length(p) == size
    &&& params_symbol_size(p) == aligned_symbol_size(max_packet_size)
    &&& 1 <= params_source_blocks(p)
    &&& packets.len() == emitted_count(p, size, repair)
    &&& forall|i: int| 0 <= i < packets.len() ==> packet_fits(p, #[trigger] packets[i])
}

/// Whether a block of `size` bytes can be encoded with `symbol_size`.
pub open spec fn encodable(size: int, symbol_size: int) -> bool {
    0 < size <= codec_limit(symbol_size) && symbol_size > 0
}

/// Encodes `data` with `repair` repair symbols and packets of at most
/// `symbol_size` bytes.
pub fn encode_block_packets(data: &[u8], symbol_size: u16, repair: u32) -> (r: EncodedBlock)
    requires
        encodable(data@.len() as int, symbol_size as int),
        repair <= MAX_REPAIR_SYMBOLS,
    ensures
        r.params@ == encoder_config(data@.len() as u64, symbol_size),
        r.packets.deep_view() == encoded_packets(data@, symbol_size, repair),
        encoded_shape(r.params@, r.packets.deep_view(), data@.len() as int, symbol_size as int, repair as int),
        r.packets@.len() > repair,
{
    let (params, packets) = encode_with_defaults(data, symbol_size, repair);
    let mut v: Vec<u8> = Vec::new();
    let mut i: usize = 0;
    while i < 12
        invariant
            0 <= i <= 12,
            v@ == params@.take(i as int),
        decreases 12 - i,
    {
        v.push(params[i]);
        i = i + 1;
        assert(v@ =~= params@.take(i as int));
    }
    assert(v@ =~= params@);
    proof {
        let p = params@;
        assert((data@.len() + params_symbol_size(p) - 1) / params_symbol_size(p) >= 1) by {
            assert(aligned_symbol_size(symbol_size as int) >= 1);
            vstd::arithmetic::div_mod::lemma_div_is_ordered(params_symbol_size(p), data@.len() + params_symbol_size(p) - 1, params_symbol_size(p));
            vstd::arithmetic::div_mod::lemma_div_basics(params_symbol_size(p));
        }
        assert(params_source_blocks(p) * repair >= repair) by (nonlinear_arith)
            requires params_source_blocks(p) >= 1;
    }
    EncodedBlock { params: v, packets }
}

/// A RaptorQ decoder for one block, kept together with the parameters it
/// was built from.
pub struct BlockDecoder {
    decoder: raptorq::Decoder,
    params: [u8; 12],
}

impl BlockDecoder {
    /// The parameters this decoder was built from.
    pub closed spec fn params(&self) -> Seq<u8> {
        self.params@
    }
}

/// Relies on `raptorq::Decoder::new` over
/// `ObjectTransmissionInformation::deserialize(params)`. Parameters the encoder
/// itself derives never make it panic.
#[verifier::external_body]
fn new_block_decoder(params: [u8; 12]) -> (r: BlockDecoder)
    requires
        decodable_params(params@),
    ensures
        r.params == params,
{
    let config = raptorq::ObjectTransmissionInformation::deserialize(&params);
    BlockDecoder { decoder: raptorq::Decoder::new(config), params }
}

/// Relies on `raptorq::Decoder::decode` over `EncodingPacket::deserialize`:
/// `Some` carries the recovered object once enough packets arrived, cut to
/// the transfer length (`result.truncate(transfer_length)` after joining
/// blocks of `K * T >= transfer_length` bytes). It indexes its source blocks
/// by the packet's first byte and slices symbols of the configured size, so
/// `requires` admits only packets of that shape; the parameters are ones the
/// encoder derives (`new_block_decoder`). Past that shape the decoder's
/// solver depends only on which symbol ids arrived, and runs the same tuple
/// generation (`intermediate_tuple`, `rand`) the encoder runs for its own
/// repair ids; the solver's internal assertions are taken on trust.
#[verifier::external_body]
fn decode_packet(d: &mut BlockDecoder, packet: &[u8]) -> (r: Option<Vec<u8>>)
    requires
        packet_fits(old(d).params@, packet@),
    ensures
        final(d).params == old(d).params,
        r matches Some(v) ==> v@.len() == params_transfer_length(old(d).params@),
{
    d.decoder.decode(raptorq::EncodingPacket::deserialize(packet))
}

impl BlockDecoder {
    /// A decoder for the block described by `params`, or `None` when they are
    /// not parameters the encoder derives.
    pub fn new(params: &[u8]) -> (r: Option<BlockDecoder>)
        ensures
            r is Some <==> decodable_params(params@),
            r matches Some(d) ==> d.params() == params@,
    {
        if params.len() != 12 {
            return None;
        }
        let mut p: [u8; 12] = [0u8; 12];
        let mut i: usize = 0;
        while i < 12
            invariant
                0 <= i <= 12,
                params@.len() == 12,
                p@.len() == 12,
                forall|j: int| 0 <= j < i ==> p@[j] == params@[j],
            decreases 12 - i,
        {
            p[i] = params[i];
            i = i + 1;
        }
        assert(p@ =~= params@);
        let transfer_length: u64 = (p[0] as u64) * 0x1_0000_0000 + (p[1] as u64) * 0x100_0000
            + (p[2] as u64) * 0x1_0000 + (p[3] as u64) * 0x100 + (p[4] as u64);
        let symbol_size: u16 = (p[6] as u16) * 0x100 + (p[7] as u16);
        assert(transfer_length as int == params_transfer_length(params@));
        assert(symbol_size as int == params_symbol_size(params@));
        if transfer_length == 0 || symbol_size == 0 {
            return None;
        }
        if transfer_length > block_limit(symbol_size) {
            return None;
        }
        let expected = encoder_parameters(transfer_length, symbol_size);
        let mut k: usize = 0;
        while k < 12
            invariant
                0 <= k <= 12,
                p@.len() == 12,
                expected@.len() == 12,
                p@ == params@,
                transfer_length as int == params_transfer_length(params@),
                symbol_size as int == params_symbol_size(params@),
                expected@ == encoder_config(transfer_length, symbol_size),
                forall|j: int| 0 <= j < k ==> p@[j] == expected@[j],
            decreases 12 - k,
        {
            if p[k] != expected[k] {
                assert(p@[k as int] != expected@[k as int]);
                return None;
            }
            k = k + 1;
        }
        assert(p@ =~= expected@);
        Some(new_block_decoder(p))
    }

    /// Feeds one serialized packet. Packets of the wrong shape for this block
    /// are skipped (`None`); otherwise the codec's answer is returned: the
    /// recovered block once enough packets arrived.
    pub fn decode(&mut self, packet: &[u8]) -> (r: Option<Vec<u8>>)
        ensures
            final(self).params() == old(self).params(),
            !packet_fits(old(self).params(), packet@) ==> r is None,
            r matches Some(v) ==> v@.len() == params_transfer_length(old(self).params()),
    {
        let size: u16 = (self.params[6] as u16) * 0x100 + (self.params[7] as u16);
        if packet.len() != 4 + size as usize {
            return None;
        }
        if packet[0] >= self.params[8] {
            return None;
        }
        decode_packet(self, packet)
    }
}

/// `codec_limit` for a symbol size, computed.
pub fn block_limit(symbol_size: u16) -> (r: u64)
    ensures
        r as int == codec_limit(symbol_size as int),
{
    let s = symbol_size as u64;
    let aligned = if s >= 64 { s - s % 8 } else { s };
    assert(MAX_SOURCE_BLOCKS * MAX_SOURCE_SYMBOLS_PER_BLOCK * aligned <= u64::MAX) by (nonlinear_arith)
        requires
            aligned <= 65535,
    {}
    MAX_SOURCE_BLOCKS * MAX_SOURCE_SYMBOLS_PER_BLOCK * aligned
}

} // verus!
