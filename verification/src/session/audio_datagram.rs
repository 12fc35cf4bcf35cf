//! Audio packets in datagrams.

use crate::protocol::audio::{
    AudioPacket, AudioPacketModel, Header, HEADER_SIZE, MAX_FRAGMENTS, MAX_PACKET_SIZE,
};
use crate::session::chunking;
use vstd::prelude::*;

verus! {

/// The header of fragment `index`.
pub open spec fn header_of(packet: AudioPacketModel, capacity: nat, index: int) -> Header {
    Header {
        generation: packet.generation,
        sequence: packet.sequence,
        captured_at_micros: packet.captured_at_micros,
        decoded_samples: packet.decoded_samples,
        skip_start_samples: packet.skip_start_samples,
        skip_end_samples: packet.skip_end_samples,
        packet_size: packet.payload.len() as u16,
        fragment_index: index as u16,
        fragment_count: chunking::chunks_needed(packet.payload.len(), capacity) as u16,
        offset: (index * capacity) as u16,
        payload_size: chunking::chunk_of(packet.payload, capacity, index).len() as u16,
    }
}

/// The datagrams of a packet: each a header and its part of the payload.
pub open spec fn datagrams_of(packet: AudioPacketModel, capacity: nat) -> Seq<Seq<u8>> {
    Seq::new(
        chunking::chunks_needed(packet.payload.len(), capacity),
        |index: int|
            header_of(packet, capacity, index).wire() + chunking::chunk_of(
                packet.payload,
                capacity,
                index,
            ),
    )
}

/// What every fragment tells of its packet is well formed.
pub open spec fn has_valid_samples(packet: AudioPacketModel) -> bool {
    packet.generation != 0 && packet.decoded_samples == 480 && packet.skip_start_samples
        + packet.skip_end_samples <= packet.decoded_samples
}

/// Why a packet is not cut into datagrams, if it is not.
pub open spec fn packetize_error(packet: AudioPacketModel, maximum_datagram_size: usize) -> Option<
    Seq<char>,
> {
    if maximum_datagram_size <= HEADER_SIZE {
        Some("audio datagram limit too small"@)
    } else if packet.payload.len() == 0 || packet.payload.len() > MAX_PACKET_SIZE {
        Some("invalid audio packet size"@)
    } else if chunking::chunks_needed(
        packet.payload.len(),
        (maximum_datagram_size - HEADER_SIZE) as nat,
    ) > MAX_FRAGMENTS {
        Some("too many audio fragments"@)
    } else if !has_valid_samples(packet) {
        Some("invalid audio fragment header"@)
    } else {
        None
    }
}

/// The headers of a packet that can be cut are well formed.
pub proof fn lemma_header_is_well_formed(packet: AudioPacketModel, capacity: nat, index: int)
    requires
        0 < packet.payload.len() <= MAX_PACKET_SIZE,
        capacity > 0,
        chunking::chunks_needed(packet.payload.len(), capacity) <= MAX_FRAGMENTS,
        0 <= index < chunking::chunks_needed(packet.payload.len(), capacity),
    ensures
        has_valid_samples(packet) <==> header_of(packet, capacity, index).well_formed(),
        header_of(packet, capacity, index).offset == index * capacity,
        header_of(packet, capacity, index).payload_size == chunking::chunk_of(
            packet.payload,
            capacity,
            index,
        ).len(),
        header_of(packet, capacity, index).offset + header_of(packet, capacity, index).payload_size
            <= packet.payload.len(),
        header_of(packet, capacity, index).payload_size > 0,
{
    chunking::lemma_chunks_needed(packet.payload.len(), capacity);
    chunking::lemma_chunk_bounds(packet.payload.len(), capacity, index);
}

/// Cuts a packet into datagrams of at most `maximum_datagram_size` bytes.
pub fn packetize(packet: &AudioPacket, maximum_datagram_size: usize) -> (result: Result<
    Vec<Vec<u8>>,
    &'static str,
>)
    ensures
        match result {
            Ok(datagrams) => packetize_error(packet@, maximum_datagram_size) is None
                && chunking::datagram_views(datagrams@) == datagrams_of(
                packet@,
                (maximum_datagram_size - HEADER_SIZE) as nat,
            ),
            Err(error) => packetize_error(packet@, maximum_datagram_size) == Some(error@),
        },
{
    if maximum_datagram_size <= HEADER_SIZE {
        return Err("audio datagram limit too small");
    }
    let capacity: usize = maximum_datagram_size - HEADER_SIZE;
    let size: usize = packet.payload.len();
    if size == 0 || size > MAX_PACKET_SIZE {
        return Err("invalid audio packet size");
    }
    proof {
        chunking::lemma_chunks_needed(size as nat, capacity as nat);
    }
    let whole: usize = size / capacity;
    let count: usize = if size % capacity == 0 {
        whole
    } else {
        whole + 1
    };
    if count > MAX_FRAGMENTS {
        return Err("too many audio fragments");
    }
    let ghost expected = datagrams_of(packet@, capacity as nat);
    let mut datagrams: Vec<Vec<u8>> = Vec::with_capacity(count);
    let mut index: usize = 0;
    let mut start: usize = 0;
    while index < count
        invariant
            size == packet.payload@.len(),
            0 < size <= MAX_PACKET_SIZE,
            maximum_datagram_size > HEADER_SIZE,
            capacity == maximum_datagram_size - HEADER_SIZE,
            1 <= count <= MAX_FRAGMENTS,
            count == chunking::chunks_needed(size as nat, capacity as nat),
            index <= count,
            index > 0 ==> has_valid_samples(packet@),
            index < count ==> start == index * capacity,
            expected == datagrams_of(packet@, capacity as nat),
            chunking::datagram_views(datagrams@) == expected.take(index as int),
        decreases count - index,
    {
        proof {
            chunking::lemma_chunk_bounds(size as nat, capacity as nat, index as int);
            lemma_header_is_well_formed(packet@, capacity as nat, index as int);
        }
        let end: usize = if capacity <= size - start {
            start + capacity
        } else {
            size
        };
        let chunk = vstd::slice::slice_subrange(packet.payload.as_slice(), start, end);
        assert(chunk@ =~= chunking::chunk_of(packet.payload@, capacity as nat, index as int));
        let header = Header {
            generation: packet.generation,
            sequence: packet.sequence,
            captured_at_micros: packet.captured_at_micros,
            decoded_samples: packet.decoded_samples,
            skip_start_samples: packet.skip_start_samples,
            skip_end_samples: packet.skip_end_samples,
            packet_size: size as u16,
            fragment_index: index as u16,
            fragment_count: count as u16,
            offset: start as u16,
            payload_size: (end - start) as u16,
        };
        assert(header == header_of(packet@, capacity as nat, index as int));
        let mut datagram = match header.encode() {
            Ok(bytes) => bytes,
            Err(error) => {
                return Err(error);
            },
        };
        datagram.extend_from_slice(chunk);
        assert(datagram@ =~= expected[index as int]);
        let ghost before = datagrams@;
        datagrams.push(datagram);
        assert(chunking::datagram_views(datagrams@) =~= chunking::datagram_views(before).push(
            datagram@,
        ));
        assert(expected.take(index + 1)
            =~= expected.take(index as int).push(expected[index as int]));
        start = end;
        index = index + 1;
    }
    assert(expected.take(index as int) =~= expected);
    Ok(datagrams)
}

/// Why a packet is not cut: the datagrams have no room beside the forty-eight
/// bytes of the header, the packet is empty or longer than 7657 bytes, it needs
/// more than sixty-four fragments, or its samples are not those of a packet. The
/// first of these that holds is named.
pub proof fn law_why_packets_are_not_cut(packet: AudioPacketModel, maximum_datagram_size: usize)
    ensures
        ({
            let size = packet.payload.len();
            let room = maximum_datagram_size - 48;
            let error = packetize_error(packet, maximum_datagram_size);
            let samples = packet.generation != 0 && packet.decoded_samples == 480
                && packet.skip_start_samples + packet.skip_end_samples <= 480;
            &&& error is None <==> room > 0 && 0 < size <= 7_657 && size <= 64 * room && samples
            &&& room <= 0 ==> error == Some("audio datagram limit too small"@)
            &&& room > 0 && !(0 < size <= 7_657) ==> error == Some("invalid audio packet size"@)
            &&& room > 0 && 0 < size <= 7_657 && size > 64 * room ==> error == Some(
                "too many audio fragments"@,
            )
            &&& room > 0 && 0 < size <= 7_657 && size <= 64 * room && !samples ==> error == Some(
                "invalid audio fragment header"@,
            )
        }),
{
    let size = packet.payload.len();
    if maximum_datagram_size > HEADER_SIZE && 0 < size <= MAX_PACKET_SIZE {
        let room = (maximum_datagram_size - HEADER_SIZE) as nat;
        chunking::lemma_chunks_needed(size, room);
        let count = chunking::chunks_needed(size, room);
        if count <= 64 {
            assert(count * room <= 64 * room) by (nonlinear_arith)
                requires
                    0 <= count <= 64,
                    room >= 0,
            ;
        } else {
            assert((count - 1) * room >= 64 * room) by (nonlinear_arith)
                requires
                    count >= 65,
                    room >= 0,
            ;
        }
    }
}

} // verus!
