//! Network packets of a few kinds.

use vstd::prelude::*;

verus! {

#[derive(Debug)]
pub struct PacketData {
    pub source_ip: String,
    pub destination_ip: String,
    pub payload: Vec<u8>,
}

impl PacketData {
    /// The payload size a new data packet makes room for.
    pub const MAX_PAYLOAD_SIZE: usize = 256;

    /// A data packet without payload.
    pub fn new(source_ip: String, destination_ip: String) -> (packet: Self)
        ensures
            packet.source_ip == source_ip,
            packet.destination_ip == destination_ip,
            packet.payload@ == Seq::<u8>::empty(),
    {
        Self { source_ip, destination_ip, payload: Vec::with_capacity(Self::MAX_PAYLOAD_SIZE) }
    }
}

#[derive(Debug)]
pub struct PacketAck {
    pub packet_id: u32,
    pub receiver_ip: String,
}

#[derive(Debug)]
pub struct PacketSyn {
    pub sender_ip: String,
    pub sequence_number: u32,
}

#[derive(Debug)]
pub struct PacketFin {
    pub sender_ip: String,
}

#[derive(Debug)]
pub enum Packet {
    Data(PacketData),
    Ack(PacketAck),
    Syn(PacketSyn),
    Fin(PacketFin),
    Error(String),
}

/// How many of `packets` are errors.
pub open spec fn errors_among(packets: Seq<Packet>) -> nat
    decreases packets.len(),
{
    if packets.len() == 0 {
        0
    } else if packets.last() is Error {
        errors_among(packets.drop_last()) + 1
    } else {
        errors_among(packets.drop_last())
    }
}

impl Packet {
    /// The address the packet was sent from, for the kinds that carry one.
    pub fn get_sender_ip(&self) -> (sender: Option<&String>)
        ensures
            sender == match *self {
                Packet::Data(data) => Some(&data.source_ip),
                Packet::Syn(data) => Some(&data.sender_ip),
                Packet::Fin(data) => Some(&data.sender_ip),
                _ => None,
            },
    {
        match self {
            Packet::Data(data) => Some(&data.source_ip),
            Packet::Syn(data) => Some(&data.sender_ip),
            Packet::Fin(data) => Some(&data.sender_ip),
            _ => None,
        }
    }

    /// Sorts the packets: the ones to handle, in their order, and the number
    /// of errors among all.
    pub fn process_all_packets(packets: Vec<Packet>) -> (sorted: (Vec<Packet>, usize))
        ensures
            sorted.0@ == packets@.filter(|packet: Packet| !(packet is Error)),
            sorted.1 == errors_among(packets@),
    {
        let ghost all = packets@;
        let ghost handled = |packet: Packet| !(packet is Error);
        let mut errors: usize = 0;
        let mut others: Vec<Packet> = Vec::new();
        let mut packets = packets;
        let mut rest: Vec<Packet> = Vec::new();
        let mut i: usize = 0;
        let n = packets.len();
        // Take the packets from the back, then put the kept ones in order.
        while packets.len() > 0
            invariant
                packets@.len() + i == n,
                n == all.len(),
                i <= n,
                packets@ == all.take(n - i),
                handled == |packet: Packet| !(packet is Error),
                errors <= i,
                errors + errors_among(packets@) == errors_among(all),
                rest@.reverse() == all.skip(n - i).filter(handled),
            decreases packets.len(),
        {
            let ghost before = packets@;
            let packet = packets.pop().unwrap();
            proof {
                assert(before.drop_last() == packets@);
                assert(all.skip(n - i - 1) =~= seq![packet] + all.skip(n - i));
                Seq::filter_distributes_over_add(seq![packet], all.skip(n - i), handled);
                reveal_with_fuel(Seq::filter, 2);
                assert(seq![packet].drop_last() =~= Seq::<Packet>::empty());
            }
            match packet {
                Packet::Error(_) => {
                    errors += 1;
                },
                other => {
                    rest.push(other);
                    proof {
                        assert(rest@.reverse() =~= seq![other] + rest@.drop_last().reverse());
                    }
                },
            }
            i += 1;
            proof {
                assert(packets@ =~= all.take(n - i));
            }
        }
        proof {
            assert(all.skip(0) =~= all);
        }
        while rest.len() > 0
            invariant
                others@ + rest@.reverse() == all.filter(handled),
            decreases rest.len(),
        {
            let ghost before = rest@;
            let packet = rest.pop().unwrap();
            others.push(packet);
            proof {
                assert(before.reverse() =~= seq![packet] + rest@.reverse());
                assert(others@ + rest@.reverse() =~= others@.drop_last() + before.reverse());
            }
        }
        proof {
            assert(others@ + rest@.reverse() =~= others@);
        }
        (others, errors)
    }
}

} // verus!
