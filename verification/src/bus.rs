use vstd::prelude::*;
use vstd::slice::slice_subrange;

use core::marker::PhantomData;

use crate::fast_packet::{
    fp_map_entries, fp_map_insert, fp_map_new, fp_map_remove, FastPacketCache, FastPacketError,
    FastPacketIdentifier, FpCacheMap,
};
use crate::frame::{frame_like, CanFrame};
use crate::hal::{NbError, ReceivedFrame, Receiver, Transmitter};
use crate::id::{self, Id, IdError};
use crate::message::{Message, MessageError};
use crate::GLOBAL_ADDRESS;
use crate::PgnRegistry;

verus! {

/// Control byte of a TP_CM frame announcing a broadcast (TP_BAM).
pub const CB_TP_BAM: u8 = 0x40;

/// PGN of the transport protocol connection management group.
pub const PGN_TP_CM: u32 = 0x00ec00;

/// PGN of the transport protocol data transfer group.
pub const PGN_TP_DT: u32 = 0x00eb00;

/// How many entries the fast packet cache holds at most.
pub const FAST_PACKET_CACHE_SIZE: usize = 16;

/// How many times one frame is offered to the transmitter before the bus
/// gives up on it.
pub const TRANSMIT_ATTEMPTS: u64 = 0x1000_0000;

/// Everything that can go wrong on the bus: `E` is the CAN interface's own
/// error type, `P` the registry's.
#[derive(Copy, Clone, Debug)]
pub enum BusError<E, P> {
    CouldNotOpenBus,
    CouldNotSendMessage,
    NoExtendedId,
    NoData,
    InvalidId(IdError),
    MessageError(MessageError),
    OutOfFastPacketMemory,
    FastPacket(FastPacketError),
    CanError(E),
    PgnError(P),
}

/// Sequence group of a fast packet frame: the masked top 3 bits of its
/// first data byte.
pub open spec fn fp_sequence_group(b0: u8) -> u8 {
    b0 & 0xe0
}

/// Frame index of a fast packet frame: the low 5 bits of its first data
/// byte.
pub open spec fn fp_frame_index(b0: u8) -> usize {
    (b0 & 0x1f) as usize
}

/// The cache after binding `key` to an entry that holds `bytes`, has
/// accepted frame `last` and expects `total` bytes; other keys untouched.
pub open spec fn cache_with_entry(
    pre: Map<FastPacketIdentifier, FastPacketCache>,
    post: Map<FastPacketIdentifier, FastPacketCache>,
    key: FastPacketIdentifier,
    bytes: Seq<u8>,
    last: usize,
    total: usize,
) -> bool {
    &&& post.dom() =~= pre.dom().insert(key)
    &&& post[key].bytes() == bytes
    &&& post[key].last_frame == last
    &&& post[key].total_size == total
    &&& forall|k: FastPacketIdentifier|
        #[trigger] post.dom().contains(k) && k != key ==> pre.dom().contains(k) && post[k]
            == pre[k]
}

/// What one fast packet frame does to the cache and hands back, given the
/// raw identifier and the frame payload.
pub open spec fn fast_packet_outcome<P: PgnRegistry, E>(
    pre: Map<FastPacketIdentifier, FastPacketCache>,
    post: Map<FastPacketIdentifier, FastPacketCache>,
    raw: u32,
    data: Seq<u8>,
    r: Result<Option<P::Message>, BusError<E, P::Error>>,
) -> bool {
    if data.len() == 0 {
        r matches Err(BusError::NoData) && post == pre
    } else {
        let grp = fp_sequence_group(data[0]);
        let idx = fp_frame_index(data[0]);
        let key = (id::spec_source(raw), id::spec_pgn(raw), grp);
        if idx == 0 {
            // Header frame: byte 1 declares the total size, the payload
            // starts at byte 2; a conflicting reassembly is abandoned.
            if data.len() < 2 {
                r matches Err(BusError::NoData) && post == pre
            } else {
                let total = data[1] as usize;
                let entry_bytes: Seq<u8> = if data.len() <= 257 {
                    data.skip(2)
                } else {
                    Seq::empty()
                };
                if pre.dom().contains(key) || pre.dom().len() < FAST_PACKET_CACHE_SIZE {
                    r matches Ok(m) && m is None && cache_with_entry(
                        pre,
                        post,
                        key,
                        entry_bytes,
                        0,
                        total,
                    )
                } else {
                    r matches Err(BusError::OutOfFastPacketMemory) && post == pre
                }
            }
        } else {
            // Continuation frame: the payload starts at byte 1 and must
            // arrive in strict sequence for a known reassembly.
            if !pre.dom().contains(key) {
                r matches Ok(m) && m is None && post == pre
            } else {
                let c = pre[key];
                if idx != c.last_frame + 1 || c.bytes().len() + (data.len() - 1) > 255 {
                    // Out of sequence, or past the buffer: evict, return
                    // nothing.
                    r matches Ok(m) && m is None && post == pre.remove(key)
                } else {
                    let nb = c.bytes() + data.skip(1);
                    if nb.len() >= c.total_size {
                        match P::spec_build_message(
                            id::spec_pgn(raw),
                            nb.take(c.total_size as int),
                        ) {
                            Ok(m) => r matches Ok(m2) && m2 == Some(m) && post == pre.remove(key),
                            Err(e) => r matches Err(BusError::PgnError(e2)) && e2 == e
                                && cache_with_entry(pre, post, key, nb, idx, c.total_size),
                        }
                    } else {
                        r matches Ok(m) && m is None && cache_with_entry(
                            pre,
                            post,
                            key,
                            nb,
                            idx,
                            c.total_size,
                        )
                    }
                }
            }
        }
    }
}

/// What one received frame does to the cache and hands back: the dispatch
/// contract of the receive path.
pub open spec fn frame_outcome<P: PgnRegistry, E>(
    pre: Map<FastPacketIdentifier, FastPacketCache>,
    post: Map<FastPacketIdentifier, FastPacketCache>,
    frame: ReceivedFrame,
    r: Result<Option<P::Message>, BusError<E, P::Error>>,
) -> bool {
    match frame.extended_id {
        None => r matches Err(BusError::NoExtendedId) && post == pre,
        Some(raw) => {
            if !id::id_wf(raw) {
                r matches Err(BusError::InvalidId(IdError::InvalidId)) && post == pre
            } else {
                match frame.data {
                    None => r matches Err(BusError::NoData) && post == pre,
                    Some(data) => {
                        let pgn = id::spec_pgn(raw);
                        if P::spec_is_fast_packet(pgn) {
                            fast_packet_outcome::<P, E>(pre, post, raw, data@, r)
                        } else {
                            post == pre && match P::spec_build_message(pgn, data@) {
                                Ok(m) => r matches Ok(m2) && m2 == Some(m),
                                Err(e) => r matches Err(BusError::PgnError(e2)) && e2 == e,
                            }
                        }
                    },
                }
            }
        },
    }
}


/// How many data transfer frames a payload of `len` bytes needs: 7 bytes
/// each, the last one possibly short.
pub open spec fn spec_packets(len: nat) -> nat {
    (len + 6) / 7
}

/// The payload of the broadcast announce (TP_BAM) frame for a message of
/// `length` bytes under the given PGN.
pub open spec fn spec_bam_bytes(length: usize, pgn: u32) -> Seq<u8> {
    seq![
        CB_TP_BAM,
        (length & 0xff) as u8,
        ((length >> 8) & 0xff) as u8,
        spec_packets(length as nat) as u8,
        0xffu8,
        (pgn & 0xff) as u8,
        ((pgn >> 8) & 0xff) as u8,
        ((pgn >> 16) & 0xff) as u8,
    ]
}

/// The payload of the `i`-th (0-based) data transfer (TP_DT) frame: a
/// 1-based sequence number, up to 7 payload bytes, and 0xff padding to 8
/// bytes.
pub open spec fn spec_dt_bytes(payload: Seq<u8>, i: int) -> Seq<u8> {
    let start = 7 * i;
    let end = if start + 7 <= payload.len() {
        start + 7
    } else {
        payload.len() as int
    };
    seq![(i + 1) as u8] + payload.subrange(start, end) + Seq::new(
        (7 - (end - start)) as nat,
        |_j: int| 0xffu8,
    )
}


/// A payload of at most 8 bytes goes out as exactly one frame, and that
/// frame carries the payload itself.
pub proof fn lemma_single_frame_emission(
    pre: Seq<CanFrame>,
    post: Seq<CanFrame>,
    idv: u32,
    payload: Seq<u8>,
    address: u8,
)
    requires
        payload.len() <= 8,
        sent_plan(pre, post, idv, payload, address),
    ensures
        post.len() == pre.len() + 1,
        post.subrange(0, pre.len() as int) == pre,
        frame_like(post.last(), idv, payload),
{
}

/// In a broadcast emission, payload byte `b` stands in frame `b / 7 + 1`
/// (counting the announce frame as frame 0) at offset `b % 7 + 1`.
pub proof fn lemma_multi_frame_byte_position(
    pre: Seq<CanFrame>,
    post: Seq<CanFrame>,
    idv: u32,
    payload: Seq<u8>,
    address: u8,
    b: int,
)
    requires
        payload.len() > 8,
        sent_plan(pre, post, idv, payload, address),
        0 <= b < payload.len(),
    ensures
        post[pre.len() + b / 7 + 1].spec_data()[b % 7 + 1] == payload[b],
{
    let i = b / 7;
    let r = b % 7;
    assert(b == 7 * i + r && 0 <= r < 7 && 0 <= i) by (nonlinear_arith)
        requires
            i == b / 7,
            r == b % 7,
            0 <= b,
    ;
    assert(i < spec_packets(payload.len())) by (nonlinear_arith)
        requires
            i == b / 7,
            0 <= b < payload.len(),
    ;
    let f = post[pre.len() + 1 + i];
    assert(frame_like(f, id::spec_pack(id::spec_priority(idv), PGN_TP_DT, address, GLOBAL_ADDRESS), spec_dt_bytes(payload, i)));
    assert(spec_dt_bytes(payload, i)[r + 1] == payload[b]);
}

/// The frames a message turns into stand at the end of `post`, after the
/// untouched `pre`: one frame carrying the payload itself when it fits,
/// else a broadcast announce frame followed by the data transfer frames in
/// ascending sequence order.
pub open spec fn sent_plan(
    pre: Seq<CanFrame>,
    post: Seq<CanFrame>,
    idv: u32,
    payload: Seq<u8>,
    address: u8,
) -> bool {
    if payload.len() <= 8 {
        &&& post.len() == pre.len() + 1
        &&& post.subrange(0, pre.len() as int) == pre
        &&& frame_like(post[pre.len() as int], idv, payload)
    } else {
        let prio = id::spec_priority(idv);
        let bam_id = id::spec_pack(prio, PGN_TP_CM, address, GLOBAL_ADDRESS);
        let dt_id = id::spec_pack(prio, PGN_TP_DT, address, GLOBAL_ADDRESS);
        let n = spec_packets(payload.len()) as int;
        &&& post.len() == pre.len() + 1 + n
        &&& post.subrange(0, pre.len() as int) == pre
        &&& frame_like(
            post[pre.len() as int],
            bam_id,
            spec_bam_bytes(payload.len() as usize, id::spec_pgn(idv)),
        )
        &&& forall|i: int|
            0 <= i < n ==> frame_like(
                #[trigger] post[pre.len() + 1 + i],
                dt_id,
                spec_dt_bytes(payload, i),
            )
    }
}

/// The bus: a CAN endpoint, the local address, and the fast packet
/// reassembly cache.
pub struct Bus<T, P> {
    can: T,
    address: u8,
    fast_packet_cache: FpCacheMap,
    _pgn_registry: PhantomData<P>,
}

impl<T, P> Bus<T, P> {
    /// A well-formed bus: the cache never overgrows its capacity, and every
    /// entry has accepted only 5-bit frame indices. Construction
    /// establishes it, every bus operation keeps it.
    pub open spec fn wf(&self) -> bool {
        let m = self.spec_cache();
        &&& m.dom().finite()
        &&& m.dom().len() <= FAST_PACKET_CACHE_SIZE
        &&& forall|k: FastPacketIdentifier| #[trigger]
            m.dom().contains(k) ==> m[k].last_frame <= 31
    }

    /// The CAN endpoint the bus drives.
    pub closed spec fn spec_can(&self) -> T {
        self.can
    }

    /// The local source address.
    pub closed spec fn spec_address(&self) -> u8 {
        self.address
    }

    /// The in-flight reassemblies.
    pub closed spec fn spec_cache(&self) -> Map<FastPacketIdentifier, FastPacketCache> {
        fp_map_entries(self.fast_packet_cache)
    }

    /// A bus over a CAN endpoint, at address 0, with an empty cache.
    pub fn new(can: T) -> (r: Bus<T, P>)
        ensures
            r.spec_can() == can,
            r.spec_address() == 0,
            r.spec_cache() =~= Map::empty(),
            r.wf(),
    {
        Bus { can, address: 0, fast_packet_cache: fp_map_new(), _pgn_registry: PhantomData }
    }

    /// A look at the CAN endpoint.
    pub fn can(&self) -> (r: &T)
        ensures
            r == self.spec_can(),
    {
        &self.can
    }
}

impl<T: Receiver, P: PgnRegistry> Bus<T, P> {
    /// Applies one received frame to the bus: decodes the identifier,
    /// dispatches a single-frame message directly, and folds a fast packet
    /// frame into the reassembly cache, handing out the message it
    /// completes.
    pub fn process_frame(&mut self, frame: &ReceivedFrame) -> (r: Result<
        Option<P::Message>,
        BusError<T::Error, P::Error>,
    >)
        requires
            old(self).wf(),
        ensures
            final(self).wf(),
            final(self).spec_can() == old(self).spec_can(),
            final(self).spec_address() == old(self).spec_address(),
            frame_outcome::<P, T::Error>(
                old(self).spec_cache(),
                final(self).spec_cache(),
                *frame,
                r,
            ),
    {
        let raw: u32 = match frame.extended_id {
            Some(v) => v,
            None => {
                return Err(BusError::NoExtendedId);
            },
        };
        let id = match Id::try_from(raw) {
            Ok(i) => i,
            Err(e) => {
                return Err(BusError::InvalidId(e));
            },
        };
        let data: &Vec<u8> = match &frame.data {
            Some(d) => d,
            None => {
                return Err(BusError::NoData);
            },
        };
        let pgn: u32 = id.pgn();
        if P::is_fast_packet(pgn) {
            if data.len() == 0 {
                return Err(BusError::NoData);
            }
            let b0: u8 = data[0];
            proof {
                assert((b0 & 0x1f) < 32) by (bit_vector);
            }
            let fp_seq_nr: u8 = b0 & 0xe0;
            let fp_index: usize = (b0 & 0x1f) as usize;
            let message_id: FastPacketIdentifier = (id.source(), pgn, fp_seq_nr);
            if fp_index == 0 {
                // Header frame: initialize a fresh reassembly
                if data.len() < 2 {
                    return Err(BusError::NoData);
                }
                let total_size: usize = data[1] as usize;
                let mut cache = FastPacketCache::new(total_size);
                let fp_data: &[u8] = slice_subrange(data.as_slice(), 2, data.len());
                let result = cache.extend(0, fp_data);
                if result.is_err() {
                    let _ = fp_map_remove(&mut self.fast_packet_cache, &message_id);
                }
                proof {
                    assert(data@.skip(2) =~= data@.subrange(2, data@.len() as int));
                }
                match fp_map_insert(&mut self.fast_packet_cache, message_id, cache) {
                    Ok(_) => Ok(None),
                    Err(_) => Err(BusError::OutOfFastPacketMemory),
                }
            } else {
                // Continuation frame
                match fp_map_remove(&mut self.fast_packet_cache, &message_id) {
                    Some(mut cache) => {
                        let fp_data: &[u8] = slice_subrange(data.as_slice(), 1, data.len());
                        proof {
                            assert(data@.skip(1) =~= data@.subrange(1, data@.len() as int));
                        }
                        let result = cache.extend(fp_index, fp_data);
                        match result {
                            Err(_) => {
                                // Out of sequence or past the buffer: the
                                // entry stays evicted
                                Ok(None)
                            },
                            Ok(_) => {
                                if cache.is_complete() {
                                    let built = {
                                        let bytes = match cache.complete_data() {
                                            Some(b) => b,
                                            None => vstd::pervasive::unreached(),
                                        };
                                        P::build_message(pgn, bytes)
                                    };
                                    match built {
                                        Ok(m) => Ok(Some(m)),
                                        Err(e) => {
                                            // A completed entry outlives a
                                            // failed build
                                            proof {
                                                vstd::set::axiom_set_remove_len(
                                                    fp_map_entries(
                                                        old(self).fast_packet_cache,
                                                    ).dom(),
                                                    message_id,
                                                );
                                            }
                                            let back = fp_map_insert(
                                                &mut self.fast_packet_cache,
                                                message_id,
                                                cache,
                                            );
                                            assert(back is Ok);
                                            Err(BusError::PgnError(e))
                                        },
                                    }
                                } else {
                                    proof {
                                        vstd::set::axiom_set_remove_len(
                                            fp_map_entries(old(self).fast_packet_cache).dom(),
                                            message_id,
                                        );
                                    }
                                    let back = fp_map_insert(
                                        &mut self.fast_packet_cache,
                                        message_id,
                                        cache,
                                    );
                                    assert(back is Ok);
                                    Ok(None)
                                }
                            },
                        }
                    },
                    None => {
                        // Continuation for an unknown reassembly: nothing
                        // to extend, nothing returned
                        Ok(None)
                    },
                }
            }
        } else {
            // Plain single-frame message
            match P::build_message(pgn, data.as_slice()) {
                Ok(m) => Ok(Some(m)),
                Err(e) => Err(BusError::PgnError(e)),
            }
        }
    }

    /// Pulls at most one frame from the CAN endpoint and applies it: when
    /// the endpoint would block nothing happens and nothing comes back; a
    /// transport error is surfaced; any received frame runs through
    /// `process_frame`, whose contract pins what each outcome means.
    pub fn receive(&mut self) -> (r: Result<Option<P::Message>, BusError<T::Error, P::Error>>)
        requires
            old(self).wf(),
        ensures
            final(self).wf(),
            final(self).spec_address() == old(self).spec_address(),
            ({
                let pre = old(self).spec_cache();
                let post = final(self).spec_cache();
                ||| (r matches Ok(m) && m is None && post == pre)
                ||| (r matches Err(BusError::CanError(_)) && post == pre)
                ||| exists|f: ReceivedFrame| frame_outcome::<P, T::Error>(pre, post, f, r)
            }),
    {
        let frame = match self.can.receive() {
            Ok(frame) => frame,
            Err(NbError::WouldBlock) => {
                return Ok(None);
            },
            Err(NbError::Other(e)) => {
                return Err(BusError::CanError(e));
            },
        };
        let r = self.process_frame(&frame);
        proof {
            assert(frame_outcome::<P, T::Error>(
                old(self).spec_cache(),
                self.spec_cache(),
                frame,
                r,
            ));
        }
        r
    }
}


impl<T: Transmitter, P: PgnRegistry> Bus<T, P> {
    /// Offers one frame to the transmitter until it is accepted: a
    /// would-block answer retries the same frame, a displaced pending frame
    /// is transmitted in its place before returning, a transport error is
    /// surfaced; after `TRANSMIT_ATTEMPTS` fruitless offers the bus gives
    /// up. With a transmitter that never displaces, success appends exactly
    /// this frame.
    fn transmit(&mut self, frame: &CanFrame) -> (r: Result<(), BusError<T::Error, P::Error>>)
        ensures
            final(self).spec_address() == old(self).spec_address(),
            final(self).spec_cache() == old(self).spec_cache(),
            final(self).spec_can().may_displace() == old(self).spec_can().may_displace(),
            r matches Err(e) ==> e matches BusError::CanError(_) || e
                matches BusError::CouldNotSendMessage,
            !old(self).spec_can().may_displace() ==> match r {
                Ok(()) => final(self).spec_can().sent() == old(self).spec_can().sent().push(
                    *frame,
                ),
                Err(_) => final(self).spec_can().sent() == old(self).spec_can().sent(),
            },
    {
        let mut current: CanFrame = *frame;
        let mut attempts: u64 = TRANSMIT_ATTEMPTS;
        while attempts > 0
            invariant
                self.spec_address() == old(self).spec_address(),
                self.spec_cache() == old(self).spec_cache(),
                self.spec_can().may_displace() == old(self).spec_can().may_displace(),
                !old(self).spec_can().may_displace() ==> self.spec_can().sent() == old(
                    self,
                ).spec_can().sent() && current == *frame,
            decreases attempts,
        {
            attempts -= 1;
            match self.can.transmit(&current) {
                Ok(None) => {
                    return Ok(());
                },
                Ok(Some(pending)) => {
                    // A lower priority frame was displaced by ours; put it
                    // back on the wire before going on.
                    current = pending;
                },
                Err(NbError::WouldBlock) => {
                    // Retry the same frame.
                },
                Err(NbError::Other(e)) => {
                    return Err(BusError::CanError(e));
                },
            }
        }
        Err(BusError::CouldNotSendMessage)
    }

    /// Sends one message: a payload of at most 8 bytes goes out as a single
    /// frame carrying it; a longer one as an ISO 11783 broadcast, the
    /// announce frame first and the data transfer frames in ascending
    /// sequence order. With a transmitter that never displaces, success
    /// emits exactly the planned frames.
    pub fn send(&mut self, message: &Message) -> (r: Result<(), BusError<T::Error, P::Error>>)
        ensures
            final(self).spec_address() == old(self).spec_address(),
            final(self).spec_cache() == old(self).spec_cache(),
            final(self).spec_can().may_displace() == old(self).spec_can().may_displace(),
            r matches Err(e) ==> e matches BusError::CanError(_) || e
                matches BusError::CouldNotSendMessage,
            !old(self).spec_can().may_displace() && (r matches Ok(())) ==> sent_plan(
                old(self).spec_can().sent(),
                final(self).spec_can().sent(),
                message.spec_id()@,
                message.spec_data(),
                old(self).spec_address(),
            ),
    {
        let id = message.id();
        let data = message.data();
        let length = data.len();
        if length <= 8 {
            let frame = CanFrame::new(id, data);
            match self.transmit(&frame) {
                Ok(()) => {
                    proof {
                        if !old(self).spec_can().may_displace() {
                            assert(self.spec_can().sent().subrange(
                                0,
                                old(self).spec_can().sent().len() as int,
                            ) =~= old(self).spec_can().sent());
                        }
                    }
                    Ok(())
                },
                Err(e) => Err(e),
            }
        } else {
            // ISO 11783 broadcast: announce, then 7-byte chunks.
            let packets: usize = (length + 6) / 7;
            proof {
                assert(packets <= 37 && packets >= 2) by (nonlinear_arith)
                    requires
                        packets == (length + 6) / 7,
                        8 < length <= 255,
                ;
            }
            let pgn = id.pgn();
            let priority = id.priority();
            proof {
                assert((PGN_TP_CM >> 8) & 0xff <= 239 && (PGN_TP_DT >> 8) & 0xff <= 239)
                    by (bit_vector);
            }
            let tp_cm_id = match Id::new(priority, PGN_TP_CM, self.address, GLOBAL_ADDRESS) {
                Ok(i) => i,
                Err(_) => vstd::pervasive::unreached(),
            };
            let mut bam: Vec<u8> = Vec::new();
            bam.push(CB_TP_BAM);
            bam.push((length & 0xff) as u8);
            bam.push(((length >> 8) & 0xff) as u8);
            bam.push(packets as u8);
            bam.push(0xff);
            bam.push((pgn & 0xff) as u8);
            bam.push(((pgn >> 8) & 0xff) as u8);
            bam.push(((pgn >> 16) & 0xff) as u8);
            proof {
                assert(bam@ =~= spec_bam_bytes(length, pgn));
            }
            let frame = CanFrame::new(tp_cm_id, bam.as_slice());
            match self.transmit(&frame) {
                Ok(()) => {
                    proof {
                        if !old(self).spec_can().may_displace() {
                            assert(self.spec_can().sent().subrange(
                                0,
                                old(self).spec_can().sent().len() as int,
                            ) =~= old(self).spec_can().sent());
                        }
                    }
                },
                Err(e) => {
                    return Err(e);
                },
            }
            let tp_dt_id = match Id::new(priority, PGN_TP_DT, self.address, GLOBAL_ADDRESS) {
                Ok(i) => i,
                Err(_) => vstd::pervasive::unreached(),
            };
            let ghost pre: Seq<CanFrame> = old(self).spec_can().sent();
            let ghost pl: Seq<u8> = message.spec_data();
            let ghost bam_id_val: u32 = id::spec_pack(
                id::spec_priority(message.spec_id()@),
                PGN_TP_CM,
                old(self).spec_address(),
                GLOBAL_ADDRESS,
            );
            let ghost dt_id_val: u32 = id::spec_pack(
                id::spec_priority(message.spec_id()@),
                PGN_TP_DT,
                old(self).spec_address(),
                GLOBAL_ADDRESS,
            );
            let mut count: u8 = 1;
            let mut index: usize = 0;
            let mut remaining: usize = length;
            while remaining > 0
                invariant
                    self.spec_address() == old(self).spec_address(),
                    self.spec_cache() == old(self).spec_cache(),
                    self.spec_can().may_displace() == old(self).spec_can().may_displace(),
                    pre == old(self).spec_can().sent(),
                    pl == message.spec_data(),
                    length == pl.len(),
                    8 < length <= 255,
                    packets == spec_packets(length as nat),
                    packets <= 37,
                    tp_dt_id@ == dt_id_val,
                    1 <= count <= packets + 1,
                    count - 1 < packets ==> index == 7 * (count - 1),
                    count - 1 == packets ==> index == length,
                    index <= length,
                    remaining == length - index,
                    data@ == pl,
                    !old(self).spec_can().may_displace() ==> {
                        let sent = self.spec_can().sent();
                        &&& sent.len() == pre.len() + count
                        &&& sent.subrange(0, pre.len() as int) == pre
                        &&& frame_like(
                            sent[pre.len() as int],
                            bam_id_val,
                            spec_bam_bytes(length, id::spec_pgn(message.spec_id()@)),
                        )
                        &&& forall|i: int|
                            0 <= i < count - 1 ==> frame_like(
                                #[trigger] sent[pre.len() + 1 + i],
                                dt_id_val,
                                spec_dt_bytes(pl, i),
                            )
                    },
                decreases remaining,
            {
                let mut len: usize = remaining;
                if len > 7 {
                    len = 7;
                }
                let ghost k: int = count - 1;
                proof {
                    assert(count - 1 < packets);
                    assert(index == 7 * k);
                    assert(7 * k < length);
                }
                let mut dt: Vec<u8> = Vec::new();
                dt.push(count);
                let mut j: usize = 0;
                while j < len
                    invariant
                        j <= len,
                        index == 7 * (count - 1),
                        len <= 7,
                        len <= remaining,
                        remaining == length - index,
                        length == data@.len(),
                        count >= 1,
                        dt@.len() == 1 + j,
                        dt@[0] == count,
                        forall|t: int| 0 <= t < j ==> #[trigger] dt@[1 + t] == data@[index + t],
                    decreases len - j,
                {
                    dt.push(data[index + j]);
                    j += 1;
                }
                while dt.len() < 8
                    invariant
                        1 + len <= dt@.len() <= 8,
                        dt@[0] == count,
                        forall|t: int| 0 <= t < len ==> #[trigger] dt@[1 + t] == data@[index + t],
                        forall|t: int| 1 + len <= t < dt@.len() ==> #[trigger] dt@[t] == 0xff,
                    decreases 8 - dt@.len(),
                {
                    dt.push(0xff);
                }
                proof {
                    let target = spec_dt_bytes(pl, k);
                    assert(dt@.len() == 8);
                    assert(target.len() == 8);
                    assert forall|i: int| 0 <= i < 8 implies dt@[i] == target[i] by {
                        if i == 0 {
                            assert(dt@[0] == count);
                        } else if i <= len {
                            assert(dt@[1 + (i - 1)] == data@[index + (i - 1)]);
                        } else {
                            assert(dt@[i] == 0xff);
                        }
                    }
                    assert(dt@ =~= target);
                }
                let frame = CanFrame::new(tp_dt_id, dt.as_slice());
                match self.transmit(&frame) {
                    Ok(()) => {
                        proof {
                            if !old(self).spec_can().may_displace() {
                                assert(self.spec_can().sent().subrange(
                                    0,
                                    old(self).spec_can().sent().len() as int,
                                ) =~= old(self).spec_can().sent());
                            }
                        }
                    },
                    Err(e) => {
                        return Err(e);
                    },
                }
                proof {
                    if index + len < length {
                        assert((length as int + 6) / 7 > k + 1) by (nonlinear_arith)
                            requires
                                7 * (k + 1) < length,
                                0 <= k,
                        ;
                    } else {
                        assert((length as int + 6) / 7 == k + 1) by (nonlinear_arith)
                            requires
                                7 * k < length <= 7 * (k + 1),
                                0 <= k,
                        ;
                    }
                }
                count += 1;
                index += len;
                remaining -= len;
            }
            proof {
                if count - 1 < packets {
                    assert((length as int + 6) / 7 == count - 1) by (nonlinear_arith)
                        requires
                            length as int == 7 * (count as int - 1),
                            1 <= count,
                    ;
                }
                assert(count - 1 == packets);
            }
            Ok(())
        }
    }
}

} // verus!
