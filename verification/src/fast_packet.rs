use vstd::prelude::*;

verus! {

/// Errors of fast-packet reassembly.
#[derive(Debug, Copy, Clone, PartialEq, Eq, Structural)]
pub enum FastPacketError {
    UnexpectedFrameIndex { index: usize, expected: usize },
    PacketTooBig { actual: usize, expected: usize },
}

/// Identifier of a fast packet being reassembled: source address, PGN and
/// sequence group (the masked top 3 bits of the first data byte).
pub type FastPacketIdentifier = (u8, u32, u8);

/// Bounded byte buffer backing one reassembly, capacity 255.
///
/// Holds a `heapless::Vec<u8, 255>`. Verus refuses the declaration of that
/// type (its storage parameter is bound by a sealed trait), so the buffer
/// stays behind this opaque holder; `fp_buffer_bytes` names its contents and
/// the functions below are the only doors to it.
#[verifier::external_body]
pub struct FpBuffer {
    inner: heapless::Vec<u8, 255>,
}

/// The bytes a buffer holds, oldest first.
pub uninterp spec fn fp_buffer_bytes(b: FpBuffer) -> Seq<u8>;

/// Relies on heapless::Vec::new: a fresh vector is empty.
#[verifier::external_body]
pub fn fp_buffer_new() -> (r: FpBuffer)
    ensures
        fp_buffer_bytes(r) == Seq::<u8>::empty(),
{
    FpBuffer { inner: heapless::Vec::new() }
}

/// Relies on heapless::Vec::len; the length never exceeds the capacity 255.
#[verifier::external_body]
pub fn fp_buffer_len(b: &FpBuffer) -> (r: usize)
    ensures
        r == fp_buffer_bytes(*b).len() && r <= 255,
{
    b.inner.len()
}

/// Relies on heapless::Vec::extend_from_slice: appends every byte when the
/// result fits the capacity 255, else errs and leaves the vector unchanged.
#[verifier::external_body]
pub fn fp_buffer_extend(b: &mut FpBuffer, data: &[u8]) -> (r: Result<(), ()>)
    ensures
        match r {
            Ok(()) => fp_buffer_bytes(*old(b)).len() + data@.len() <= 255 && fp_buffer_bytes(
                *final(b),
            ) == fp_buffer_bytes(*old(b)) + data@,
            Err(()) => fp_buffer_bytes(*old(b)).len() + data@.len() > 255 && fp_buffer_bytes(
                *final(b),
            ) == fp_buffer_bytes(*old(b)),
        },
{
    b.inner.extend_from_slice(data).map_err(|_| ())
}

/// Relies on the slice index of heapless::Vec (through its deref to a
/// slice): the first `n` bytes of the buffer.
#[verifier::external_body]
pub fn fp_buffer_prefix(b: &FpBuffer, n: usize) -> (r: &[u8])
    requires
        n <= fp_buffer_bytes(*b).len(),
    ensures
        r@ == fp_buffer_bytes(*b).take(n as int),
{
    &b.inner[..n]
}

/// Fixed-capacity map of in-flight reassemblies, keyed by fast packet
/// identifier. Capacity 16, a power of two as the hashing scheme asks.
///
/// Holds a `heapless::index_map::FnvIndexMap`. Verus refuses the declaration
/// of that type (its hasher parameter names a type of a transitive crate),
/// so the map stays behind this opaque holder; `fp_map_entries` names its
/// contents and the functions below are the only doors to it.
#[verifier::external_body]
pub struct FpCacheMap {
    inner: heapless::index_map::FnvIndexMap<FastPacketIdentifier, FastPacketCache, 16>,
}

/// The key-value pairs a cache map holds.
pub uninterp spec fn fp_map_entries(m: FpCacheMap) -> Map<FastPacketIdentifier, FastPacketCache>;

/// Relies on heapless::index_map::IndexMap::new: a fresh map is empty.
#[verifier::external_body]
pub fn fp_map_new() -> (r: FpCacheMap)
    ensures
        fp_map_entries(r) =~= Map::empty(),
{
    FpCacheMap { inner: heapless::index_map::FnvIndexMap::new() }
}

/// Relies on heapless::index_map::IndexMap::insert: binding a present key
/// replaces its value and returns the old one; a new key is added while
/// fewer than 16 entries are held, and otherwise comes back with the value
/// in the error.
#[verifier::external_body]
pub fn fp_map_insert(m: &mut FpCacheMap, key: FastPacketIdentifier, value: FastPacketCache) -> (r:
    Result<Option<FastPacketCache>, (FastPacketIdentifier, FastPacketCache)>)
    ensures
        match r {
            Ok(old_value) => {
                &&& fp_map_entries(*final(m)) == fp_map_entries(*old(m)).insert(key, value)
                &&& match old_value {
                    Some(v) => fp_map_entries(*old(m)).dom().contains(key) && v == fp_map_entries(
                        *old(m),
                    )[key],
                    None => !fp_map_entries(*old(m)).dom().contains(key) && fp_map_entries(
                        *old(m),
                    ).dom().len() < 16,
                }
            },
            Err(back) => {
                &&& fp_map_entries(*final(m)) == fp_map_entries(*old(m))
                &&& !fp_map_entries(*old(m)).dom().contains(key)
                &&& fp_map_entries(*old(m)).dom().len() >= 16
                &&& back == (key, value)
            },
        },
{
    m.inner.insert(key, value)
}

/// Relies on heapless::index_map::IndexMap::remove: takes the value of a
/// present key out of the map, and does nothing for an absent one.
#[verifier::external_body]
pub fn fp_map_remove(m: &mut FpCacheMap, key: &FastPacketIdentifier) -> (r: Option<
    FastPacketCache,
>)
    ensures
        match r {
            Some(v) => fp_map_entries(*old(m)).dom().contains(*key) && v == fp_map_entries(
                *old(m),
            )[*key] && fp_map_entries(*final(m)) == fp_map_entries(*old(m)).remove(*key),
            None => !fp_map_entries(*old(m)).dom().contains(*key) && fp_map_entries(*final(m))
                == fp_map_entries(*old(m)),
        },
{
    m.inner.remove(key)
}

/// The bytes a reassembly holds after appending each element of `chunks` in
/// order to an empty buffer, as `extend` does for each accepted frame.
pub open spec fn appended_bytes(chunks: Seq<Seq<u8>>) -> Seq<u8>
    decreases chunks.len(),
{
    if chunks.len() == 0 {
        Seq::empty()
    } else {
        appended_bytes(chunks.drop_last()) + chunks.last()
    }
}

/// Feeding frame payloads in strict sequence gathers exactly their
/// concatenation: the header payload followed by each continuation in
/// order. The completed message is that concatenation cut to the declared
/// total size, as `complete_data` states.
pub proof fn lemma_reassembly_concatenation(chunks: Seq<Seq<u8>>)
    ensures
        appended_bytes(chunks) == chunks.flatten(),
    decreases chunks.len(),
{
    if chunks.len() == 0 {
        assert(chunks.flatten() =~= Seq::empty());
    } else {
        lemma_reassembly_concatenation(chunks.drop_last());
        chunks.lemma_flatten_and_flatten_alt_are_equivalent();
        chunks.drop_last().lemma_flatten_and_flatten_alt_are_equivalent();
    }
}

/// One in-progress reassembly: the bytes gathered so far, the index of the
/// last accepted frame, and the declared size of the whole message.
pub struct FastPacketCache {
    pub data: FpBuffer,
    pub last_frame: usize,
    pub total_size: usize,
}

impl FastPacketCache {
    /// The payload bytes gathered so far.
    pub open spec fn bytes(&self) -> Seq<u8> {
        fp_buffer_bytes(self.data)
    }

    /// Whether the gathered bytes cover the declared total size.
    pub open spec fn spec_is_complete(&self) -> bool {
        self.bytes().len() >= self.total_size
    }

    /// Which frame index the reassembly accepts next: the header (index 0)
    /// only into a fresh entry, a continuation only in strict sequence.
    pub open spec fn accepts(&self, frame_index: usize) -> bool {
        ||| frame_index == 0 && self.last_frame == 0 && self.bytes().len() == 0
        ||| frame_index == self.last_frame + 1
    }

    /// A fresh reassembly that expects `total_size` bytes.
    pub fn new(total_size: usize) -> (r: FastPacketCache)
        ensures
            r.bytes() == Seq::<u8>::empty(),
            r.last_frame == 0,
            r.total_size == total_size,
    {
        FastPacketCache { data: fp_buffer_new(), last_frame: 0, total_size }
    }

    /// Whether the reassembly has gathered its declared total.
    pub fn is_complete(&self) -> (r: bool)
        ensures
            r == self.spec_is_complete(),
    {
        fp_buffer_len(&self.data) >= self.total_size
    }

    /// The message payload, exactly the declared total size, once the
    /// reassembly is complete; excess bytes of the final frame are cut.
    pub fn complete_data(&self) -> (r: Option<&[u8]>)
        ensures
            match r {
                Some(d) => self.spec_is_complete() && d@ == self.bytes().take(
                    self.total_size as int,
                ),
                None => !self.spec_is_complete(),
            },
    {
        if self.is_complete() {
            Some(fp_buffer_prefix(&self.data, self.total_size))
        } else {
            None
        }
    }

    /// Feeds one frame payload. The bytes are appended and the frame index
    /// recorded exactly when the index is the accepted one and the buffer
    /// can take the bytes; the result then says whether the reassembly is
    /// complete. An out-of-sequence index or an overfull buffer leaves the
    /// entry unchanged and names the offence.
    pub fn extend(&mut self, frame_index: usize, data: &[u8]) -> (r: Result<
        bool,
        FastPacketError,
    >)
        requires
            old(self).last_frame < usize::MAX,
        ensures
            final(self).total_size == old(self).total_size,
            match r {
                Ok(complete) => {
                    &&& old(self).accepts(frame_index)
                    &&& old(self).bytes().len() + data@.len() <= 255
                    &&& final(self).bytes() == old(self).bytes() + data@
                    &&& final(self).last_frame == frame_index
                    &&& complete == final(self).spec_is_complete()
                },
                Err(FastPacketError::UnexpectedFrameIndex { index, expected }) => {
                    &&& !old(self).accepts(frame_index)
                    &&& index == frame_index
                    &&& expected == old(self).last_frame + 1
                    &&& final(self).bytes() == old(self).bytes()
                    &&& final(self).last_frame == old(self).last_frame
                },
                Err(FastPacketError::PacketTooBig { actual, expected }) => {
                    &&& old(self).accepts(frame_index)
                    &&& old(self).bytes().len() + data@.len() > 255
                    &&& old(self).bytes().len() + data@.len() <= usize::MAX ==> actual == old(
                        self,
                    ).bytes().len() + data@.len()
                    &&& expected == old(self).total_size
                    &&& final(self).bytes() == old(self).bytes()
                    &&& final(self).last_frame == old(self).last_frame
                },
            },
    {
        let accepted: bool = if frame_index == 0 {
            self.last_frame == 0 && fp_buffer_len(&self.data) == 0
        } else {
            frame_index - 1 == self.last_frame
        };
        if !accepted {
            return Err(
                FastPacketError::UnexpectedFrameIndex {
                    index: frame_index,
                    expected: self.last_frame + 1,
                },
            );
        }
        let buffered: usize = fp_buffer_len(&self.data);
        match fp_buffer_extend(&mut self.data, data) {
            Ok(()) => {
                self.last_frame = frame_index;
                Ok(self.is_complete())
            },
            Err(()) => {
                let actual: usize = match buffered.checked_add(data.len()) {
                    Some(a) => a,
                    None => usize::MAX,
                };
                Err(FastPacketError::PacketTooBig { actual, expected: self.total_size })
            },
        }
    }
}

} // verus!
