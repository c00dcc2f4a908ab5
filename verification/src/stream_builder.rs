//! Payloads that are too long for one frame and arrive in chunks.

use crate::packet::{parse_regular, parse_regular_packet, parsed_as, Packet, PacketError};
use crate::tables::{ContentMap, Tables};
use crate::type_io::Reader;
use vstd::prelude::*;

verus! {

/// A payload that arrives in chunks: how many bytes it will have, the id of
/// the packet that it holds, and what has arrived of it.
#[derive(Debug, Clone)]
pub struct StreamBuilder {
    pub id: u32,
    pub total: u32,
    pub stream_type: u8,
    pub data: Vec<u8>,
}

/// What a `StreamBuilder` holds, as plain mathematical values.
pub struct StreamView {
    pub id: u32,
    pub total: u32,
    pub stream_type: u8,
    pub data: Seq<u8>,
}

impl DeepView for StreamBuilder {
    type V = StreamView;

    open spec fn deep_view(&self) -> StreamView {
        StreamView {
            id: self.id,
            total: self.total,
            stream_type: self.stream_type,
            data: self.data@,
        }
    }
}

impl StreamView {
    /// The stream with `chunk` behind what it had.
    pub open spec fn with_chunk(self, chunk: Seq<u8>) -> StreamView {
        StreamView { data: self.data + chunk, ..self }
    }

    /// A stream is complete once it holds as many bytes as were announced.
    pub open spec fn done(self) -> bool {
        self.data.len() >= self.total
    }
}

impl StreamBuilder {
    pub fn new(id: u32, stream_type: u8, total: u32) -> (b: StreamBuilder)
        ensures
            b.deep_view() == (StreamView { id, total, stream_type, data: Seq::empty() }),
    {
        StreamBuilder { id, total, stream_type, data: Vec::new() }
    }

    pub fn add(&mut self, data: Vec<u8>)
        ensures
            final(self).deep_view() == old(self).deep_view().with_chunk(data@),
    {
        let mut data = data;
        self.data.append(&mut data);
    }

    pub fn is_done(&self) -> (r: bool)
        ensures
            r == self.deep_view().done(),
    {
        self.data.len() >= self.total as usize
    }

    /// Decodes what has arrived as the body of a packet of the announced id.
    pub fn build(self, content_map: &Option<ContentMap>, tables: &Tables) -> (r: Result<
        Packet,
        PacketError,
    >)
        ensures
            parsed_as(
                r,
                parse_regular(
                    self.deep_view().stream_type,
                    self.deep_view().data,
                    0,
                    content_map.deep_view(),
                    tables.deep_view(),
                ),
            ),
            r matches Ok(Packet::WorldStream { map, .. }) ==> map.wf(),
    {
        let reader = Reader::new(self.data);
        parse_regular_packet(self.stream_type, reader, content_map, tables)
    }
}

/// The places in a run of chunks at which a stream is completed and handed
/// on, counted from `base`. A stream is fed until it is complete; then it is
/// gone, and the chunks that still come for it are dropped.
pub open spec fn fire_points(stream: Option<StreamView>, chunks: Seq<Seq<u8>>, base: nat) -> Seq<
    nat,
>
    decreases chunks.len(),
{
    if chunks.len() == 0 {
        Seq::empty()
    } else {
        match stream {
            None => Seq::empty(),
            Some(st) => if st.with_chunk(chunks[0]).done() {
                seq![base] + fire_points(None, chunks.drop_first(), base + 1)
            } else {
                fire_points(Some(st.with_chunk(chunks[0])), chunks.drop_first(), base + 1)
            },
        }
    }
}

/// The place of the first chunk with which `have` bytes and the chunks up to
/// it make `total` bytes or more, counted from `base`.
pub open spec fn first_full(have: nat, total: nat, chunks: Seq<Seq<u8>>, base: nat) -> Option<nat>
    decreases chunks.len(),
{
    if chunks.len() == 0 {
        None
    } else if have + chunks[0].len() >= total {
        Some(base)
    } else {
        first_full(have + chunks[0].len(), total, chunks.drop_first(), base + 1)
    }
}

/// Whatever chunks come for a stream, it is completed at most once: at the
/// chunk that first brings what has arrived up to the announced total, and
/// at no other; and never, where the chunks stay short of the total.
pub proof fn lemma_fires_once(st: StreamView, chunks: Seq<Seq<u8>>, base: nat)
    ensures
        fire_points(Some(st), chunks, base) == match first_full(
            st.data.len(),
            st.total as nat,
            chunks,
            base,
        ) {
            Some(k) => seq![k],
            None => Seq::<nat>::empty(),
        },
    decreases chunks.len(),
{
    if chunks.len() > 0 {
        if st.with_chunk(chunks[0]).done() {
            assert(fire_points(None, chunks.drop_first(), base + 1) =~= Seq::<nat>::empty());
            assert(seq![base] + Seq::<nat>::empty() =~= seq![base]);
        } else {
            lemma_fires_once(st.with_chunk(chunks[0]), chunks.drop_first(), base + 1);
        }
    }
}

} // verus!
